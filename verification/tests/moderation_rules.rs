use instavox::moderation::{
    check_moderator, check_role_target, community_ban_reply, count_protocols,
    domain_matches_without_port, instance_status_reply, instance_view, is_moderator_role,
    is_redacted, redact_post, unredact_post,
    moderator_dashboard_page, moderator_posts_page, moderator_stats, normalize_discovery_status,
    normalize_instance_host, normalize_moderation_role, normalize_moderator_post_tab,
    post_page_offset, protocol_breakdown, read_instance_status, read_remote_user_status, read_role,
    remote_user_status_reply, remote_user_view, report, report_message, report_view,
    reported_author, reported_user, requested_post_page, smtp_test_message, smtp_test_reply,
    smtp_test_target, switch_back_from_team, switch_to_team, team_post_fault, ActingSession,
    DashboardLists, InstanceProtocol, ModeratorDashboardQuery, ModeratorInstanceRow,
    ModeratorRemoteUserRow, ModeratorRemoteUserStatusForm, ModeratorReportRow,
    ModeratorSmtpTestForm, ModeratorStatsRow, ModeratorStatsView, ModeratorUserRoleForm, Outcome,
    Refusal, SwitchBack,
};
use instavox::page::PageHeader;
use instavox::posts::FeedPostRow;
use instavox::web::{Reply, Step, BAD_REQUEST, FORBIDDEN, NOT_FOUND, UNAUTHORIZED};

fn path(r: &Reply) -> String {
    match r {
        Reply::Redirect(p) => p.clone(),
        _ => panic!("no redirect"),
    }
}

fn header() -> PageHeader {
    PageHeader {
        id: 1,
        user_id: 2,
        is_moderator: false,
        local_profile_domain: "ex.org".to_string(),
        username: "anna".to_string(),
        profile_photo_url: "/h".to_string(),
        profile_photo_style: String::new(),
        unread_notifications_count: 0,
        notifications: Vec::new(),
    }
}

fn query() -> ModeratorDashboardQuery {
    ModeratorDashboardQuery {
        post_page: None,
        post_tab: None,
        smtp_status: None,
        beta_status: None,
        beta_request_status: None,
        team_post_status: None,
        team_switch_status: None,
        instance_status: None,
        remote_user_status: None,
    }
}

fn stats() -> ModeratorStatsView {
    let row =
        ModeratorStatsRow { total_users: 4, total_moderators: 1, total_suspended: 0, total_posts: 9 };
    let server = |p: &str, s: &str| InstanceProtocol {
        protocol: p.to_string(),
        status: s.to_string(),
    };
    let servers = vec![
        server("Mastodon", "discovered"),
        server("Lemmy", "limited"),
        server("Mastodon", "banned"),
        server("Alpha", "authorized"),
    ];
    let users = vec!["ban".to_string(), "".to_string(), "limit".to_string(), "x".to_string()];
    moderator_stats(row, &servers, &users)
}

fn empty_lists() -> DashboardLists {
    DashboardLists {
        users: Vec::new(),
        reports: Vec::new(),
        instances: Vec::new(),
        remote_users: Vec::new(),
    }
}

#[test]
fn roles() {
    assert!(is_moderator_role("mod") && is_moderator_role("moderator") && !is_moderator_role("MOD"));
    assert_eq!(normalize_moderation_role(" User "), Some("user"));
    assert_eq!(normalize_moderation_role("moderator"), Some("mod"));
    assert_eq!(normalize_moderation_role("suspend"), Some("suspended"));
    assert_eq!(normalize_moderation_role("banned"), Some("ban"));
    assert_eq!(normalize_moderation_role("admin"), None);
}

#[test]
fn only_moderators_moderate() {
    assert!(check_moderator(Some("mod"), false, Refusal::NotFound).is_none());
    assert_eq!(
        check_moderator(None, false, Refusal::NotFound).as_ref().map(path).as_deref(),
        Some("/login")
    );
    assert!(matches!(
        check_moderator(None, true, Refusal::NotFound),
        Some(Reply::Status(UNAUTHORIZED))
    ));
    assert!(matches!(
        check_moderator(Some("user"), false, Refusal::NotFound),
        Some(Reply::Status(NOT_FOUND))
    ));
    assert_eq!(
        check_moderator(Some("user"), false, Refusal::SwitchForbidden)
            .as_ref()
            .map(path)
            .as_deref(),
        Some("/moderator?team_switch_status=forbidden")
    );
}

#[test]
fn moderators_make_no_moderators() {
    let role = |s: &str| read_role(&ModeratorUserRoleForm { role: s.to_string() });
    assert!(matches!(role("ban"), Step::Proceed("ban")));
    match role("mod") {
        Step::Answer(Reply::Text(FORBIDDEN, m)) => {
            assert_eq!(m, "Only the website host can assign moderator role")
        }
        _ => panic!(),
    }
    match role("king") {
        Step::Answer(Reply::Text(BAD_REQUEST, m)) => {
            assert_eq!(m, "Invalid role value. Allowed: user, suspended, ban")
        }
        _ => panic!(),
    }
    assert!(check_role_target(Some("user")).is_none());
    assert_eq!(check_role_target(None).as_ref().map(path).as_deref(), Some("/moderator"));
    match check_role_target(Some("moderator")) {
        Some(Reply::Text(FORBIDDEN, m)) => {
            assert_eq!(m, "Moderators cannot update another moderator account")
        }
        _ => panic!(),
    }
}

#[test]
fn switching_to_the_team_and_back() {
    let start = ActingSession { user_id: 5, original_user_id: 0 };
    let team = switch_to_team(start, 9);
    assert!(team.user_id == 9 && team.original_user_id == 5);
    let again = switch_to_team(team, 9);
    assert!(again.user_id == 9 && again.original_user_id == 5);
    assert!(matches!(switch_back_from_team(team, "mod"), SwitchBack::Restore(5)));
    assert!(matches!(switch_back_from_team(team, "user"), SwitchBack::Forget));
    assert!(matches!(switch_back_from_team(start, "mod"), SwitchBack::Stay));
}

#[test]
fn hosts_and_statuses() {
    assert_eq!(normalize_instance_host(" /Ex_am*ple.ORG:80/ "), "example.org:80");
    assert_eq!(normalize_instance_host("//"), "");
    for s in ["limit", " Limited "] {
        assert_eq!(normalize_discovery_status(s), "limited");
    }
    for s in ["ban", "banned", "blocked", "Block"] {
        assert_eq!(normalize_discovery_status(s), "ban");
    }
    for s in ["", "allowed", "whatever"] {
        assert_eq!(normalize_discovery_status(s), "discovered");
    }
    assert!(domain_matches_without_port(" EX.org:1 ", "ex.org:2"));
    assert!(!domain_matches_without_port("ex.com", "ex.org"));
}

#[test]
fn changing_the_status_of_servers_and_users() {
    match read_instance_status("!!", None) {
        Step::Answer(r) => assert_eq!(path(&r), "/moderator?instance_status=invalid_host"),
        _ => panic!(),
    }
    match read_instance_status("Ex.org", Some("block")) {
        Step::Proceed(c) => {
            assert_eq!(c.target, "ex.org");
            assert_eq!(c.status, "ban");
        }
        _ => panic!(),
    }
    assert_eq!(path(&instance_status_reply(true, "ban")), "/moderator?instance_status=ban");
    assert_eq!(path(&instance_status_reply(false, "ban")), "/moderator?instance_status=save_error");
    let form = |a: Option<&str>| ModeratorRemoteUserStatusForm {
        actor_id: a.map(str::to_string),
        status: None,
    };
    match read_remote_user_status(&form(Some(" "))) {
        Step::Answer(r) => assert_eq!(path(&r), "/moderator?remote_user_status=invalid_actor"),
        _ => panic!(),
    }
    match read_remote_user_status(&form(Some(" https://a/b "))) {
        Step::Proceed(c) => {
            assert_eq!(c.target, "https://a/b");
            assert_eq!(c.status, "discovered");
        }
        _ => panic!(),
    }
    assert_eq!(
        path(&remote_user_status_reply(Some(1), "limited")),
        "/moderator?remote_user_status=limited"
    );
    assert_eq!(
        path(&remote_user_status_reply(Some(0), "limited")),
        "/moderator?remote_user_status=invalid_actor"
    );
    assert_eq!(
        path(&remote_user_status_reply(None, "limited")),
        "/moderator?remote_user_status=save_error"
    );
}

#[test]
fn every_dashboard_outcome_is_explained() {
    let all = [
        Outcome::SmtpSent,
        Outcome::SmtpInvalidEmail,
        Outcome::SmtpConfigError,
        Outcome::SmtpSendError,
        Outcome::PostPublished,
        Outcome::PostInvalid,
        Outcome::PostPayloadError,
        Outcome::PostSaveError,
        Outcome::SwitchTeam,
        Outcome::SwitchModerator,
        Outcome::SwitchForbidden,
        Outcome::SwitchSaveError,
        Outcome::InstanceInvalidHost,
        Outcome::InstanceSaveError,
        Outcome::RemoteUserInvalid,
        Outcome::RemoteUserSaveError,
    ];
    for o in all {
        let p = path(&report(o));
        let (key, value) = p.strip_prefix("/moderator?").unwrap().split_once('=').unwrap();
        let mut q = query();
        let value = Some(value.to_string());
        match key {
            "smtp_status" => q.smtp_status = value,
            "team_post_status" => q.team_post_status = value,
            "team_switch_status" => q.team_switch_status = value,
            "instance_status" => q.instance_status = value,
            "remote_user_status" => q.remote_user_status = value,
            _ => panic!("{}", key),
        }
        let t = moderator_dashboard_page(
            header(),
            &q,
            stats(),
            empty_lists(),
            Vec::new(),
            false,
            false,
        );
        let messages = [
            (t.smtp_test_message, t.smtp_test_success),
            (t.team_post_message, t.team_post_success),
            (t.team_switch_message, t.team_switch_success),
            (t.instance_message, t.instance_success),
            (t.remote_user_message, t.remote_user_success),
        ];
        let shown: Vec<&(String, bool)> = messages.iter().filter(|m| !m.0.is_empty()).collect();
        assert_eq!(shown.len(), 1, "{}", p);
        let good = matches!(
            o,
            Outcome::SmtpSent | Outcome::PostPublished | Outcome::SwitchTeam | Outcome::SwitchModerator
        );
        assert_eq!(shown[0].1, good, "{}", p);
    }
    for status in ["discovered", "limited", "ban"] {
        let mut q = query();
        q.instance_status = Some(status.to_string());
        q.remote_user_status = Some(status.to_string());
        let t = moderator_dashboard_page(
            header(),
            &q,
            stats(),
            empty_lists(),
            Vec::new(),
            false,
            false,
        );
        assert!(t.instance_success && t.remote_user_success);
        assert!(!t.instance_message.is_empty() && !t.remote_user_message.is_empty());
    }
}

#[test]
fn the_mail_test() {
    let form = |e: Option<&str>| ModeratorSmtpTestForm { email: e.map(str::to_string) };
    match smtp_test_target(&form(Some(" a@b.c ")), "own@b.c") {
        Step::Proceed(e) => assert_eq!(e, "a@b.c"),
        _ => panic!(),
    }
    match smtp_test_target(&form(Some(" ")), "own@b.c") {
        Step::Proceed(e) => assert_eq!(e, "own@b.c"),
        _ => panic!(),
    }
    match smtp_test_target(&form(None), "") {
        Step::Answer(r) => assert_eq!(path(&r), "/moderator?smtp_status=invalid_email"),
        _ => panic!(),
    }
    assert_eq!(path(&smtp_test_reply(None)), "/moderator?smtp_status=sent");
    for e in ["SMTP is not configured", "credentials are incomplete", "unsupported smtp_security x"] {
        assert_eq!(path(&smtp_test_reply(Some(e))), "/moderator?smtp_status=config_error");
    }
    assert_eq!(path(&smtp_test_reply(Some("timeout"))), "/moderator?smtp_status=send_error");
    let (subject, body) = smtp_test_message("2024-01-02 03:04:05");
    assert_eq!(subject, "Instavox SMTP test email");
    assert_eq!(
        body,
        "This is a test email sent by Instavox at 2024-01-02 03:04:05 UTC.\n\nIf you receive this, SMTP is configured correctly."
    );
}

#[test]
fn team_posts_and_bans() {
    assert_eq!(
        path(&team_post_fault(400, "A post requires text or at least one image")),
        "/moderator?team_post_status=invalid"
    );
    assert_eq!(path(&team_post_fault(400, "x")), "/moderator?team_post_status=payload_error");
    assert_eq!(path(&team_post_fault(500, "x")), "/moderator?team_post_status=save_error");
    assert_eq!(path(&community_ban_reply(Some(2))), "/communities?create_status=banned");
    assert_eq!(path(&community_ban_reply(Some(0))), "/communities?create_status=moderation_failed");
    assert_eq!(path(&community_ban_reply(None)), "/communities?create_status=moderation_failed");
}

#[test]
fn reports() {
    assert_eq!(reported_user(Some((4, false)), 5), Some(4));
    assert_eq!(reported_user(Some((4, true)), 5), None);
    assert_eq!(reported_user(Some((5, false)), 5), None);
    assert_eq!(reported_user(None, 5), None);
    assert_eq!(reported_author(Some(4), 5), Some(4));
    assert_eq!(reported_author(Some(5), 5), None);
    assert!(matches!(report_message(Some((4, true)), 5, true, "/b"), Step::Proceed(Some(4))));
    assert!(matches!(report_message(Some((5, true)), 5, true, "/b"), Step::Proceed(None)));
    assert!(matches!(
        report_message(Some((4, false)), 5, true, "/b"),
        Step::Answer(Reply::Status(FORBIDDEN))
    ));
    assert!(matches!(
        report_message(None, 5, true, "/b"),
        Step::Answer(Reply::Status(NOT_FOUND))
    ));
    match report_message(None, 5, false, "/b") {
        Step::Answer(r) => assert_eq!(path(&r), "/b"),
        _ => panic!(),
    }
    let v = report_view(ModeratorReportRow {
        report_id: 1,
        kind: "post".to_string(),
        status: "open".to_string(),
        reason: String::new(),
        created_at: "t".to_string(),
        reporter_username: "r".to_string(),
        target_user_public_id: Some(8),
        target_user_username: None,
        target_post_id: Some(3),
        target_message_id: None,
        target_message_text: String::new(),
        target_message_sender_public_id: None,
        target_message_sender_username: Some("s".to_string()),
        target_post_soft_deleted: true,
        target_post_author_public_id: None,
        target_post_author_username: None,
    });
    assert_eq!((v.target_user_public_id, v.target_post_id, v.target_message_id), (8, 3, 0));
    assert_eq!(v.target_message_sender_username, "s");
    assert_eq!(v.target_user_username, "");
    assert!(v.target_post_soft_deleted);
}

#[test]
fn statistics_add_up() {
    let s = stats();
    assert_eq!(s.total_federated_instances, 4);
    assert_eq!(
        (s.total_discovered_instances, s.total_limited_instances, s.total_banned_instances),
        (2, 1, 1)
    );
    assert_eq!(
        (
            s.total_discovered_remote_users,
            s.total_limited_remote_users,
            s.total_banned_remote_users
        ),
        (2, 1, 1)
    );
    let protocols: Vec<(String, i64)> =
        s.protocol_breakdown.into_iter().map(|p| (p.name, p.count)).collect();
    assert_eq!(
        protocols,
        vec![("Mastodon".to_string(), 2), ("Alpha".to_string(), 1), ("Lemmy".to_string(), 1)]
    );
    let rows = vec![
        InstanceProtocol { protocol: "b".to_string(), status: String::new() },
        InstanceProtocol { protocol: "a".to_string(), status: String::new() },
    ];
    assert_eq!(count_protocols(&rows).len(), 2);
    assert_eq!(protocol_breakdown(&rows)[0].name, "a");
}

#[test]
fn views_of_remote_users_and_servers() {
    let u = remote_user_view(ModeratorRemoteUserRow {
        actor_id: "i".to_string(),
        host: "h".to_string(),
        preferred_username: "p".to_string(),
        display_name: "d".to_string(),
        status: "blocked".to_string(),
        discovered_at: "1".to_string(),
        last_seen_at: "2".to_string(),
        profile_photo_url: "/p".to_string(),
    });
    assert_eq!((u.status.as_str(), u.host.as_str()), ("ban", "h"));
    let i = instance_view(ModeratorInstanceRow {
        host: "h".to_string(),
        protocol: "x".to_string(),
        status: "limit".to_string(),
        discovered_at: "1".to_string(),
        last_seen_at: "2".to_string(),
        remote_actor_count: 6,
    });
    assert_eq!((i.status.as_str(), i.remote_actor_count), ("limited", 6));
}

#[test]
fn pages_of_posts_follow_each_other() {
    assert_eq!(normalize_moderator_post_tab(Some(" Verified ")), "verified");
    assert_eq!(normalize_moderator_post_tab(Some("x")), "open");
    assert_eq!(normalize_moderator_post_tab(None), "open");
    assert_eq!(requested_post_page(Some(-4)), 1);
    assert_eq!(requested_post_page(None), 1);
    assert_eq!(post_page_offset(1), 0);
    assert_eq!(post_page_offset(2), 20);
    assert_eq!(post_page_offset(3), post_page_offset(2) + 20);
    let row = |id: i64| FeedPostRow {
        post_id: id,
        author_public_id: 0,
        author_username: String::new(),
        author_profile_photo_url: String::new(),
        author_profile_photo_style: String::new(),
        body: String::new(),
        link_url: String::new(),
        visibility: String::new(),
        community_name: String::new(),
        community_slug: String::new(),
        created_at: String::new(),
    };
    let (page, more) = moderator_posts_page((0..21).map(row).collect());
    assert!(more && page.len() == 20 && page[19].post_id == 19);
    let (page, more) = moderator_posts_page((0..20).map(row).collect());
    assert!(!more && page.len() == 20);
}

#[test]
fn the_dashboard() {
    let mut q = query();
    q.post_page = Some(3);
    q.post_tab = Some("verified".to_string());
    let t = moderator_dashboard_page(header(), &q, stats(), empty_lists(), Vec::new(), true, true);
    assert_eq!(t.title, "Moderator Dashboard");
    assert!(t.is_moderator && t.is_acting_as_team);
    assert!(t.is_verified_post_tab && !t.is_open_post_tab);
    assert_eq!((t.post_page, t.prev_post_page, t.next_post_page), (3, 2, 4));
    assert!(t.has_prev_post_page && t.has_next_post_page);
    let t = moderator_dashboard_page(
        header(),
        &query(),
        stats(),
        empty_lists(),
        Vec::new(),
        false,
        false,
    );
    assert_eq!((t.post_page, t.prev_post_page, t.next_post_page), (1, 1, 2));
    assert!(t.is_open_post_tab && !t.has_prev_post_page && !t.has_next_post_page);
}

#[test]
fn redacted_posts() {
    let text = redact_post();
    assert_eq!(text.body, "Deleted by moderator");
    assert_eq!(text.link_url, "");
    assert!(is_redacted(&text.body) && is_redacted("  Deleted by moderator "));
    assert!(!is_redacted("Deleted by moderator\n") && !is_redacted(""));
    assert_eq!(unredact_post(&text.body).as_deref(), Some(""));
    assert_eq!(unredact_post("hello"), None);
}
