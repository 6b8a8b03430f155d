use instavox::messenger::{
    build_messenger_threads, check_group_addition, check_group_deletion, check_group_members,
    check_member_id, check_message_id, created_group, format_last_thread_message,
    group_deleted_reply, group_member_ids, list_messenger_threads, member_added_reply,
    member_obstacle, message_contains_http_link, message_deleted_reply, messenger_page,
    read_group_name, GroupAddition, MessageDeletion, MessengerConversation,
    MessengerGroupConversation, MessengerQuery,
};
use instavox::page::PageHeader;
use instavox::web::{Reply, BAD_REQUEST, FORBIDDEN, INTERNAL_SERVER_ERROR, NOT_FOUND, OK};

fn text(r: Reply) -> (u16, String) {
    match r {
        Reply::Text(s, t) => (s, t),
        _ => panic!("no text"),
    }
}

fn talk(name: &str, time: &str) -> MessengerConversation {
    MessengerConversation {
        user_id: 3,
        user_public_id: 33,
        username: name.to_string(),
        profile_photo_url: "/p".to_string(),
        profile_photo_style: String::new(),
        last_message: "hello".to_string(),
        last_sender_id: Some(3),
        last_attachment_count: 0,
        last_time: time.to_string(),
    }
}

fn group(id: i32, time: &str) -> MessengerGroupConversation {
    MessengerGroupConversation {
        chat_id: id,
        group_name: "g".to_string(),
        last_message: String::new(),
        last_sender_id: Some(9),
        last_attachment_count: 2,
        last_time: time.to_string(),
    }
}

#[test]
fn links_in_messages() {
    assert!(message_contains_http_link("see (HTTPS://ex.org)!"));
    assert!(message_contains_http_link("http://"));
    assert!(!message_contains_http_link("ftp://ex.org"));
    assert!(!message_contains_http_link("xhttp://ex.org"));
    assert!(!message_contains_http_link(""));
}

#[test]
fn last_messages() {
    let f = format_last_thread_message;
    assert_eq!(f(9, "https://a.b", Some(9), 0), "You sent a link");
    assert_eq!(f(9, "https://a.b", Some(3), 0), "Sent you a link");
    assert_eq!(f(9, " ", Some(9), 1), "You sent attachment");
    assert_eq!(f(9, "", None, 2), "Sent you attachments");
    assert_eq!(f(9, " hi ", Some(9), 2), "hi");
    assert_eq!(f(9, "", Some(9), 0), "");
}

#[test]
fn threads_are_newest_first() {
    let talks = vec![talk(" anna ", "2024-01-01"), talk("bob", "")];
    let groups = vec![group(5, "2024-02-01"), group(6, "2024-01-01")];
    let unsorted = list_messenger_threads(&talks, &groups, 9, "ex.org");
    let names: Vec<&str> = unsorted.iter().map(|t| t.name.as_str()).collect();
    assert_eq!(names, vec![" anna ", "bob", "g", "g"]);
    let threads = build_messenger_threads(&talks, &groups, 9, "ex.org");
    let order: Vec<(bool, i32, &str)> =
        threads.iter().map(|t| (t.is_group, t.chat_id, t.last_time.as_str())).collect();
    assert_eq!(
        order,
        vec![
            (true, 5, "2024-02-01"),
            (false, 0, "2024-01-01"),
            (true, 6, "2024-01-01"),
            (false, 0, ""),
        ]
    );
    assert_eq!(threads[0].last_message, "You sent attachments");
    assert_eq!(threads[0].profile_photo_url, "/public/group.webp");
    assert_eq!(threads[1].user_lookup, "anna@ex.org");
    assert_eq!(threads[1].name, " anna ");
    assert_eq!((threads[1].user_id, threads[1].user_public_id), (3, 33));
}

#[test]
fn the_selected_thread() {
    let header = || PageHeader {
        id: 1,
        user_id: 9,
        is_moderator: false,
        local_profile_domain: "ex.org".to_string(),
        username: "anna".to_string(),
        profile_photo_url: "/h".to_string(),
        profile_photo_style: String::new(),
        unread_notifications_count: 0,
        notifications: Vec::new(),
    };
    let q = |with: Option<i64>, group: Option<i32>| MessengerQuery { user: None, with, group };
    let page = messenger_page(header(), Some(7), &q(Some(8), Some(2)), Vec::new());
    assert_eq!((page.selected_user_public_id, page.selected_group_id), (7, 2));
    let page = messenger_page(header(), None, &q(Some(8), None), Vec::new());
    assert_eq!((page.selected_user_public_id, page.selected_group_id), (8, 0));
    let page = messenger_page(header(), None, &q(None, None), Vec::new());
    assert_eq!(page.selected_user_public_id, 0);
    assert_eq!(page.title, "Messenger");
}

#[test]
fn members_of_a_new_group() {
    assert_eq!(group_member_ids(&vec![5, 3, 9, 5, 1, 3], 9), vec![1, 3, 5]);
    assert_eq!(group_member_ids(&vec![3, 1, 5, 1], 9), vec![1, 3, 5]);
    assert_eq!(group_member_ids(&vec![9, 9], 9), Vec::<i32>::new());
    assert_eq!(read_group_name(Some(" x ")).as_deref(), Some("x"));
    assert_eq!(read_group_name(Some("  ")), None);
    assert_eq!(read_group_name(None), None);
    assert!(member_obstacle(4, true, true).is_none());
    assert_eq!(
        member_obstacle(4, false, true).map(text),
        Some((BAD_REQUEST, "User 4 does not exist".to_string()))
    );
    assert_eq!(
        member_obstacle(-4, true, false).map(text),
        Some((BAD_REQUEST, "User -4 is not your friend".to_string()))
    );
    let g = created_group(12);
    assert_eq!((g.chat_id, g.url.as_str()), (12, "/messenger?group=12"));
}

#[test]
fn adding_a_member() {
    assert!(check_member_id(4, 9).is_none());
    assert_eq!(
        check_member_id(0, 9).map(text),
        Some((BAD_REQUEST, "Invalid member id".to_string()))
    );
    assert_eq!(
        check_member_id(9, 9).map(text),
        Some((BAD_REQUEST, "You are already in the group".to_string()))
    );
    let facts = |a, b, c, d| GroupAddition {
        can_access_group: a,
        is_group_chat: b,
        user_exists: c,
        is_friend: d,
    };
    assert!(check_group_addition(facts(true, true, true, true)).is_none());
    for (f, status, message) in [
        (facts(false, false, false, false), FORBIDDEN, "You are not a member of this group"),
        (facts(true, false, false, false), NOT_FOUND, "Group not found"),
        (facts(true, true, false, false), BAD_REQUEST, "User does not exist"),
        (facts(true, true, true, false), BAD_REQUEST, "User is not your friend"),
    ] {
        assert_eq!(check_group_addition(f).map(text), Some((status, message.to_string())));
    }
    assert_eq!(text(member_added_reply(1)), (OK, "User added to group".to_string()));
    assert_eq!(text(member_added_reply(0)), (OK, "User is already in this group".to_string()));
}

#[test]
fn deleting_groups_and_messages() {
    assert!(check_group_deletion(Some(9), 9).is_none());
    assert_eq!(
        check_group_deletion(Some(8), 9).map(text),
        Some((FORBIDDEN, "Only the group creator can delete this group".to_string()))
    );
    assert_eq!(
        check_group_deletion(None, 9).map(text),
        Some((NOT_FOUND, "Group not found".to_string()))
    );
    assert_eq!(text(group_deleted_reply(1)), (OK, "Group deleted".to_string()));
    assert_eq!(text(group_deleted_reply(0)), (NOT_FOUND, "Group not found".to_string()));
    assert!(check_group_members(true, true).is_none());
    assert!(matches!(check_group_members(false, true), Some(Reply::Status(NOT_FOUND))));
    assert!(matches!(check_group_members(true, false), Some(Reply::Status(FORBIDDEN))));
    assert!(check_message_id(1, true, "/b").is_none());
    assert_eq!(
        check_message_id(0, true, "/b").map(text),
        Some((BAD_REQUEST, "Invalid message id".to_string()))
    );
    assert!(matches!(check_message_id(0, false, "/b"), Some(Reply::Redirect(_))));
    assert_eq!(
        text(message_deleted_reply(MessageDeletion::Deleted, true, "/b")),
        (OK, "Message deleted".to_string())
    );
    assert_eq!(
        text(message_deleted_reply(MessageDeletion::NotOwn, true, "/b")),
        (FORBIDDEN, "You can only delete your own messages".to_string())
    );
    assert_eq!(
        text(message_deleted_reply(MessageDeletion::Failed, true, "/b")),
        (INTERNAL_SERVER_ERROR, "Failed to delete message".to_string())
    );
    match message_deleted_reply(MessageDeletion::Deleted, false, "/b") {
        Reply::Redirect(p) => assert_eq!(p, "/b"),
        _ => panic!(),
    }
}
