use instavox::notifications::{
    header_notifications, marked_read_reply, normalize_notification_limit, notification_page,
    positive_id, HeaderNotificationRow,
};
use instavox::uploads::{
    accept_uploaded_field, check_post_image, check_settings_image, compress_upload_to_jpeg,
    crop_is_requested, crop_style_from_form, detect_image_extension, detect_post_image_extension,
    distinct_image_urls, moved_image_url, normalize_upload_stem, normalize_uploaded_filename_stem,
    post_image_name, post_image_url, sanitize_post_filename, settings_image_name,
    settings_image_url, uploaded_user_image_disk_path, SelectUploadedImageForm,
};
use instavox::visibility::{
    can_view_post, can_view_post_for_user, is_follow_status, is_friend_status,
    normalize_post_visibility, post_visibility_label, CommunityAccess,
};
use instavox::web::{Reply, OK};

fn notice(id: i64, is_read: bool, count: i64) -> HeaderNotificationRow {
    HeaderNotificationRow {
        notification_id: id,
        title: "t".to_string(),
        body: "b".to_string(),
        link_url: "/l".to_string(),
        is_read,
        created_at: "c".to_string(),
        message_count: count,
    }
}

fn list(items: &[&str]) -> Vec<String> {
    items.iter().map(|s| s.to_string()).collect()
}

#[test]
fn extensions_of_images() {
    let d = detect_post_image_extension;
    for (mime, ext) in [
        ("image/jpeg", "jpg"),
        ("image/jpg", "jpg"),
        ("image/png", "png"),
        ("image/gif", "gif"),
        ("image/webp", "webp"),
        ("image/avif", "avif"),
        ("image/bmp", "bmp"),
    ] {
        assert_eq!(d(None, Some(mime)).as_deref(), Some(ext));
    }
    assert_eq!(d(Some("dir.x/A.JPEG"), Some("text/plain")).as_deref(), Some("jpg"));
    assert_eq!(d(Some(".png"), None), None);
    assert_eq!(d(Some("a.txt"), None), None);
    assert_eq!(d(Some("png"), None), None);
    assert_eq!(d(None, None), None);
    assert_eq!(detect_image_extension("a.WEBP", ""), Some("webp"));
    assert_eq!(detect_image_extension("a", "image/JPG"), Some("jpg"));
    assert_eq!(detect_image_extension("a.gif", "image/gif"), None);
}

#[test]
fn names_of_files() {
    assert_eq!(sanitize_post_filename("_my photo!.png_"), "my_photo_.png");
    assert_eq!(sanitize_post_filename("äö"), "image");
    assert_eq!(normalize_uploaded_filename_stem("My Photo.v2.PNG"), "my-photo-v2");
    assert_eq!(normalize_uploaded_filename_stem(&"a".repeat(80)).len(), 64);
    assert_eq!(normalize_upload_stem(Some("dir/My Photo.PNG")), "My_Photo");
    assert_eq!(normalize_upload_stem(Some("__.png")), "image");
    assert_eq!(normalize_upload_stem(None), "image");
    assert_eq!(normalize_upload_stem(Some(&"b".repeat(60))).len(), 48);
    assert_eq!(settings_image_name(12, Some("a b.png")), "12_a_b.jpg");
    assert_eq!(settings_image_url(3, "profile", "n.jpg"), "/public/uploads/user-images/3/profile/n.jpg");
    assert_eq!(post_image_name(12, 3, Some("a b.png")), "12_3_a_b.png.jpg");
    assert_eq!(post_image_name(12, 3, None), "12_3_image.jpg");
    assert_eq!(post_image_url(3, "n.jpg"), "/public/uploads/posts/3/n.jpg");
}

#[test]
fn uploads_are_checked() {
    assert!(accept_uploaded_field(Some("a"), None, Vec::new()).is_none());
    let u = accept_uploaded_field(None, None, vec![1]).unwrap();
    assert_eq!(u.file_name, "upload");
    assert_eq!(u.content_type, "application/octet-stream");
    assert_eq!(compress_upload_to_jpeg(vec![1, 2]), Ok(vec![1, 2]));
    assert_eq!(compress_upload_to_jpeg(Vec::new()), Err("Uploaded file is empty".to_string()));
    let png = Some("image/png");
    assert_eq!(check_settings_image(8_388_608, None, png), Ok(()));
    assert_eq!(
        check_settings_image(8_388_609, None, png),
        Err("Image must be 8MB or smaller before compression".to_string())
    );
    assert_eq!(check_settings_image(0, None, png), Err("Uploaded file is empty".to_string()));
    assert_eq!(
        check_settings_image(1, None, None),
        Err("Only image files are allowed".to_string())
    );
    assert_eq!(check_post_image(1, None, png), Ok(()));
    assert_eq!(check_post_image(0, None, png), Err("Uploaded image is empty".to_string()));
    assert_eq!(
        check_post_image(8_388_609, None, png),
        Err("Each image must be 8MB or smaller".to_string())
    );
    assert_eq!(
        check_post_image(1, Some("a.txt"), None),
        Err("Only image files are allowed (.jpg, .png, .gif, .webp, .avif, .bmp)".to_string())
    );
}

#[test]
fn files_of_uploads() {
    let p = uploaded_user_image_disk_path;
    assert_eq!(
        p("/public/uploads/user-images/3/a.jpg").as_deref(),
        Some("public/uploads/user-images/3/a.jpg")
    );
    assert_eq!(p("/public/uploads/user-images/../x"), None);
    assert_eq!(p("/public/uploads/user-images//etc"), None);
    assert_eq!(p("/public/uploads/user-images/ "), None);
    assert_eq!(p("/public/uploads/posts/a.jpg"), None);
    assert_eq!(distinct_image_urls(&list(&["/b", "/a", "/b"])), list(&["/a", "/b"]));
    assert_eq!(moved_image_url("/a", Some("/b".to_string())).as_deref(), Some("/b"));
    assert_eq!(moved_image_url("/a", Some("/a".to_string())), None);
    assert_eq!(moved_image_url("/a", None), None);
}

#[test]
fn crops() {
    let form = |a: Option<&str>, x: Option<&str>| SelectUploadedImageForm {
        file_url: String::new(),
        crop_apply: a.map(str::to_string),
        crop_x: x.map(str::to_string),
        crop_y: None,
        crop_zoom: None,
    };
    assert_eq!(crop_style_from_form(&form(None, Some("3"))), "");
    assert_eq!(crop_style_from_form(&form(Some(""), Some("3"))), "");
    assert_eq!(
        crop_style_from_form(&form(Some("1"), Some(" 3 "))),
        "object-position: 3% 50%; transform: scale(1);"
    );
    assert!(crop_is_requested(&form(Some(" yes "), None)));
    assert!(crop_is_requested(&form(None, Some("3"))));
    assert!(!crop_is_requested(&form(Some("no"), None)));
}

#[test]
fn visibilities_are_nested() {
    assert_eq!(normalize_post_visibility(" FRIENDS "), "friends");
    assert_eq!(normalize_post_visibility("followers"), "public");
    assert_eq!(post_visibility_label("following"), "Following");
    assert_eq!(post_visibility_label("x"), "Public");
    assert!(is_friend_status("Accepted") && !is_friend_status("pending"));
    assert!(is_follow_status("FOLLOWER") && !is_follow_status("friend"));
    let friend = list(&["friendship"]);
    let follower = list(&["follow"]);
    let none = list(&[]);
    for (visibility, by_friend, by_follower, by_none) in [
        ("public", true, true, true),
        ("following", true, true, false),
        ("friends", true, false, false),
        ("private", false, false, false),
        ("strange", true, true, true),
    ] {
        assert_eq!(can_view_post(1, visibility, 2, &friend), by_friend, "{}", visibility);
        assert_eq!(can_view_post(1, visibility, 2, &follower), by_follower, "{}", visibility);
        assert_eq!(can_view_post(1, visibility, 2, &none), by_none, "{}", visibility);
        assert!(can_view_post(1, visibility, 1, &none), "{}", visibility);
    }
    assert!(!can_view_post(0, "private", 0, &none));
}

#[test]
fn posts_of_private_communities() {
    let none = list(&[]);
    let access = |member| Some(CommunityAccess { is_private: true, viewer_is_member: member });
    assert!(can_view_post_for_user(1, "public", None, None, &none));
    assert!(!can_view_post_for_user(1, "public", access(false), Some(2), &none));
    assert!(can_view_post_for_user(1, "public", access(true), Some(2), &none));
    assert!(can_view_post_for_user(1, "public", access(false), Some(1), &none));
    assert!(!can_view_post_for_user(1, "private", access(true), Some(2), &none));
    assert!(!can_view_post_for_user(1, "public", access(true), None, &none));
}

#[test]
fn pages_of_notifications() {
    assert_eq!(normalize_notification_limit(None), 20);
    assert_eq!(normalize_notification_limit(Some(-1)), 1);
    assert_eq!(normalize_notification_limit(Some(100)), 60);
    assert_eq!(positive_id(Some(0)), None);
    assert_eq!(positive_id(Some(4)), Some(4));
    let rows = vec![notice(9, false, 0), notice(7, true, 3), notice(5, true, 1)];
    let shown = header_notifications(&rows);
    assert_eq!(shown.len(), 3);
    assert!(shown[0].is_unread && !shown[1].is_unread);
    assert_eq!((shown[0].message_count, shown[1].message_count), (1, 3));
    let page = notification_page(&rows, 2);
    assert!(page.has_more);
    assert_eq!(
        page.notifications.iter().map(|n| n.notification_id).collect::<Vec<i64>>(),
        vec![9, 7]
    );
    assert_eq!(page.next_before_notification_id, Some(7));
    let page = notification_page(&rows, 3);
    assert!(!page.has_more);
    assert_eq!(page.next_before_notification_id, Some(5));
    assert_eq!(notification_page(&Vec::new(), 3).next_before_notification_id, None);
    assert!(matches!(marked_read_reply(true, None), Reply::Status(OK)));
    match marked_read_reply(false, Some("https://ex.org/friends")) {
        Reply::Redirect(p) => assert_eq!(p, "/friends"),
        _ => panic!(),
    }
}
