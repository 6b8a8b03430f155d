CREATE TABLE IF NOT EXISTS app_report (
    report_id BIGSERIAL PRIMARY KEY,
    reporter_user_id INTEGER NOT NULL REFERENCES users(id) ON DELETE CASCADE,
    kind TEXT NOT NULL DEFAULT 'post',
    target_user_id INTEGER REFERENCES users(id) ON DELETE SET NULL,
    target_post_id BIGINT REFERENCES posts(post_id) ON DELETE SET NULL,
    reason TEXT NOT NULL DEFAULT '',
    status TEXT NOT NULL DEFAULT 'open',
    created_at TIMESTAMP NOT NULL DEFAULT CURRENT_TIMESTAMP,
    modified_at TIMESTAMP NOT NULL DEFAULT CURRENT_TIMESTAMP
);
ALTER TABLE app_report ADD COLUMN IF NOT EXISTS target_message_id INTEGER REFERENCES
    messages(msg_id) ON DELETE SET NULL;
CREATE INDEX IF NOT EXISTS app_report_status_created_idx ON app_report (status, created_at DESC,
    report_id DESC);
CREATE INDEX IF NOT EXISTS app_report_target_post_idx ON app_report (target_post_id);
CREATE INDEX IF NOT EXISTS app_report_target_user_idx ON app_report (target_user_id);
CREATE INDEX IF NOT EXISTS app_report_target_message_idx ON app_report (target_message_id);
CREATE TABLE IF NOT EXISTS moderator_post_status (
    post_id BIGINT PRIMARY KEY REFERENCES posts(post_id) ON DELETE CASCADE,
    status TEXT NOT NULL DEFAULT 'open',
    verified_at TIMESTAMP NULL,
    modified_at TIMESTAMP NOT NULL DEFAULT CURRENT_TIMESTAMP
);
CREATE INDEX IF NOT EXISTS moderator_post_status_status_idx ON moderator_post_status (status,
    modified_at DESC, post_id DESC);

-- The open reports, newest first.
CREATE OR REPLACE VIEW open_report AS
SELECT r.report_id, LOWER(COALESCE(r.kind, '')) AS kind,
    LOWER(COALESCE(r.status, 'open')) AS status, COALESCE(r.reason, '') AS reason,
    COALESCE(TO_CHAR(r.created_at, 'YYYY-MM-DD HH24:MI'), '') AS created_at,
    reporter.username AS reporter_username, target_user.public_id AS target_user_public_id,
    target_user.username AS target_user_username, r.target_post_id,
    r.target_message_id::BIGINT AS target_message_id,
    COALESCE(message_row.msg, '') AS target_message_text,
    message_sender.public_id AS target_message_sender_public_id,
    message_sender.username AS target_message_sender_username,
    BTRIM(COALESCE(p.body, '')) = 'Deleted by moderator' AS target_post_soft_deleted,
    post_author.public_id AS target_post_author_public_id,
    post_author.username AS target_post_author_username
FROM app_report r
JOIN users reporter ON reporter.id = r.reporter_user_id
LEFT JOIN users target_user ON target_user.id = r.target_user_id
LEFT JOIN posts p ON p.post_id = r.target_post_id
LEFT JOIN users post_author ON post_author.id = p.user_id
LEFT JOIN messages message_row ON message_row.msg_id = r.target_message_id
LEFT JOIN users message_sender ON message_sender.id = message_row.sender
WHERE LOWER(COALESCE(r.status, 'open')) = 'open'
ORDER BY r.report_id DESC;

CREATE OR REPLACE VIEW site_totals AS
SELECT (SELECT COUNT(*) FROM users) AS total_users,
    (SELECT COUNT(*) FROM users
        WHERE LOWER(COALESCE(role::TEXT, 'user')) IN ('mod', 'moderator')) AS total_moderators,
    (SELECT COUNT(*) FROM users
        WHERE LOWER(COALESCE(role::TEXT, 'user')) IN ('suspended', 'ban', 'banned'))
        AS total_suspended,
    (SELECT COUNT(*) FROM posts) AS total_posts;

-- The users that moderators look after, the newest first.
CREATE OR REPLACE VIEW moderated_user AS
SELECT public_id, username, COALESCE(preferred_username, '') AS preferred_username,
    COALESCE(email, '') AS email,
    COALESCE(NULLIF(profile_photo_url, ''), '/public/avatar.webp') AS profile_photo_url,
    COALESCE(profile_photo_style, '') AS profile_photo_style,
    LOWER(COALESCE(role::TEXT, 'user')) AS role,
    COALESCE(TO_CHAR(created_at, 'YYYY-MM-DD HH24:MI'), '') AS created_at
FROM users
ORDER BY id DESC;

-- A moderator has looked at a post: the reports of it are closed.
CREATE OR REPLACE FUNCTION mark_post_verified(post BIGINT) RETURNS VOID
LANGUAGE SQL AS $$
    INSERT INTO moderator_post_status (post_id, status, verified_at, modified_at)
    VALUES (post, 'verified', NOW(), NOW())
    ON CONFLICT (post_id) DO UPDATE
        SET status = 'verified', verified_at = NOW(), modified_at = NOW();
    UPDATE app_report SET status = 'verified', modified_at = NOW()
    WHERE target_post_id = post AND LOWER(COALESCE(kind, '')) = 'post'
        AND LOWER(COALESCE(status, 'open')) = 'open'
$$;

-- A report of a user, a post or a message, unless an open one says the same.
CREATE OR REPLACE FUNCTION store_report(reporter INTEGER, about TEXT, person INTEGER,
    post BIGINT, message INTEGER) RETURNS VOID
LANGUAGE SQL AS $$
    INSERT INTO app_report (reporter_user_id, kind, target_user_id, target_post_id,
        target_message_id, reason, status, created_at, modified_at)
    SELECT reporter, about, person, post, message, '', 'open', NOW(), NOW()
    WHERE NOT EXISTS (
        SELECT 1 FROM app_report r
        WHERE r.reporter_user_id = reporter AND LOWER(COALESCE(r.kind, '')) = about
            AND LOWER(COALESCE(r.status, 'open')) = 'open'
            AND CASE about WHEN 'post' THEN r.target_post_id = post
                WHEN 'message' THEN r.target_message_id = message
                ELSE r.target_user_id = person END)
$$;

-- Who sent a message, and whether a user takes part in its chat.
CREATE OR REPLACE FUNCTION reported_message(message INTEGER, viewer INTEGER)
RETURNS TABLE (sender_id INTEGER, takes_part BOOLEAN)
LANGUAGE SQL STABLE AS $$
    SELECT m.sender, CASE LOWER(COALESCE(c.chat_type, 'friendship'))
        WHEN 'group' THEN EXISTS (SELECT 1 FROM chat_member cm
            WHERE cm.chat_id = c.chat_id AND cm.user_id = viewer)
        WHEN 'friendship' THEN EXISTS (SELECT 1 FROM relationship r
            WHERE r.friendship_id = c.chat_title
                AND (r.sender_id = viewer OR r.receiver_id = viewer)
                AND LOWER(COALESCE(r.status, ''))
                    IN ('friend', 'friends', 'friendship', 'accepted'))
        ELSE FALSE END
    FROM messages m JOIN chat c ON c.chat_id = m.chat_id
    WHERE m.msg_id = message
$$;
