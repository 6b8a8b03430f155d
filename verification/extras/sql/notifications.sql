CREATE TABLE IF NOT EXISTS app_notification (
    notification_id BIGSERIAL PRIMARY KEY,
    user_id INTEGER NOT NULL REFERENCES users(id) ON DELETE CASCADE,
    kind TEXT NOT NULL DEFAULT 'system',
    title TEXT NOT NULL DEFAULT 'Notification',
    body TEXT NOT NULL DEFAULT '',
    link_url TEXT NOT NULL DEFAULT '/',
    is_read TEXT NOT NULL DEFAULT 'false',
    created_at TEXT NOT NULL DEFAULT NOW()::TEXT,
    message_count BIGINT NOT NULL DEFAULT 1
);
ALTER TABLE app_notification ADD COLUMN IF NOT EXISTS message_count BIGINT NOT NULL DEFAULT 1;
CREATE INDEX IF NOT EXISTS app_notification_user_idx ON app_notification (user_id, notification_id
    DESC);
CREATE INDEX IF NOT EXISTS app_notification_unread_idx ON app_notification (user_id, is_read);

-- Links to messages name the sender in place of a number.
WITH legacy AS (
    SELECT n.notification_id, SUBSTRING(n.link_url FROM '/messenger\?with=([0-9]+)') AS with_id
    FROM app_notification n
    WHERE n.kind = 'message' AND n.link_url LIKE '/messenger?with=%')
UPDATE app_notification n
SET link_url = '/messenger?user=' || COALESCE(NULLIF(u.username, ''), 'user') || '@{domain}'
FROM legacy l JOIN users u ON (u.public_id::TEXT = l.with_id OR u.id::TEXT = l.with_id)
WHERE n.notification_id = l.notification_id;

-- Takes over an earlier table of notifications, as far as it has the same columns.
DO $$
BEGIN
    IF to_regclass('public.notification') IS NOT NULL
        AND NOT EXISTS (SELECT 1 FROM app_notification)
    THEN
        BEGIN
            INSERT INTO app_notification
                (user_id, kind, title, body, link_url, is_read, created_at)
            SELECT oldn.user_id::INTEGER, COALESCE(NULLIF(oldn.kind::TEXT, ''), 'system'),
                COALESCE(NULLIF(oldn.title::TEXT, ''), 'Notification'),
                COALESCE(oldn.body::TEXT, ''),
                COALESCE(NULLIF(oldn.link_url::TEXT, ''), '/'),
                COALESCE(oldn.is_read::TEXT, 'false'),
                COALESCE(oldn.created_at::TEXT, NOW()::TEXT)
            FROM notification oldn
            WHERE oldn.user_id IS NOT NULL;
        EXCEPTION
            WHEN undefined_column THEN NULL;
            WHEN datatype_mismatch THEN NULL;
            WHEN invalid_text_representation THEN NULL;
            WHEN undefined_table THEN NULL;
        END;
    END IF;
END $$;

-- Notifications as pages show them.
CREATE OR REPLACE VIEW shown_notification AS
SELECT notification_id, user_id,
    COALESCE(NULLIF(title, ''), 'Notification') AS title,
    COALESCE(body, '') AS body,
    COALESCE(NULLIF(link_url, ''), '/') AS link_url,
    LOWER(COALESCE(is_read::TEXT, 'false')) IN ('t', 'true', '1', 'yes', 'y') AS is_read,
    COALESCE(created_at::TEXT, '') AS created_at,
    COALESCE(message_count, 1)::BIGINT AS message_count
FROM app_notification;

-- Renews the latest unread notification of likes for a comment, if there is one.
CREATE OR REPLACE FUNCTION renew_comment_like_notification(recipient INTEGER, new_title TEXT,
    new_body TEXT, link TEXT)
RETURNS TABLE (id BIGINT, written_at TEXT)
LANGUAGE SQL AS $$
    UPDATE app_notification SET title = new_title, body = new_body, is_read = 'false',
        created_at = NOW()::TEXT, message_count = 1
    WHERE notification_id = (
        SELECT s.notification_id FROM shown_notification s
        JOIN app_notification n ON n.notification_id = s.notification_id
        WHERE n.user_id = recipient AND n.kind = 'comment_like' AND n.link_url = link
            AND NOT s.is_read
        ORDER BY s.notification_id DESC LIMIT 1)
    RETURNING notification_id, COALESCE(created_at::TEXT, NOW()::TEXT)
$$;
