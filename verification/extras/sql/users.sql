-- Profiles, with the defaults of what a user has left out.
CREATE OR REPLACE VIEW user_profile AS
SELECT id, public_id,
    COALESCE(NULLIF(profile_photo_url, ''), '/public/avatar.webp') AS profile_photo_url,
    COALESCE(profile_photo_style, '') AS profile_photo_style,
    COALESCE(NULLIF(background_photo_url, ''), '/public/pexels-enginakyurt-17902901.webp')
        AS background_photo_url,
    COALESCE(background_photo_style, '') AS background_photo_style,
    username,
    COALESCE(TO_CHAR(birthday, 'YYYY-MM-DD'), '') AS birthday,
    COALESCE(birthday_public, TRUE) AS birthday_public,
    COALESCE(TO_CHAR(created_at, 'YYYY-MM-DD'), '') AS created_at,
    first_name,
    COALESCE(first_name_public, TRUE) AS first_name_public,
    last_name,
    COALESCE(last_name_public, TRUE) AS last_name_public,
    email,
    COALESCE(bio_description, '') AS bio_description,
    COALESCE(federation_enabled, TRUE) AS federation_enabled,
    COALESCE(NULLIF(federation_display_name_mode, ''), 'full_name')
        AS federation_display_name_mode
FROM users;

-- Whether the latest relationship from one user to another is that the first follows the second.
CREATE OR REPLACE FUNCTION follows_user(follower INTEGER, followed INTEGER) RETURNS BOOLEAN
LANGUAGE SQL STABLE AS $$
    SELECT EXISTS(
        SELECT 1 FROM (
            SELECT LOWER(COALESCE(status, '')) AS kind FROM relationship
            WHERE sender_id = follower AND receiver_id = followed
            ORDER BY friendship_id DESC LIMIT 1
        ) latest
        WHERE kind IN ('follow', 'following', 'follower')
    )
$$;

-- The friends of a user, the latest friendship first.
CREATE OR REPLACE FUNCTION profile_friends(profile INTEGER)
RETURNS TABLE (user_id INTEGER, public_id BIGINT, username TEXT, profile_photo_url TEXT,
    profile_photo_style TEXT)
LANGUAGE SQL STABLE AS $$
    SELECT u.id, u.public_id, u.username::TEXT,
        COALESCE(NULLIF(u.profile_photo_url, ''), '/public/avatar.webp')::TEXT,
        COALESCE(u.profile_photo_style, '')::TEXT
    FROM relationship r
    JOIN users u ON u.id = CASE WHEN r.sender_id = profile THEN r.receiver_id ELSE r.sender_id END
    WHERE (r.sender_id = profile OR r.receiver_id = profile)
        AND LOWER(COALESCE(r.status, '')) IN ('friend', 'friends', 'friendship', 'accepted')
    ORDER BY COALESCE(r.modified_at, r.created_at) DESC, r.friendship_id DESC
$$;

-- The images that a user has uploaded, the latest first.
CREATE OR REPLACE FUNCTION profile_images(profile INTEGER)
RETURNS TABLE (upload_id BIGINT, media_type TEXT, file_url TEXT, created_at TEXT)
LANGUAGE SQL STABLE AS $$
    SELECT i.upload_id, COALESCE(NULLIF(i.media_type, ''), 'image')::TEXT, i.file_url::TEXT,
        COALESCE(i.created_at::TEXT, '')
    FROM user_image_upload i
    WHERE i.user_id = profile
    ORDER BY i.created_at DESC, i.upload_id DESC
    LIMIT 200
$$;

-- The user under which moderators write as a team.
CREATE OR REPLACE FUNCTION create_team_user(name TEXT, mail TEXT, password_hash TEXT,
    photo TEXT, background TEXT, public_key TEXT, private_key TEXT, actor TEXT, inbox TEXT,
    outbox TEXT, new_public_id BIGINT) RETURNS VOID
LANGUAGE SQL AS $$
    INSERT INTO users (first_name, last_name, username, preferred_username, birthday, gender,
        email, password, profile_photo_url, background_photo_url, created_at, bio_description,
        role, ap_public_key, ap_private_key, ap_id, ap_inbox, ap_outbox, ap_local,
        federation_enabled, ap_last_refreshed_at, public_id, email_verified, email_verified_at)
    VALUES ('Instavox', 'Team', name, name, DATE '2000-09-01', 'other', mail, password_hash,
        photo, background, CURRENT_TIMESTAMP, '', 'mod', public_key, private_key, actor, inbox,
        outbox, TRUE, FALSE, CURRENT_TIMESTAMP, new_public_id, TRUE, CURRENT_TIMESTAMP)
$$;
