CREATE TABLE IF NOT EXISTS community_page (
    community_id BIGSERIAL PRIMARY KEY
);
ALTER TABLE community_page
    ADD COLUMN IF NOT EXISTS slug TEXT NOT NULL DEFAULT '',
    ADD COLUMN IF NOT EXISTS name TEXT NOT NULL DEFAULT '',
    ADD COLUMN IF NOT EXISTS description TEXT NOT NULL DEFAULT '',
    ADD COLUMN IF NOT EXISTS profile_photo_url TEXT NOT NULL DEFAULT '/public/avatar.webp',
    ADD COLUMN IF NOT EXISTS profile_photo_style TEXT NOT NULL DEFAULT '',
    ADD COLUMN IF NOT EXISTS owner_user_id INTEGER REFERENCES users(id) ON DELETE SET NULL,
    ADD COLUMN IF NOT EXISTS visibility TEXT NOT NULL DEFAULT 'public',
    ADD COLUMN IF NOT EXISTS status TEXT NOT NULL DEFAULT 'active',
    ADD COLUMN IF NOT EXISTS created_at TIMESTAMP NOT NULL DEFAULT CURRENT_TIMESTAMP,
    ADD COLUMN IF NOT EXISTS updated_at TIMESTAMP NOT NULL DEFAULT CURRENT_TIMESTAMP;
CREATE TABLE IF NOT EXISTS community_member (
    community_id BIGINT NOT NULL REFERENCES community_page(community_id) ON DELETE CASCADE,
    user_id INTEGER NOT NULL REFERENCES users(id) ON DELETE CASCADE,
    joined_at TIMESTAMP NOT NULL DEFAULT CURRENT_TIMESTAMP,
    PRIMARY KEY (community_id, user_id)
);
CREATE TABLE IF NOT EXISTS community_moderator (
    community_id BIGINT NOT NULL REFERENCES community_page(community_id) ON DELETE CASCADE,
    user_id INTEGER NOT NULL REFERENCES users(id) ON DELETE CASCADE,
    granted_by_user_id INTEGER REFERENCES users(id) ON DELETE SET NULL,
    granted_at TIMESTAMP NOT NULL DEFAULT CURRENT_TIMESTAMP,
    PRIMARY KEY (community_id, user_id)
);
CREATE TABLE IF NOT EXISTS community_ignore (
    community_id BIGINT NOT NULL REFERENCES community_page(community_id) ON DELETE CASCADE,
    user_id INTEGER NOT NULL REFERENCES users(id) ON DELETE CASCADE,
    ignored_at TIMESTAMP NOT NULL DEFAULT CURRENT_TIMESTAMP,
    PRIMARY KEY (community_id, user_id)
);
UPDATE community_page SET status = 'active' WHERE LOWER(COALESCE(status, '')) NOT IN ('active',
    'hidden', 'deleted', 'banned');
CREATE INDEX IF NOT EXISTS community_page_status_idx ON community_page (status, community_id
    DESC);
CREATE INDEX IF NOT EXISTS community_page_slug_idx ON community_page (LOWER(slug));
CREATE INDEX IF NOT EXISTS community_page_name_idx ON community_page (LOWER(name));
CREATE INDEX IF NOT EXISTS community_member_user_idx ON community_member (user_id, joined_at
    DESC);
CREATE TABLE IF NOT EXISTS community_rule (
    rule_id BIGSERIAL PRIMARY KEY,
    community_id BIGINT NOT NULL REFERENCES community_page(community_id) ON DELETE CASCADE,
    title TEXT NOT NULL DEFAULT '',
    body TEXT NOT NULL DEFAULT '',
    sort_order INTEGER NOT NULL DEFAULT 0,
    created_at TIMESTAMP NOT NULL DEFAULT CURRENT_TIMESTAMP,
    updated_at TIMESTAMP NOT NULL DEFAULT CURRENT_TIMESTAMP
);
CREATE INDEX IF NOT EXISTS community_rule_order_idx ON community_rule (community_id, sort_order
    ASC, rule_id ASC);
CREATE INDEX IF NOT EXISTS community_moderator_user_idx ON community_moderator (user_id,
    granted_at DESC);
CREATE INDEX IF NOT EXISTS community_ignore_user_idx ON community_ignore (user_id, ignored_at
    DESC);
ALTER TABLE posts ADD COLUMN IF NOT EXISTS community_id BIGINT REFERENCES
    community_page(community_id) ON DELETE SET NULL;
CREATE INDEX IF NOT EXISTS posts_community_created_idx ON posts (community_id, created_at DESC,
    post_id DESC);
INSERT INTO community_member (community_id, user_id, joined_at) SELECT community_id,
    owner_user_id, COALESCE(created_at, CURRENT_TIMESTAMP) FROM community_page WHERE owner_user_id
    IS NOT NULL ON CONFLICT (community_id, user_id) DO NOTHING;
INSERT INTO community_moderator (community_id, user_id, granted_by_user_id, granted_at) SELECT
    community_id, owner_user_id, owner_user_id, COALESCE(created_at, CURRENT_TIMESTAMP) FROM
    community_page WHERE owner_user_id IS NOT NULL ON CONFLICT (community_id, user_id) DO NOTHING;

-- A post as pages show it.
CREATE OR REPLACE VIEW feed_post AS
SELECT p.post_id, p.user_id, p.community_id, p.created_at AS written_at,
    u.public_id AS author_public_id, u.username AS author_username,
    COALESCE(NULLIF(u.profile_photo_url, ''), '/public/avatar.webp') AS author_profile_photo_url,
    COALESCE(u.profile_photo_style, '') AS author_profile_photo_style,
    COALESCE(p.body, '') AS body, COALESCE(p.link_url, '') AS link_url,
    LOWER(COALESCE(NULLIF(p.visibility, ''), 'public')) AS visibility,
    COALESCE(c.name, '') AS community_name, COALESCE(c.slug, '') AS community_slug,
    LOWER(COALESCE(c.visibility, 'public')) AS community_visibility,
    COALESCE(TO_CHAR(p.created_at, 'YYYY-MM-DD HH24:MI'), '') AS created_at
FROM posts p
JOIN users u ON u.id = p.user_id
LEFT JOIN community_page c ON c.community_id = p.community_id;

-- What users have done with posts, and what the viewer has.
CREATE OR REPLACE FUNCTION post_interactions(post_ids BIGINT[], viewer INTEGER)
RETURNS TABLE (post_id BIGINT, likes_count BIGINT, dislikes_count BIGINT, comments_count BIGINT,
    shares_count BIGINT, liked_by_current_user BOOLEAN, disliked_by_current_user BOOLEAN,
    shared_by_current_user BOOLEAN)
LANGUAGE SQL STABLE AS $$
SELECT p.post_id,
    (SELECT COUNT(*) FROM post_like l WHERE l.post_id = p.post_id),
    (SELECT COUNT(*) FROM post_dislike d WHERE d.post_id = p.post_id),
    (SELECT COUNT(*) FROM post_comment c WHERE c.post_id = p.post_id),
    (SELECT COUNT(*) FROM post_share s WHERE s.post_id = p.post_id),
    viewer > 0 AND EXISTS (
        SELECT 1 FROM post_like l WHERE l.post_id = p.post_id AND l.user_id = viewer),
    viewer > 0 AND EXISTS (
        SELECT 1 FROM post_dislike d WHERE d.post_id = p.post_id AND d.user_id = viewer),
    viewer > 0 AND EXISTS (
        SELECT 1 FROM post_share s WHERE s.post_id = p.post_id AND s.user_id = viewer)
FROM posts p WHERE p.post_id = ANY(post_ids)
$$;

-- The comments on posts, oldest first.
CREATE OR REPLACE FUNCTION post_comments(post_ids BIGINT[], viewer INTEGER)
RETURNS TABLE (post_id BIGINT, comment_id BIGINT, commenter_public_id BIGINT,
    commenter_username TEXT, commenter_profile_photo_url TEXT,
    commenter_profile_photo_style TEXT, body TEXT, created_at TEXT, likes_count BIGINT,
    liked_by_current_user BOOLEAN, reply_parent_comment_id BIGINT, reply_to_comment_id BIGINT,
    reply_to_body_preview TEXT, reply_to_username TEXT)
LANGUAGE SQL STABLE AS $$
SELECT c.post_id, c.comment_id, u.public_id, u.username::TEXT,
    COALESCE(NULLIF(u.profile_photo_url, ''), '/public/avatar.webp')::TEXT,
    COALESCE(u.profile_photo_style, '')::TEXT, COALESCE(c.body, ''),
    COALESCE(c.created_at::TEXT, ''),
    (SELECT COUNT(*) FROM post_comment_like l WHERE l.comment_id = c.comment_id),
    viewer > 0 AND EXISTS (SELECT 1 FROM post_comment_like l
        WHERE l.comment_id = c.comment_id AND l.user_id = viewer),
    COALESCE(c.reply_to_comment_id, 0), c.reply_to_comment_id,
    COALESCE(reply_comment.body, ''), COALESCE(reply_user.username, '')::TEXT
FROM post_comment c
JOIN users u ON u.id = c.user_id
LEFT JOIN post_comment reply_comment ON reply_comment.comment_id = c.reply_to_comment_id
LEFT JOIN users reply_user ON reply_user.id = reply_comment.user_id
WHERE c.post_id = ANY(post_ids)
ORDER BY c.created_at ASC, c.comment_id ASC
$$;

-- A community as pages show it.
CREATE OR REPLACE VIEW community_overview AS
SELECT c.community_id, COALESCE(c.slug, '') AS slug, COALESCE(c.name, '') AS name,
    COALESCE(c.description, '') AS description,
    LOWER(COALESCE(NULLIF(c.visibility, ''), 'public')) AS visibility,
    (SELECT COUNT(*) FROM community_member m WHERE m.community_id = c.community_id)
        AS member_count,
    (SELECT COUNT(*) FROM posts p WHERE p.community_id = c.community_id) AS post_count,
    (SELECT COUNT(*) FROM posts p WHERE p.community_id = c.community_id
        AND p.created_at >= NOW() - INTERVAL '7 days') AS recent_count,
    COALESCE(NULLIF(c.profile_photo_url, ''), '/public/avatar.webp') AS profile_photo_url,
    COALESCE(c.profile_photo_style, '') AS profile_photo_style, c.owner_user_id,
    COALESCE(owner.username, '') AS owner_username,
    TO_CHAR(c.created_at, 'YYYY-MM-DD HH24:MI') AS created_at
FROM community_page c
LEFT JOIN users owner ON owner.id = c.owner_user_id
WHERE LOWER(COALESCE(c.status, 'active')) NOT IN ('deleted', 'banned');

-- The posts of a community that a viewer may see, in the given order.
CREATE OR REPLACE FUNCTION community_posts(community BIGINT, viewer INTEGER, sort TEXT)
RETURNS SETOF feed_post
LANGUAGE SQL STABLE AS $$
    SELECT p.* FROM feed_post p
    CROSS JOIN LATERAL (
        SELECT (SELECT COUNT(*) FROM post_like l WHERE l.post_id = p.post_id)
                - (SELECT COUNT(*) FROM post_dislike d WHERE d.post_id = p.post_id) AS likes,
            (SELECT COUNT(*) FROM post_comment c WHERE c.post_id = p.post_id) AS comments,
            CASE WHEN p.written_at >= NOW() - INTERVAL '24 hours' THEN 10
                WHEN p.written_at >= NOW() - INTERVAL '3 days' THEN 6
                WHEN p.written_at >= NOW() - INTERVAL '7 days' THEN 3
                ELSE 0 END AS freshness
    ) score
    WHERE p.community_id = community
        AND (p.user_id = viewer OR p.community_visibility <> 'private'
            OR EXISTS (SELECT 1 FROM community_member cm
                WHERE cm.community_id = p.community_id AND cm.user_id = viewer))
        AND can_view_post(p.user_id, p.visibility, viewer)
    ORDER BY
        CASE sort WHEN 'new' THEN 0 WHEN 'top' THEN score.likes
            ELSE score.likes * 4 + score.comments * 3 + score.freshness END DESC,
        CASE sort WHEN 'top' THEN score.comments ELSE 0 END DESC,
        p.written_at DESC, p.post_id DESC
$$;

-- Whether a community is private, and whether a viewer is its member.
CREATE OR REPLACE FUNCTION community_access(community BIGINT, viewer INTEGER)
RETURNS TABLE (is_private BOOLEAN, is_member BOOLEAN)
LANGUAGE SQL STABLE AS $$
    SELECT NOT EXISTS (SELECT 1 FROM community_page
            WHERE community_id = community
                AND LOWER(COALESCE(visibility, 'public')) <> 'private'),
        EXISTS (SELECT 1 FROM community_member
            WHERE community_id = community AND user_id = viewer)
$$;

CREATE OR REPLACE FUNCTION community_rules(community BIGINT)
RETURNS TABLE (rule_id BIGINT, title TEXT, body TEXT, sort_order INTEGER)
LANGUAGE SQL STABLE AS $$
    SELECT r.rule_id, COALESCE(r.title, ''), COALESCE(r.body, ''), COALESCE(r.sort_order, 0)
    FROM community_rule r
    WHERE r.community_id = community
    ORDER BY r.sort_order ASC, r.rule_id ASC
$$;

-- The moderators of a community, its owner first.
CREATE OR REPLACE FUNCTION community_moderators(community BIGINT)
RETURNS TABLE (user_id INTEGER, username TEXT, preferred_username TEXT, profile_photo_url TEXT,
    profile_photo_style TEXT, is_owner BOOLEAN)
LANGUAGE SQL STABLE AS $$
    SELECT u.id, COALESCE(u.username, '')::TEXT, COALESCE(u.preferred_username, '')::TEXT,
        COALESCE(NULLIF(u.profile_photo_url, ''), '/public/avatar.webp')::TEXT,
        COALESCE(u.profile_photo_style, '')::TEXT, COALESCE(u.id = c.owner_user_id, FALSE)
    FROM community_moderator cm
    JOIN users u ON u.id = cm.user_id
    JOIN community_page c ON c.community_id = cm.community_id
    WHERE cm.community_id = community
    ORDER BY (u.id <> c.owner_user_id) ASC, cm.granted_at ASC, u.id ASC
$$;

-- The members of a community who could become its moderators, the newest first.
CREATE OR REPLACE FUNCTION moderator_candidates(community BIGINT)
RETURNS TABLE (user_id INTEGER, username TEXT, preferred_username TEXT, profile_photo_url TEXT,
    profile_photo_style TEXT, is_owner BOOLEAN)
LANGUAGE SQL STABLE AS $$
    SELECT u.id, COALESCE(u.username, '')::TEXT, COALESCE(u.preferred_username, '')::TEXT,
        COALESCE(NULLIF(u.profile_photo_url, ''), '/public/avatar.webp')::TEXT,
        COALESCE(u.profile_photo_style, '')::TEXT, FALSE
    FROM community_member cm
    JOIN users u ON u.id = cm.user_id
    JOIN community_page c ON c.community_id = cm.community_id
    WHERE cm.community_id = community
        AND NOT EXISTS (SELECT 1 FROM community_moderator m
            WHERE m.community_id = cm.community_id AND m.user_id = cm.user_id)
        AND (c.owner_user_id IS NULL OR u.id <> c.owner_user_id)
    ORDER BY cm.joined_at DESC, u.id DESC
    LIMIT 30
$$;

-- The addresses of uploaded images that are in use.
CREATE OR REPLACE VIEW uploaded_address AS
SELECT address FROM (
    SELECT image_url AS address FROM post_image
    UNION ALL SELECT file_url FROM user_image_upload
    UNION ALL SELECT profile_photo_url FROM users
    UNION ALL SELECT background_photo_url FROM users
    UNION ALL SELECT profile_photo_url FROM community_page
    UNION ALL SELECT file_path FROM message_attachment
        WHERE LOWER(COALESCE(mime_type, '')) LIKE 'image/%'
) addresses
WHERE address LIKE '/public/uploads/%';

-- Puts the address of a compressed image in place of the old one.
CREATE OR REPLACE FUNCTION move_image(old_url TEXT, new_url TEXT, mime TEXT) RETURNS VOID
LANGUAGE SQL AS $$
    UPDATE post_image SET image_url = new_url, mime_type = mime WHERE image_url = old_url;
    UPDATE user_image_upload SET file_url = new_url WHERE file_url = old_url;
    UPDATE users SET profile_photo_url = new_url WHERE profile_photo_url = old_url;
    UPDATE users SET background_photo_url = new_url WHERE background_photo_url = old_url;
    UPDATE community_page SET profile_photo_url = new_url WHERE profile_photo_url = old_url;
    UPDATE message_attachment SET file_path = new_url, mime_type = mime
    WHERE file_path = old_url
$$;
