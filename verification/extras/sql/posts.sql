CREATE TABLE IF NOT EXISTS posts (
    post_id BIGSERIAL PRIMARY KEY,
    user_id INTEGER NOT NULL REFERENCES users(id) ON DELETE CASCADE,
    body TEXT NOT NULL DEFAULT '',
    link_url TEXT,
    created_at TIMESTAMP NOT NULL DEFAULT CURRENT_TIMESTAMP,
    updated_at TIMESTAMP NOT NULL DEFAULT CURRENT_TIMESTAMP
);
ALTER TABLE posts ADD COLUMN IF NOT EXISTS visibility TEXT NOT NULL DEFAULT 'public';
UPDATE posts SET visibility = 'public' WHERE LOWER(COALESCE(visibility, '')) NOT IN ('public',
    'following', 'friends', 'private');
ALTER TABLE posts DROP CONSTRAINT IF EXISTS posts_visibility_chk;
ALTER TABLE posts ADD CONSTRAINT posts_visibility_chk CHECK (LOWER(COALESCE(visibility, '')) IN
    ('public', 'following', 'friends', 'private'));
CREATE INDEX IF NOT EXISTS posts_user_created_idx ON posts (user_id, created_at DESC, post_id
    DESC);
CREATE TABLE IF NOT EXISTS post_image (
    image_id BIGSERIAL PRIMARY KEY,
    post_id BIGINT NOT NULL REFERENCES posts(post_id) ON DELETE CASCADE,
    image_url TEXT NOT NULL,
    mime_type TEXT NOT NULL DEFAULT 'image/jpeg',
    sort_order INTEGER NOT NULL DEFAULT 0,
    created_at TIMESTAMP NOT NULL DEFAULT CURRENT_TIMESTAMP
);
CREATE INDEX IF NOT EXISTS post_image_post_idx ON post_image (post_id, sort_order, image_id);
CREATE TABLE IF NOT EXISTS post_like (
    post_id BIGINT NOT NULL REFERENCES posts(post_id) ON DELETE CASCADE,
    user_id INTEGER NOT NULL REFERENCES users(id) ON DELETE CASCADE,
    created_at TIMESTAMP NOT NULL DEFAULT CURRENT_TIMESTAMP,
    PRIMARY KEY (post_id, user_id)
);
CREATE INDEX IF NOT EXISTS post_like_user_idx ON post_like (user_id, created_at DESC);
CREATE TABLE IF NOT EXISTS post_dislike (
    post_id BIGINT NOT NULL REFERENCES posts(post_id) ON DELETE CASCADE,
    user_id INTEGER NOT NULL REFERENCES users(id) ON DELETE CASCADE,
    created_at TIMESTAMP NOT NULL DEFAULT CURRENT_TIMESTAMP,
    PRIMARY KEY (post_id, user_id)
);
CREATE INDEX IF NOT EXISTS post_dislike_user_idx ON post_dislike (user_id, created_at DESC);
CREATE TABLE IF NOT EXISTS post_share (
    post_id BIGINT NOT NULL REFERENCES posts(post_id) ON DELETE CASCADE,
    user_id INTEGER NOT NULL REFERENCES users(id) ON DELETE CASCADE,
    created_at TIMESTAMP NOT NULL DEFAULT CURRENT_TIMESTAMP,
    PRIMARY KEY (post_id, user_id)
);
CREATE INDEX IF NOT EXISTS post_share_user_idx ON post_share (user_id, created_at DESC);
DELETE FROM post_dislike d WHERE EXISTS (SELECT 1 FROM post_like l WHERE l.post_id = d.post_id AND
    l.user_id = d.user_id);
CREATE TABLE IF NOT EXISTS post_comment (
    comment_id BIGSERIAL PRIMARY KEY,
    post_id BIGINT NOT NULL REFERENCES posts(post_id) ON DELETE CASCADE,
    user_id INTEGER NOT NULL REFERENCES users(id) ON DELETE CASCADE,
    body TEXT NOT NULL DEFAULT '',
    reply_to_comment_id BIGINT REFERENCES post_comment(comment_id) ON DELETE SET NULL,
    created_at TIMESTAMP NOT NULL DEFAULT CURRENT_TIMESTAMP,
    updated_at TIMESTAMP NOT NULL DEFAULT CURRENT_TIMESTAMP
);
ALTER TABLE post_comment ADD COLUMN IF NOT EXISTS reply_to_comment_id BIGINT;
CREATE INDEX IF NOT EXISTS post_comment_reply_idx ON post_comment (reply_to_comment_id,
    comment_id);
CREATE INDEX IF NOT EXISTS post_comment_post_idx ON post_comment (post_id, created_at ASC,
    comment_id ASC);
CREATE TABLE IF NOT EXISTS post_comment_like (
    comment_id BIGINT NOT NULL REFERENCES post_comment(comment_id) ON DELETE CASCADE,
    user_id INTEGER NOT NULL REFERENCES users(id) ON DELETE CASCADE,
    created_at TIMESTAMP NOT NULL DEFAULT CURRENT_TIMESTAMP,
    PRIMARY KEY (comment_id, user_id)
);
CREATE INDEX IF NOT EXISTS post_comment_like_user_idx ON post_comment_like (user_id, created_at
    DESC);

-- Whether a viewer may see a post of an owner with a visibility.
CREATE OR REPLACE FUNCTION can_view_post(post_owner_id INTEGER, post_visibility TEXT,
    viewer_id INTEGER) RETURNS BOOLEAN
LANGUAGE SQL STABLE AS $$
    WITH kinds AS (
        SELECT LOWER(COALESCE(r.status, '')) AS kind FROM relationship r
        WHERE (r.sender_id = post_owner_id AND r.receiver_id = viewer_id)
            OR (r.sender_id = viewer_id AND r.receiver_id = post_owner_id)),
    facts AS (
        SELECT viewer_id > 0 AND post_owner_id = viewer_id AS own,
            viewer_id > 0 AND EXISTS (SELECT 1 FROM kinds
                WHERE kind IN ('friend', 'friends', 'friendship', 'accepted')) AS friend,
            viewer_id > 0 AND EXISTS (SELECT 1 FROM kinds
                WHERE kind IN ('follow', 'following', 'follower')) AS follower)
    SELECT CASE LOWER(COALESCE(post_visibility, 'public'))
        WHEN 'private' THEN own
        WHEN 'friends' THEN own OR friend
        WHEN 'following' THEN own OR friend OR follower
        ELSE TRUE END
    FROM facts
$$;
