-- The users that a search finds, the best matches first.
CREATE OR REPLACE FUNCTION search_users(plain_pattern TEXT, handle_pattern TEXT, plain TEXT,
    domain TEXT, handle TEXT)
RETURNS TABLE (username TEXT, preferred_username TEXT, profile_photo_url TEXT,
    profile_photo_style TEXT)
LANGUAGE SQL STABLE AS $$
    SELECT u.username::TEXT, COALESCE(u.preferred_username, '')::TEXT,
        COALESCE(NULLIF(u.profile_photo_url, ''), '/public/avatar.webp')::TEXT,
        COALESCE(u.profile_photo_style, '')::TEXT
    FROM users u
    WHERE u.username ILIKE plain_pattern
        OR COALESCE(u.preferred_username, '') ILIKE plain_pattern
        OR LOWER(u.username || '@' || domain) LIKE LOWER(handle_pattern)
        OR LOWER('@' || u.username || '@' || domain) LIKE LOWER(handle_pattern)
    ORDER BY CASE WHEN LOWER(u.username) = LOWER(plain) THEN 0
            WHEN LOWER(u.username || '@' || domain) = LOWER(handle) THEN 1
            WHEN LOWER('@' || u.username || '@' || domain) = LOWER('@' || handle) THEN 2
            WHEN LOWER(COALESCE(u.preferred_username, '')) = LOWER(plain) THEN 3
            ELSE 4 END,
        LOWER(u.username) ASC, u.public_id ASC
$$;

-- The posts that a search finds among those that a viewer may see, the newest first.
CREATE OR REPLACE FUNCTION search_posts(pattern TEXT, viewer INTEGER)
RETURNS TABLE (post_id BIGINT, author_username TEXT, author_profile_photo_url TEXT,
    author_profile_photo_style TEXT, body TEXT, link_url TEXT, first_image_url TEXT,
    created_at TEXT)
LANGUAGE SQL STABLE AS $$
    SELECT p.post_id, p.author_username::TEXT, p.author_profile_photo_url::TEXT,
        p.author_profile_photo_style::TEXT, p.body, p.link_url,
        COALESCE((SELECT i.image_url FROM post_image i WHERE i.post_id = p.post_id
            ORDER BY i.sort_order ASC, i.image_id ASC LIMIT 1), ''),
        p.created_at
    FROM feed_post p
    WHERE (p.body ILIKE pattern OR p.link_url ILIKE pattern)
        AND can_view_post(p.user_id, p.visibility, viewer)
        AND (p.community_id IS NULL OR p.user_id = viewer
            OR (viewer > 0 AND EXISTS (SELECT 1 FROM community_member cm
                WHERE cm.community_id = p.community_id AND cm.user_id = viewer)))
    ORDER BY p.post_id DESC
$$;
