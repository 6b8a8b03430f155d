-- The relationships of a user, newest first.
CREATE OR REPLACE FUNCTION user_relationships(viewer INTEGER)
RETURNS TABLE (request_id INTEGER, user_id INTEGER, user_public_id BIGINT, username TEXT,
    profile_photo_url TEXT, profile_photo_style TEXT, relationship_kind TEXT, direction TEXT)
LANGUAGE SQL STABLE AS $$
SELECT r.friendship_id, u.id, u.public_id, u.username::TEXT,
    COALESCE(NULLIF(u.profile_photo_url, ''), '/public/avatar.webp')::TEXT,
    COALESCE(u.profile_photo_style, '')::TEXT, LOWER(COALESCE(r.status, '')),
    CASE WHEN r.sender_id = viewer THEN 'outgoing' ELSE 'incoming' END
FROM relationship r
JOIN users u ON u.id = CASE WHEN r.sender_id = viewer THEN r.receiver_id ELSE r.sender_id END
WHERE r.sender_id = viewer OR r.receiver_id = viewer
ORDER BY r.friendship_id DESC
$$;

-- Friends of friends who are not friends yet, those with most friends in common first.
CREATE OR REPLACE FUNCTION friend_recommendations(viewer INTEGER)
RETURNS TABLE (user_id INTEGER, public_id BIGINT, username TEXT, profile_photo_url TEXT,
    profile_photo_style TEXT, mutual_friends_count BIGINT)
LANGUAGE SQL STABLE AS $$
WITH friend_edges AS (
    SELECT sender_id AS user_id, receiver_id AS friend_id FROM relationship
    WHERE LOWER(COALESCE(status, '')) IN ('friend', 'friends', 'friendship', 'accepted')
    UNION
    SELECT receiver_id AS user_id, sender_id AS friend_id FROM relationship
    WHERE LOWER(COALESCE(status, '')) IN ('friend', 'friends', 'friendship', 'accepted')),
my_friends AS (SELECT friend_id FROM friend_edges WHERE friend_edges.user_id = viewer),
candidate_mutuals AS (
    SELECT e2.friend_id AS candidate_id, mf.friend_id AS mutual_friend_id
    FROM my_friends mf JOIN friend_edges e2 ON e2.user_id = mf.friend_id
    WHERE e2.friend_id <> viewer
        AND NOT EXISTS (SELECT 1 FROM my_friends mine WHERE mine.friend_id = e2.friend_id)),
latest_rel AS (
    SELECT DISTINCT ON (LEAST(sender_id, receiver_id), GREATEST(sender_id, receiver_id))
        sender_id, receiver_id, LOWER(COALESCE(status, '')) AS status
    FROM relationship WHERE sender_id = viewer OR receiver_id = viewer
    ORDER BY LEAST(sender_id, receiver_id), GREATEST(sender_id, receiver_id),
        friendship_id DESC)
SELECT u.id, u.public_id, u.username::TEXT,
    COALESCE(NULLIF(u.profile_photo_url, ''), '/public/avatar.webp')::TEXT,
    COALESCE(u.profile_photo_style, '')::TEXT, COUNT(DISTINCT cm.mutual_friend_id)
FROM candidate_mutuals cm
JOIN users u ON u.id = cm.candidate_id
LEFT JOIN latest_rel lr
    ON LEAST(lr.sender_id, lr.receiver_id) = LEAST(viewer, u.id)
    AND GREATEST(lr.sender_id, lr.receiver_id) = GREATEST(viewer, u.id)
WHERE u.id <> viewer
    AND (lr.status IS NULL OR lr.status IN ('rejected', 'declined', 'cancelled'))
GROUP BY u.id, u.public_id, u.username, u.profile_photo_url, u.profile_photo_style
ORDER BY COUNT(DISTINCT cm.mutual_friend_id) DESC, LOWER(u.username) ASC
LIMIT 30
$$;

-- The newest relationship of two users, either way round, locked until the transaction ends.
CREATE OR REPLACE FUNCTION latest_relationship(one INTEGER, other INTEGER)
RETURNS TABLE (id INTEGER, kind TEXT)
LANGUAGE SQL AS $$
    SELECT friendship_id, LOWER(COALESCE(status, '')) FROM relationship
    WHERE (sender_id = one AND receiver_id = other) OR (sender_id = other AND receiver_id = one)
    ORDER BY friendship_id DESC LIMIT 1
    FOR UPDATE
$$;

CREATE OR REPLACE FUNCTION add_relationship(sender INTEGER, receiver INTEGER, kind TEXT)
RETURNS VOID
LANGUAGE SQL AS $$
    INSERT INTO relationship
        (friendship_id, sender_id, receiver_id, status, created_at, modified_at)
    SELECT COALESCE(MAX(friendship_id), 0) + 1, sender, receiver, kind, NOW(), NOW()
    FROM relationship
$$;

CREATE OR REPLACE FUNCTION end_friendship(one INTEGER, other INTEGER, kind TEXT) RETURNS VOID
LANGUAGE SQL AS $$
    UPDATE relationship SET status = kind, modified_at = NOW()
    WHERE friendship_id = (
        SELECT friendship_id FROM relationship
        WHERE ((sender_id = one AND receiver_id = other)
                OR (sender_id = other AND receiver_id = one))
            AND LOWER(COALESCE(status, '')) IN ('friend', 'friends', 'friendship', 'accepted')
        ORDER BY friendship_id DESC LIMIT 1)
$$;

CREATE OR REPLACE FUNCTION end_follow(follower INTEGER, followed INTEGER, kind TEXT)
RETURNS VOID
LANGUAGE SQL AS $$
    UPDATE relationship SET status = kind, modified_at = NOW()
    WHERE friendship_id = (
        SELECT friendship_id FROM relationship
        WHERE sender_id = follower AND receiver_id = followed
            AND LOWER(COALESCE(status, '')) IN ('follow', 'following', 'follower')
        ORDER BY friendship_id DESC LIMIT 1)
$$;
