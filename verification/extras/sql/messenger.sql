-- The newest message of a chat.
CREATE OR REPLACE FUNCTION last_message(chat INTEGER)
RETURNS TABLE (msg TEXT, sender INTEGER, created_at TIMESTAMP, attachment_count BIGINT)
LANGUAGE SQL STABLE AS $$
SELECT m.msg::TEXT, m.sender, m.created_at,
    (SELECT COUNT(*) FROM message_attachment ma WHERE ma.msg_id = m.msg_id)
FROM messages m WHERE m.chat_id = chat
ORDER BY COALESCE(m.created_at, '1970-01-01'::timestamp) DESC, m.msg_id DESC LIMIT 1
$$;

-- The conversations of a user with others, newest first.
CREATE OR REPLACE FUNCTION messenger_conversations(viewer INTEGER)
RETURNS TABLE (user_id INTEGER, user_public_id BIGINT, username TEXT, profile_photo_url TEXT,
    profile_photo_style TEXT, last_message TEXT, last_sender_id INTEGER,
    last_attachment_count BIGINT, last_time TEXT)
LANGUAGE SQL STABLE AS $$
SELECT rel.counterpart_id, u.public_id, u.username::TEXT,
    COALESCE(NULLIF(u.profile_photo_url, ''), '/public/avatar.webp')::TEXT,
    COALESCE(u.profile_photo_style, '')::TEXT, COALESCE(lm.msg, ''), lm.sender,
    COALESCE(lm.attachment_count, 0),
    COALESCE(lm.created_at::TEXT, rel.modified_at::TEXT, rel.created_at::TEXT, '')
FROM (
    SELECT DISTINCT ON (counterpart_id) * FROM (
        SELECT CASE WHEN r.sender_id = viewer THEN r.receiver_id ELSE r.sender_id END
                AS counterpart_id,
            r.friendship_id, LOWER(COALESCE(r.status, '')) AS relationship_status,
            r.modified_at, r.created_at
        FROM relationship r WHERE r.sender_id = viewer OR r.receiver_id = viewer
    ) relationship_history
    ORDER BY counterpart_id, friendship_id DESC
) rel
JOIN users u ON u.id = rel.counterpart_id
LEFT JOIN LATERAL (
    SELECT c.chat_id FROM chat c
    JOIN relationship r_chat ON c.chat_type = 'friendship'
        AND c.chat_title = r_chat.friendship_id
    WHERE (r_chat.sender_id = viewer AND r_chat.receiver_id = rel.counterpart_id)
        OR (r_chat.sender_id = rel.counterpart_id AND r_chat.receiver_id = viewer)
    ORDER BY c.chat_id DESC LIMIT 1
) direct_chat ON TRUE
LEFT JOIN LATERAL last_message(direct_chat.chat_id) lm ON TRUE
WHERE rel.relationship_status NOT IN ('blocked', 'block')
    AND (rel.relationship_status IN
            ('friend', 'friends', 'friendship', 'accepted', 'removed', 'remove')
        OR direct_chat.chat_id IS NOT NULL)
ORDER BY COALESCE(lm.created_at, rel.modified_at, rel.created_at) DESC, rel.friendship_id DESC
$$;

-- The groups of a user, newest first.
CREATE OR REPLACE FUNCTION messenger_groups(viewer INTEGER)
RETURNS TABLE (chat_id INTEGER, group_name TEXT, last_message TEXT, last_sender_id INTEGER,
    last_attachment_count BIGINT, last_time TEXT)
LANGUAGE SQL STABLE AS $$
SELECT g.chat_id, COALESCE(NULLIF(g.group_name, ''), (
        SELECT STRING_AGG(u2.username, ', ' ORDER BY cm2.joined_at ASC)
        FROM chat_member cm2 JOIN users u2 ON u2.id = cm2.user_id
        WHERE cm2.chat_id = g.chat_id))::TEXT,
    COALESCE(lm.msg, ''), lm.sender, COALESCE(lm.attachment_count, 0),
    COALESCE(lm.created_at::TEXT, g.modified_at::TEXT, g.created_at::TEXT, '')
FROM chat_group g
JOIN chat_member cm ON cm.chat_id = g.chat_id AND cm.user_id = viewer
LEFT JOIN LATERAL last_message(g.chat_id) lm ON TRUE
ORDER BY COALESCE(lm.created_at, g.modified_at, g.created_at) DESC, g.chat_id DESC
$$;
