CREATE TABLE IF NOT EXISTS discovered_instance (
    host TEXT PRIMARY KEY,
    protocol TEXT NOT NULL DEFAULT 'Other ActivityPub',
    status TEXT NOT NULL DEFAULT 'discovered',
    discovered_at TIMESTAMPTZ NOT NULL DEFAULT CURRENT_TIMESTAMP,
    last_seen_at TIMESTAMPTZ NOT NULL DEFAULT CURRENT_TIMESTAMP
);
ALTER TABLE discovered_instance ADD COLUMN IF NOT EXISTS status TEXT NOT NULL DEFAULT
    'discovered';
CREATE INDEX IF NOT EXISTS discovered_instance_status_last_seen_idx ON discovered_instance
    (status, last_seen_at DESC, host ASC);
CREATE TABLE IF NOT EXISTS ap_remote_actor (
    actor_id TEXT PRIMARY KEY,
    preferred_username TEXT NOT NULL DEFAULT '',
    display_name TEXT NOT NULL DEFAULT '',
    summary TEXT NOT NULL DEFAULT '',
    inbox_url TEXT NOT NULL DEFAULT '',
    shared_inbox_url TEXT NOT NULL DEFAULT '',
    outbox_url TEXT NOT NULL DEFAULT '',
    followers_url TEXT NOT NULL DEFAULT '',
    following_url TEXT NOT NULL DEFAULT '',
    public_key_pem TEXT NOT NULL DEFAULT '',
    icon_url TEXT NOT NULL DEFAULT '',
    last_refreshed_at TIMESTAMPTZ DEFAULT CURRENT_TIMESTAMP
);
ALTER TABLE ap_remote_actor ADD COLUMN IF NOT EXISTS host TEXT NOT NULL DEFAULT '', ADD COLUMN IF
    NOT EXISTS status TEXT NOT NULL DEFAULT 'discovered', ADD COLUMN IF NOT EXISTS discovered_at
    TIMESTAMPTZ NOT NULL DEFAULT CURRENT_TIMESTAMP;
UPDATE ap_remote_actor SET host = LOWER(REGEXP_REPLACE(actor_id, '^[a-z]+://([^/]+)/?.*$', '\1'))
    WHERE BTRIM(COALESCE(host, '')) = '' AND actor_id ~ '^[a-z]+://';
CREATE TABLE IF NOT EXISTS ap_remote_follow (
    local_user_id INTEGER NOT NULL REFERENCES users(id) ON DELETE CASCADE,
    remote_actor_id TEXT NOT NULL,
    activity_id TEXT NOT NULL DEFAULT '',
    status TEXT NOT NULL DEFAULT 'accepted',
    created_at TIMESTAMPTZ NOT NULL DEFAULT CURRENT_TIMESTAMP,
    updated_at TIMESTAMPTZ NOT NULL DEFAULT CURRENT_TIMESTAMP,
    PRIMARY KEY (local_user_id, remote_actor_id)
);
CREATE TABLE IF NOT EXISTS ap_remote_post (
    object_id TEXT PRIMARY KEY,
    activity_id TEXT NOT NULL DEFAULT '',
    actor_id TEXT NOT NULL,
    host TEXT NOT NULL DEFAULT '',
    content TEXT NOT NULL DEFAULT '',
    url TEXT NOT NULL DEFAULT '',
    published_at TIMESTAMPTZ,
    discovered_at TIMESTAMPTZ NOT NULL DEFAULT CURRENT_TIMESTAMP,
    updated_at TIMESTAMPTZ NOT NULL DEFAULT CURRENT_TIMESTAMP
);
CREATE INDEX IF NOT EXISTS idx_ap_remote_post_actor_updated ON ap_remote_post(actor_id, updated_at
    DESC);
CREATE INDEX IF NOT EXISTS idx_ap_remote_post_host_updated ON ap_remote_post(host, updated_at
    DESC);
CREATE INDEX IF NOT EXISTS idx_ap_remote_follow_activity_id ON ap_remote_follow(activity_id);
UPDATE discovered_instance SET status = CASE
    WHEN LOWER(COALESCE(status, '')) IN ('limited', 'limit') THEN 'limited'
    WHEN LOWER(COALESCE(status, '')) IN ('blocked', 'block', 'ban', 'banned') THEN 'ban'
    ELSE 'discovered' END;
UPDATE ap_remote_actor SET status = CASE
    WHEN LOWER(COALESCE(status, '')) IN ('limited', 'limit') THEN 'limited'
    WHEN LOWER(COALESCE(status, '')) IN ('blocked', 'block', 'ban', 'banned') THEN 'ban'
    ELSE 'discovered' END;

-- The servers and the users that moderators look after, restricted ones first.
CREATE OR REPLACE VIEW moderated_instance AS
SELECT di.host, COALESCE(NULLIF(di.protocol, ''), 'Other ActivityPub') AS protocol,
    COALESCE(di.status, '') AS status,
    COALESCE(TO_CHAR(di.discovered_at, 'YYYY-MM-DD HH24:MI'), '') AS discovered_at,
    COALESCE(TO_CHAR(di.last_seen_at, 'YYYY-MM-DD HH24:MI'), '') AS last_seen_at,
    (SELECT COUNT(*) FROM ap_remote_actor ra
        WHERE ra.actor_id ILIKE ('https://' || di.host || '/%')
        OR ra.actor_id ILIKE ('http://' || di.host || '/%')) AS remote_actor_count
FROM discovered_instance di
ORDER BY CASE LOWER(COALESCE(di.status, '')) WHEN 'ban' THEN 0 WHEN 'limited' THEN 1 ELSE 2 END,
    di.last_seen_at DESC, di.host ASC;

CREATE OR REPLACE VIEW moderated_remote_user AS
SELECT actor_id, host, preferred_username, display_name, COALESCE(status, '') AS status,
    COALESCE(TO_CHAR(discovered_at, 'YYYY-MM-DD HH24:MI'), '') AS discovered_at,
    COALESCE(TO_CHAR(last_refreshed_at, 'YYYY-MM-DD HH24:MI'), '') AS last_seen_at,
    COALESCE(NULLIF(icon_url, ''), '/public/avatar.webp') AS profile_photo_url
FROM ap_remote_actor
ORDER BY CASE LOWER(COALESCE(status, '')) WHEN 'ban' THEN 0 WHEN 'limited' THEN 1 ELSE 2 END,
    last_refreshed_at DESC NULLS LAST, actor_id ASC;

-- The local users who take part in federation.
CREATE OR REPLACE VIEW local_actor AS
SELECT id AS user_id, username, preferred_username,
    COALESCE(NULLIF(federation_display_name_mode, ''), 'full_name')
        AS federation_display_name_mode,
    first_name, COALESCE(first_name_public, TRUE) AS first_name_public,
    last_name, COALESCE(last_name_public, TRUE) AS last_name_public,
    bio_description, profile_photo_url, background_photo_url, created_at,
    ap_id, ap_inbox, ap_outbox, ap_public_key, ap_private_key
FROM users
WHERE COALESCE(federation_enabled, TRUE);

CREATE OR REPLACE FUNCTION find_local_actor(name TEXT) RETURNS SETOF local_actor
LANGUAGE SQL STABLE AS $$
    SELECT * FROM local_actor
    WHERE LOWER(preferred_username) = LOWER(name) OR LOWER(username) = LOWER(name)
    ORDER BY CASE WHEN LOWER(preferred_username) = LOWER(name) THEN 0 ELSE 1 END
    LIMIT 1
$$;

-- The users of other servers.
CREATE OR REPLACE VIEW remote_actor AS
SELECT actor_id, COALESCE(host, '') AS host, preferred_username, display_name, summary,
    inbox_url, shared_inbox_url, outbox_url, followers_url, following_url, public_key_pem,
    icon_url, LOWER(COALESCE(NULLIF(status, ''), 'discovered')) AS status, discovered_at,
    last_refreshed_at
FROM ap_remote_actor;

CREATE OR REPLACE FUNCTION find_remote_actor(name TEXT, at_host TEXT) RETURNS SETOF remote_actor
LANGUAGE SQL STABLE AS $$
    SELECT * FROM remote_actor
    WHERE LOWER(preferred_username) = LOWER(name)
        AND (actor_id ILIKE ('https://' || at_host || '/%')
            OR actor_id ILIKE ('http://' || at_host || '/%'))
    ORDER BY last_refreshed_at DESC NULLS LAST
    LIMIT 1
$$;

CREATE OR REPLACE FUNCTION find_remote_profile(name TEXT, at_host TEXT)
RETURNS TABLE (actor_id TEXT, preferred_username TEXT, display_name TEXT, summary TEXT,
    icon_url TEXT, host TEXT)
LANGUAGE SQL STABLE AS $$
    SELECT a.actor_id, a.preferred_username, a.display_name, a.summary,
        COALESCE(NULLIF(a.icon_url, ''), '/public/avatar.webp'),
        COALESCE(NULLIF(a.host, ''), at_host)
    FROM remote_actor a
    WHERE a.status = 'discovered'
        AND LOWER(a.preferred_username) = LOWER(name)
        AND (LOWER(a.host) = LOWER(at_host)
            OR a.actor_id ILIKE ('https://' || at_host || '/%')
            OR a.actor_id ILIKE ('http://' || at_host || '/%'))
    LIMIT 1
$$;

CREATE OR REPLACE FUNCTION search_remote_users(pattern TEXT, name TEXT, at_host TEXT)
RETURNS SETOF remote_actor
LANGUAGE SQL STABLE AS $$
    SELECT * FROM remote_actor
    WHERE status = 'discovered'
        AND BTRIM(COALESCE(preferred_username, '')) <> ''
        AND (LOWER(preferred_username || '@' || host) LIKE pattern
            OR LOWER('@' || preferred_username || '@' || host) LIKE pattern
            OR LOWER(preferred_username) LIKE pattern
            OR LOWER(display_name) LIKE pattern
            OR LOWER(summary) LIKE pattern)
    ORDER BY CASE WHEN LOWER(preferred_username) = LOWER(name) AND LOWER(host) = LOWER(at_host)
            THEN 0 ELSE 1 END,
        last_refreshed_at DESC NULLS LAST, actor_id ASC
    LIMIT 20
$$;

CREATE OR REPLACE FUNCTION search_remote_posts(pattern TEXT)
RETURNS TABLE (object_id TEXT, post_url TEXT, content TEXT, created_at TEXT, actor_id TEXT,
    preferred_username TEXT, display_name TEXT, icon_url TEXT)
LANGUAGE SQL STABLE AS $$
    SELECT rp.object_id, COALESCE(NULLIF(rp.url, ''), rp.object_id), COALESCE(rp.content, ''),
        TO_CHAR(COALESCE(rp.published_at, rp.discovered_at), 'YYYY-MM-DD HH24:MI'),
        ra.actor_id, ra.preferred_username, ra.display_name, ra.icon_url
    FROM ap_remote_post rp
    JOIN remote_actor ra ON ra.actor_id = rp.actor_id
    LEFT JOIN discovered_instance di ON di.host = COALESCE(NULLIF(rp.host, ''), ra.host)
    WHERE ra.status = 'discovered'
        AND LOWER(COALESCE(NULLIF(di.status, ''), 'discovered')) = 'discovered'
        AND (LOWER(COALESCE(rp.content, '')) LIKE pattern
            OR LOWER(COALESCE(rp.url, '')) LIKE pattern
            OR LOWER(COALESCE(ra.preferred_username, '')) LIKE pattern
            OR LOWER(COALESCE(ra.display_name, '')) LIKE pattern)
    ORDER BY COALESCE(rp.published_at, rp.discovered_at) DESC, rp.object_id DESC
    LIMIT 40
$$;

-- A server that was heard of; what is known of it stays.
CREATE OR REPLACE FUNCTION store_instance(new_host TEXT, new_protocol TEXT) RETURNS VOID
LANGUAGE SQL AS $$
    INSERT INTO discovered_instance (host, protocol, status, discovered_at, last_seen_at)
    VALUES (new_host, new_protocol, 'discovered', CURRENT_TIMESTAMP, CURRENT_TIMESTAMP)
    ON CONFLICT (host) DO UPDATE SET
        protocol = COALESCE(NULLIF(discovered_instance.protocol, ''), EXCLUDED.protocol),
        last_seen_at = CURRENT_TIMESTAMP
$$;

-- A remote user that was heard of; the status that moderators gave stays.
CREATE OR REPLACE FUNCTION store_remote_actor(TEXT, TEXT, TEXT, TEXT, TEXT, TEXT, TEXT, TEXT,
    TEXT, TEXT, TEXT, TEXT) RETURNS VOID
LANGUAGE SQL AS $$
    INSERT INTO ap_remote_actor (actor_id, host, preferred_username, display_name, summary,
        inbox_url, shared_inbox_url, outbox_url, followers_url, following_url, public_key_pem,
        icon_url, status, discovered_at, last_refreshed_at)
    VALUES ($1, $2, $3, $4, $5, $6, $7, $8, $9, $10, $11, $12, 'discovered', CURRENT_TIMESTAMP,
        CURRENT_TIMESTAMP)
    ON CONFLICT (actor_id) DO UPDATE SET
        host = EXCLUDED.host,
        preferred_username = EXCLUDED.preferred_username,
        display_name = EXCLUDED.display_name,
        summary = EXCLUDED.summary,
        inbox_url = EXCLUDED.inbox_url,
        shared_inbox_url = EXCLUDED.shared_inbox_url,
        outbox_url = EXCLUDED.outbox_url,
        followers_url = EXCLUDED.followers_url,
        following_url = EXCLUDED.following_url,
        public_key_pem = EXCLUDED.public_key_pem,
        icon_url = EXCLUDED.icon_url,
        status = COALESCE(NULLIF(ap_remote_actor.status, ''), 'discovered'),
        last_refreshed_at = CURRENT_TIMESTAMP
$$;

CREATE OR REPLACE FUNCTION store_remote_post(TEXT, TEXT, TEXT, TEXT, TEXT, TEXT, TIMESTAMPTZ)
RETURNS VOID
LANGUAGE SQL AS $$
    INSERT INTO ap_remote_post (object_id, activity_id, actor_id, host, content, url,
        published_at, discovered_at, updated_at)
    VALUES ($1, $2, $3, $4, $5, $6, $7, CURRENT_TIMESTAMP, CURRENT_TIMESTAMP)
    ON CONFLICT (object_id) DO UPDATE SET
        activity_id = EXCLUDED.activity_id,
        actor_id = EXCLUDED.actor_id,
        host = EXCLUDED.host,
        content = EXCLUDED.content,
        url = EXCLUDED.url,
        published_at = EXCLUDED.published_at,
        updated_at = CURRENT_TIMESTAMP
$$;

CREATE OR REPLACE FUNCTION store_remote_follow(INTEGER, TEXT, TEXT) RETURNS VOID
LANGUAGE SQL AS $$
    INSERT INTO ap_remote_follow (local_user_id, remote_actor_id, activity_id, status,
        created_at, updated_at)
    VALUES ($1, $2, $3, 'accepted', CURRENT_TIMESTAMP, CURRENT_TIMESTAMP)
    ON CONFLICT (local_user_id, remote_actor_id) DO UPDATE SET
        activity_id = EXCLUDED.activity_id,
        status = 'accepted',
        updated_at = CURRENT_TIMESTAMP
$$;

-- The addresses of those who follow a user, local ones first.
CREATE OR REPLACE FUNCTION follower_addresses(followed INTEGER) RETURNS SETOF TEXT
LANGUAGE SQL STABLE AS $$
    (SELECT u.ap_id::TEXT FROM relationship r JOIN users u ON u.id = r.sender_id
        WHERE r.receiver_id = followed
            AND LOWER(COALESCE(r.status, '')) IN ('follow', 'following', 'follower')
            AND COALESCE(u.ap_id, '') <> ''
        ORDER BY r.friendship_id DESC)
    UNION ALL
    (SELECT remote_actor_id FROM ap_remote_follow
        WHERE local_user_id = followed AND status = 'accepted'
        ORDER BY created_at DESC)
$$;

CREATE OR REPLACE FUNCTION following_addresses(follower INTEGER) RETURNS SETOF TEXT
LANGUAGE SQL STABLE AS $$
    SELECT u.ap_id::TEXT FROM relationship r JOIN users u ON u.id = r.receiver_id
    WHERE r.sender_id = follower
        AND LOWER(COALESCE(r.status, '')) IN ('follow', 'following', 'follower')
        AND COALESCE(u.ap_id, '') <> ''
    ORDER BY r.friendship_id DESC
$$;

-- The inboxes of the remote followers of a user, but for banned ones.
CREATE OR REPLACE FUNCTION follower_inboxes(followed INTEGER) RETURNS SETOF TEXT
LANGUAGE SQL STABLE AS $$
    SELECT DISTINCT COALESCE(NULLIF(ra.shared_inbox_url, ''), ra.inbox_url) AS inbox_url
    FROM ap_remote_follow rf
    JOIN remote_actor ra ON ra.actor_id = rf.remote_actor_id
    LEFT JOIN discovered_instance di ON di.host = ra.host
    WHERE rf.local_user_id = followed
        AND rf.status = 'accepted'
        AND COALESCE(NULLIF(ra.inbox_url, ''), '') <> ''
        AND ra.status <> 'ban'
        AND LOWER(COALESCE(NULLIF(di.status, ''), 'discovered')) <> 'ban'
    ORDER BY inbox_url ASC
$$;

-- The inboxes that new posts go to: of users and servers without a restriction.
CREATE OR REPLACE VIEW subscribed_inbox AS
SELECT DISTINCT COALESCE(NULLIF(ra.shared_inbox_url, ''), ra.inbox_url) AS inbox_url
FROM remote_actor ra
LEFT JOIN discovered_instance di ON di.host = COALESCE(NULLIF(ra.host, ''),
    LOWER(REGEXP_REPLACE(ra.actor_id, '^[a-z]+://([^/]+)/?.*$', '\1')))
WHERE COALESCE(NULLIF(ra.inbox_url, ''), '') <> ''
    AND ra.status = 'discovered'
    AND LOWER(COALESCE(NULLIF(di.status, ''), 'discovered')) = 'discovered'
ORDER BY inbox_url ASC;

-- The status that a moderator gives to a server.
CREATE OR REPLACE FUNCTION set_instance_status(new_host TEXT, new_status TEXT) RETURNS VOID
LANGUAGE SQL AS $$
    INSERT INTO discovered_instance (host, protocol, status, discovered_at, last_seen_at)
    VALUES (new_host, 'Other ActivityPub', new_status, CURRENT_TIMESTAMP, CURRENT_TIMESTAMP)
    ON CONFLICT (host) DO UPDATE
        SET status = EXCLUDED.status, last_seen_at = CURRENT_TIMESTAMP
$$;
