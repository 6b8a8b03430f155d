DELETE FROM discovered_instance di WHERE NOT EXISTS (SELECT 1 FROM ap_remote_actor ra WHERE
    LOWER(COALESCE(NULLIF(ra.host, ''), '')) = di.host OR ra.actor_id ILIKE ('https://' || di.host
    || '/%') OR ra.actor_id ILIKE ('http://' || di.host || '/%'));
