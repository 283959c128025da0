use redlight::decimal::atoi;
use redlight::key::RedisKey;
use redlight::meta::MetaKey;
use redlight::segments::split_colon;

fn text(key: RedisKey) -> String {
    String::from_utf8(key.to_bytes()).unwrap()
}

/// The decimal text of an id, as a key writes it.
fn id_text(id: u64) -> Vec<u8> {
    let bytes = RedisKey::User { id }.to_bytes();
    let colon = bytes.iter().position(|&b| b == b':').unwrap();
    bytes[colon + 1..].to_vec()
}

#[test]
fn ids_are_written_as_shortest_decimal() {
    assert_eq!(id_text(0), b"0".to_vec());
    assert_eq!(id_text(7), b"7".to_vec());
    assert_eq!(id_text(1234567890), b"1234567890".to_vec());
    assert_eq!(id_text(u64::MAX), b"18446744073709551615".to_vec());
}

#[test]
fn atoi_reads_nonzero_ids() {
    assert_eq!(atoi(b"42"), Some(42));
    assert_eq!(atoi(b"0042"), Some(42));
    assert_eq!(atoi(b"18446744073709551615"), Some(u64::MAX));
    assert_eq!(atoi(b"18446744073709551616"), None);
    assert_eq!(atoi(b"0"), None);
    assert_eq!(atoi(b""), None);
    assert_eq!(atoi(b"12a"), None);
    assert_eq!(atoi(b"-1"), None);
}

#[test]
fn atoi_reads_back_formatted_ids() {
    for id in [1u64, 9, 10, 99, 100, 123456789012345678, u64::MAX] {
        assert_eq!(atoi(&id_text(id)), Some(id));
    }
}

#[test]
fn keys_with_one_id() {
    assert_eq!(text(RedisKey::Channel { id: 123 }), "CHANNEL:123");
    assert_eq!(text(RedisKey::ChannelMessages { channel: 5 }), "CHANNEL_MESSAGES_META:5");
    assert_eq!(text(RedisKey::ChannelMeta { id: 9 }), "CHANNEL_META:9");
    assert_eq!(text(RedisKey::Guild { id: 1 }), "GUILD:1");
    assert_eq!(text(RedisKey::GuildMembers { id: 77 }), "GUILD_MEMBERS:77");
    assert_eq!(text(RedisKey::UserGuilds { id: 3 }), "USER_GUILDS:3");
    assert_eq!(text(RedisKey::Message { id: 0 }), "MESSAGE:0");
}

#[test]
fn keys_with_guild_and_id() {
    assert_eq!(text(RedisKey::Member { guild: 1, user: 2 }), "MEMBER:1:2");
    assert_eq!(text(RedisKey::Integration { guild: 10, id: 20 }), "INTEGRATION:10:20");
    assert_eq!(text(RedisKey::Presence { guild: 3, user: 4 }), "PRESENCE:3:4");
    assert_eq!(text(RedisKey::VoiceState { guild: 5, user: 6 }), "VOICE_STATE:5:6");
}

#[test]
fn plain_keys() {
    assert_eq!(text(RedisKey::Channels), "CHANNELS");
    assert_eq!(text(RedisKey::CurrentUser), "CURRENT_USER");
    assert_eq!(text(RedisKey::UnavailableGuilds), "UNAVAILABLE_GUILDS");
    assert_eq!(text(RedisKey::Sessions), "SESSIONS");
    assert_eq!(text(RedisKey::Users), "USERS");
}

#[test]
fn prefix_is_the_first_word() {
    assert_eq!(RedisKey::Member { guild: 1, user: 2 }.prefix(), b"MEMBER".to_vec());
    assert_eq!(RedisKey::StageInstanceMeta { id: 2 }.prefix(), b"STAGE_INSTANCE_META".to_vec());
}

#[test]
fn split_colon_splits_every_colon() {
    assert_eq!(split_colon(b"A:1:2"), vec![b"A".to_vec(), b"1".to_vec(), b"2".to_vec()]);
    assert_eq!(split_colon(b"A"), vec![b"A".to_vec()]);
    assert_eq!(split_colon(b":"), vec![Vec::new(), Vec::new()]);
}

#[test]
fn meta_key_parses_entry_keys() {
    assert_eq!(MetaKey::parse(b"CHANNEL:123"), Some(MetaKey::Channel { channel: 123 }));
    assert_eq!(MetaKey::parse(b"EMOJI:1"), Some(MetaKey::Emoji { emoji: 1 }));
    assert_eq!(MetaKey::parse(b"GUILD:8"), Some(MetaKey::Guild { guild: 8 }));
    assert_eq!(
        MetaKey::parse(b"INTEGRATION:1:2"),
        Some(MetaKey::Integration { guild: 1, integration: 2 })
    );
    assert_eq!(MetaKey::parse(b"MEMBER:3:4"), Some(MetaKey::Member { guild: 3, user: 4 }));
    assert_eq!(MetaKey::parse(b"MESSAGE:5"), Some(MetaKey::Message { msg: 5 }));
    assert_eq!(MetaKey::parse(b"PRESENCE:6:7"), Some(MetaKey::Presence { guild: 6, user: 7 }));
    assert_eq!(MetaKey::parse(b"ROLE:8"), Some(MetaKey::Role { role: 8 }));
    assert_eq!(MetaKey::parse(b"STAGE_INSTANCE:9"), Some(MetaKey::StageInstance { stage: 9 }));
    assert_eq!(MetaKey::parse(b"STICKER:10"), Some(MetaKey::Sticker { sticker: 10 }));
    assert_eq!(MetaKey::parse(b"USER:11"), Some(MetaKey::User { user: 11 }));
    assert_eq!(
        MetaKey::parse(b"VOICE_STATE:12:13"),
        Some(MetaKey::VoiceState { guild: 12, user: 13 })
    );
}

#[test]
fn meta_key_refuses_other_keys() {
    assert_eq!(MetaKey::parse(b"CHANNELS"), None);
    assert_eq!(MetaKey::parse(b"GUILD_CHANNELS:5"), None);
    assert_eq!(MetaKey::parse(b"CHANNEL_META:5"), None);
    assert_eq!(MetaKey::parse(b"CHANNEL:0"), None);
    assert_eq!(MetaKey::parse(b"CHANNEL:x"), None);
    assert_eq!(MetaKey::parse(b"CHANNEL"), None);
    assert_eq!(MetaKey::parse(b"MEMBER:3"), None);
    assert_eq!(MetaKey::parse(b""), None);
    assert_eq!(MetaKey::parse(b"channel:1"), None);
}

#[test]
fn expired_key_reads_back_as_its_entry() {
    let keys = [
        (RedisKey::Channel { id: 42 }, MetaKey::Channel { channel: 42 }),
        (RedisKey::Member { guild: 1, user: 2 }, MetaKey::Member { guild: 1, user: 2 }),
        (RedisKey::VoiceState { guild: 9, user: 8 }, MetaKey::VoiceState { guild: 9, user: 8 }),
        (RedisKey::Message { id: u64::MAX }, MetaKey::Message { msg: u64::MAX }),
    ];
    for (key, meta) in keys {
        assert_eq!(MetaKey::parse(&key.to_bytes()), Some(meta));
    }
    assert_eq!(MetaKey::parse(&RedisKey::GuildRoles { id: 3 }.to_bytes()), None);
}

#[test]
fn distinct_keys_have_distinct_texts() {
    let keys = [
        RedisKey::User { id: 1 },
        RedisKey::Users,
        RedisKey::UserGuilds { id: 1 },
        RedisKey::Member { guild: 1, user: 11 },
        RedisKey::Member { guild: 11, user: 1 },
        RedisKey::Guild { id: 1 },
        RedisKey::Guilds,
        RedisKey::GuildMembers { id: 1 },
        RedisKey::Role { id: 1 },
        RedisKey::RoleMeta { id: 1 },
        RedisKey::Roles,
        RedisKey::Channel { id: 0 },
        RedisKey::Channel { id: 10 },
    ];
    let texts: std::collections::BTreeSet<Vec<u8>> = keys.iter().map(|k| k.to_bytes()).collect();
    assert_eq!(texts.len(), keys.len());
}
