use bb8_redis::redis::Arg;
use redlight::cache::common::EntryKind;
use redlight::config::{CacheSettings, EntrySettings};
use redlight::entries::{
    ChannelEntry, EmojiEntry, GuildEntry, MemberEntry, MessageEntry, PartialMemberEntry,
    PresenceEntry, RoleEntry, UserEntry, VoiceStateEntry,
};
use redlight::key::RedisKey;
use redlight::pipe::Pipe;

fn settings(wanted: bool, expire: Option<u64>) -> CacheSettings {
    let e = EntrySettings { wanted, expire_seconds: expire };
    CacheSettings {
        channel: e,
        current_user: e,
        emoji: e,
        guild: e,
        integration: e,
        member: e,
        message: e,
        presence: e,
        role: e,
        scheduled_event: e,
        stage_instance: e,
        sticker: e,
        user: e,
        voice_state: e,
    }
}

fn cmds(pipe: &Pipe) -> Vec<Vec<String>> {
    pipe.pipeline()
        .cmd_iter()
        .map(|c| {
            c.args_iter()
                .map(|a| match a {
                    Arg::Simple(b) => String::from_utf8_lossy(b).into_owned(),
                    _ => String::from("<cursor>"),
                })
                .collect()
        })
        .collect()
}

fn c(args: &[&str]) -> Vec<String> {
    args.iter().map(|a| a.to_string()).collect()
}

fn user(id: u64) -> UserEntry {
    UserEntry { id, bytes: vec![b'u', id as u8] }
}

#[test]
fn store_user_sets_and_indexes() {
    let mut pipe = Pipe::new(settings(true, None));
    pipe.store_user(&user(5));
    assert_eq!(cmds(&pipe), vec![c(&["SET", "USER:5", "u\u{5}"]), c(&["SADD", "USERS", "5"])]);
}

#[test]
fn store_user_with_expiry_uses_setex() {
    let mut pipe = Pipe::new(settings(true, Some(60)));
    pipe.store_user(&user(5));
    assert_eq!(cmds(&pipe)[0], c(&["SETEX", "USER:5", "60", "u\u{5}"]));
}

#[test]
fn ignored_kinds_store_nothing() {
    let mut pipe = Pipe::new(settings(false, None));
    pipe.store_user(&user(5));
    pipe.store_member(3, &MemberEntry { user: user(5), bytes: vec![1] });
    assert!(pipe.is_empty());
}

#[test]
fn store_member_links_user_and_guild() {
    let mut pipe = Pipe::new(settings(true, None));
    pipe.store_member(3, &MemberEntry { user: user(5), bytes: b"m".to_vec() });
    assert_eq!(
        cmds(&pipe),
        vec![
            c(&["SET", "MEMBER:3:5", "m"]),
            c(&["SADD", "GUILD_MEMBERS:3", "5"]),
            c(&["SADD", "USER_GUILDS:5", "3"]),
            c(&["SET", "USER:5", "u\u{5}"]),
            c(&["SADD", "USERS", "5"]),
        ]
    );
}

#[test]
fn store_users_at_once_with_expiry() {
    let mut pipe = Pipe::new(settings(true, Some(30)));
    let a = user(1);
    let b = user(2);
    pipe.store_users(&[&a, &b]);
    assert_eq!(
        cmds(&pipe),
        vec![
            c(&["MSET", "USER:1", "u\u{1}", "USER:2", "u\u{2}"]),
            c(&["EXPIRE", "USER:1", "30"]),
            c(&["EXPIRE", "USER:2", "30"]),
            c(&["SADD", "USERS", "1", "2"]),
        ]
    );
}

#[test]
fn store_users_of_none_queues_nothing() {
    let mut pipe = Pipe::new(settings(true, None));
    pipe.store_users(&[]);
    assert!(pipe.is_empty());
}

#[test]
fn store_channel_with_guild_and_record() {
    let mut pipe = Pipe::new(settings(true, Some(10)));
    let channel = ChannelEntry {
        id: 7,
        guild_id: Some(2),
        bytes: b"ch".to_vec(),
        member: None,
        recipients: None,
    };
    pipe.store_channel(&channel);
    let got = cmds(&pipe);
    assert_eq!(got.len(), 4);
    assert_eq!(got[0], c(&["SETEX", "CHANNEL:7", "10", "ch"]));
    assert_eq!(got[1][0], "SET");
    assert_eq!(got[1][1], "CHANNEL_META:7");
    assert_eq!(got[2], c(&["SADD", "GUILD_CHANNELS:2", "7"]));
    assert_eq!(got[3], c(&["SADD", "CHANNELS", "7"]));
    let record = pipe.pipeline().cmd_iter().nth(1).unwrap().args_iter().nth(2).unwrap();
    match record {
        Arg::Simple(bytes) => {
            assert_eq!(bytes, rkyv::to_bytes::<rkyv::rancor::Error>(&2u64).unwrap().as_slice())
        }
        _ => panic!("no cursor"),
    }
}

#[test]
fn store_channel_stores_its_recipients() {
    let mut pipe = Pipe::new(settings(true, None));
    let channel = ChannelEntry {
        id: 7,
        guild_id: None,
        bytes: b"dm".to_vec(),
        member: None,
        recipients: Some(vec![user(1), user(2)]),
    };
    pipe.store_channel(&channel);
    assert_eq!(
        cmds(&pipe),
        vec![
            c(&["SET", "CHANNEL:7", "dm"]),
            c(&["SADD", "CHANNELS", "7"]),
            c(&["MSET", "USER:1", "u\u{1}", "USER:2", "u\u{2}"]),
            c(&["SADD", "USERS", "1", "2"]),
        ]
    );
}

#[test]
fn delete_channel_removes_entry_and_ids() {
    let mut pipe = Pipe::new(settings(true, Some(5)));
    pipe.delete_channel(Some(2), 7);
    assert_eq!(
        cmds(&pipe),
        vec![
            c(&["DEL", "CHANNEL:7"]),
            c(&["SREM", "GUILD_CHANNELS:2", "7"]),
            c(&["SREM", "CHANNELS", "7"]),
            c(&["DEL", "CHANNEL_META:7"]),
        ]
    );
}

fn message(guild: Option<u64>) -> MessageEntry {
    MessageEntry {
        id: 100,
        channel_id: 7,
        guild_id: guild,
        timestamp_micros: 1_700_000_000_000_000,
        bytes: b"msg".to_vec(),
        author: user(1),
        member: Some(PartialMemberEntry { user: Some(user(1)) }),
        mention_members: vec![PartialMemberEntry { user: None }, PartialMemberEntry { user: Some(user(2)) }],
        thread: None,
    }
}

#[test]
fn store_message_scores_by_negated_timestamp() {
    let mut pipe = Pipe::new(settings(true, None));
    let keys = pipe.store_message(&message(None), true);
    assert!(keys.is_empty());
    assert_eq!(
        cmds(&pipe),
        vec![
            c(&["SET", "MESSAGE:100", "msg"]),
            c(&["SADD", "MESSAGES", "100"]),
            c(&["ZADD", "CHANNEL_MESSAGES_META:7", "-1700000000000000", "100"]),
            c(&["SET", "USER:1", "u\u{1}"]),
            c(&["SADD", "USERS", "1"]),
        ]
    );
}

#[test]
fn store_message_in_guild_returns_members_to_update() {
    let mut pipe = Pipe::new(settings(true, None));
    let keys = pipe.store_message(&message(Some(3)), true);
    assert_eq!(
        keys,
        vec![RedisKey::Member { guild: 3, user: 1 }, RedisKey::Member { guild: 3, user: 2 }]
    );
    let mut pipe = Pipe::new(settings(true, None));
    let keys = pipe.store_message(&message(Some(3)), false);
    assert!(keys.is_empty());
}

#[test]
fn delete_messages_deletes_entries_and_records() {
    let mut pipe = Pipe::new(settings(true, Some(9)));
    pipe.delete_messages(&[1, 2], 7);
    assert_eq!(
        cmds(&pipe),
        vec![
            c(&["DEL", "MESSAGE:1", "MESSAGE_META:1", "MESSAGE:2", "MESSAGE_META:2"]),
            c(&["SREM", "MESSAGES", "1", "2"]),
            c(&["ZREM", "CHANNEL_MESSAGES_META:7", "1", "2"]),
        ]
    );
    let mut pipe = Pipe::new(settings(true, None));
    pipe.delete_messages(&[], 7);
    assert!(pipe.is_empty());
}

#[test]
fn store_roles_writes_records_first() {
    let mut pipe = Pipe::new(settings(true, Some(4)));
    pipe.store_roles(3, &[RoleEntry { id: 8, bytes: b"r".to_vec() }]);
    let got = cmds(&pipe);
    assert_eq!(got[0][1], "ROLE_META:8");
    assert_eq!(got[1], c(&["MSET", "ROLE:8", "r"]));
    assert_eq!(got[2], c(&["EXPIRE", "ROLE:8", "4"]));
    assert_eq!(got[3], c(&["SADD", "GUILD_ROLES:3", "8"]));
    assert_eq!(got[4], c(&["SADD", "ROLES", "8"]));
}

#[test]
fn store_keyed_one_and_delete_keyed() {
    let mut pipe = Pipe::new(settings(true, None));
    pipe.store_keyed_one(EntryKind::Sticker, 3, 9, b"s");
    pipe.delete_keyed(EntryKind::Sticker, 3, 9);
    assert_eq!(
        cmds(&pipe),
        vec![
            c(&["SET", "STICKER:9", "s"]),
            c(&["SADD", "GUILD_STICKERS:3", "9"]),
            c(&["SADD", "STICKERS", "9"]),
            c(&["DEL", "STICKER:9"]),
            c(&["SREM", "GUILD_STICKERS:3", "9"]),
            c(&["SREM", "STICKERS", "9"]),
        ]
    );
}

#[test]
fn store_voice_states_keeps_connected_only() {
    let mut pipe = Pipe::new(settings(true, None));
    let states = vec![
        VoiceStateEntry { user_id: 1, channel_id: Some(5), bytes: b"a".to_vec(), member: None },
        VoiceStateEntry { user_id: 2, channel_id: None, bytes: b"b".to_vec(), member: None },
    ];
    pipe.store_voice_states(3, &states);
    assert_eq!(
        cmds(&pipe),
        vec![c(&["MSET", "VOICE_STATE:3:1", "a"]), c(&["SADD", "GUILD_VOICE_STATES:3", "1"])]
    );
}

#[test]
fn store_presences_then_their_users() {
    let mut pipe = Pipe::new(settings(true, None));
    let presences = vec![
        PresenceEntry { guild_id: 3, user_id: 1, bytes: b"p".to_vec(), user: Some(user(1)) },
        PresenceEntry { guild_id: 3, user_id: 2, bytes: b"q".to_vec(), user: None },
    ];
    pipe.store_presences(3, &presences);
    assert_eq!(
        cmds(&pipe),
        vec![
            c(&["MSET", "PRESENCE:3:1", "p", "PRESENCE:3:2", "q"]),
            c(&["SADD", "GUILD_PRESENCES:3", "1", "2"]),
            c(&["MSET", "USER:1", "u\u{1}"]),
            c(&["SADD", "USERS", "1"]),
        ]
    );
}

#[test]
fn store_guild_entry_and_parts() {
    let mut pipe = Pipe::new(settings(true, None));
    let guild = GuildEntry {
        id: 3,
        bytes: b"g".to_vec(),
        channels: vec![],
        emojis: vec![EmojiEntry { id: 4, bytes: b"e".to_vec() }],
        members: vec![],
        presences: vec![],
        roles: vec![],
        stickers: vec![],
        threads: vec![],
        stage_instances: vec![],
        voice_states: vec![],
    };
    pipe.store_guild(&guild);
    assert_eq!(
        cmds(&pipe),
        vec![
            c(&["SET", "GUILD:3", "g"]),
            c(&["SADD", "GUILDS", "3"]),
            c(&["SREM", "UNAVAILABLE_GUILDS", "3"]),
            c(&["MSET", "EMOJI:4", "e"]),
            c(&["SADD", "GUILD_EMOJIS:3", "4"]),
            c(&["SADD", "EMOJIS", "4"]),
        ]
    );
}

#[test]
fn partial_member_without_user_does_nothing() {
    let mut pipe = Pipe::new(settings(true, None));
    let key = pipe.store_partial_member(3, &PartialMemberEntry { user: None }, true);
    assert_eq!(key, None);
    assert!(pipe.is_empty());
}

#[test]
fn partial_user_is_fetched_when_asked() {
    let mut pipe = Pipe::new(settings(true, None));
    assert_eq!(pipe.store_partial_user(4, true), Some(RedisKey::User { id: 4 }));
    assert_eq!(pipe.store_partial_user(4, false), None);
    assert_eq!(cmds(&pipe), vec![c(&["SADD", "USERS", "4"]), c(&["SADD", "USERS", "4"])]);
}

#[test]
fn delete_member_in_two_steps() {
    let mut pipe = Pipe::new(settings(true, None));
    assert!(pipe.delete_member_start(3, 5));
    pipe.clear();
    pipe.delete_member_finish(3, 5, 0);
    assert_eq!(
        cmds(&pipe),
        vec![
            c(&["DEL", "USER:5"]),
            c(&["SREM", "USERS", "5"]),
            c(&["DEL", "MEMBER:3:5"]),
            c(&["SREM", "GUILD_MEMBERS:3", "5"]),
        ]
    );
    let mut pipe = Pipe::new(settings(true, None));
    pipe.delete_member_finish(3, 5, 2);
    assert_eq!(cmds(&pipe), vec![c(&["DEL", "MEMBER:3:5"]), c(&["SREM", "GUILD_MEMBERS:3", "5"])]);
}
