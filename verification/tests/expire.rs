use bb8_redis::redis::Arg;
use redlight::config::{CacheSettings, EntrySettings};
use redlight::error::ExpireError;
use redlight::key::RedisKey;
use redlight::listen::{is_expire_channel, prepare_setting, ExpireAction};
use redlight::meta::MetaKey;
use redlight::pipe::Pipe;

fn settings() -> CacheSettings {
    let e = EntrySettings { wanted: true, expire_seconds: Some(60) };
    CacheSettings {
        channel: e,
        current_user: e,
        emoji: e,
        guild: e,
        integration: e,
        member: e,
        message: e,
        presence: e,
        role: e,
        scheduled_event: e,
        stage_instance: e,
        sticker: e,
        user: e,
        voice_state: e,
    }
}

fn cmds(pipe: &Pipe) -> Vec<Vec<String>> {
    pipe.pipeline()
        .cmd_iter()
        .map(|c| {
            c.args_iter()
                .map(|a| match a {
                    Arg::Simple(b) => String::from_utf8_lossy(b).into_owned(),
                    _ => String::from("<cursor>"),
                })
                .collect()
        })
        .collect()
}

/// The record of an id, archived by `rkyv` as the cache writes it.
fn archive_id(v: u64) -> Vec<u8> {
    rkyv::to_bytes::<rkyv::rancor::Error>(&v).unwrap().to_vec()
}

fn c(args: &[&str]) -> Vec<String> {
    args.iter().map(|a| a.to_string()).collect()
}

#[test]
fn records_read_back_as_their_id() {
    for v in [1u64, 42, u64::MAX] {
        let mut pipe = Pipe::new(settings());
        let res = pipe.expire_with_record(MetaKey::Emoji { emoji: 3 }, &Some(archive_id(v)));
        assert_eq!(res, Ok(()));
        assert_eq!(
            cmds(&pipe),
            vec![c(&["SREM", &format!("GUILD_EMOJIS:{v}"), "3"]), c(&["SREM", "EMOJIS", "3"])]
        );
    }
}

#[test]
fn channel_expiry_with_guild_record() {
    let mut pipe = Pipe::new(settings());
    let res = pipe.expire_with_record(MetaKey::Channel { channel: 7 }, &Some(archive_id(2)));
    assert_eq!(res, Ok(()));
    assert_eq!(cmds(&pipe), vec![c(&["SREM", "GUILD_CHANNELS:2", "7"]), c(&["SREM", "CHANNELS", "7"])]);
}

#[test]
fn channel_expiry_without_guild_record() {
    let mut pipe = Pipe::new(settings());
    pipe.expire_archived(MetaKey::Channel { channel: 7 }, 0);
    assert_eq!(cmds(&pipe), vec![c(&["SREM", "CHANNELS", "7"])]);
}

#[test]
fn message_expiry_leaves_its_channel() {
    let mut pipe = Pipe::new(settings());
    let res = pipe.expire_with_record(MetaKey::Message { msg: 100 }, &Some(archive_id(7)));
    assert_eq!(res, Ok(()));
    assert_eq!(
        cmds(&pipe),
        vec![c(&["ZREM", "CHANNEL_MESSAGES_META:7", "100"]), c(&["SREM", "MESSAGES", "100"])]
    );
}

#[test]
fn missing_or_empty_record_leaves_nothing_to_do() {
    let mut pipe = Pipe::new(settings());
    assert_eq!(pipe.expire_with_record(MetaKey::Role { role: 1 }, &None), Ok(()));
    assert_eq!(pipe.expire_with_record(MetaKey::Role { role: 1 }, &Some(Vec::new())), Ok(()));
    assert!(pipe.is_empty());
}

#[test]
fn unreadable_record_is_a_validation_error() {
    let mut pipe = Pipe::new(settings());
    let res = pipe.expire_with_record(MetaKey::Sticker { sticker: 1 }, &Some(vec![1, 2, 3]));
    assert_eq!(res, Err(ExpireError::Validation));
    assert!(pipe.is_empty());
}

#[test]
fn plain_expiries() {
    let mut pipe = Pipe::new(settings());
    pipe.expire_plain(MetaKey::User { user: 5 });
    pipe.expire_plain(MetaKey::Presence { guild: 1, user: 2 });
    pipe.expire_plain(MetaKey::Integration { guild: 1, integration: 3 });
    pipe.expire_plain(MetaKey::VoiceState { guild: 1, user: 4 });
    assert_eq!(
        cmds(&pipe),
        vec![
            c(&["SREM", "USERS", "5"]),
            c(&["DEL", "USER_GUILDS:5"]),
            c(&["SREM", "GUILD_PRESENCES:1", "2"]),
            c(&["SREM", "GUILD_INTEGRATIONS:1", "3"]),
            c(&["SREM", "GUILD_VOICE_STATES:1", "4"]),
        ]
    );
}

#[test]
fn guild_expiry_in_three_steps() {
    let mut pipe = Pipe::new(settings());
    pipe.guild_expire_start(3);
    let got = cmds(&pipe);
    assert_eq!(got.len(), 19);
    assert_eq!(got[0], c(&["SREM", "GUILDS", "3"]));
    assert_eq!(got[1], c(&["SMEMBERS", "GUILD_CHANNELS:3"]));
    assert_eq!(got[2], c(&["DEL", "GUILD_CHANNELS:3"]));
    assert_eq!(got[7], c(&["SMEMBERS", "GUILD_MEMBERS:3"]));
    pipe.clear();
    let lists = vec![vec![7], vec![], vec![], vec![5], vec![], vec![8]];
    assert!(pipe.guild_expire_members(3, &lists));
    assert_eq!(
        cmds(&pipe),
        vec![
            c(&["SREM", "CHANNELS", "7"]),
            c(&["SREM", "EMOJIS"]),
            c(&["SREM", "USER_GUILDS:5", "3"]),
            c(&["SCARD", "USER_GUILDS:5"]),
        ]
    );
    pipe.clear();
    pipe.guild_expire_finish(3, &lists, &[0]);
    assert_eq!(
        cmds(&pipe),
        vec![
            c(&["SREM", "USERS", "5"]),
            c(&["SREM", "ROLES", "8"]),
            c(&["SREM", "STAGE_INSTANCES"]),
            c(&["SREM", "STICKERS"]),
            c(&["DEL", "CHANNEL:7", "CHANNEL_META:7", "USER:5", "MEMBER:3:5", "ROLE:8", "ROLE_META:8"]),
        ]
    );
}

#[test]
fn guild_expiry_without_members_needs_no_counts() {
    let mut pipe = Pipe::new(settings());
    assert!(!pipe.guild_expire_members(3, &[]));
}

#[test]
fn member_expiry_in_two_steps() {
    let mut pipe = Pipe::new(settings());
    pipe.member_expire_start(3, 5);
    assert_eq!(
        cmds(&pipe),
        vec![
            c(&["SREM", "GUILD_MEMBERS:3", "5"]),
            c(&["SREM", "USER_GUILDS:5", "3"]),
            c(&["SCARD", "USER_GUILDS:5"]),
        ]
    );
    pipe.clear();
    pipe.member_expire_finish(5, 0);
    assert_eq!(cmds(&pipe), vec![c(&["DEL", "USER:5"]), c(&["SREM", "USERS", "5"])]);
    pipe.clear();
    pipe.member_expire_finish(5, 1);
    assert!(pipe.is_empty());
}

#[test]
fn expire_channels_are_keyevent_expired() {
    assert!(is_expire_channel(b"__keyevent@0__:expired"));
    assert!(is_expire_channel(b"__keyevent__:expired"));
    assert!(!is_expire_channel(b"__keyspace@0__:expired"));
    assert!(!is_expire_channel(b"__keyevent@0__:del"));
    assert!(!is_expire_channel(b"expired"));
    assert!(!is_expire_channel(b""));
}

#[test]
fn prepare_setting_adds_missing_flags() {
    assert_eq!(prepare_setting(b""), Some(b"Ex".to_vec()));
    assert_eq!(prepare_setting(b"KA"), Some(b"KAEx".to_vec()));
    assert_eq!(prepare_setting(b"KEA"), Some(b"KEAx".to_vec()));
    assert_eq!(prepare_setting(b"x"), Some(b"xE".to_vec()));
    assert_eq!(prepare_setting(b"Ex"), None);
    assert_eq!(prepare_setting(b"AKxE"), None);
}

#[test]
fn expire_actions() {
    assert_eq!(
        MetaKey::Channel { channel: 1 }.expire_action(),
        ExpireAction::FetchRecord(RedisKey::ChannelMeta { id: 1 })
    );
    assert_eq!(
        MetaKey::Emoji { emoji: 2 }.expire_action(),
        ExpireAction::FetchRecord(RedisKey::EmojiMeta { id: 2 })
    );
    assert_eq!(MetaKey::Guild { guild: 3 }.expire_action(), ExpireAction::Guild(3));
    assert_eq!(
        MetaKey::Member { guild: 3, user: 4 }.expire_action(),
        ExpireAction::Member { guild: 3, user: 4 }
    );
    assert_eq!(MetaKey::User { user: 4 }.expire_action(), ExpireAction::Plain);
    assert_eq!(MetaKey::Role { role: 4 }.record_key(), Some(RedisKey::RoleMeta { id: 4 }));
    assert_eq!(MetaKey::Presence { guild: 1, user: 4 }.record_key(), None);
}
