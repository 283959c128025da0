use std::collections::BTreeSet;

use bb8_redis::redis::Arg;
use redlight::cache::common::EntryKind;
use redlight::config::{CacheSettings, EntrySettings};
use redlight::entries::{
    ChannelEntry, EmojiEntry, IntegrationEntry, MemberEntry, MessageEntry, PresenceEntry, UserEntry,
    VoiceStateEntry,
};
use redlight::meta::MetaKey;
use redlight::pipe::Pipe;

fn settings(expire: Option<u64>) -> CacheSettings {
    let e = EntrySettings { wanted: true, expire_seconds: expire };
    CacheSettings {
        channel: e,
        current_user: e,
        emoji: e,
        guild: e,
        integration: e,
        member: e,
        message: e,
        presence: e,
        role: e,
        scheduled_event: e,
        stage_instance: e,
        sticker: e,
        user: e,
        voice_state: e,
    }
}

fn cmds(pipe: &Pipe) -> Vec<Vec<Vec<u8>>> {
    pipe.pipeline()
        .cmd_iter()
        .map(|c| {
            c.args_iter()
                .map(|a| match a {
                    Arg::Simple(b) => b.to_vec(),
                    _ => Vec::new(),
                })
                .collect()
        })
        .collect()
}

type Pairs = BTreeSet<(Vec<u8>, Vec<u8>)>;

/// The record of an id, archived by `rkyv` as the cache writes it.
fn archive_id(v: u64) -> Vec<u8> {
    rkyv::to_bytes::<rkyv::rancor::Error>(&v).unwrap().to_vec()
}

fn added(cmds: &[Vec<Vec<u8>>]) -> Pairs {
    let mut out = Pairs::new();
    for c in cmds {
        if c[0] == b"SADD" {
            for m in &c[2..] {
                out.insert((c[1].clone(), m.clone()));
            }
        } else if c[0] == b"ZADD" {
            out.insert((c[1].clone(), c[3].clone()));
        }
    }
    out
}

fn removed(cmds: &[Vec<Vec<u8>>]) -> Pairs {
    let mut out = Pairs::new();
    for c in cmds {
        if c[0] == b"SREM" || c[0] == b"ZREM" {
            for m in &c[2..] {
                out.insert((c[1].clone(), m.clone()));
            }
        }
    }
    out
}

fn written(cmds: &[Vec<Vec<u8>>]) -> BTreeSet<Vec<u8>> {
    cmds.iter().filter(|c| c[0] == b"SET" || c[0] == b"SETEX").map(|c| c[1].clone()).collect()
}

fn deleted(cmds: &[Vec<Vec<u8>>]) -> BTreeSet<Vec<u8>> {
    cmds.iter().filter(|c| c[0] == b"DEL").flat_map(|c| c[1..].to_vec()).collect()
}

#[test]
fn expiry_undoes_keyed_store() {
    let mut store = Pipe::new(settings(Some(30)));
    store.store_keyed_one(EntryKind::Role, 3, 8, b"r");
    let mut expire = Pipe::new(settings(Some(30)));
    let record = MetaKey::Role { role: 8 }.record_key().unwrap();
    assert_eq!(record.to_bytes(), b"ROLE_META:8".to_vec());
    expire.expire_with_record(MetaKey::Role { role: 8 }, &Some(archive_id(3))).unwrap();
    assert_eq!(removed(&cmds(&expire)), added(&cmds(&store)));
    assert!(added(&cmds(&expire)).is_empty());
    assert!(written(&cmds(&store)).contains(&b"ROLE_META:8".to_vec()));
}

#[test]
fn expiry_undoes_bulk_store() {
    let mut store = Pipe::new(settings(Some(30)));
    let emojis = vec![EmojiEntry { id: 4, bytes: b"a".to_vec() }, EmojiEntry { id: 5, bytes: b"b".to_vec() }];
    store.store_emojis(3, &emojis);
    let mut expire = Pipe::new(settings(Some(30)));
    expire.expire_with_record(MetaKey::Emoji { emoji: 5 }, &Some(archive_id(3))).unwrap();
    let of_five: Pairs = added(&cmds(&store)).into_iter().filter(|p| p.1 == b"5".to_vec()).collect();
    assert_eq!(removed(&cmds(&expire)), of_five);
}

#[test]
fn expiry_undoes_channel_store() {
    let channel = ChannelEntry { id: 7, guild_id: Some(2), bytes: b"c".to_vec(), member: None, recipients: None };
    let mut store = Pipe::new(settings(Some(30)));
    store.store_channel(&channel);
    let mut expire = Pipe::new(settings(Some(30)));
    expire.expire_with_record(MetaKey::Channel { channel: 7 }, &Some(archive_id(2))).unwrap();
    assert_eq!(removed(&cmds(&expire)), added(&cmds(&store)));
}

#[test]
fn expiry_undoes_message_store() {
    let msg = MessageEntry {
        id: 100,
        channel_id: 7,
        guild_id: None,
        timestamp_micros: 5,
        bytes: b"m".to_vec(),
        author: UserEntry { id: 1, bytes: b"u".to_vec() },
        member: None,
        mention_members: vec![],
        thread: None,
    };
    let mut without_users = settings(Some(30));
    without_users.user.wanted = false;
    let mut store = Pipe::new(without_users);
    store.store_message(&msg, false);
    let mut expire = Pipe::new(settings(Some(30)));
    expire.expire_with_record(MetaKey::Message { msg: 100 }, &Some(archive_id(7))).unwrap();
    assert_eq!(removed(&cmds(&expire)), added(&cmds(&store)));
}

#[test]
fn delete_undoes_keyed_store() {
    for expire in [None, Some(9)] {
        let mut store = Pipe::new(settings(expire));
        store.store_keyed_one(EntryKind::StageInstance, 3, 8, b"s");
        let mut delete = Pipe::new(settings(expire));
        delete.delete_keyed(EntryKind::StageInstance, 3, 8);
        assert_eq!(removed(&cmds(&delete)), added(&cmds(&store)));
        assert_eq!(deleted(&cmds(&delete)), written(&cmds(&store)));
        assert!(added(&cmds(&delete)).is_empty());
        assert!(written(&cmds(&delete)).is_empty());
    }
}

#[test]
fn delete_undoes_channel_store() {
    let channel = ChannelEntry { id: 7, guild_id: Some(2), bytes: b"c".to_vec(), member: None, recipients: None };
    let mut store = Pipe::new(settings(Some(4)));
    store.store_channel(&channel);
    let mut delete = Pipe::new(settings(Some(4)));
    delete.delete_channel(Some(2), 7);
    assert_eq!(removed(&cmds(&delete)), added(&cmds(&store)));
    assert_eq!(deleted(&cmds(&delete)), written(&cmds(&store)));
}

#[test]
fn delete_undoes_message_store() {
    let msg = MessageEntry {
        id: 100,
        channel_id: 7,
        guild_id: None,
        timestamp_micros: 5,
        bytes: b"m".to_vec(),
        author: UserEntry { id: 1, bytes: b"u".to_vec() },
        member: None,
        mention_members: vec![],
        thread: None,
    };
    let mut s = settings(Some(4));
    s.user.wanted = false;
    let mut store = Pipe::new(s);
    store.store_message(&msg, false);
    let mut delete = Pipe::new(s);
    delete.delete_message(100, 7);
    assert_eq!(removed(&cmds(&delete)), added(&cmds(&store)));
    assert_eq!(deleted(&cmds(&delete)), written(&cmds(&store)));
}

#[test]
fn newer_messages_come_first() {
    let msg = |id: u64, timestamp_micros: i64| MessageEntry {
        id,
        channel_id: 7,
        guild_id: None,
        timestamp_micros,
        bytes: b"m".to_vec(),
        author: UserEntry { id: 1, bytes: b"u".to_vec() },
        member: None,
        mention_members: vec![],
        thread: None,
    };
    let mut s = settings(None);
    s.user.wanted = false;
    let mut store = Pipe::new(s);
    store.store_message(&msg(1, 100), false);
    store.store_message(&msg(2, 200), false);
    let scores: Vec<(Vec<u8>, i64)> = cmds(&store)
        .into_iter()
        .filter(|c| c[0] == b"ZADD".to_vec())
        .map(|c| (c[3].clone(), String::from_utf8(c[2].clone()).unwrap().parse().unwrap()))
        .collect();
    assert_eq!(scores, vec![(b"1".to_vec(), -100), (b"2".to_vec(), -200)]);
    assert!(scores[1].1 < scores[0].1);
}

#[test]
fn delete_undoes_member_store() {
    let member = MemberEntry { user: UserEntry { id: 5, bytes: b"u".to_vec() }, bytes: b"m".to_vec() };
    for common_guilds in [0usize, 2] {
        let mut store = Pipe::new(settings(Some(4)));
        store.store_member(3, &member);
        let mut delete = Pipe::new(settings(Some(4)));
        assert!(delete.delete_member_start(3, 5));
        delete.delete_member_finish(3, 5, common_guilds);
        let mut store_added = added(&cmds(&store));
        let mut store_written = written(&cmds(&store));
        if common_guilds > 0 {
            store_added.remove(&(b"USERS".to_vec(), b"5".to_vec()));
            store_written.remove(&b"USER:5".to_vec());
        }
        assert_eq!(removed(&cmds(&delete)), store_added);
        assert_eq!(deleted(&cmds(&delete)), store_written);
        assert!(added(&cmds(&delete)).is_empty());
        assert!(written(&cmds(&delete)).is_empty());
    }
}

#[test]
fn expiry_undoes_member_store() {
    let member = MemberEntry { user: UserEntry { id: 5, bytes: b"u".to_vec() }, bytes: b"m".to_vec() };
    for count in [0usize, 1] {
        let mut store = Pipe::new(settings(Some(4)));
        store.store_member(3, &member);
        let mut expire = Pipe::new(settings(Some(4)));
        expire.member_expire_start(3, 5);
        expire.member_expire_finish(5, count);
        let mut store_added = added(&cmds(&store));
        let mut store_written = written(&cmds(&store));
        store_written.remove(&b"MEMBER:3:5".to_vec());
        if count > 0 {
            store_added.remove(&(b"USERS".to_vec(), b"5".to_vec()));
            store_written.remove(&b"USER:5".to_vec());
        }
        assert_eq!(removed(&cmds(&expire)), store_added);
        assert_eq!(deleted(&cmds(&expire)), store_written);
        assert!(added(&cmds(&expire)).is_empty());
        assert!(written(&cmds(&expire)).is_empty());
    }
}

#[test]
fn delete_undoes_integration_and_voice_state_store() {
    let integration = IntegrationEntry { id: 9, bytes: b"i".to_vec(), user: None };
    let state = VoiceStateEntry { user_id: 5, channel_id: Some(4), bytes: b"v".to_vec(), member: None };
    let mut store = Pipe::new(settings(None));
    store.store_integration(3, &integration);
    store.store_voice_state(3, &state);
    let mut delete = Pipe::new(settings(None));
    delete.delete_integration(3, 9);
    delete.delete_voice_state(3, 5);
    assert_eq!(removed(&cmds(&delete)), added(&cmds(&store)));
    assert_eq!(deleted(&cmds(&delete)), written(&cmds(&store)));
    assert!(added(&cmds(&delete)).is_empty());
    assert!(written(&cmds(&delete)).is_empty());
}

#[test]
fn expiry_undoes_guild_entry_store() {
    let integration = IntegrationEntry { id: 9, bytes: b"i".to_vec(), user: None };
    let presence = PresenceEntry { guild_id: 3, user_id: 6, bytes: b"p".to_vec(), user: None };
    let state = VoiceStateEntry { user_id: 5, channel_id: Some(4), bytes: b"v".to_vec(), member: None };
    let mut store = Pipe::new(settings(Some(8)));
    store.store_integration(3, &integration);
    store.store_presence(&presence);
    store.store_voice_state(3, &state);
    let mut expire = Pipe::new(settings(Some(8)));
    expire.expire_plain(MetaKey::Integration { guild: 3, integration: 9 });
    expire.expire_plain(MetaKey::Presence { guild: 3, user: 6 });
    expire.expire_plain(MetaKey::VoiceState { guild: 3, user: 5 });
    assert_eq!(removed(&cmds(&expire)), added(&cmds(&store)));
    assert!(deleted(&cmds(&expire)).is_empty());
    assert!(added(&cmds(&expire)).is_empty());
    assert!(written(&cmds(&expire)).is_empty());
}

#[test]
fn expiry_undoes_user_store() {
    let user = UserEntry { id: 5, bytes: b"u".to_vec() };
    let mut store = Pipe::new(settings(Some(8)));
    store.store_user(&user);
    let mut expire = Pipe::new(settings(Some(8)));
    expire.expire_plain(MetaKey::User { user: 5 });
    assert_eq!(removed(&cmds(&expire)), added(&cmds(&store)));
    assert_eq!(deleted(&cmds(&expire)), BTreeSet::from([b"USER_GUILDS:5".to_vec()]));
    assert!(added(&cmds(&expire)).is_empty());
    assert!(written(&cmds(&expire)).is_empty());
}
