use bb8_redis::redis::Arg;
use redlight::cache::interaction::{InteractionEntry, ResolvedEntry};
use redlight::config::{CacheSettings, EntrySettings};
use redlight::entries::{ChannelEntry, GuildEntry, MemberEntry, MessageEntry, PartialMemberEntry, RoleEntry, UserEntry, VoiceStateEntry};
use redlight::pipe::Pipe;
use redlight::update::{CacheEvent, Refresh, Removal, UpdateHooks};

fn settings(wanted: bool) -> CacheSettings {
    let e = EntrySettings { wanted, expire_seconds: None };
    CacheSettings {
        channel: e,
        current_user: e,
        emoji: e,
        guild: e,
        integration: e,
        member: e,
        message: e,
        presence: e,
        role: e,
        scheduled_event: e,
        stage_instance: e,
        sticker: e,
        user: e,
        voice_state: e,
    }
}

fn hooks(on: bool) -> UpdateHooks {
    UpdateHooks {
        channel_pins: on,
        guild_update: on,
        member_update: on,
        partial_member: on,
        partial_user: on,
        message_update: on,
        reaction: on,
    }
}

fn cmds(pipe: &Pipe) -> Vec<Vec<String>> {
    pipe.pipeline()
        .cmd_iter()
        .map(|c| {
            c.args_iter()
                .map(|a| match a {
                    Arg::Simple(b) => String::from_utf8_lossy(b).into_owned(),
                    _ => String::from("<cursor>"),
                })
                .collect()
        })
        .collect()
}

fn c(args: &[&str]) -> Vec<String> {
    args.iter().map(|a| a.to_string()).collect()
}

fn user(id: u64) -> UserEntry {
    UserEntry { id, bytes: b"u".to_vec() }
}

#[test]
fn ban_stores_the_user() {
    let mut pipe = Pipe::new(settings(true));
    let follow = pipe.update(&CacheEvent::User(Some(user(2))), hooks(false));
    assert!(follow.refresh.is_empty());
    assert_eq!(follow.removal, Removal::Nothing);
    assert_eq!(cmds(&pipe), vec![c(&["SET", "USER:2", "u"]), c(&["SADD", "USERS", "2"])]);
}

#[test]
fn guild_delete_calls_for_a_removal() {
    let mut pipe = Pipe::new(settings(true));
    let follow = pipe.update(&CacheEvent::GuildDelete { guild: 4 }, hooks(false));
    assert_eq!(follow.removal, Removal::Guild { guild: 4, unavailable: false });
    let follow = pipe.update(&CacheEvent::GuildUnavailable { guild: 4 }, hooks(false));
    assert_eq!(follow.removal, Removal::Guild { guild: 4, unavailable: true });
    let follow = pipe.update(&CacheEvent::MemberRemove { guild: 4, user: 5 }, hooks(false));
    assert_eq!(follow.removal, Removal::Member { guild: 4, user: 5 });
    let follow = pipe.update(
        &CacheEvent::Ready { guilds: vec![1, 2], current_user: b"me".to_vec() },
        hooks(false),
    );
    assert_eq!(follow.removal, Removal::ReadyGuilds);
    assert!(pipe.is_empty());
}

#[test]
fn channel_pins_update_refreshes_the_channel() {
    let mut pipe = Pipe::new(settings(true));
    let event = CacheEvent::ChannelPinsUpdate { guild: Some(1), channel: 7 };
    let follow = pipe.update(&event, hooks(true));
    assert_eq!(follow.refresh, vec![Refresh::ChannelPins { channel: 7, guild: Some(1) }]);
    let follow = pipe.update(&event, hooks(false));
    assert!(follow.refresh.is_empty());
}

#[test]
fn reaction_stores_member_then_refreshes_message() {
    let mut pipe = Pipe::new(settings(true));
    let event = CacheEvent::Reaction {
        guild: Some(1),
        member: Some(MemberEntry { user: user(2), bytes: b"m".to_vec() }),
        msg: 9,
        channel: 8,
    };
    let follow = pipe.update(&event, hooks(true));
    assert_eq!(follow.refresh, vec![Refresh::Reaction { msg: 9, channel: 8 }]);
    assert_eq!(cmds(&pipe)[0], c(&["SET", "MEMBER:1:2", "m"]));
}

#[test]
fn voice_state_update_stores_or_removes() {
    let mut pipe = Pipe::new(settings(true));
    let connected = VoiceStateEntry { user_id: 2, channel_id: Some(8), bytes: b"v".to_vec(), member: None };
    pipe.update(&CacheEvent::VoiceStateUpdate { guild: Some(1), state: connected }, hooks(false));
    let left = VoiceStateEntry { user_id: 2, channel_id: None, bytes: b"v".to_vec(), member: None };
    pipe.update(&CacheEvent::VoiceStateUpdate { guild: Some(1), state: left }, hooks(false));
    let outside = VoiceStateEntry { user_id: 2, channel_id: Some(8), bytes: b"v".to_vec(), member: None };
    pipe.update(&CacheEvent::VoiceStateUpdate { guild: None, state: outside }, hooks(false));
    assert_eq!(
        cmds(&pipe),
        vec![
            c(&["SET", "VOICE_STATE:1:2", "v"]),
            c(&["SADD", "GUILD_VOICE_STATES:1", "2"]),
            c(&["DEL", "VOICE_STATE:1:2"]),
            c(&["SREM", "GUILD_VOICE_STATES:1", "2"]),
        ]
    );
}

#[test]
fn invite_records_target_user() {
    let mut pipe = Pipe::new(settings(true));
    let event = CacheEvent::InviteCreate { inviter: None, target_user: Some(3) };
    let follow = pipe.update(&event, hooks(true));
    assert_eq!(follow.refresh, vec![Refresh::PartialUser { user: 3 }]);
    assert_eq!(cmds(&pipe), vec![c(&["SADD", "USERS", "3"])]);
}

#[test]
fn interaction_stores_resolved_and_refreshes_member() {
    let mut pipe = Pipe::new(settings(true));
    let interaction = InteractionEntry {
        guild_id: Some(1),
        channel: None,
        resolved: Some(ResolvedEntry { roles: vec![RoleEntry { id: 4, bytes: b"r".to_vec() }], users: vec![] }),
        member: Some(PartialMemberEntry { user: Some(user(2)) }),
        message: None,
        user: None,
    };
    let follow = pipe.update(&CacheEvent::InteractionCreate(interaction), hooks(true));
    assert_eq!(follow.refresh, vec![Refresh::PartialMember { guild: 1, user: 2 }]);
    assert_eq!(
        cmds(&pipe),
        vec![
            c(&["MSET", "ROLE:4", "r"]),
            c(&["SADD", "GUILD_ROLES:1", "4"]),
            c(&["SADD", "ROLES", "4"]),
            c(&["SET", "USER:2", "u"]),
            c(&["SADD", "USERS", "2"]),
            c(&["SADD", "USER_GUILDS:2", "1"]),
            c(&["SADD", "GUILD_MEMBERS:1", "2"]),
        ]
    );
}

#[test]
fn current_user_update() {
    let mut pipe = Pipe::new(settings(true));
    pipe.update(&CacheEvent::CurrentUserUpdate(b"me".to_vec()), hooks(false));
    assert_eq!(cmds(&pipe), vec![c(&["SET", "CURRENT_USER", "me"])]);
}

#[test]
fn ignored_config_queues_nothing_for_any_event() {
    let mut pipe = Pipe::new(settings(false));
    let events = vec![
        CacheEvent::User(Some(user(1))),
        CacheEvent::MemberUpdate { guild: 1, user: user(2) },
        CacheEvent::ChannelPinsUpdate { guild: None, channel: 1 },
        CacheEvent::MessageDelete { msg: 1, channel: 2 },
        CacheEvent::CurrentUserUpdate(b"x".to_vec()),
        CacheEvent::Other,
    ];
    for event in events {
        let follow = pipe.update(&event, hooks(true));
        assert!(follow.refresh.is_empty());
    }
    assert!(pipe.is_empty());
}

#[test]
fn ignored_roles_make_no_difference() {
    let mut s = settings(true);
    s.role.wanted = false;
    let role = || RoleEntry { id: 9, bytes: b"r".to_vec() };
    let mut pipe = Pipe::new(s);
    pipe.update(&CacheEvent::Role { guild: 3, role: role() }, hooks(false));
    pipe.update(&CacheEvent::RoleDelete { guild: 3, role: 9 }, hooks(false));
    assert!(pipe.is_empty());
    let with_roles = CacheEvent::GuildUpdate { guild: 3, emojis: vec![], roles: vec![role()] };
    let without_roles = CacheEvent::GuildUpdate { guild: 3, emojis: vec![], roles: vec![] };
    let mut a = Pipe::new(s);
    a.update(&with_roles, hooks(false));
    let mut b = Pipe::new(s);
    b.update(&without_roles, hooks(false));
    assert_eq!(cmds(&a), cmds(&b));
    assert!(cmds(&a).iter().flatten().all(|arg| !arg.starts_with("ROLE") && !arg.starts_with("GUILD_ROLES")));
}

fn role_guild(id: u64) -> GuildEntry {
    GuildEntry {
        id,
        bytes: b"g".to_vec(),
        channels: vec![],
        emojis: vec![],
        members: vec![],
        presences: vec![],
        roles: vec![RoleEntry { id: 9, bytes: b"r".to_vec() }],
        stickers: vec![],
        threads: vec![],
        stage_instances: vec![],
        voice_states: vec![],
    }
}

#[test]
fn ignored_roles_are_named_by_no_event() {
    let mut s = settings(true);
    s.role.wanted = false;
    let interaction = InteractionEntry {
        guild_id: Some(3),
        channel: None,
        resolved: Some(ResolvedEntry { roles: vec![RoleEntry { id: 9, bytes: b"r".to_vec() }], users: vec![user(2)] }),
        member: None,
        message: None,
        user: None,
    };
    let events = vec![
        CacheEvent::GuildCreate(role_guild(3)),
        CacheEvent::InteractionCreate(interaction),
        CacheEvent::Role { guild: 3, role: RoleEntry { id: 9, bytes: b"r".to_vec() } },
        CacheEvent::RoleDelete { guild: 3, role: 9 },
    ];
    let mut pipe = Pipe::new(s);
    for event in events {
        pipe.update(&event, hooks(false));
    }
    assert!(!pipe.is_empty());
    for cmd in cmds(&pipe) {
        assert_ne!(cmd[1], "ROLES");
        assert!(!cmd[1].starts_with("ROLE:") && !cmd[1].starts_with("ROLE_META:") && !cmd[1].starts_with("GUILD_ROLES:"));
    }
    let mut wanted = Pipe::new(settings(true));
    wanted.update(&CacheEvent::GuildCreate(role_guild(3)), hooks(false));
    assert!(cmds(&wanted).iter().any(|cmd| cmd[1] == "GUILD_ROLES:3"));
}

fn run_sets(pipe: &Pipe, guilds: &mut std::collections::BTreeSet<String>, unavailable: &mut std::collections::BTreeSet<String>) {
    for cmd in cmds(pipe) {
        let set = match cmd[1].as_str() {
            "GUILDS" => &mut *guilds,
            "UNAVAILABLE_GUILDS" => &mut *unavailable,
            _ => continue,
        };
        match cmd[0].as_str() {
            "SADD" => set.extend(cmd[2..].iter().cloned()),
            "SREM" => {
                for m in &cmd[2..] {
                    set.remove(m);
                }
            }
            _ => set.clear(),
        }
    }
}

#[test]
fn guilds_and_unavailable_guilds_stay_apart() {
    let mut s = settings(false);
    s.guild.wanted = true;
    s.role.wanted = true;
    let mut guilds = std::collections::BTreeSet::new();
    let mut unavailable = std::collections::BTreeSet::new();
    unavailable.insert(String::from("3"));
    let mut pipe = Pipe::new(s);
    pipe.update(&CacheEvent::GuildCreate(role_guild(3)), hooks(false));
    run_sets(&pipe, &mut guilds, &mut unavailable);
    assert!(guilds.contains("3") && !unavailable.contains("3"));
    let mut pipe = Pipe::new(s);
    let follow = pipe.update(&CacheEvent::GuildUnavailable { guild: 3 }, hooks(false));
    assert!(matches!(follow.removal, Removal::Guild { guild: 3, unavailable: true }));
    assert!(pipe.delete_guild_start(3));
    assert_eq!(pipe.delete_guild_finish(3, &[vec![9]], &[]), Ok(()));
    pipe.store_unavailable_guild(3);
    run_sets(&pipe, &mut guilds, &mut unavailable);
    assert!(!guilds.contains("3") && unavailable.contains("3"));
    let mut pipe = Pipe::new(s);
    pipe.update(&CacheEvent::GuildUpdate { guild: 3, emojis: vec![], roles: vec![] }, hooks(false));
    run_sets(&pipe, &mut guilds, &mut unavailable);
    assert!(guilds.contains("3") && !unavailable.contains("3"));
}

fn run_channels(pipe: &Pipe, stored: &mut std::collections::BTreeSet<String>, listed: &mut std::collections::BTreeSet<String>) {
    for cmd in cmds(pipe) {
        match cmd[0].as_str() {
            "SET" | "SETEX" if cmd[1].starts_with("CHANNEL:") => {
                stored.insert(cmd[1].clone());
            }
            "MSET" => {
                for pair in cmd[1..].chunks(2) {
                    if pair[0].starts_with("CHANNEL:") {
                        stored.insert(pair[0].clone());
                    }
                }
            }
            "DEL" => {
                for k in &cmd[1..] {
                    stored.remove(k);
                }
            }
            "SADD" if cmd[1] == "CHANNELS" => listed.extend(cmd[2..].iter().cloned()),
            "SREM" if cmd[1] == "CHANNELS" => {
                for m in &cmd[2..] {
                    listed.remove(m);
                }
            }
            _ => {}
        }
    }
}

fn channel(id: u64, guild: Option<u64>) -> ChannelEntry {
    ChannelEntry { id, guild_id: guild, bytes: b"c".to_vec(), member: None, recipients: None }
}

#[test]
fn channel_entries_stay_listed() {
    let s = settings(true);
    let thread_message = MessageEntry {
        id: 100,
        channel_id: 7,
        guild_id: Some(2),
        timestamp_micros: 5,
        bytes: b"m".to_vec(),
        author: user(1),
        member: None,
        mention_members: vec![],
        thread: Some(channel(9, Some(2))),
    };
    let events = vec![
        CacheEvent::Channel(channel(7, Some(2))),
        CacheEvent::ThreadListSync { guild: 2, threads: vec![channel(8, Some(2)), channel(10, Some(2))] },
        CacheEvent::MessageCreate(thread_message),
        CacheEvent::ChannelDelete { guild: Some(2), channel: 8 },
    ];
    let mut stored = std::collections::BTreeSet::new();
    let mut listed = std::collections::BTreeSet::new();
    for event in events {
        let mut pipe = Pipe::new(s);
        pipe.update(&event, hooks(false));
        run_channels(&pipe, &mut stored, &mut listed);
        let as_keys: std::collections::BTreeSet<String> = listed.iter().map(|id| format!("CHANNEL:{}", id)).collect();
        assert_eq!(stored, as_keys);
    }
    assert_eq!(listed.len(), 3);
    assert!(!listed.contains("8"));
}
