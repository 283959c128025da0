use bb8_redis::redis::Arg;
use redlight::cache::guild::{guild_lists_of, GuildList};
use redlight::config::{CacheSettings, EntrySettings};
use redlight::error::CacheError;
use redlight::pipe::Pipe;

fn settings(wanted: bool, expire: Option<u64>) -> CacheSettings {
    let e = EntrySettings { wanted, expire_seconds: expire };
    CacheSettings {
        channel: e,
        current_user: e,
        emoji: e,
        guild: e,
        integration: e,
        member: e,
        message: e,
        presence: e,
        role: e,
        scheduled_event: e,
        stage_instance: e,
        sticker: e,
        user: e,
        voice_state: e,
    }
}

fn cmds(pipe: &Pipe) -> Vec<Vec<String>> {
    pipe.pipeline()
        .cmd_iter()
        .map(|c| {
            c.args_iter()
                .map(|a| match a {
                    Arg::Simple(b) => String::from_utf8_lossy(b).into_owned(),
                    _ => String::from("<cursor>"),
                })
                .collect()
        })
        .collect()
}

fn c(args: &[&str]) -> Vec<String> {
    args.iter().map(|a| a.to_string()).collect()
}

#[test]
fn guild_lists_follow_the_wanted_kinds() {
    let s = settings(true, None);
    assert_eq!(guild_lists_of(&s).len(), 9);
    let mut only_users = settings(false, None);
    only_users.user.wanted = true;
    assert_eq!(guild_lists_of(&only_users), vec![GuildList::Members]);
    assert!(guild_lists_of(&settings(false, None)).is_empty());
}

#[test]
fn delete_guild_start_reads_each_set() {
    let mut pipe = Pipe::new(settings(true, None));
    assert!(pipe.delete_guild_start(3));
    let got = cmds(&pipe);
    assert_eq!(got.len(), 9);
    assert_eq!(got[0], c(&["SMEMBERS", "GUILD_MEMBERS:3"]));
    assert_eq!(got[1], c(&["SMEMBERS", "GUILD_CHANNELS:3"]));
    assert_eq!(got[8], c(&["SMEMBERS", "GUILD_VOICE_STATES:3"]));
}

#[test]
fn delete_guild_start_without_sets_removes_the_guild() {
    let mut s = settings(false, None);
    s.guild.wanted = true;
    let mut pipe = Pipe::new(s);
    assert!(!pipe.delete_guild_start(3));
    assert_eq!(cmds(&pipe), vec![c(&["DEL", "GUILD:3"]), c(&["SREM", "GUILDS", "3"])]);
}

#[test]
fn delete_guild_users_drops_the_guild_from_each_user() {
    let mut pipe = Pipe::new(settings(true, None));
    let lists = vec![vec![5, 6]];
    assert_eq!(pipe.delete_guild_users(3, &lists), Ok(true));
    assert_eq!(
        cmds(&pipe),
        vec![
            c(&["SREM", "USER_GUILDS:5", "3"]),
            c(&["SCARD", "USER_GUILDS:5"]),
            c(&["SREM", "USER_GUILDS:6", "3"]),
            c(&["SCARD", "USER_GUILDS:6"]),
        ]
    );
}

#[test]
fn delete_guild_users_without_answer_is_invalid() {
    let mut pipe = Pipe::new(settings(true, None));
    assert_eq!(pipe.delete_guild_users(3, &[]), Err(CacheError::InvalidResponse));
    assert!(pipe.is_empty());
}

#[test]
fn delete_guild_finish_deletes_every_key() {
    let mut s = settings(false, None);
    s.user.wanted = true;
    s.member.wanted = true;
    s.channel.wanted = true;
    s.channel.expire_seconds = Some(5);
    s.guild.wanted = true;
    let mut pipe = Pipe::new(s);
    let lists = vec![vec![5, 6], vec![7]];
    assert_eq!(pipe.delete_guild_finish(3, &lists, &[0, 2]), Ok(()));
    assert_eq!(
        cmds(&pipe),
        vec![
            c(&["SREM", "USERS", "5"]),
            c(&["SREM", "CHANNELS", "7"]),
            c(&["SREM", "GUILDS", "3"]),
            c(&[
                "DEL",
                "USER:5",
                "GUILD_MEMBERS:3",
                "MEMBER:3:5",
                "MEMBER:3:6",
                "GUILD_CHANNELS:3",
                "CHANNEL_META:7",
                "CHANNEL:7",
                "GUILD:3",
            ]),
        ]
    );
}

#[test]
fn delete_guild_finish_with_too_few_lists_is_invalid() {
    let mut pipe = Pipe::new(settings(true, None));
    let lists = vec![vec![1]; 8];
    assert_eq!(pipe.delete_guild_finish(3, &lists, &[]), Err(CacheError::InvalidResponse));
    assert!(pipe.is_empty());
}

#[test]
fn delete_guilds_start_reads_each_set_of_every_guild() {
    let mut s = settings(false, None);
    s.channel.wanted = true;
    s.role.wanted = true;
    let mut pipe = Pipe::new(s);
    assert!(pipe.delete_guilds_start(&[1, 2]));
    assert_eq!(
        cmds(&pipe),
        vec![
            c(&["SMEMBERS", "GUILD_CHANNELS:1"]),
            c(&["SMEMBERS", "GUILD_CHANNELS:2"]),
            c(&["SMEMBERS", "GUILD_ROLES:1"]),
            c(&["SMEMBERS", "GUILD_ROLES:2"]),
        ]
    );
}

#[test]
fn delete_guilds_start_without_sets_removes_the_guilds() {
    let mut s = settings(false, None);
    s.guild.wanted = true;
    let mut pipe = Pipe::new(s);
    assert!(!pipe.delete_guilds_start(&[1, 2]));
    assert_eq!(
        cmds(&pipe),
        vec![c(&["SREM", "GUILDS", "1", "2"]), c(&["DEL", "GUILD:1", "GUILD:2"])]
    );
}

#[test]
fn delete_guilds_answer_must_hold_one_list_per_set_and_guild() {
    let mut s = settings(false, None);
    s.channel.wanted = true;
    let mut pipe = Pipe::new(s);
    assert_eq!(pipe.delete_guilds_users(&[1, 2], &[vec![3]]), Err(CacheError::InvalidResponse));
    assert_eq!(
        pipe.delete_guilds_finish(&[1, 2], &[vec![3], vec![], vec![]], &[]),
        Err(CacheError::InvalidResponse)
    );
    assert!(pipe.is_empty());
}

#[test]
fn delete_guilds_finish_handles_each_block() {
    let mut s = settings(false, None);
    s.user.wanted = true;
    s.member.wanted = true;
    s.presence.wanted = true;
    s.guild.wanted = true;
    let mut pipe = Pipe::new(s);
    let lists = vec![vec![5], vec![6, 5], vec![5], vec![]];
    assert_eq!(pipe.delete_guilds_users(&[1, 2], &lists), Ok(true));
    pipe.clear();
    assert_eq!(pipe.delete_guilds_finish(&[1, 2], &lists, &[1, 0, 0]), Ok(()));
    assert_eq!(
        cmds(&pipe),
        vec![
            c(&["SREM", "USERS", "5", "6", "5"]),
            c(&["SREM", "GUILDS", "1", "2"]),
            c(&[
                "DEL",
                "USER:6",
                "USER:5",
                "GUILD_MEMBERS:1",
                "GUILD_MEMBERS:2",
                "MEMBER:1:5",
                "MEMBER:2:6",
                "MEMBER:2:5",
                "PRESENCE:1:5",
                "GUILD_PRESENCES:1",
                "GUILD_PRESENCES:2",
                "GUILD:1",
                "GUILD:2",
            ]),
        ]
    );
}

#[test]
fn unavailable_guilds_are_marked_when_guilds_are_cached() {
    let mut pipe = Pipe::new(settings(true, None));
    pipe.store_unavailable_guild(3);
    pipe.store_unavailable_guilds(&[4, 5]);
    assert_eq!(
        cmds(&pipe),
        vec![c(&["SADD", "UNAVAILABLE_GUILDS", "3"]), c(&["SADD", "UNAVAILABLE_GUILDS", "4", "5"])]
    );
    let mut pipe = Pipe::new(settings(false, None));
    pipe.store_unavailable_guild(3);
    assert!(pipe.is_empty());
}

fn deleted_and_removed(pipe: &Pipe) -> (std::collections::BTreeSet<String>, std::collections::BTreeSet<(String, String)>) {
    let mut deleted = std::collections::BTreeSet::new();
    let mut removed = std::collections::BTreeSet::new();
    for cmd in cmds(pipe) {
        if cmd[0] == "DEL" {
            deleted.extend(cmd[1..].iter().cloned());
        } else if cmd[0] == "SREM" {
            for m in &cmd[2..] {
                removed.insert((cmd[1].clone(), m.clone()));
            }
        }
    }
    (deleted, removed)
}

#[test]
fn delete_guilds_removes_what_deleting_each_removes() {
    let mut s = settings(true, Some(9));
    s.user.wanted = false;
    let n_kinds = guild_lists_of(&s).len();
    let guilds = [3u64, 4];
    // block j holds the list of guild 3, then that of guild 4
    let mut lists: Vec<Vec<u64>> = Vec::new();
    for j in 0..n_kinds {
        lists.push(vec![10 + j as u64, 20 + j as u64]);
        lists.push(vec![30 + j as u64]);
    }
    let mut all = Pipe::new(s);
    assert_eq!(all.delete_guilds_finish(&guilds, &lists, &[]), Ok(()));
    let mut each = Pipe::new(s);
    for (i, guild) in guilds.iter().enumerate() {
        let own: Vec<Vec<u64>> = (0..n_kinds).map(|j| lists[j * guilds.len() + i].clone()).collect();
        assert_eq!(each.delete_guild_finish(*guild, &own, &[]), Ok(()));
    }
    let (all_deleted, all_removed) = deleted_and_removed(&all);
    let (each_deleted, each_removed) = deleted_and_removed(&each);
    assert!(!all_deleted.is_empty());
    assert_eq!(all_deleted, each_deleted);
    assert_eq!(all_removed, each_removed);
}
