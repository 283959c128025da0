use bb8_redis::redis::Arg;
use redlight::cache::common::EntryKind;
use redlight::cache::guild_delete::IdKey;
use redlight::config::{CacheSettings, EntrySettings, Ignore, Cacheable};
use redlight::error::UpdateArchiveError;
use redlight::iter::{keys_for_ids, CacheIter, OptionalCacheIter};
use redlight::key::RedisKey;
use redlight::metrics::{metric_sets_of, metric_values, wants_metrics, Metric};
use redlight::pipe::Pipe;
use redlight::error::CacheError;
use redlight::resume::{defrost, defrost_plan, DefrostPlan, Defrosted};

fn settings(wanted: bool) -> CacheSettings {
    let e = EntrySettings { wanted, expire_seconds: None };
    CacheSettings {
        channel: e,
        current_user: e,
        emoji: e,
        guild: e,
        integration: e,
        member: e,
        message: e,
        presence: e,
        role: e,
        scheduled_event: e,
        stage_instance: e,
        sticker: e,
        user: e,
        voice_state: e,
    }
}

fn cmds(pipe: &Pipe) -> Vec<Vec<String>> {
    pipe.pipeline()
        .cmd_iter()
        .map(|c| {
            c.args_iter()
                .map(|a| match a {
                    Arg::Simple(b) => String::from_utf8_lossy(b).into_owned(),
                    _ => String::from("<cursor>"),
                })
                .collect()
        })
        .collect()
}

#[test]
fn metrics_read_each_wanted_set() {
    let mut s = settings(false);
    s.guild.wanted = true;
    s.user.wanted = true;
    let sets = metric_sets_of(&s);
    assert_eq!(
        sets,
        vec![
            (Metric::GuildCount, RedisKey::Guilds),
            (Metric::UnavailableGuildCount, RedisKey::UnavailableGuilds),
            (Metric::UserCount, RedisKey::Users),
        ]
    );
    let mut pipe = Pipe::new(s);
    pipe.add_scards();
    assert_eq!(cmds(&pipe).len(), 3);
    assert_eq!(cmds(&pipe)[1], vec!["SCARD".to_string(), "UNAVAILABLE_GUILDS".to_string()]);
    assert_eq!(
        metric_values(&sets, &[4, 5]),
        vec![(Metric::GuildCount, 4), (Metric::UnavailableGuildCount, 5), (Metric::UserCount, 0)]
    );
}

#[test]
fn metric_names() {
    assert_eq!(Metric::ChannelCount.name(), "channel_count");
    assert_eq!(Metric::UnavailableGuildCount.name(), "unavailable_guild_count");
    assert_eq!(Metric::UserCount.description(), "Amount of cached users");
}

#[test]
fn metrics_only_for_some_kinds() {
    let mut s = settings(false);
    assert!(!wants_metrics(&s));
    s.scheduled_event.wanted = true;
    assert!(!wants_metrics(&s));
    s.sticker.wanted = true;
    assert!(wants_metrics(&s));
}

#[test]
fn needs_expire_handling_when_any_kind_expires() {
    let mut s = settings(true);
    assert!(!s.needs_expire_handling());
    s.voice_state.expire_seconds = Some(1);
    assert!(s.needs_expire_handling());
}

#[test]
fn optional_iter_yields_missing_entries_as_none() {
    let mut it = OptionalCacheIter::new(vec![b"a".to_vec(), Vec::new(), b"c".to_vec()]);
    assert_eq!(it.len(), 3);
    assert_eq!(it.next(), Some(Some(b"a".to_vec())));
    assert_eq!(it.next_back(), Some(Some(b"c".to_vec())));
    assert_eq!(it.next(), Some(None));
    assert_eq!(it.next(), None);
    assert_eq!(it.next_back(), None);
}

#[test]
fn cache_iter_skips_missing_entries() {
    let items = vec![Vec::new(), b"a".to_vec(), Vec::new(), b"b".to_vec(), Vec::new()];
    let mut it = CacheIter::new(OptionalCacheIter::new(items.clone()));
    assert_eq!(it.max_len(), 5);
    assert_eq!(it.next(), Some(b"a".to_vec()));
    assert_eq!(it.next(), Some(b"b".to_vec()));
    assert_eq!(it.next(), None);
    let mut it = CacheIter::new(OptionalCacheIter::new(items));
    assert_eq!(it.next_back(), Some(b"b".to_vec()));
    assert_eq!(it.next_back(), Some(b"a".to_vec()));
    assert_eq!(it.next_back(), None);
}

#[test]
fn iterator_keys() {
    assert_eq!(
        keys_for_ids(IdKey::Member, 3, &[1, 2]),
        vec![RedisKey::Member { guild: 3, user: 1 }, RedisKey::Member { guild: 3, user: 2 }]
    );
    assert_eq!(keys_for_ids(IdKey::Entry(EntryKind::Role), 0, &[5]), vec![RedisKey::Role { id: 5 }]);
    assert_eq!(keys_for_ids(IdKey::Message, 0, &[6]), vec![RedisKey::Message { id: 6 }]);
    assert!(keys_for_ids(IdKey::Guild, 0, &[]).is_empty());
}

#[test]
fn defrost_plans() {
    assert_eq!(defrost_plan(b"x", true), DefrostPlan::Decode);
    assert_eq!(defrost_plan(b"", true), DefrostPlan::FlushAndReportNone);
    assert_eq!(defrost_plan(b"", false), DefrostPlan::ReportNone);
}

#[test]
fn freeze_stores_sessions() {
    let mut pipe = Pipe::new(settings(true));
    pipe.store_sessions(b"s", Some(180));
    pipe.store_sessions(b"s", None);
    assert_eq!(
        cmds(&pipe),
        vec![
            vec!["SETEX".to_string(), "SESSIONS".to_string(), "180".to_string(), "s".to_string()],
            vec!["SET".to_string(), "SESSIONS".to_string(), "s".to_string()],
        ]
    );
}

fn raw_args(pipe: &Pipe, index: usize) -> Vec<Vec<u8>> {
    pipe.pipeline()
        .cmd_iter()
        .nth(index)
        .map(|c| {
            c.args_iter()
                .map(|a| match a {
                    Arg::Simple(b) => b.to_vec(),
                    _ => Vec::new(),
                })
                .collect()
        })
        .unwrap_or_default()
}

#[test]
fn freeze_then_defrost_gives_sessions_back() {
    let sessions = vec![(0u32, 42u64, String::from("abc")), (3, 7, String::from("session"))];
    let mut pipe = Pipe::new(settings(true));
    assert_eq!(pipe.freeze(&sessions, Some(180)), Ok(()));
    let args = raw_args(&pipe, 0);
    assert_eq!(args[0], b"SETEX".to_vec());
    assert_eq!(args[1], b"SESSIONS".to_vec());
    assert_eq!(args[2], b"180".to_vec());
    assert!(!args[3].is_empty());
    match defrost(&args[3], true) {
        Ok(Defrosted::Sessions(back)) => assert_eq!(back, sessions),
        _ => panic!("stored sessions did not read back"),
    }
}

#[test]
fn freeze_without_expiry_stores_plainly() {
    let mut pipe = Pipe::new(settings(true));
    assert_eq!(pipe.freeze(&[], None), Ok(()));
    let args = raw_args(&pipe, 0);
    assert_eq!(args[0], b"SET".to_vec());
    match defrost(&args[2], false) {
        Ok(Defrosted::Sessions(back)) => assert!(back.is_empty()),
        _ => panic!("stored sessions did not read back"),
    }
}

#[test]
fn defrost_of_nothing_reports_missing() {
    assert!(matches!(defrost(b"", true), Ok(Defrosted::Missing { flush: true })));
    assert!(matches!(defrost(b"", false), Ok(Defrosted::Missing { flush: false })));
}

#[test]
fn defrost_of_garbage_fails() {
    assert!(matches!(defrost(b"x", true), Err(CacheError::Validation)));
}

#[test]
fn update_archive_error_unwraps() {
    let de: UpdateArchiveError<u8, u16> = UpdateArchiveError::Deserialization(1);
    assert_eq!(de.unwrap_de(), 1);
    let ser: UpdateArchiveError<u8, u16> = UpdateArchiveError::Serialization(2);
    assert_eq!(ser.unwrap_ser(), 2);
}

#[test]
fn ignore_is_never_cached() {
    assert!(!Ignore::wanted());
    assert!(Ignore::expire().is_none());
}

#[test]
fn pipe_ignore_and_clear() {
    let mut pipe = Pipe::new(settings(true));
    pipe.ignore();
    assert!(pipe.is_empty());
    pipe.scard(RedisKey::Users);
    pipe.ignore();
    assert!(!pipe.is_empty());
    pipe.clear();
    assert!(pipe.is_empty());
}
