//! The decisions of the listener of expire notifications: which channels
//! carry them, how the store's setting must change to send them, and what
//! each expired entry calls for.
use vstd::prelude::*;

use crate::expire::{is_plain, record_key};
use crate::key::RedisKey;
use crate::meta::MetaKey;

verus! {

/// `__keyevent`
pub open spec fn keyevent_prefix() -> Seq<u8> {
    seq![95u8, 95, 107, 101, 121, 101, 118, 101, 110, 116]
}

/// `__:expired`
pub open spec fn expired_suffix() -> Seq<u8> {
    seq![95u8, 95, 58, 101, 120, 112, 105, 114, 101, 100]
}

/// Whether a notification channel carries the expiry of keys: its name
/// starts with `__keyevent` and ends with `__:expired`.
pub open spec fn is_expire_channel_spec(name: Seq<u8>) -> bool {
    &&& keyevent_prefix().len() <= name.len()
    &&& name.take(keyevent_prefix().len() as int) == keyevent_prefix()
    &&& expired_suffix().len() <= name.len()
    &&& name.skip(name.len() - expired_suffix().len()) == expired_suffix()
}

/// The event flag of the notification setting, `E`.
pub open spec fn event_flag() -> u8 {
    69u8
}

/// The expire flag of the notification setting, `x`.
pub open spec fn expire_flag() -> u8 {
    120u8
}

/// Whether `s` holds `b`.
pub open spec fn holds(s: Seq<u8>, b: u8) -> bool {
    exists|i: int| 0 <= i < s.len() && s[i] == b
}

/// The notification setting to write so that expire notifications are sent,
/// or `None` if `current` already sends them: the missing flags are
/// appended, the event flag first.
pub open spec fn prepared_setting(current: Seq<u8>) -> Option<Seq<u8>> {
    if holds(current, event_flag()) && holds(current, expire_flag()) {
        None
    } else {
        Some(
            current + (if holds(current, event_flag()) {
                Seq::empty()
            } else {
                seq![event_flag()]
            }) + (if holds(current, expire_flag()) {
                Seq::empty()
            } else {
                seq![expire_flag()]
            }),
        )
    }
}

/// What the expiry of an entry calls for.
#[derive(Clone, Copy, Debug, PartialEq, Eq, Structural)]
pub enum ExpireAction {
    /// Read and delete the bookkeeping record at the key, then clean up with
    /// what it held.
    FetchRecord(RedisKey),
    /// Clean up from the key alone.
    Plain,
    /// Remove everything of the guild, in three steps.
    Guild(u64),
    /// Remove the member, in two steps.
    Member { guild: u64, user: u64 },
}

/// What the expiry of `meta` calls for.
pub open spec fn expire_action(meta: MetaKey) -> ExpireAction {
    match meta {
        MetaKey::Guild { guild } => ExpireAction::Guild(guild),
        MetaKey::Member { guild, user } => ExpireAction::Member { guild, user },
        _ => match record_key(meta) {
            Some(key) => ExpireAction::FetchRecord(key),
            None => ExpireAction::Plain,
        },
    }
}

/// Whether `a` and `b` are the same bytes.
fn same_bytes(a: &[u8], b: &[u8]) -> (res: bool)
    ensures
        res == (a@ == b@),
{
    if a.len() != b.len() {
        return false;
    }
    let mut i: usize = 0;
    while i < a.len()
        invariant
            i <= a@.len(),
            a@.len() == b@.len(),
            a@.take(i as int) == b@.take(i as int),
        decreases a@.len() - i,
    {
        if a[i] != b[i] {
            assert(a@[i as int] != b@[i as int]);
            return false;
        }
        assert(a@.take(i + 1) =~= a@.take(i as int).push(a@[i as int]));
        assert(b@.take(i + 1) =~= b@.take(i as int).push(b@[i as int]));
        i = i + 1;
    }
    assert(a@.take(i as int) =~= a@);
    assert(b@.take(i as int) =~= b@);
    true
}

/// Whether a notification channel carries the expiry of keys.
pub fn is_expire_channel(name: &[u8]) -> (res: bool)
    ensures
        res == is_expire_channel_spec(name@),
{
    let prefix: [u8; 10] = [95, 95, 107, 101, 121, 101, 118, 101, 110, 116];
    let suffix: [u8; 10] = [95, 95, 58, 101, 120, 112, 105, 114, 101, 100];
    assert(prefix@ =~= keyevent_prefix());
    assert(suffix@ =~= expired_suffix());
    if name.len() < 10 {
        return false;
    }
    let head = vstd::slice::slice_subrange(name, 0, 10);
    let tail = vstd::slice::slice_subrange(name, name.len() - 10, name.len());
    assert(head@ =~= name@.take(10));
    assert(tail@ =~= name@.skip(name@.len() - 10));
    same_bytes(head, prefix.as_slice()) && same_bytes(tail, suffix.as_slice())
}

/// Whether `s` holds `b`.
fn holds_byte(s: &[u8], b: u8) -> (res: bool)
    ensures
        res == holds(s@, b),
{
    let mut i: usize = 0;
    while i < s.len()
        invariant
            i <= s@.len(),
            forall|j: int| 0 <= j < i ==> s@[j] != b,
        decreases s@.len() - i,
    {
        if s[i] == b {
            return true;
        }
        i = i + 1;
    }
    false
}

/// The notification setting to write so that expire notifications are sent,
/// or `None` if `current` already sends them.
pub fn prepare_setting(current: &[u8]) -> (res: Option<Vec<u8>>)
    ensures
        match res {
            Some(v) => prepared_setting(current@) == Some(v@),
            None => prepared_setting(current@) is None,
        },
{
    let has_event = holds_byte(current, 69);
    let has_expire = holds_byte(current, 120);
    if has_event && has_expire {
        return None;
    }
    let mut setting: Vec<u8> = Vec::new();
    let mut i: usize = 0;
    while i < current.len()
        invariant
            i <= current@.len(),
            setting@ == current@.take(i as int),
        decreases current@.len() - i,
    {
        setting.push(current[i]);
        assert(current@.take(i + 1) =~= current@.take(i as int).push(current@[i as int]));
        i = i + 1;
    }
    assert(current@.take(i as int) =~= current@);
    let ghost base = setting@;
    if !has_event {
        setting.push(69);
    }
    let ghost mid = setting@;
    if !has_expire {
        setting.push(120);
    }
    assert(setting@ =~= current@ + (if has_event {
        Seq::empty()
    } else {
        seq![event_flag()]
    }) + (if has_expire {
        Seq::empty()
    } else {
        seq![expire_flag()]
    }));
    Some(setting)
}

impl MetaKey {
    /// What the expiry of this entry calls for.
    pub fn expire_action(&self) -> (res: ExpireAction)
        ensures
            res == expire_action(*self),
            res == ExpireAction::Plain ==> is_plain(*self),
    {
        match *self {
            MetaKey::Guild { guild } => ExpireAction::Guild(guild),
            MetaKey::Member { guild, user } => ExpireAction::Member { guild, user },
            _ => match self.record_key() {
                Some(key) => ExpireAction::FetchRecord(key),
                None => ExpireAction::Plain,
            },
        }
    }
}

} // verus!
