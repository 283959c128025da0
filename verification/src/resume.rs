//! Keeping the gateway's sessions in the store across restarts: each session
//! as the id of its shard, its last sequence and its session id, archived
//! with `rkyv`.
use vstd::prelude::*;

use crate::error::CacheError;
use crate::key::{key_bytes, RedisKey};
use crate::pipe::{set_command, Pipe};

verus! {

/// The sessions as plain values: shard id, sequence and session id.
pub open spec fn session_views(sessions: Seq<(u32, u64, String)>) -> Seq<(u32, u64, Seq<char>)> {
    sessions.map_values(|x: (u32, u64, String)| (x.0, x.1, x.2@))
}

/// What `rkyv::to_bytes` gives for `sessions`: the bytes it writes, or
/// `None` where its serializer fails.
pub uninterp spec fn archive_outcome(sessions: Seq<(u32, u64, Seq<char>)>) -> Option<Seq<u8>>;

/// The sessions that `rkyv::from_bytes` reads from `bytes`, or `None` where it
/// refuses them.
pub uninterp spec fn read_back_sessions(bytes: Seq<u8>) -> Option<Seq<(u32, u64, Seq<char>)>>;

/// Archives the sessions with `rkyv::to_bytes`.
///
/// The contract claims that the outcome, bytes or failure, is a function of
/// the sessions alone, named [`archive_outcome`]; that the bytes are never
/// empty, since an archive always ends with its root value; and that
/// `rkyv::from_bytes` reads the same sessions back from them, the round trip
/// that the crate documents. On which sessions the serializer fails is left
/// to the name.
#[verifier::external_body]
fn archive_sessions(sessions: &[(u32, u64, String)]) -> (res: Option<Vec<u8>>)
    ensures
        match res {
            Some(b) => archive_outcome(session_views(sessions@)) == Some(b@),
            None => archive_outcome(session_views(sessions@)) is None,
        },
        res matches Some(b) ==> b@.len() > 0,
        res matches Some(b) ==> read_back_sessions(b@) == Some(session_views(sessions@)),
{
    rkyv::to_bytes::<rkyv::rancor::Error>(&sessions.to_vec()).ok().map(|b| b.to_vec())
}

/// Reads sessions back with `rkyv::from_bytes`, after copying the bytes into
/// an aligned buffer.
///
/// The contract claims that the result is a function of the bytes alone,
/// named [`read_back_sessions`].
#[verifier::external_body]
fn read_sessions(bytes: &[u8]) -> (res: Option<Vec<(u32, u64, String)>>)
    ensures
        match res {
            Some(v) => read_back_sessions(bytes@) == Some(session_views(v@)),
            None => read_back_sessions(bytes@) is None,
        },
{
    let mut aligned = rkyv::util::AlignedVec::<16>::new();
    aligned.extend_from_slice(bytes);
    rkyv::from_bytes::<Vec<(u32, u64, String)>, rkyv::rancor::Error>(&aligned).ok()
}

/// What to do with the sessions read back from the store.
#[derive(Clone, Copy, Debug, PartialEq, Eq, Structural)]
pub enum DefrostPlan {
    /// Decode the stored sessions.
    Decode,
    /// No sessions were stored: empty the whole database, then report none.
    FlushAndReportNone,
    /// No sessions were stored: report none.
    ReportNone,
}

/// What to do with the sessions read back, given how many bytes came back:
/// none means no sessions were stored.
pub open spec fn defrost_plan_spec(stored_len: nat, flush_if_missing: bool) -> DefrostPlan {
    if stored_len > 0 {
        DefrostPlan::Decode
    } else if flush_if_missing {
        DefrostPlan::FlushAndReportNone
    } else {
        DefrostPlan::ReportNone
    }
}

/// What to do with the sessions read back from the store.
pub fn defrost_plan(stored: &[u8], flush_if_missing: bool) -> (res: DefrostPlan)
    ensures
        res == defrost_plan_spec(stored@.len(), flush_if_missing),
{
    if stored.len() > 0 {
        DefrostPlan::Decode
    } else if flush_if_missing {
        DefrostPlan::FlushAndReportNone
    } else {
        DefrostPlan::ReportNone
    }
}

/// The sessions read back from the store.
pub enum Defrosted {
    /// The stored sessions.
    Sessions(Vec<(u32, u64, String)>),
    /// No sessions were stored; the whole database is to be emptied first if
    /// `flush` is set.
    Missing { flush: bool },
}

/// The sessions read back, as plain values: `Ok(Some(..))` for the stored
/// sessions, `Ok(None)` when none were stored.
pub open spec fn defrosted_view(d: Defrosted) -> Option<Seq<(u32, u64, Seq<char>)>> {
    match d {
        Defrosted::Sessions(v) => Some(session_views(v@)),
        Defrosted::Missing { .. } => None,
    }
}

/// What reading back `stored` gives: the sessions it holds, none if it is
/// empty, or an error if it holds no archived sessions.
pub open spec fn defrost_spec(stored: Seq<u8>) -> Result<Option<Seq<(u32, u64, Seq<char>)>>, CacheError> {
    if stored.len() == 0 {
        Ok(None)
    } else {
        match read_back_sessions(stored) {
            Some(v) => Ok(Some(v)),
            None => Err(CacheError::Validation),
        }
    }
}

/// Reads back the sessions that the store answered with. No bytes means
/// that no sessions were stored; the database is then to be emptied if
/// `flush_if_missing` is set.
pub fn defrost(stored: &[u8], flush_if_missing: bool) -> (res: Result<Defrosted, CacheError>)
    ensures
        match res {
            Ok(d) => defrost_spec(stored@) == Ok::<_, CacheError>(defrosted_view(d)),
            Err(e) => defrost_spec(stored@) == Err::<Option<Seq<(u32, u64, Seq<char>)>>, _>(e),
        },
        res matches Ok(Defrosted::Missing { flush }) ==> flush == flush_if_missing,
{
    match defrost_plan(stored, flush_if_missing) {
        DefrostPlan::Decode => match read_sessions(stored) {
            Some(sessions) => Ok(Defrosted::Sessions(sessions)),
            None => Err(CacheError::Validation),
        },
        DefrostPlan::FlushAndReportNone => Ok(Defrosted::Missing { flush: true }),
        DefrostPlan::ReportNone => Ok(Defrosted::Missing { flush: false }),
    }
}

impl Pipe {
    /// Stores archived sessions, expiring after the given seconds if any.
    pub fn store_sessions(&mut self, sessions: &[u8], expire_seconds: Option<u64>)
        ensures
            final(self).cmds() == old(self).cmds().push(
                set_command(key_bytes(RedisKey::Sessions), sessions@, expire_seconds),
            ),
            final(self).ignored() == old(self).ignored(),
            final(self).settings() == old(self).settings(),
    {
        self.set(RedisKey::Sessions, sessions, expire_seconds);
    }

    /// Archives the sessions and stores them, expiring after the given
    /// seconds if any. Succeeds exactly when they can be archived; otherwise
    /// fails, queuing nothing. What is stored reads back as the same sessions.
    pub fn freeze(&mut self, sessions: &[(u32, u64, String)], expire_seconds: Option<u64>) -> (res:
        Result<(), CacheError>)
        ensures
            res is Ok <==> archive_outcome(session_views(sessions@)) is Some,
            match archive_outcome(session_views(sessions@)) {
                Some(b) => final(self).cmds() == old(self).cmds().push(
                    set_command(key_bytes(RedisKey::Sessions), b, expire_seconds),
                ) && defrost_spec(b) == Ok::<_, CacheError>(Some(session_views(sessions@))),
                None => res == Err::<(), CacheError>(CacheError::SerializeSessions)
                    && final(self).cmds() == old(self).cmds(),
            },
            final(self).ignored() == old(self).ignored(),
            final(self).settings() == old(self).settings(),
    {
        match archive_sessions(sessions) {
            Some(bytes) => {
                self.store_sessions(bytes.as_slice(), expire_seconds);
                Ok(())
            },
            None => Err(CacheError::SerializeSessions),
        }
    }
}

} // verus!
