//! What the cache keeps: for each kind of entry, whether it is cached and
//! when it expires.
use std::time::Duration;

use vstd::prelude::*;

verus! {

/// Trait to configure the serialization and handling of cached entries.
pub trait Cacheable: Sized {
    /// The error that serialization can fail with.
    type Error;

    /// Whether a type should be handled by the cache. Otherwise, it will
    /// just be ignored.
    ///
    /// This should always be `true`. Otherwise, use [`Ignore`].
    fn wanted() -> bool;

    /// Duration until the cache entry expires and is removed.
    ///
    /// `None` indicates that it will never expire.
    fn expire() -> Option<Duration>;

    /// How to serialize this type into bytes.
    fn serialize_one(&self) -> Result<Vec<u8>, Self::Error>;
}

/// A serializer to serialize multiple instances in a row.
pub trait SerializeMany<C: Cacheable> {
    /// Serialize the next instance.
    fn serialize_next(&mut self, next: &C) -> Result<Vec<u8>, C::Error>;
}

/// Serializes each instance on its own, through [`Cacheable::serialize_one`].
pub struct SerializeOneByOne;

impl<C: Cacheable> SerializeMany<C> for SerializeOneByOne {
    fn serialize_next(&mut self, next: &C) -> (res: Result<Vec<u8>, C::Error>)
        ensures
            call_ensures(C::serialize_one, (next,), res),
    {
        next.serialize_one()
    }
}

/// Auxiliary trait for archived types that can be checked before they are
/// read.
pub trait CheckedArchived {}

/// Provides a way to specify whether cached entries should expire.
pub trait Expirable {
    /// Amount of seconds until a cache entry expires and is removed.
    /// `None` indicates that it will never expire.
    fn expire_seconds() -> Option<usize>;
}

/// Struct to indicate that a type should not be cached.
pub struct Ignore;

impl Cacheable for Ignore {
    type Error = ();

    fn wanted() -> (res: bool)
        ensures
            !res,
    {
        false
    }

    fn expire() -> (res: Option<Duration>)
        ensures
            res is None,
    {
        None
    }

    fn serialize_one(&self) -> (res: Result<Vec<u8>, ()>)
        ensures
            res matches Ok(bytes) && bytes@.len() == 0,
    {
        Ok(Vec::new())
    }
}

/// How one kind of entry is handled.
#[derive(Clone, Copy, Debug, PartialEq, Eq, Structural)]
pub struct EntrySettings {
    /// Whether entries of this kind are cached at all.
    pub wanted: bool,
    /// Seconds until a stored entry expires; `None` if it never does.
    pub expire_seconds: Option<u64>,
}

impl EntrySettings {
    /// Whether the expire duration fits the store's signed seconds.
    pub open spec fn valid(self) -> bool {
        match self.expire_seconds {
            Some(s) => s <= i64::MAX,
            None => true,
        }
    }

    /// Whether entries of this kind expire.
    pub open spec fn expires(self) -> bool {
        self.expire_seconds is Some
    }
}

/// How each kind of entry is handled.
#[derive(Clone, Copy, Debug, PartialEq, Eq, Structural)]
pub struct CacheSettings {
    pub channel: EntrySettings,
    pub current_user: EntrySettings,
    pub emoji: EntrySettings,
    pub guild: EntrySettings,
    pub integration: EntrySettings,
    pub member: EntrySettings,
    pub message: EntrySettings,
    pub presence: EntrySettings,
    pub role: EntrySettings,
    pub scheduled_event: EntrySettings,
    pub stage_instance: EntrySettings,
    pub sticker: EntrySettings,
    pub user: EntrySettings,
    pub voice_state: EntrySettings,
}

impl CacheSettings {
    /// Whether every expire duration fits the store's signed seconds.
    pub open spec fn valid(self) -> bool {
        &&& self.channel.valid()
        &&& self.current_user.valid()
        &&& self.emoji.valid()
        &&& self.guild.valid()
        &&& self.integration.valid()
        &&& self.member.valid()
        &&& self.message.valid()
        &&& self.presence.valid()
        &&& self.role.valid()
        &&& self.scheduled_event.valid()
        &&& self.stage_instance.valid()
        &&& self.sticker.valid()
        &&& self.user.valid()
        &&& self.voice_state.valid()
    }

    /// Whether any kind of entry expires, so that expire notifications must
    /// be handled.
    pub open spec fn any_expire(self) -> bool {
        ||| self.channel.expires()
        ||| self.emoji.expires()
        ||| self.guild.expires()
        ||| self.integration.expires()
        ||| self.member.expires()
        ||| self.message.expires()
        ||| self.presence.expires()
        ||| self.role.expires()
        ||| self.scheduled_event.expires()
        ||| self.stage_instance.expires()
        ||| self.sticker.expires()
        ||| self.user.expires()
        ||| self.voice_state.expires()
    }

    /// Whether expire notifications must be listened to: true as soon as one
    /// kind of entry expires.
    pub fn needs_expire_handling(&self) -> (res: bool)
        ensures
            res == self.any_expire(),
    {
        self.channel.expire_seconds.is_some() || self.emoji.expire_seconds.is_some()
            || self.guild.expire_seconds.is_some() || self.integration.expire_seconds.is_some()
            || self.member.expire_seconds.is_some() || self.message.expire_seconds.is_some()
            || self.presence.expire_seconds.is_some() || self.role.expire_seconds.is_some()
            || self.scheduled_event.expire_seconds.is_some()
            || self.stage_instance.expire_seconds.is_some()
            || self.sticker.expire_seconds.is_some() || self.user.expire_seconds.is_some()
            || self.voice_state.expire_seconds.is_some()
    }
}

} // verus!
