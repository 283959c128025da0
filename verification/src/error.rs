//! The errors of the cache that its own logic decides, and the kinds that
//! name what failed.
use vstd::prelude::*;

verus! {

/// An error that the cache's logic detects in what the store answered.
#[derive(Clone, Copy, Debug, PartialEq, Eq, Structural)]
pub enum CacheError {
    /// The store answered with fewer or more lists than were asked for.
    InvalidResponse,
    /// The sessions could not be archived.
    SerializeSessions,
    /// Stored bytes did not read back as the type they were stored as.
    Validation,
}

/// An error in handling the expiry of an entry.
#[derive(Clone, Copy, Debug, PartialEq, Eq, Structural)]
pub enum ExpireError {
    /// A bookkeeping record did not hold an archived id.
    Validation,
}

/// The type that failed to serialize.
#[derive(Clone, Copy, Debug, PartialEq, Eq, Structural)]
pub enum SerializeErrorKind {
    Channel,
    CurrentUser,
    Emoji,
    Guild,
    Integration,
    Member,
    Message,
    Presence,
    Role,
    StageInstance,
    Sticker,
    User,
    VoiceState,
}

/// The type that failed to update.
#[derive(Clone, Copy, Debug, PartialEq, Eq, Structural)]
pub enum UpdateErrorKind {
    ChannelPins,
    Guild,
    Member,
    Message,
    PartialMember,
    PartialUser,
    Reaction,
}

/// The type whose bookkeeping record failed to serialize.
#[derive(Clone, Copy, Debug, PartialEq, Eq, Structural)]
pub enum MetaErrorKind {
    Channel,
    Emoji,
    Guild,
    Integration,
    Member,
    Message,
    Presence,
    Role,
    StageInstance,
    Sticker,
    User,
    VoiceState,
}

/// Updating an archived entry failed, either while reading it back or while
/// writing the updated value.
pub enum UpdateArchiveError<D, S> {
    Deserialization(D),
    Serialization(S),
}

impl<D, S> UpdateArchiveError<D, S> {
    /// The error of reading the entry back. Only defined on that variant.
    pub fn unwrap_de(self) -> (res: D)
        requires
            self is Deserialization,
        ensures
            self == UpdateArchiveError::<D, S>::Deserialization(res),
    {
        match self {
            UpdateArchiveError::Deserialization(err) => err,
            UpdateArchiveError::Serialization(_) => {
                vstd::pervasive::unreached()
            },
        }
    }

    /// The error of writing the updated value. Only defined on that variant.
    pub fn unwrap_ser(self) -> (res: S)
        requires
            self is Serialization,
        ensures
            self == UpdateArchiveError::<D, S>::Serialization(res),
    {
        match self {
            UpdateArchiveError::Serialization(err) => err,
            UpdateArchiveError::Deserialization(_) => {
                vstd::pervasive::unreached()
            },
        }
    }
}

} // verus!
