//! What the cache reads of the gateway's data: ids, the links between
//! entries, and each entry as the configured type serialized it.
use vstd::prelude::*;

verus! {

/// A user.
pub struct UserEntry {
    pub id: u64,
    /// The user as the configured user type serialized it.
    pub bytes: Vec<u8>,
}

/// A member of a guild; the guild is known from where it appears.
pub struct MemberEntry {
    pub user: UserEntry,
    /// The member as the configured member type serialized it.
    pub bytes: Vec<u8>,
}

/// A member as it appears in messages and interactions: only its user is
/// read, if it comes with one.
pub struct PartialMemberEntry {
    pub user: Option<UserEntry>,
}

/// A presence.
pub struct PresenceEntry {
    pub guild_id: u64,
    pub user_id: u64,
    /// The presence as the configured presence type serialized it.
    pub bytes: Vec<u8>,
    /// The full user, if the presence comes with one rather than an id.
    pub user: Option<UserEntry>,
}

/// The current user's membership of a thread.
pub struct ThreadMemberEntry {
    pub member: Option<MemberEntry>,
    pub presence: Option<PresenceEntry>,
}

/// A channel or thread.
pub struct ChannelEntry {
    pub id: u64,
    pub guild_id: Option<u64>,
    /// The channel as the configured channel type serialized it.
    pub bytes: Vec<u8>,
    pub member: Option<ThreadMemberEntry>,
    pub recipients: Option<Vec<UserEntry>>,
}

/// An emoji.
pub struct EmojiEntry {
    pub id: u64,
    pub bytes: Vec<u8>,
}

/// A role.
pub struct RoleEntry {
    pub id: u64,
    pub bytes: Vec<u8>,
}

/// A sticker.
pub struct StickerEntry {
    pub id: u64,
    pub bytes: Vec<u8>,
}

/// A stage instance.
pub struct StageInstanceEntry {
    pub id: u64,
    pub guild_id: u64,
    pub bytes: Vec<u8>,
}

/// A voice state of a guild.
pub struct VoiceStateEntry {
    pub user_id: u64,
    /// The channel the user is connected to, if any.
    pub channel_id: Option<u64>,
    /// The voice state as the configured voice state type serialized it.
    pub bytes: Vec<u8>,
    pub member: Option<MemberEntry>,
}

/// An integration of a guild.
pub struct IntegrationEntry {
    pub id: u64,
    pub bytes: Vec<u8>,
    pub user: Option<UserEntry>,
}

/// A scheduled event.
pub struct ScheduledEventEntry {
    pub id: u64,
    pub guild_id: u64,
    pub bytes: Vec<u8>,
    pub creator: Option<UserEntry>,
}

/// A guild, with everything it comes with.
pub struct GuildEntry {
    pub id: u64,
    pub bytes: Vec<u8>,
    pub channels: Vec<ChannelEntry>,
    pub emojis: Vec<EmojiEntry>,
    pub members: Vec<MemberEntry>,
    pub presences: Vec<PresenceEntry>,
    pub roles: Vec<RoleEntry>,
    pub stickers: Vec<StickerEntry>,
    pub threads: Vec<ChannelEntry>,
    pub stage_instances: Vec<StageInstanceEntry>,
    pub voice_states: Vec<VoiceStateEntry>,
}

/// A message.
pub struct MessageEntry {
    pub id: u64,
    pub channel_id: u64,
    pub guild_id: Option<u64>,
    /// Microseconds since the epoch at which the message was sent.
    pub timestamp_micros: i64,
    pub bytes: Vec<u8>,
    pub author: UserEntry,
    pub member: Option<PartialMemberEntry>,
    /// The members of the mentioned users, where the mention has one.
    pub mention_members: Vec<PartialMemberEntry>,
    pub thread: Option<ChannelEntry>,
}

} // verus!

verus! {

/// Entries that are stored under their own id.
pub trait Keyed {
    /// The id the entry is stored under.
    spec fn spec_id(&self) -> u64;

    /// The serialized entry.
    spec fn spec_bytes(&self) -> Seq<u8>;

    /// The id the entry is stored under.
    fn id(&self) -> (res: u64)
        ensures
            res == self.spec_id(),
    ;

    /// The serialized entry.
    fn bytes(&self) -> (res: &Vec<u8>)
        ensures
            res@ == self.spec_bytes(),
    ;
}

impl Keyed for ChannelEntry {
    open spec fn spec_id(&self) -> u64 {
        self.id
    }

    open spec fn spec_bytes(&self) -> Seq<u8> {
        self.bytes@
    }

    fn id(&self) -> (res: u64) {
        self.id
    }

    fn bytes(&self) -> (res: &Vec<u8>) {
        &self.bytes
    }
}

impl Keyed for EmojiEntry {
    open spec fn spec_id(&self) -> u64 {
        self.id
    }

    open spec fn spec_bytes(&self) -> Seq<u8> {
        self.bytes@
    }

    fn id(&self) -> (res: u64) {
        self.id
    }

    fn bytes(&self) -> (res: &Vec<u8>) {
        &self.bytes
    }
}

impl Keyed for RoleEntry {
    open spec fn spec_id(&self) -> u64 {
        self.id
    }

    open spec fn spec_bytes(&self) -> Seq<u8> {
        self.bytes@
    }

    fn id(&self) -> (res: u64) {
        self.id
    }

    fn bytes(&self) -> (res: &Vec<u8>) {
        &self.bytes
    }
}

impl Keyed for StickerEntry {
    open spec fn spec_id(&self) -> u64 {
        self.id
    }

    open spec fn spec_bytes(&self) -> Seq<u8> {
        self.bytes@
    }

    fn id(&self) -> (res: u64) {
        self.id
    }

    fn bytes(&self) -> (res: &Vec<u8>) {
        &self.bytes
    }
}

impl Keyed for StageInstanceEntry {
    open spec fn spec_id(&self) -> u64 {
        self.id
    }

    open spec fn spec_bytes(&self) -> Seq<u8> {
        self.bytes@
    }

    fn id(&self) -> (res: u64) {
        self.id
    }

    fn bytes(&self) -> (res: &Vec<u8>) {
        &self.bytes
    }
}

impl Keyed for ScheduledEventEntry {
    open spec fn spec_id(&self) -> u64 {
        self.id
    }

    open spec fn spec_bytes(&self) -> Seq<u8> {
        self.bytes@
    }

    fn id(&self) -> (res: u64) {
        self.id
    }

    fn bytes(&self) -> (res: &Vec<u8>) {
        &self.bytes
    }
}

} // verus!
