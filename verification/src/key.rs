//! Keys under which the cache stores its entries, and how their text is
//! written and split.
use vstd::prelude::*;

use crate::decimal::{dec, format_u64, lemma_dec, all_digits, is_digit};

verus! {

/// Keys for storing and loading data.
///
/// Each variant is documented with the kind of data it points to. Ids are
/// non-zero.
#[derive(Clone, Copy, Debug, PartialEq, Eq, Hash, Structural)]
#[non_exhaustive]
pub enum RedisKey {
    /// Serialized channel entry.
    Channel { id: u64 },
    /// Sorted set of message ids ordered by timestamp, most recent first.
    ChannelMessages { channel: u64 },
    /// Bookkeeping for a channel, read when the channel entry expires.
    ChannelMeta { id: u64 },
    /// Set of channel ids.
    Channels,
    /// Serialized current user entry.
    CurrentUser,
    /// Serialized emoji entry.
    Emoji { id: u64 },
    /// Bookkeeping for an emoji, read when the emoji entry expires.
    EmojiMeta { id: u64 },
    /// Set of emoji ids.
    Emojis,
    /// Serialized guild entry.
    Guild { id: u64 },
    /// Set of channel ids of a guild.
    GuildChannels { id: u64 },
    /// Set of emoji ids of a guild.
    GuildEmojis { id: u64 },
    /// Set of integration ids of a guild.
    GuildIntegrations { id: u64 },
    /// Set of user ids of a guild's members.
    GuildMembers { id: u64 },
    /// Set of user ids of a guild's presences.
    GuildPresences { id: u64 },
    /// Set of role ids of a guild.
    GuildRoles { id: u64 },
    /// Set of scheduled event ids of a guild.
    GuildScheduledEvents { id: u64 },
    /// Set of stage instance ids of a guild.
    GuildStageInstances { id: u64 },
    /// Set of sticker ids of a guild.
    GuildStickers { id: u64 },
    /// Set of user ids of a guild's voice states.
    GuildVoiceStates { id: u64 },
    /// Set of guild ids.
    Guilds,
    /// Serialized integration entry.
    Integration { guild: u64, id: u64 },
    /// Serialized member entry.
    Member { guild: u64, user: u64 },
    /// Serialized message entry.
    Message { id: u64 },
    /// Bookkeeping for a message, read when the message entry expires.
    MessageMeta { id: u64 },
    /// Set of message ids.
    Messages,
    /// Serialized presence entry.
    Presence { guild: u64, user: u64 },
    /// Serialized role entry.
    Role { id: u64 },
    /// Bookkeeping for a role, read when the role entry expires.
    RoleMeta { id: u64 },
    /// Set of role ids.
    Roles,
    /// Serialized scheduled event entry.
    ScheduledEvent { id: u64 },
    /// Bookkeeping for a scheduled event, read when its entry expires.
    ScheduledEventMeta { id: u64 },
    /// Set of scheduled event ids.
    ScheduledEvents,
    /// Serialized gateway sessions.
    Sessions,
    /// Serialized stage instance entry.
    StageInstance { id: u64 },
    /// Bookkeeping for a stage instance, read when its entry expires.
    StageInstanceMeta { id: u64 },
    /// Set of stage instance ids.
    StageInstances,
    /// Serialized sticker entry.
    Sticker { id: u64 },
    /// Bookkeeping for a sticker, read when the sticker entry expires.
    StickerMeta { id: u64 },
    /// Set of sticker ids.
    Stickers,
    /// Set of ids of unavailable guilds.
    UnavailableGuilds,
    /// Serialized user entry.
    User { id: u64 },
    /// Set of ids of the guilds a user shares with the current user.
    UserGuilds { id: u64 },
    /// Set of user ids.
    Users,
    /// Serialized voice state entry.
    VoiceState { guild: u64, user: u64 },
}

/// The byte `:` that separates the parts of a key.
pub open spec fn colon() -> u8 {
    58
}

/// The word that starts the text of a key.
pub open spec fn prefix(key: RedisKey) -> Seq<u8> {
    match key {
        // CHANNEL
        RedisKey::Channel { .. } => seq![67u8, 72, 65, 78, 78, 69, 76],
        // CHANNEL_MESSAGES_META
        RedisKey::ChannelMessages { .. } => seq![67u8, 72, 65, 78, 78, 69, 76, 95, 77, 69, 83, 83, 65, 71, 69, 83, 95, 77, 69, 84, 65],
        // CHANNEL_META
        RedisKey::ChannelMeta { .. } => seq![67u8, 72, 65, 78, 78, 69, 76, 95, 77, 69, 84, 65],
        // CHANNELS
        RedisKey::Channels => seq![67u8, 72, 65, 78, 78, 69, 76, 83],
        // CURRENT_USER
        RedisKey::CurrentUser => seq![67u8, 85, 82, 82, 69, 78, 84, 95, 85, 83, 69, 82],
        // EMOJI
        RedisKey::Emoji { .. } => seq![69u8, 77, 79, 74, 73],
        // EMOJI_META
        RedisKey::EmojiMeta { .. } => seq![69u8, 77, 79, 74, 73, 95, 77, 69, 84, 65],
        // EMOJIS
        RedisKey::Emojis => seq![69u8, 77, 79, 74, 73, 83],
        // GUILD
        RedisKey::Guild { .. } => seq![71u8, 85, 73, 76, 68],
        // GUILD_CHANNELS
        RedisKey::GuildChannels { .. } => seq![71u8, 85, 73, 76, 68, 95, 67, 72, 65, 78, 78, 69, 76, 83],
        // GUILD_EMOJIS
        RedisKey::GuildEmojis { .. } => seq![71u8, 85, 73, 76, 68, 95, 69, 77, 79, 74, 73, 83],
        // GUILD_INTEGRATIONS
        RedisKey::GuildIntegrations { .. } => seq![71u8, 85, 73, 76, 68, 95, 73, 78, 84, 69, 71, 82, 65, 84, 73, 79, 78, 83],
        // GUILD_MEMBERS
        RedisKey::GuildMembers { .. } => seq![71u8, 85, 73, 76, 68, 95, 77, 69, 77, 66, 69, 82, 83],
        // GUILD_PRESENCES
        RedisKey::GuildPresences { .. } => seq![71u8, 85, 73, 76, 68, 95, 80, 82, 69, 83, 69, 78, 67, 69, 83],
        // GUILD_ROLES
        RedisKey::GuildRoles { .. } => seq![71u8, 85, 73, 76, 68, 95, 82, 79, 76, 69, 83],
        // GUILD_SCHEDULED_EVENTS
        RedisKey::GuildScheduledEvents { .. } => seq![71u8, 85, 73, 76, 68, 95, 83, 67, 72, 69, 68, 85, 76, 69, 68, 95, 69, 86, 69, 78, 84, 83],
        // GUILD_STAGE_INSTANCES
        RedisKey::GuildStageInstances { .. } => seq![71u8, 85, 73, 76, 68, 95, 83, 84, 65, 71, 69, 95, 73, 78, 83, 84, 65, 78, 67, 69, 83],
        // GUILD_STICKERS
        RedisKey::GuildStickers { .. } => seq![71u8, 85, 73, 76, 68, 95, 83, 84, 73, 67, 75, 69, 82, 83],
        // GUILD_VOICE_STATES
        RedisKey::GuildVoiceStates { .. } => seq![71u8, 85, 73, 76, 68, 95, 86, 79, 73, 67, 69, 95, 83, 84, 65, 84, 69, 83],
        // GUILDS
        RedisKey::Guilds => seq![71u8, 85, 73, 76, 68, 83],
        // INTEGRATION
        RedisKey::Integration { .. } => seq![73u8, 78, 84, 69, 71, 82, 65, 84, 73, 79, 78],
        // MEMBER
        RedisKey::Member { .. } => seq![77u8, 69, 77, 66, 69, 82],
        // MESSAGE
        RedisKey::Message { .. } => seq![77u8, 69, 83, 83, 65, 71, 69],
        // MESSAGE_META
        RedisKey::MessageMeta { .. } => seq![77u8, 69, 83, 83, 65, 71, 69, 95, 77, 69, 84, 65],
        // MESSAGES
        RedisKey::Messages => seq![77u8, 69, 83, 83, 65, 71, 69, 83],
        // PRESENCE
        RedisKey::Presence { .. } => seq![80u8, 82, 69, 83, 69, 78, 67, 69],
        // ROLE
        RedisKey::Role { .. } => seq![82u8, 79, 76, 69],
        // ROLE_META
        RedisKey::RoleMeta { .. } => seq![82u8, 79, 76, 69, 95, 77, 69, 84, 65],
        // ROLES
        RedisKey::Roles => seq![82u8, 79, 76, 69, 83],
        // SCHEDULED_EVENT
        RedisKey::ScheduledEvent { .. } => seq![83u8, 67, 72, 69, 68, 85, 76, 69, 68, 95, 69, 86, 69, 78, 84],
        // SCHEDULED_EVENT_META
        RedisKey::ScheduledEventMeta { .. } => seq![83u8, 67, 72, 69, 68, 85, 76, 69, 68, 95, 69, 86, 69, 78, 84, 95, 77, 69, 84, 65],
        // SCHEDULED_EVENTS
        RedisKey::ScheduledEvents => seq![83u8, 67, 72, 69, 68, 85, 76, 69, 68, 95, 69, 86, 69, 78, 84, 83],
        // SESSIONS
        RedisKey::Sessions => seq![83u8, 69, 83, 83, 73, 79, 78, 83],
        // STAGE_INSTANCE
        RedisKey::StageInstance { .. } => seq![83u8, 84, 65, 71, 69, 95, 73, 78, 83, 84, 65, 78, 67, 69],
        // STAGE_INSTANCE_META
        RedisKey::StageInstanceMeta { .. } => seq![83u8, 84, 65, 71, 69, 95, 73, 78, 83, 84, 65, 78, 67, 69, 95, 77, 69, 84, 65],
        // STAGE_INSTANCES
        RedisKey::StageInstances => seq![83u8, 84, 65, 71, 69, 95, 73, 78, 83, 84, 65, 78, 67, 69, 83],
        // STICKER
        RedisKey::Sticker { .. } => seq![83u8, 84, 73, 67, 75, 69, 82],
        // STICKER_META
        RedisKey::StickerMeta { .. } => seq![83u8, 84, 73, 67, 75, 69, 82, 95, 77, 69, 84, 65],
        // STICKERS
        RedisKey::Stickers => seq![83u8, 84, 73, 67, 75, 69, 82, 83],
        // UNAVAILABLE_GUILDS
        RedisKey::UnavailableGuilds => seq![85u8, 78, 65, 86, 65, 73, 76, 65, 66, 76, 69, 95, 71, 85, 73, 76, 68, 83],
        // USER
        RedisKey::User { .. } => seq![85u8, 83, 69, 82],
        // USER_GUILDS
        RedisKey::UserGuilds { .. } => seq![85u8, 83, 69, 82, 95, 71, 85, 73, 76, 68, 83],
        // USERS
        RedisKey::Users => seq![85u8, 83, 69, 82, 83],
        // VOICE_STATE
        RedisKey::VoiceState { .. } => seq![86u8, 79, 73, 67, 69, 95, 83, 84, 65, 84, 69],
    }
}

/// `prefix:id`
pub open spec fn name_id(prefix: Seq<u8>, id: u64) -> Seq<u8> {
    prefix.push(colon()) + dec(id as nat)
}

/// `prefix:guild:id`
pub open spec fn name_guild_id(prefix: Seq<u8>, guild: u64, id: u64) -> Seq<u8> {
    (prefix.push(colon()) + dec(guild as nat)).push(colon()) + dec(id as nat)
}

/// The text of a key: its prefix, followed by its ids, each after a `:`.
pub open spec fn key_bytes(key: RedisKey) -> Seq<u8> {
    match key {
        RedisKey::Channel { id } => name_id(prefix(key), id),
        RedisKey::ChannelMessages { channel } => name_id(prefix(key), channel),
        RedisKey::ChannelMeta { id } => name_id(prefix(key), id),
        RedisKey::Channels => prefix(key),
        RedisKey::CurrentUser => prefix(key),
        RedisKey::Emoji { id } => name_id(prefix(key), id),
        RedisKey::EmojiMeta { id } => name_id(prefix(key), id),
        RedisKey::Emojis => prefix(key),
        RedisKey::Guild { id } => name_id(prefix(key), id),
        RedisKey::GuildChannels { id } => name_id(prefix(key), id),
        RedisKey::GuildEmojis { id } => name_id(prefix(key), id),
        RedisKey::GuildIntegrations { id } => name_id(prefix(key), id),
        RedisKey::GuildMembers { id } => name_id(prefix(key), id),
        RedisKey::GuildPresences { id } => name_id(prefix(key), id),
        RedisKey::GuildRoles { id } => name_id(prefix(key), id),
        RedisKey::GuildScheduledEvents { id } => name_id(prefix(key), id),
        RedisKey::GuildStageInstances { id } => name_id(prefix(key), id),
        RedisKey::GuildStickers { id } => name_id(prefix(key), id),
        RedisKey::GuildVoiceStates { id } => name_id(prefix(key), id),
        RedisKey::Guilds => prefix(key),
        RedisKey::Integration { guild, id } => name_guild_id(prefix(key), guild, id),
        RedisKey::Member { guild, user } => name_guild_id(prefix(key), guild, user),
        RedisKey::Message { id } => name_id(prefix(key), id),
        RedisKey::MessageMeta { id } => name_id(prefix(key), id),
        RedisKey::Messages => prefix(key),
        RedisKey::Presence { guild, user } => name_guild_id(prefix(key), guild, user),
        RedisKey::Role { id } => name_id(prefix(key), id),
        RedisKey::RoleMeta { id } => name_id(prefix(key), id),
        RedisKey::Roles => prefix(key),
        RedisKey::ScheduledEvent { id } => name_id(prefix(key), id),
        RedisKey::ScheduledEventMeta { id } => name_id(prefix(key), id),
        RedisKey::ScheduledEvents => prefix(key),
        RedisKey::Sessions => prefix(key),
        RedisKey::StageInstance { id } => name_id(prefix(key), id),
        RedisKey::StageInstanceMeta { id } => name_id(prefix(key), id),
        RedisKey::StageInstances => prefix(key),
        RedisKey::Sticker { id } => name_id(prefix(key), id),
        RedisKey::StickerMeta { id } => name_id(prefix(key), id),
        RedisKey::Stickers => prefix(key),
        RedisKey::UnavailableGuilds => prefix(key),
        RedisKey::User { id } => name_id(prefix(key), id),
        RedisKey::UserGuilds { id } => name_id(prefix(key), id),
        RedisKey::Users => prefix(key),
        RedisKey::VoiceState { guild, user } => name_guild_id(prefix(key), guild, user),
    }
}

/// Whether every id that a key holds is non-zero.
pub open spec fn key_ids_nonzero(key: RedisKey) -> bool {
    match key {
        RedisKey::Channel { id } => id != 0,
        RedisKey::ChannelMessages { channel } => channel != 0,
        RedisKey::ChannelMeta { id } => id != 0,
        RedisKey::Emoji { id } => id != 0,
        RedisKey::EmojiMeta { id } => id != 0,
        RedisKey::Guild { id } => id != 0,
        RedisKey::GuildChannels { id } => id != 0,
        RedisKey::GuildEmojis { id } => id != 0,
        RedisKey::GuildIntegrations { id } => id != 0,
        RedisKey::GuildMembers { id } => id != 0,
        RedisKey::GuildPresences { id } => id != 0,
        RedisKey::GuildRoles { id } => id != 0,
        RedisKey::GuildScheduledEvents { id } => id != 0,
        RedisKey::GuildStageInstances { id } => id != 0,
        RedisKey::GuildStickers { id } => id != 0,
        RedisKey::GuildVoiceStates { id } => id != 0,
        RedisKey::Integration { guild, id } => guild != 0 && id != 0,
        RedisKey::Member { guild, user } => guild != 0 && user != 0,
        RedisKey::Message { id } => id != 0,
        RedisKey::MessageMeta { id } => id != 0,
        RedisKey::Presence { guild, user } => guild != 0 && user != 0,
        RedisKey::Role { id } => id != 0,
        RedisKey::RoleMeta { id } => id != 0,
        RedisKey::ScheduledEvent { id } => id != 0,
        RedisKey::ScheduledEventMeta { id } => id != 0,
        RedisKey::StageInstance { id } => id != 0,
        RedisKey::StageInstanceMeta { id } => id != 0,
        RedisKey::Sticker { id } => id != 0,
        RedisKey::StickerMeta { id } => id != 0,
        RedisKey::User { id } => id != 0,
        RedisKey::UserGuilds { id } => id != 0,
        RedisKey::VoiceState { guild, user } => guild != 0 && user != 0,
        _ => true,
    }
}

impl RedisKey {
    /// The word that starts the text of this key.
    pub fn prefix(&self) -> (res: Vec<u8>)
        ensures
            res@ == prefix(*self),
    {
        match self {
            // CHANNEL
            RedisKey::Channel { .. } => vec![67u8, 72, 65, 78, 78, 69, 76],
            // CHANNEL_MESSAGES_META
            RedisKey::ChannelMessages { .. } => vec![67u8, 72, 65, 78, 78, 69, 76, 95, 77, 69, 83, 83, 65, 71, 69, 83, 95, 77, 69, 84, 65],
            // CHANNEL_META
            RedisKey::ChannelMeta { .. } => vec![67u8, 72, 65, 78, 78, 69, 76, 95, 77, 69, 84, 65],
            // CHANNELS
            RedisKey::Channels => vec![67u8, 72, 65, 78, 78, 69, 76, 83],
            // CURRENT_USER
            RedisKey::CurrentUser => vec![67u8, 85, 82, 82, 69, 78, 84, 95, 85, 83, 69, 82],
            // EMOJI
            RedisKey::Emoji { .. } => vec![69u8, 77, 79, 74, 73],
            // EMOJI_META
            RedisKey::EmojiMeta { .. } => vec![69u8, 77, 79, 74, 73, 95, 77, 69, 84, 65],
            // EMOJIS
            RedisKey::Emojis => vec![69u8, 77, 79, 74, 73, 83],
            // GUILD
            RedisKey::Guild { .. } => vec![71u8, 85, 73, 76, 68],
            // GUILD_CHANNELS
            RedisKey::GuildChannels { .. } => vec![71u8, 85, 73, 76, 68, 95, 67, 72, 65, 78, 78, 69, 76, 83],
            // GUILD_EMOJIS
            RedisKey::GuildEmojis { .. } => vec![71u8, 85, 73, 76, 68, 95, 69, 77, 79, 74, 73, 83],
            // GUILD_INTEGRATIONS
            RedisKey::GuildIntegrations { .. } => vec![71u8, 85, 73, 76, 68, 95, 73, 78, 84, 69, 71, 82, 65, 84, 73, 79, 78, 83],
            // GUILD_MEMBERS
            RedisKey::GuildMembers { .. } => vec![71u8, 85, 73, 76, 68, 95, 77, 69, 77, 66, 69, 82, 83],
            // GUILD_PRESENCES
            RedisKey::GuildPresences { .. } => vec![71u8, 85, 73, 76, 68, 95, 80, 82, 69, 83, 69, 78, 67, 69, 83],
            // GUILD_ROLES
            RedisKey::GuildRoles { .. } => vec![71u8, 85, 73, 76, 68, 95, 82, 79, 76, 69, 83],
            // GUILD_SCHEDULED_EVENTS
            RedisKey::GuildScheduledEvents { .. } => vec![71u8, 85, 73, 76, 68, 95, 83, 67, 72, 69, 68, 85, 76, 69, 68, 95, 69, 86, 69, 78, 84, 83],
            // GUILD_STAGE_INSTANCES
            RedisKey::GuildStageInstances { .. } => vec![71u8, 85, 73, 76, 68, 95, 83, 84, 65, 71, 69, 95, 73, 78, 83, 84, 65, 78, 67, 69, 83],
            // GUILD_STICKERS
            RedisKey::GuildStickers { .. } => vec![71u8, 85, 73, 76, 68, 95, 83, 84, 73, 67, 75, 69, 82, 83],
            // GUILD_VOICE_STATES
            RedisKey::GuildVoiceStates { .. } => vec![71u8, 85, 73, 76, 68, 95, 86, 79, 73, 67, 69, 95, 83, 84, 65, 84, 69, 83],
            // GUILDS
            RedisKey::Guilds => vec![71u8, 85, 73, 76, 68, 83],
            // INTEGRATION
            RedisKey::Integration { .. } => vec![73u8, 78, 84, 69, 71, 82, 65, 84, 73, 79, 78],
            // MEMBER
            RedisKey::Member { .. } => vec![77u8, 69, 77, 66, 69, 82],
            // MESSAGE
            RedisKey::Message { .. } => vec![77u8, 69, 83, 83, 65, 71, 69],
            // MESSAGE_META
            RedisKey::MessageMeta { .. } => vec![77u8, 69, 83, 83, 65, 71, 69, 95, 77, 69, 84, 65],
            // MESSAGES
            RedisKey::Messages => vec![77u8, 69, 83, 83, 65, 71, 69, 83],
            // PRESENCE
            RedisKey::Presence { .. } => vec![80u8, 82, 69, 83, 69, 78, 67, 69],
            // ROLE
            RedisKey::Role { .. } => vec![82u8, 79, 76, 69],
            // ROLE_META
            RedisKey::RoleMeta { .. } => vec![82u8, 79, 76, 69, 95, 77, 69, 84, 65],
            // ROLES
            RedisKey::Roles => vec![82u8, 79, 76, 69, 83],
            // SCHEDULED_EVENT
            RedisKey::ScheduledEvent { .. } => vec![83u8, 67, 72, 69, 68, 85, 76, 69, 68, 95, 69, 86, 69, 78, 84],
            // SCHEDULED_EVENT_META
            RedisKey::ScheduledEventMeta { .. } => vec![83u8, 67, 72, 69, 68, 85, 76, 69, 68, 95, 69, 86, 69, 78, 84, 95, 77, 69, 84, 65],
            // SCHEDULED_EVENTS
            RedisKey::ScheduledEvents => vec![83u8, 67, 72, 69, 68, 85, 76, 69, 68, 95, 69, 86, 69, 78, 84, 83],
            // SESSIONS
            RedisKey::Sessions => vec![83u8, 69, 83, 83, 73, 79, 78, 83],
            // STAGE_INSTANCE
            RedisKey::StageInstance { .. } => vec![83u8, 84, 65, 71, 69, 95, 73, 78, 83, 84, 65, 78, 67, 69],
            // STAGE_INSTANCE_META
            RedisKey::StageInstanceMeta { .. } => vec![83u8, 84, 65, 71, 69, 95, 73, 78, 83, 84, 65, 78, 67, 69, 95, 77, 69, 84, 65],
            // STAGE_INSTANCES
            RedisKey::StageInstances => vec![83u8, 84, 65, 71, 69, 95, 73, 78, 83, 84, 65, 78, 67, 69, 83],
            // STICKER
            RedisKey::Sticker { .. } => vec![83u8, 84, 73, 67, 75, 69, 82],
            // STICKER_META
            RedisKey::StickerMeta { .. } => vec![83u8, 84, 73, 67, 75, 69, 82, 95, 77, 69, 84, 65],
            // STICKERS
            RedisKey::Stickers => vec![83u8, 84, 73, 67, 75, 69, 82, 83],
            // UNAVAILABLE_GUILDS
            RedisKey::UnavailableGuilds => vec![85u8, 78, 65, 86, 65, 73, 76, 65, 66, 76, 69, 95, 71, 85, 73, 76, 68, 83],
            // USER
            RedisKey::User { .. } => vec![85u8, 83, 69, 82],
            // USER_GUILDS
            RedisKey::UserGuilds { .. } => vec![85u8, 83, 69, 82, 95, 71, 85, 73, 76, 68, 83],
            // USERS
            RedisKey::Users => vec![85u8, 83, 69, 82, 83],
            // VOICE_STATE
            RedisKey::VoiceState { .. } => vec![86u8, 79, 73, 67, 69, 95, 83, 84, 65, 84, 69],
        }
    }

    /// The text of this key, as it is sent to the store.
    pub fn to_bytes(&self) -> (res: Vec<u8>)
        ensures
            res@ == key_bytes(*self),
    {
        let prefix = self.prefix();
        match *self {
            RedisKey::Channel { id } => write_name_id(prefix, id),
            RedisKey::ChannelMessages { channel } => write_name_id(prefix, channel),
            RedisKey::ChannelMeta { id } => write_name_id(prefix, id),
            RedisKey::Channels => prefix,
            RedisKey::CurrentUser => prefix,
            RedisKey::Emoji { id } => write_name_id(prefix, id),
            RedisKey::EmojiMeta { id } => write_name_id(prefix, id),
            RedisKey::Emojis => prefix,
            RedisKey::Guild { id } => write_name_id(prefix, id),
            RedisKey::GuildChannels { id } => write_name_id(prefix, id),
            RedisKey::GuildEmojis { id } => write_name_id(prefix, id),
            RedisKey::GuildIntegrations { id } => write_name_id(prefix, id),
            RedisKey::GuildMembers { id } => write_name_id(prefix, id),
            RedisKey::GuildPresences { id } => write_name_id(prefix, id),
            RedisKey::GuildRoles { id } => write_name_id(prefix, id),
            RedisKey::GuildScheduledEvents { id } => write_name_id(prefix, id),
            RedisKey::GuildStageInstances { id } => write_name_id(prefix, id),
            RedisKey::GuildStickers { id } => write_name_id(prefix, id),
            RedisKey::GuildVoiceStates { id } => write_name_id(prefix, id),
            RedisKey::Guilds => prefix,
            RedisKey::Integration { guild, id } => write_name_guild_id(prefix, guild, id),
            RedisKey::Member { guild, user } => write_name_guild_id(prefix, guild, user),
            RedisKey::Message { id } => write_name_id(prefix, id),
            RedisKey::MessageMeta { id } => write_name_id(prefix, id),
            RedisKey::Messages => prefix,
            RedisKey::Presence { guild, user } => write_name_guild_id(prefix, guild, user),
            RedisKey::Role { id } => write_name_id(prefix, id),
            RedisKey::RoleMeta { id } => write_name_id(prefix, id),
            RedisKey::Roles => prefix,
            RedisKey::ScheduledEvent { id } => write_name_id(prefix, id),
            RedisKey::ScheduledEventMeta { id } => write_name_id(prefix, id),
            RedisKey::ScheduledEvents => prefix,
            RedisKey::Sessions => prefix,
            RedisKey::StageInstance { id } => write_name_id(prefix, id),
            RedisKey::StageInstanceMeta { id } => write_name_id(prefix, id),
            RedisKey::StageInstances => prefix,
            RedisKey::Sticker { id } => write_name_id(prefix, id),
            RedisKey::StickerMeta { id } => write_name_id(prefix, id),
            RedisKey::Stickers => prefix,
            RedisKey::UnavailableGuilds => prefix,
            RedisKey::User { id } => write_name_id(prefix, id),
            RedisKey::UserGuilds { id } => write_name_id(prefix, id),
            RedisKey::Users => prefix,
            RedisKey::VoiceState { guild, user } => write_name_guild_id(prefix, guild, user),
        }
    }
}

/// Writes `prefix:id`.
fn write_name_id(prefix: Vec<u8>, id: u64) -> (res: Vec<u8>)
    ensures
        res@ == name_id(prefix@, id),
{
    let mut out = prefix;
    out.push(58u8);
    let mut digits = format_u64(id);
    out.append(&mut digits);
    out
}

/// Writes `prefix:guild:id`.
fn write_name_guild_id(prefix: Vec<u8>, guild: u64, id: u64) -> (res: Vec<u8>)
    ensures
        res@ == name_guild_id(prefix@, guild, id),
{
    let mut out = write_name_id(prefix, guild);
    out.push(58u8);
    let mut digits = format_u64(id);
    out.append(&mut digits);
    out
}

} // verus!
