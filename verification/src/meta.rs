//! Reading the key of an expired entry.
use vstd::prelude::*;

use crate::decimal::{atoi, dec, lemma_parse_dec, parse_id};
use crate::key::{key_bytes, key_ids_nonzero, prefix, RedisKey};
use crate::segments::{
    bytes_eq, lemma_prefix_colon_free, lemma_segments_name_guild_id, lemma_segments_name_id,
    lemma_segments_plain, segments, split_colon, views,
};

verus! {

/// All the data that the key of an expired entry gives: which entry expired.
#[derive(Clone, Copy, Debug, PartialEq, Eq, Structural)]
pub enum MetaKey {
    /// A Channel entry expired.
    Channel { channel: u64 },
    /// An Emoji entry expired.
    Emoji { emoji: u64 },
    /// A Guild entry expired.
    Guild { guild: u64 },
    /// An Integration entry expired.
    Integration { guild: u64, integration: u64 },
    /// A Member entry expired.
    Member { guild: u64, user: u64 },
    /// A Message entry expired.
    Message { msg: u64 },
    /// A Presence entry expired.
    Presence { guild: u64, user: u64 },
    /// A Role entry expired.
    Role { role: u64 },
    /// A StageInstance entry expired.
    StageInstance { stage: u64 },
    /// A Sticker entry expired.
    Sticker { sticker: u64 },
    /// An User entry expired.
    User { user: u64 },
    /// A VoiceState entry expired.
    VoiceState { guild: u64, user: u64 },
}

/// Which expire handling a key's expiry calls for: the entry keys of the
/// kinds above, and nothing for any other key.
pub open spec fn expire_target(key: RedisKey) -> Option<MetaKey> {
    match key {
        RedisKey::Channel { id } => Some(MetaKey::Channel { channel: id }),
        RedisKey::Emoji { id } => Some(MetaKey::Emoji { emoji: id }),
        RedisKey::Guild { id } => Some(MetaKey::Guild { guild: id }),
        RedisKey::Integration { guild, id } => Some(MetaKey::Integration { guild: guild, integration: id }),
        RedisKey::Member { guild, user } => Some(MetaKey::Member { guild: guild, user: user }),
        RedisKey::Message { id } => Some(MetaKey::Message { msg: id }),
        RedisKey::Presence { guild, user } => Some(MetaKey::Presence { guild: guild, user: user }),
        RedisKey::Role { id } => Some(MetaKey::Role { role: id }),
        RedisKey::StageInstance { id } => Some(MetaKey::StageInstance { stage: id }),
        RedisKey::Sticker { id } => Some(MetaKey::Sticker { sticker: id }),
        RedisKey::User { id } => Some(MetaKey::User { user: id }),
        RedisKey::VoiceState { guild, user } => Some(MetaKey::VoiceState { guild: guild, user: user }),
        _ => None,
    }
}

/// The number that the `i`-th segment denotes as an id, if there is one.
pub open spec fn segment_id(segs: Seq<Seq<u8>>, i: int) -> Option<u64> {
    if i < segs.len() {
        parse_id(segs[i])
    } else {
        None
    }
}

/// What an expire notification's key denotes: its first segment names the
/// kind of entry, the following segments its ids. Further segments are not
/// read.
pub open spec fn parse_meta_key(s: Seq<u8>) -> Option<MetaKey> {
    let segs = segments(s);
    let first = segs[0];
    let a = segment_id(segs, 1);
    let b = segment_id(segs, 2);
    if first == prefix(RedisKey::Channel { id: 0 }) {
        match a {
            Some(x) => Some(MetaKey::Channel { channel: x }),
            None => None,
        }
    } else if first == prefix(RedisKey::Emoji { id: 0 }) {
        match a {
            Some(x) => Some(MetaKey::Emoji { emoji: x }),
            None => None,
        }
    } else if first == prefix(RedisKey::Guild { id: 0 }) {
        match a {
            Some(x) => Some(MetaKey::Guild { guild: x }),
            None => None,
        }
    } else if first == prefix(RedisKey::Integration { guild: 0, id: 0 }) {
        match (a, b) {
            (Some(x), Some(y)) => Some(MetaKey::Integration { guild: x, integration: y }),
            _ => None,
        }
    } else if first == prefix(RedisKey::Member { guild: 0, user: 0 }) {
        match (a, b) {
            (Some(x), Some(y)) => Some(MetaKey::Member { guild: x, user: y }),
            _ => None,
        }
    } else if first == prefix(RedisKey::Message { id: 0 }) {
        match a {
            Some(x) => Some(MetaKey::Message { msg: x }),
            None => None,
        }
    } else if first == prefix(RedisKey::Presence { guild: 0, user: 0 }) {
        match (a, b) {
            (Some(x), Some(y)) => Some(MetaKey::Presence { guild: x, user: y }),
            _ => None,
        }
    } else if first == prefix(RedisKey::Role { id: 0 }) {
        match a {
            Some(x) => Some(MetaKey::Role { role: x }),
            None => None,
        }
    } else if first == prefix(RedisKey::StageInstance { id: 0 }) {
        match a {
            Some(x) => Some(MetaKey::StageInstance { stage: x }),
            None => None,
        }
    } else if first == prefix(RedisKey::Sticker { id: 0 }) {
        match a {
            Some(x) => Some(MetaKey::Sticker { sticker: x }),
            None => None,
        }
    } else if first == prefix(RedisKey::User { id: 0 }) {
        match a {
            Some(x) => Some(MetaKey::User { user: x }),
            None => None,
        }
    } else if first == prefix(RedisKey::VoiceState { guild: 0, user: 0 }) {
        match (a, b) {
            (Some(x), Some(y)) => Some(MetaKey::VoiceState { guild: x, user: y }),
            _ => None,
        }
    } else {
        None
    }
}

/// Reads the id in the `i`-th segment, if there is one.
fn segment_atoi(segs: &Vec<Vec<u8>>, i: usize) -> (res: Option<u64>)
    ensures
        res == segment_id(views(segs@), i as int),
{
    if i < segs.len() {
        atoi(segs[i].as_slice())
    } else {
        None
    }
}

impl MetaKey {
    /// Parses the key of an expired entry.
    pub fn parse(key: &[u8]) -> (res: Option<MetaKey>)
        ensures
            res == parse_meta_key(key@),
    {
        let segs = split_colon(key);
        let first = segs[0].as_slice();
        let a = segment_atoi(&segs, 1);
        let b = segment_atoi(&segs, 2);
        if bytes_eq(first, RedisKey::Channel { id: 0 }.prefix().as_slice()) {
            match a {
                Some(x) => Some(MetaKey::Channel { channel: x }),
                None => None,
            }
        } else if bytes_eq(first, RedisKey::Emoji { id: 0 }.prefix().as_slice()) {
            match a {
                Some(x) => Some(MetaKey::Emoji { emoji: x }),
                None => None,
            }
        } else if bytes_eq(first, RedisKey::Guild { id: 0 }.prefix().as_slice()) {
            match a {
                Some(x) => Some(MetaKey::Guild { guild: x }),
                None => None,
            }
        } else if bytes_eq(first, RedisKey::Integration { guild: 0, id: 0 }.prefix().as_slice()) {
            match (a, b) {
                (Some(x), Some(y)) => Some(MetaKey::Integration { guild: x, integration: y }),
                _ => None,
            }
        } else if bytes_eq(first, RedisKey::Member { guild: 0, user: 0 }.prefix().as_slice()) {
            match (a, b) {
                (Some(x), Some(y)) => Some(MetaKey::Member { guild: x, user: y }),
                _ => None,
            }
        } else if bytes_eq(first, RedisKey::Message { id: 0 }.prefix().as_slice()) {
            match a {
                Some(x) => Some(MetaKey::Message { msg: x }),
                None => None,
            }
        } else if bytes_eq(first, RedisKey::Presence { guild: 0, user: 0 }.prefix().as_slice()) {
            match (a, b) {
                (Some(x), Some(y)) => Some(MetaKey::Presence { guild: x, user: y }),
                _ => None,
            }
        } else if bytes_eq(first, RedisKey::Role { id: 0 }.prefix().as_slice()) {
            match a {
                Some(x) => Some(MetaKey::Role { role: x }),
                None => None,
            }
        } else if bytes_eq(first, RedisKey::StageInstance { id: 0 }.prefix().as_slice()) {
            match a {
                Some(x) => Some(MetaKey::StageInstance { stage: x }),
                None => None,
            }
        } else if bytes_eq(first, RedisKey::Sticker { id: 0 }.prefix().as_slice()) {
            match a {
                Some(x) => Some(MetaKey::Sticker { sticker: x }),
                None => None,
            }
        } else if bytes_eq(first, RedisKey::User { id: 0 }.prefix().as_slice()) {
            match a {
                Some(x) => Some(MetaKey::User { user: x }),
                None => None,
            }
        } else if bytes_eq(first, RedisKey::VoiceState { guild: 0, user: 0 }.prefix().as_slice()) {
            match (a, b) {
                (Some(x), Some(y)) => Some(MetaKey::VoiceState { guild: x, user: y }),
                _ => None,
            }
        } else {
            None
        }
    }
}

proof fn lemma_parse_channel(id: u64)
    requires
        id != 0,
    ensures
        parse_meta_key(key_bytes(RedisKey::Channel { id })) == expire_target(RedisKey::Channel { id }),
{
    lemma_prefix_colon_free(RedisKey::Channel { id });
    lemma_segments_name_id(prefix(RedisKey::Channel { id }), id);
    lemma_parse_dec(id);
}

proof fn lemma_parse_channel_messages(channel: u64)
    requires
        channel != 0,
    ensures
        parse_meta_key(key_bytes(RedisKey::ChannelMessages { channel })) == expire_target(RedisKey::ChannelMessages { channel }),
{
    lemma_prefix_colon_free(RedisKey::ChannelMessages { channel });
    lemma_segments_name_id(prefix(RedisKey::ChannelMessages { channel }), channel);
    lemma_parse_dec(channel);
}

proof fn lemma_parse_channel_meta(id: u64)
    requires
        id != 0,
    ensures
        parse_meta_key(key_bytes(RedisKey::ChannelMeta { id })) == expire_target(RedisKey::ChannelMeta { id }),
{
    lemma_prefix_colon_free(RedisKey::ChannelMeta { id });
    lemma_segments_name_id(prefix(RedisKey::ChannelMeta { id }), id);
    lemma_parse_dec(id);
}

proof fn lemma_parse_channels()
    ensures
        parse_meta_key(key_bytes(RedisKey::Channels)) == expire_target(RedisKey::Channels),
{
    lemma_prefix_colon_free(RedisKey::Channels);
    lemma_segments_plain(prefix(RedisKey::Channels));
}

proof fn lemma_parse_current_user()
    ensures
        parse_meta_key(key_bytes(RedisKey::CurrentUser)) == expire_target(RedisKey::CurrentUser),
{
    lemma_prefix_colon_free(RedisKey::CurrentUser);
    lemma_segments_plain(prefix(RedisKey::CurrentUser));
}

proof fn lemma_parse_emoji(id: u64)
    requires
        id != 0,
    ensures
        parse_meta_key(key_bytes(RedisKey::Emoji { id })) == expire_target(RedisKey::Emoji { id }),
{
    lemma_prefix_colon_free(RedisKey::Emoji { id });
    lemma_segments_name_id(prefix(RedisKey::Emoji { id }), id);
    lemma_parse_dec(id);
}

proof fn lemma_parse_emoji_meta(id: u64)
    requires
        id != 0,
    ensures
        parse_meta_key(key_bytes(RedisKey::EmojiMeta { id })) == expire_target(RedisKey::EmojiMeta { id }),
{
    lemma_prefix_colon_free(RedisKey::EmojiMeta { id });
    lemma_segments_name_id(prefix(RedisKey::EmojiMeta { id }), id);
    lemma_parse_dec(id);
}

proof fn lemma_parse_emojis()
    ensures
        parse_meta_key(key_bytes(RedisKey::Emojis)) == expire_target(RedisKey::Emojis),
{
    lemma_prefix_colon_free(RedisKey::Emojis);
    lemma_segments_plain(prefix(RedisKey::Emojis));
}

proof fn lemma_parse_guild(id: u64)
    requires
        id != 0,
    ensures
        parse_meta_key(key_bytes(RedisKey::Guild { id })) == expire_target(RedisKey::Guild { id }),
{
    lemma_prefix_colon_free(RedisKey::Guild { id });
    lemma_segments_name_id(prefix(RedisKey::Guild { id }), id);
    lemma_parse_dec(id);
}

proof fn lemma_parse_guild_channels(id: u64)
    requires
        id != 0,
    ensures
        parse_meta_key(key_bytes(RedisKey::GuildChannels { id })) == expire_target(RedisKey::GuildChannels { id }),
{
    lemma_prefix_colon_free(RedisKey::GuildChannels { id });
    lemma_segments_name_id(prefix(RedisKey::GuildChannels { id }), id);
    lemma_parse_dec(id);
}

proof fn lemma_parse_guild_emojis(id: u64)
    requires
        id != 0,
    ensures
        parse_meta_key(key_bytes(RedisKey::GuildEmojis { id })) == expire_target(RedisKey::GuildEmojis { id }),
{
    lemma_prefix_colon_free(RedisKey::GuildEmojis { id });
    lemma_segments_name_id(prefix(RedisKey::GuildEmojis { id }), id);
    lemma_parse_dec(id);
}

proof fn lemma_parse_guild_integrations(id: u64)
    requires
        id != 0,
    ensures
        parse_meta_key(key_bytes(RedisKey::GuildIntegrations { id })) == expire_target(RedisKey::GuildIntegrations { id }),
{
    lemma_prefix_colon_free(RedisKey::GuildIntegrations { id });
    lemma_segments_name_id(prefix(RedisKey::GuildIntegrations { id }), id);
    lemma_parse_dec(id);
}

proof fn lemma_parse_guild_members(id: u64)
    requires
        id != 0,
    ensures
        parse_meta_key(key_bytes(RedisKey::GuildMembers { id })) == expire_target(RedisKey::GuildMembers { id }),
{
    lemma_prefix_colon_free(RedisKey::GuildMembers { id });
    lemma_segments_name_id(prefix(RedisKey::GuildMembers { id }), id);
    lemma_parse_dec(id);
}

proof fn lemma_parse_guild_presences(id: u64)
    requires
        id != 0,
    ensures
        parse_meta_key(key_bytes(RedisKey::GuildPresences { id })) == expire_target(RedisKey::GuildPresences { id }),
{
    lemma_prefix_colon_free(RedisKey::GuildPresences { id });
    lemma_segments_name_id(prefix(RedisKey::GuildPresences { id }), id);
    lemma_parse_dec(id);
}

proof fn lemma_parse_guild_roles(id: u64)
    requires
        id != 0,
    ensures
        parse_meta_key(key_bytes(RedisKey::GuildRoles { id })) == expire_target(RedisKey::GuildRoles { id }),
{
    lemma_prefix_colon_free(RedisKey::GuildRoles { id });
    lemma_segments_name_id(prefix(RedisKey::GuildRoles { id }), id);
    lemma_parse_dec(id);
}

proof fn lemma_parse_guild_scheduled_events(id: u64)
    requires
        id != 0,
    ensures
        parse_meta_key(key_bytes(RedisKey::GuildScheduledEvents { id })) == expire_target(RedisKey::GuildScheduledEvents { id }),
{
    lemma_prefix_colon_free(RedisKey::GuildScheduledEvents { id });
    lemma_segments_name_id(prefix(RedisKey::GuildScheduledEvents { id }), id);
    lemma_parse_dec(id);
}

proof fn lemma_parse_guild_stage_instances(id: u64)
    requires
        id != 0,
    ensures
        parse_meta_key(key_bytes(RedisKey::GuildStageInstances { id })) == expire_target(RedisKey::GuildStageInstances { id }),
{
    lemma_prefix_colon_free(RedisKey::GuildStageInstances { id });
    lemma_segments_name_id(prefix(RedisKey::GuildStageInstances { id }), id);
    lemma_parse_dec(id);
}

proof fn lemma_parse_guild_stickers(id: u64)
    requires
        id != 0,
    ensures
        parse_meta_key(key_bytes(RedisKey::GuildStickers { id })) == expire_target(RedisKey::GuildStickers { id }),
{
    lemma_prefix_colon_free(RedisKey::GuildStickers { id });
    lemma_segments_name_id(prefix(RedisKey::GuildStickers { id }), id);
    lemma_parse_dec(id);
}

proof fn lemma_parse_guild_voice_states(id: u64)
    requires
        id != 0,
    ensures
        parse_meta_key(key_bytes(RedisKey::GuildVoiceStates { id })) == expire_target(RedisKey::GuildVoiceStates { id }),
{
    lemma_prefix_colon_free(RedisKey::GuildVoiceStates { id });
    lemma_segments_name_id(prefix(RedisKey::GuildVoiceStates { id }), id);
    lemma_parse_dec(id);
}

proof fn lemma_parse_guilds()
    ensures
        parse_meta_key(key_bytes(RedisKey::Guilds)) == expire_target(RedisKey::Guilds),
{
    lemma_prefix_colon_free(RedisKey::Guilds);
    lemma_segments_plain(prefix(RedisKey::Guilds));
}

proof fn lemma_parse_integration(guild: u64, id: u64)
    requires
        guild != 0,
        id != 0,
    ensures
        parse_meta_key(key_bytes(RedisKey::Integration { guild, id })) == expire_target(RedisKey::Integration { guild, id }),
{
    lemma_prefix_colon_free(RedisKey::Integration { guild, id });
    lemma_segments_name_guild_id(prefix(RedisKey::Integration { guild, id }), guild, id);
    lemma_parse_dec(guild);
    lemma_parse_dec(id);
}

proof fn lemma_parse_member(guild: u64, user: u64)
    requires
        guild != 0,
        user != 0,
    ensures
        parse_meta_key(key_bytes(RedisKey::Member { guild, user })) == expire_target(RedisKey::Member { guild, user }),
{
    lemma_prefix_colon_free(RedisKey::Member { guild, user });
    lemma_segments_name_guild_id(prefix(RedisKey::Member { guild, user }), guild, user);
    lemma_parse_dec(guild);
    lemma_parse_dec(user);
}

proof fn lemma_parse_message(id: u64)
    requires
        id != 0,
    ensures
        parse_meta_key(key_bytes(RedisKey::Message { id })) == expire_target(RedisKey::Message { id }),
{
    lemma_prefix_colon_free(RedisKey::Message { id });
    lemma_segments_name_id(prefix(RedisKey::Message { id }), id);
    lemma_parse_dec(id);
}

proof fn lemma_parse_message_meta(id: u64)
    requires
        id != 0,
    ensures
        parse_meta_key(key_bytes(RedisKey::MessageMeta { id })) == expire_target(RedisKey::MessageMeta { id }),
{
    lemma_prefix_colon_free(RedisKey::MessageMeta { id });
    lemma_segments_name_id(prefix(RedisKey::MessageMeta { id }), id);
    lemma_parse_dec(id);
}

proof fn lemma_parse_messages()
    ensures
        parse_meta_key(key_bytes(RedisKey::Messages)) == expire_target(RedisKey::Messages),
{
    lemma_prefix_colon_free(RedisKey::Messages);
    lemma_segments_plain(prefix(RedisKey::Messages));
}

proof fn lemma_parse_presence(guild: u64, user: u64)
    requires
        guild != 0,
        user != 0,
    ensures
        parse_meta_key(key_bytes(RedisKey::Presence { guild, user })) == expire_target(RedisKey::Presence { guild, user }),
{
    lemma_prefix_colon_free(RedisKey::Presence { guild, user });
    lemma_segments_name_guild_id(prefix(RedisKey::Presence { guild, user }), guild, user);
    lemma_parse_dec(guild);
    lemma_parse_dec(user);
}

proof fn lemma_parse_role(id: u64)
    requires
        id != 0,
    ensures
        parse_meta_key(key_bytes(RedisKey::Role { id })) == expire_target(RedisKey::Role { id }),
{
    lemma_prefix_colon_free(RedisKey::Role { id });
    lemma_segments_name_id(prefix(RedisKey::Role { id }), id);
    lemma_parse_dec(id);
}

proof fn lemma_parse_role_meta(id: u64)
    requires
        id != 0,
    ensures
        parse_meta_key(key_bytes(RedisKey::RoleMeta { id })) == expire_target(RedisKey::RoleMeta { id }),
{
    lemma_prefix_colon_free(RedisKey::RoleMeta { id });
    lemma_segments_name_id(prefix(RedisKey::RoleMeta { id }), id);
    lemma_parse_dec(id);
}

proof fn lemma_parse_roles()
    ensures
        parse_meta_key(key_bytes(RedisKey::Roles)) == expire_target(RedisKey::Roles),
{
    lemma_prefix_colon_free(RedisKey::Roles);
    lemma_segments_plain(prefix(RedisKey::Roles));
}

proof fn lemma_parse_scheduled_event(id: u64)
    requires
        id != 0,
    ensures
        parse_meta_key(key_bytes(RedisKey::ScheduledEvent { id })) == expire_target(RedisKey::ScheduledEvent { id }),
{
    lemma_prefix_colon_free(RedisKey::ScheduledEvent { id });
    lemma_segments_name_id(prefix(RedisKey::ScheduledEvent { id }), id);
    lemma_parse_dec(id);
}

proof fn lemma_parse_scheduled_event_meta(id: u64)
    requires
        id != 0,
    ensures
        parse_meta_key(key_bytes(RedisKey::ScheduledEventMeta { id })) == expire_target(RedisKey::ScheduledEventMeta { id }),
{
    lemma_prefix_colon_free(RedisKey::ScheduledEventMeta { id });
    lemma_segments_name_id(prefix(RedisKey::ScheduledEventMeta { id }), id);
    lemma_parse_dec(id);
}

proof fn lemma_parse_scheduled_events()
    ensures
        parse_meta_key(key_bytes(RedisKey::ScheduledEvents)) == expire_target(RedisKey::ScheduledEvents),
{
    lemma_prefix_colon_free(RedisKey::ScheduledEvents);
    lemma_segments_plain(prefix(RedisKey::ScheduledEvents));
}

proof fn lemma_parse_sessions()
    ensures
        parse_meta_key(key_bytes(RedisKey::Sessions)) == expire_target(RedisKey::Sessions),
{
    lemma_prefix_colon_free(RedisKey::Sessions);
    lemma_segments_plain(prefix(RedisKey::Sessions));
}

proof fn lemma_parse_stage_instance(id: u64)
    requires
        id != 0,
    ensures
        parse_meta_key(key_bytes(RedisKey::StageInstance { id })) == expire_target(RedisKey::StageInstance { id }),
{
    lemma_prefix_colon_free(RedisKey::StageInstance { id });
    lemma_segments_name_id(prefix(RedisKey::StageInstance { id }), id);
    lemma_parse_dec(id);
}

proof fn lemma_parse_stage_instance_meta(id: u64)
    requires
        id != 0,
    ensures
        parse_meta_key(key_bytes(RedisKey::StageInstanceMeta { id })) == expire_target(RedisKey::StageInstanceMeta { id }),
{
    lemma_prefix_colon_free(RedisKey::StageInstanceMeta { id });
    lemma_segments_name_id(prefix(RedisKey::StageInstanceMeta { id }), id);
    lemma_parse_dec(id);
}

proof fn lemma_parse_stage_instances()
    ensures
        parse_meta_key(key_bytes(RedisKey::StageInstances)) == expire_target(RedisKey::StageInstances),
{
    lemma_prefix_colon_free(RedisKey::StageInstances);
    lemma_segments_plain(prefix(RedisKey::StageInstances));
}

proof fn lemma_parse_sticker(id: u64)
    requires
        id != 0,
    ensures
        parse_meta_key(key_bytes(RedisKey::Sticker { id })) == expire_target(RedisKey::Sticker { id }),
{
    lemma_prefix_colon_free(RedisKey::Sticker { id });
    lemma_segments_name_id(prefix(RedisKey::Sticker { id }), id);
    lemma_parse_dec(id);
}

proof fn lemma_parse_sticker_meta(id: u64)
    requires
        id != 0,
    ensures
        parse_meta_key(key_bytes(RedisKey::StickerMeta { id })) == expire_target(RedisKey::StickerMeta { id }),
{
    lemma_prefix_colon_free(RedisKey::StickerMeta { id });
    lemma_segments_name_id(prefix(RedisKey::StickerMeta { id }), id);
    lemma_parse_dec(id);
}

proof fn lemma_parse_stickers()
    ensures
        parse_meta_key(key_bytes(RedisKey::Stickers)) == expire_target(RedisKey::Stickers),
{
    lemma_prefix_colon_free(RedisKey::Stickers);
    lemma_segments_plain(prefix(RedisKey::Stickers));
}

proof fn lemma_parse_unavailable_guilds()
    ensures
        parse_meta_key(key_bytes(RedisKey::UnavailableGuilds)) == expire_target(RedisKey::UnavailableGuilds),
{
    lemma_prefix_colon_free(RedisKey::UnavailableGuilds);
    lemma_segments_plain(prefix(RedisKey::UnavailableGuilds));
}

proof fn lemma_parse_user(id: u64)
    requires
        id != 0,
    ensures
        parse_meta_key(key_bytes(RedisKey::User { id })) == expire_target(RedisKey::User { id }),
{
    lemma_prefix_colon_free(RedisKey::User { id });
    lemma_segments_name_id(prefix(RedisKey::User { id }), id);
    lemma_parse_dec(id);
}

proof fn lemma_parse_user_guilds(id: u64)
    requires
        id != 0,
    ensures
        parse_meta_key(key_bytes(RedisKey::UserGuilds { id })) == expire_target(RedisKey::UserGuilds { id }),
{
    lemma_prefix_colon_free(RedisKey::UserGuilds { id });
    lemma_segments_name_id(prefix(RedisKey::UserGuilds { id }), id);
    lemma_parse_dec(id);
}

proof fn lemma_parse_users()
    ensures
        parse_meta_key(key_bytes(RedisKey::Users)) == expire_target(RedisKey::Users),
{
    lemma_prefix_colon_free(RedisKey::Users);
    lemma_segments_plain(prefix(RedisKey::Users));
}

proof fn lemma_parse_voice_state(guild: u64, user: u64)
    requires
        guild != 0,
        user != 0,
    ensures
        parse_meta_key(key_bytes(RedisKey::VoiceState { guild, user })) == expire_target(RedisKey::VoiceState { guild, user }),
{
    lemma_prefix_colon_free(RedisKey::VoiceState { guild, user });
    lemma_segments_name_guild_id(prefix(RedisKey::VoiceState { guild, user }), guild, user);
    lemma_parse_dec(guild);
    lemma_parse_dec(user);
}

/// The key of an expired entry reads back as exactly that entry; the keys of
/// sets, bookkeeping records and the current user read as nothing to handle.
pub proof fn lemma_expired_key_parses(key: RedisKey)
    requires
        key_ids_nonzero(key),
    ensures
        parse_meta_key(key_bytes(key)) == expire_target(key),
{
    match key {
        RedisKey::Channel { id } => lemma_parse_channel(id),
        RedisKey::ChannelMessages { channel } => lemma_parse_channel_messages(channel),
        RedisKey::ChannelMeta { id } => lemma_parse_channel_meta(id),
        RedisKey::Channels => lemma_parse_channels(),
        RedisKey::CurrentUser => lemma_parse_current_user(),
        RedisKey::Emoji { id } => lemma_parse_emoji(id),
        RedisKey::EmojiMeta { id } => lemma_parse_emoji_meta(id),
        RedisKey::Emojis => lemma_parse_emojis(),
        RedisKey::Guild { id } => lemma_parse_guild(id),
        RedisKey::GuildChannels { id } => lemma_parse_guild_channels(id),
        RedisKey::GuildEmojis { id } => lemma_parse_guild_emojis(id),
        RedisKey::GuildIntegrations { id } => lemma_parse_guild_integrations(id),
        RedisKey::GuildMembers { id } => lemma_parse_guild_members(id),
        RedisKey::GuildPresences { id } => lemma_parse_guild_presences(id),
        RedisKey::GuildRoles { id } => lemma_parse_guild_roles(id),
        RedisKey::GuildScheduledEvents { id } => lemma_parse_guild_scheduled_events(id),
        RedisKey::GuildStageInstances { id } => lemma_parse_guild_stage_instances(id),
        RedisKey::GuildStickers { id } => lemma_parse_guild_stickers(id),
        RedisKey::GuildVoiceStates { id } => lemma_parse_guild_voice_states(id),
        RedisKey::Guilds => lemma_parse_guilds(),
        RedisKey::Integration { guild, id } => lemma_parse_integration(guild, id),
        RedisKey::Member { guild, user } => lemma_parse_member(guild, user),
        RedisKey::Message { id } => lemma_parse_message(id),
        RedisKey::MessageMeta { id } => lemma_parse_message_meta(id),
        RedisKey::Messages => lemma_parse_messages(),
        RedisKey::Presence { guild, user } => lemma_parse_presence(guild, user),
        RedisKey::Role { id } => lemma_parse_role(id),
        RedisKey::RoleMeta { id } => lemma_parse_role_meta(id),
        RedisKey::Roles => lemma_parse_roles(),
        RedisKey::ScheduledEvent { id } => lemma_parse_scheduled_event(id),
        RedisKey::ScheduledEventMeta { id } => lemma_parse_scheduled_event_meta(id),
        RedisKey::ScheduledEvents => lemma_parse_scheduled_events(),
        RedisKey::Sessions => lemma_parse_sessions(),
        RedisKey::StageInstance { id } => lemma_parse_stage_instance(id),
        RedisKey::StageInstanceMeta { id } => lemma_parse_stage_instance_meta(id),
        RedisKey::StageInstances => lemma_parse_stage_instances(),
        RedisKey::Sticker { id } => lemma_parse_sticker(id),
        RedisKey::StickerMeta { id } => lemma_parse_sticker_meta(id),
        RedisKey::Stickers => lemma_parse_stickers(),
        RedisKey::UnavailableGuilds => lemma_parse_unavailable_guilds(),
        RedisKey::User { id } => lemma_parse_user(id),
        RedisKey::UserGuilds { id } => lemma_parse_user_guilds(id),
        RedisKey::Users => lemma_parse_users(),
        RedisKey::VoiceState { guild, user } => lemma_parse_voice_state(guild, user),
    }
}

} // verus!
