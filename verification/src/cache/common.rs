//! What storing entries of any kind shares: their keys, and the bookkeeping
//! records of expiring entries.
use vstd::prelude::*;

use crate::archive::{archive_id, archived_u64};
use crate::config::{CacheSettings, EntrySettings};
use crate::entries::Keyed;
use crate::key::{key_bytes, RedisKey};
use crate::pipe::{cmd_del, cmd_sadd, cmd_set, cmd_srem, entry_views, mset_commands, set_command, Pipe};

verus! {

/// The kinds of entries that are stored under their own id, with a set of
/// all their ids and a bookkeeping record when they expire.
#[derive(Clone, Copy, Debug, PartialEq, Eq, Structural)]
pub enum EntryKind {
    Channel,
    Emoji,
    Role,
    ScheduledEvent,
    StageInstance,
    Sticker,
}

/// The key of the entry of `kind` with `id`.
pub open spec fn entry_key(kind: EntryKind, id: u64) -> RedisKey {
    match kind {
        EntryKind::Channel => RedisKey::Channel { id },
        EntryKind::Emoji => RedisKey::Emoji { id },
        EntryKind::Role => RedisKey::Role { id },
        EntryKind::ScheduledEvent => RedisKey::ScheduledEvent { id },
        EntryKind::StageInstance => RedisKey::StageInstance { id },
        EntryKind::Sticker => RedisKey::Sticker { id },
    }
}

/// The key of the bookkeeping record of the entry of `kind` with `id`.
pub open spec fn meta_key(kind: EntryKind, id: u64) -> RedisKey {
    match kind {
        EntryKind::Channel => RedisKey::ChannelMeta { id },
        EntryKind::Emoji => RedisKey::EmojiMeta { id },
        EntryKind::Role => RedisKey::RoleMeta { id },
        EntryKind::ScheduledEvent => RedisKey::ScheduledEventMeta { id },
        EntryKind::StageInstance => RedisKey::StageInstanceMeta { id },
        EntryKind::Sticker => RedisKey::StickerMeta { id },
    }
}

/// The key of the set of all ids of `kind`.
pub open spec fn all_ids_key(kind: EntryKind) -> RedisKey {
    match kind {
        EntryKind::Channel => RedisKey::Channels,
        EntryKind::Emoji => RedisKey::Emojis,
        EntryKind::Role => RedisKey::Roles,
        EntryKind::ScheduledEvent => RedisKey::ScheduledEvents,
        EntryKind::StageInstance => RedisKey::StageInstances,
        EntryKind::Sticker => RedisKey::Stickers,
    }
}

/// The key of the set of the ids of `kind` in `guild`.
pub open spec fn guild_ids_key(kind: EntryKind, guild: u64) -> RedisKey {
    match kind {
        EntryKind::Channel => RedisKey::GuildChannels { id: guild },
        EntryKind::Emoji => RedisKey::GuildEmojis { id: guild },
        EntryKind::Role => RedisKey::GuildRoles { id: guild },
        EntryKind::ScheduledEvent => RedisKey::GuildScheduledEvents { id: guild },
        EntryKind::StageInstance => RedisKey::GuildStageInstances { id: guild },
        EntryKind::Sticker => RedisKey::GuildStickers { id: guild },
    }
}

impl EntryKind {
    /// The key of the entry with `id`.
    pub fn entry_key(self, id: u64) -> (res: RedisKey)
        ensures
            res == entry_key(self, id),
    {
        match self {
            EntryKind::Channel => RedisKey::Channel { id },
            EntryKind::Emoji => RedisKey::Emoji { id },
            EntryKind::Role => RedisKey::Role { id },
            EntryKind::ScheduledEvent => RedisKey::ScheduledEvent { id },
            EntryKind::StageInstance => RedisKey::StageInstance { id },
            EntryKind::Sticker => RedisKey::Sticker { id },
        }
    }

    /// The key of the bookkeeping record of the entry with `id`.
    pub fn meta_key(self, id: u64) -> (res: RedisKey)
        ensures
            res == meta_key(self, id),
    {
        match self {
            EntryKind::Channel => RedisKey::ChannelMeta { id },
            EntryKind::Emoji => RedisKey::EmojiMeta { id },
            EntryKind::Role => RedisKey::RoleMeta { id },
            EntryKind::ScheduledEvent => RedisKey::ScheduledEventMeta { id },
            EntryKind::StageInstance => RedisKey::StageInstanceMeta { id },
            EntryKind::Sticker => RedisKey::StickerMeta { id },
        }
    }

    /// The key of the set of all ids.
    pub fn all_ids_key(self) -> (res: RedisKey)
        ensures
            res == all_ids_key(self),
    {
        match self {
            EntryKind::Channel => RedisKey::Channels,
            EntryKind::Emoji => RedisKey::Emojis,
            EntryKind::Role => RedisKey::Roles,
            EntryKind::ScheduledEvent => RedisKey::ScheduledEvents,
            EntryKind::StageInstance => RedisKey::StageInstances,
            EntryKind::Sticker => RedisKey::Stickers,
        }
    }

    /// The key of the set of the ids in `guild`.
    pub fn guild_ids_key(self, guild: u64) -> (res: RedisKey)
        ensures
            res == guild_ids_key(self, guild),
    {
        match self {
            EntryKind::Channel => RedisKey::GuildChannels { id: guild },
            EntryKind::Emoji => RedisKey::GuildEmojis { id: guild },
            EntryKind::Role => RedisKey::GuildRoles { id: guild },
            EntryKind::ScheduledEvent => RedisKey::GuildScheduledEvents { id: guild },
            EntryKind::StageInstance => RedisKey::GuildStageInstances { id: guild },
            EntryKind::Sticker => RedisKey::GuildStickers { id: guild },
        }
    }
}

/// How entries of `kind` are handled.
pub open spec fn kind_settings(s: CacheSettings, kind: EntryKind) -> EntrySettings {
    match kind {
        EntryKind::Channel => s.channel,
        EntryKind::Emoji => s.emoji,
        EntryKind::Role => s.role,
        EntryKind::ScheduledEvent => s.scheduled_event,
        EntryKind::StageInstance => s.stage_instance,
        EntryKind::Sticker => s.sticker,
    }
}

/// How entries of `kind` are handled.
pub fn settings_for(s: &CacheSettings, kind: EntryKind) -> (res: EntrySettings)
    ensures
        res == kind_settings(*s, kind),
{
    match kind {
        EntryKind::Channel => s.channel,
        EntryKind::Emoji => s.emoji,
        EntryKind::Role => s.role,
        EntryKind::ScheduledEvent => s.scheduled_event,
        EntryKind::StageInstance => s.stage_instance,
        EntryKind::Sticker => s.sticker,
    }
}

/// Storing the entries of `kind` of `guild` at once: the entries, their ids
/// in the guild's set and in the set of all ids, and a record of the guild
/// for each when they expire. Nothing if there are none.
pub open spec fn store_keyed_cmds<T: Keyed>(
    s: CacheSettings,
    kind: EntryKind,
    guild: u64,
    entries: Seq<T>,
) -> Seq<Seq<Seq<u8>>> {
    let k = kind_settings(s, kind);
    if k.wanted && entries.len() > 0 {
        mset_commands(keyed_items(kind, entries), k.expire_seconds) + seq![
            cmd_sadd(key_bytes(guild_ids_key(kind, guild)), keyed_ids(entries)),
            cmd_sadd(key_bytes(all_ids_key(kind)), keyed_ids(entries)),
        ] + (if k.expires() {
            meta_commands(kind, entries, guild)
        } else {
            Seq::empty()
        })
    } else {
        Seq::empty()
    }
}

/// Storing one entry of `kind` of `guild`: the entry, its id in the guild's
/// set and in the set of all ids, and a record of the guild when it expires.
pub open spec fn store_keyed_one_cmds(
    s: CacheSettings,
    kind: EntryKind,
    guild: u64,
    id: u64,
    bytes: Seq<u8>,
) -> Seq<Seq<Seq<u8>>> {
    let k = kind_settings(s, kind);
    if k.wanted {
        seq![
            set_command(key_bytes(entry_key(kind, id)), bytes, k.expire_seconds),
            cmd_sadd(key_bytes(guild_ids_key(kind, guild)), seq![id]),
            cmd_sadd(key_bytes(all_ids_key(kind)), seq![id]),
        ] + (if k.expires() {
            seq![meta_command(kind, id, guild)]
        } else {
            Seq::empty()
        })
    } else {
        Seq::empty()
    }
}

/// Removing one entry of `kind` of `guild`: the entry, its id from both
/// sets, and its record when it expires.
pub open spec fn delete_keyed_cmds(s: CacheSettings, kind: EntryKind, guild: u64, id: u64) -> Seq<
    Seq<Seq<u8>>,
> {
    let k = kind_settings(s, kind);
    if k.wanted {
        seq![
            cmd_del(seq![key_bytes(entry_key(kind, id))]),
            cmd_srem(key_bytes(guild_ids_key(kind, guild)), seq![id]),
            cmd_srem(key_bytes(all_ids_key(kind)), seq![id]),
        ] + (if k.expires() {
            seq![cmd_del(seq![key_bytes(meta_key(kind, id))])]
        } else {
            Seq::empty()
        })
    } else {
        Seq::empty()
    }
}

/// The entries that storing `entries` of `kind` writes.
pub open spec fn keyed_items<T: Keyed>(kind: EntryKind, entries: Seq<T>) -> Seq<
    (RedisKey, Seq<u8>),
> {
    entries.map_values(|e: T| (entry_key(kind, e.spec_id()), e.spec_bytes()))
}

/// The ids of `entries`.
pub open spec fn keyed_ids<T: Keyed>(entries: Seq<T>) -> Seq<u64> {
    entries.map_values(|e: T| e.spec_id())
}

/// Storing the record of the entry of `kind` with `id`: the id of `value`
/// (a guild or channel), archived.
pub open spec fn meta_command(kind: EntryKind, id: u64, value: u64) -> Seq<Seq<u8>> {
    cmd_set(key_bytes(meta_key(kind, id)), archived_u64(value))
}

/// Storing one record per entry, each holding `value`.
pub open spec fn meta_commands<T: Keyed>(kind: EntryKind, entries: Seq<T>, value: u64) -> Seq<
    Seq<Seq<u8>>,
> {
    entries.map_values(|e: T| meta_command(kind, e.spec_id(), value))
}

/// Collects the entries and ids of `entries`.
pub fn keyed_items_of<T: Keyed>(kind: EntryKind, entries: &[T]) -> (res: (
    Vec<(RedisKey, Vec<u8>)>,
    Vec<u64>,
))
    ensures
        entry_views(res.0@) == keyed_items(kind, entries@),
        res.1@ == keyed_ids(entries@),
{
    let mut items: Vec<(RedisKey, Vec<u8>)> = Vec::new();
    let mut ids: Vec<u64> = Vec::new();
    let mut i: usize = 0;
    while i < entries.len()
        invariant
            i <= entries@.len(),
            entry_views(items@) == keyed_items(kind, entries@.take(i as int)),
            ids@ == keyed_ids(entries@.take(i as int)),
        decreases entries@.len() - i,
    {
        let entry = &entries[i];
        let id = entry.id();
        let key = kind.entry_key(id);
        let bytes = entry.bytes().clone();
        let ghost before_items = items@;
        let ghost before_ids = ids@;
        items.push((key, bytes));
        ids.push(id);
        assert(entries@.take(i + 1) =~= entries@.take(i as int).push(entries@[i as int]));
        assert(entry_views(items@) =~= entry_views(before_items).push((key, bytes@)));
        assert(keyed_items(kind, entries@.take(i + 1)) =~= keyed_items(
            kind,
            entries@.take(i as int),
        ).push((key, entry.spec_bytes())));
        assert(keyed_ids(entries@.take(i + 1)) =~= keyed_ids(entries@.take(i as int)).push(id));
        i = i + 1;
    }
    assert(entries@.take(i as int) =~= entries@);
    (items, ids)
}

impl Pipe {
    /// Stores the bookkeeping record of the entry of `kind` with `id`.
    pub fn store_meta(&mut self, kind: EntryKind, id: u64, value: u64)
        ensures
            final(self).cmds() == old(self).cmds().push(meta_command(kind, id, value)),
            final(self).settings() == old(self).settings(),
            old(self).ignores_only_expires() ==> final(self).ignores_only_expires(),
    {
        let bytes = archive_id(value);
        self.set(kind.meta_key(id), bytes.as_slice(), None);
    }

    /// Stores one bookkeeping record per entry, each holding `value`.
    pub fn store_metas<T: Keyed>(&mut self, kind: EntryKind, entries: &[T], value: u64)
        ensures
            final(self).cmds() == old(self).cmds() + meta_commands(kind, entries@, value),
            final(self).settings() == old(self).settings(),
            old(self).ignores_only_expires() ==> final(self).ignores_only_expires(),
    {
        let ghost start = self.cmds();
        let mut i: usize = 0;
        while i < entries.len()
            invariant
                old(self).ignores_only_expires() ==> self.ignores_only_expires(),
                i <= entries@.len(),
                self.cmds() == start + meta_commands(kind, entries@.take(i as int), value),
                self.settings() == old(self).settings(),
            decreases entries@.len() - i,
        {
            let id = entries[i].id();
            self.store_meta(kind, id, value);
            assert(entries@.take(i + 1) =~= entries@.take(i as int).push(entries@[i as int]));
            assert(meta_commands(kind, entries@.take(i + 1), value) =~= meta_commands(
                kind,
                entries@.take(i as int),
                value,
            ).push(meta_command(kind, id, value)));
            i = i + 1;
        }
        assert(entries@.take(i as int) =~= entries@);
    }

    /// Stores the entries of `kind` of `guild` at once.
    pub fn store_keyed<T: Keyed>(&mut self, kind: EntryKind, guild: u64, entries: &[T])
        requires
            old(self).settings().valid(),
        ensures
            final(self).cmds() == old(self).cmds() + store_keyed_cmds(
                old(self).settings(),
                kind,
                guild,
                entries@,
            ),
            final(self).settings() == old(self).settings(),
            old(self).ignores_only_expires() ==> final(self).ignores_only_expires(),
    {
        let ghost start = self.cmds();
        let s = *self.settings_ref();
        let k = settings_for(&s, kind);
        if !k.wanted {
            assert(self.cmds() =~= start + store_keyed_cmds(s, kind, guild, entries@));
            return;
        }
        let (items, ids) = keyed_items_of(kind, entries);
        if items.len() == 0 {
            assert(self.cmds() =~= start + store_keyed_cmds(s, kind, guild, entries@));
            return;
        }
        self.mset(items.as_slice(), k.expire_seconds);
        self.sadd(kind.guild_ids_key(guild), ids.as_slice());
        self.sadd(kind.all_ids_key(), ids.as_slice());
        let ghost mid = self.cmds();
        if k.expire_seconds.is_some() {
            self.store_metas(kind, entries, guild);
        }
        assert(self.cmds() =~= start + store_keyed_cmds(s, kind, guild, entries@));
    }

    /// Stores one entry of `kind` of `guild`.
    pub fn store_keyed_one(&mut self, kind: EntryKind, guild: u64, id: u64, bytes: &[u8])
        ensures
            final(self).cmds() == old(self).cmds() + store_keyed_one_cmds(
                old(self).settings(),
                kind,
                guild,
                id,
                bytes@,
            ),
            final(self).settings() == old(self).settings(),
            old(self).ignores_only_expires() ==> final(self).ignores_only_expires(),
    {
        let ghost start = self.cmds();
        let s = *self.settings_ref();
        let k = settings_for(&s, kind);
        if !k.wanted {
            assert(self.cmds() =~= start + store_keyed_one_cmds(s, kind, guild, id, bytes@));
            return;
        }
        self.set(kind.entry_key(id), bytes, k.expire_seconds);
        self.sadd_one(kind.guild_ids_key(guild), id);
        self.sadd_one(kind.all_ids_key(), id);
        if k.expire_seconds.is_some() {
            self.store_meta(kind, id, guild);
        }
        assert(self.cmds() =~= start + store_keyed_one_cmds(s, kind, guild, id, bytes@));
    }

    /// Removes one entry of `kind` of `guild`.
    pub fn delete_keyed(&mut self, kind: EntryKind, guild: u64, id: u64)
        ensures
            final(self).cmds() == old(self).cmds() + delete_keyed_cmds(
                old(self).settings(),
                kind,
                guild,
                id,
            ),
            final(self).settings() == old(self).settings(),
            old(self).ignores_only_expires() ==> final(self).ignores_only_expires(),
    {
        let ghost start = self.cmds();
        let s = *self.settings_ref();
        let k = settings_for(&s, kind);
        if !k.wanted {
            assert(self.cmds() =~= start + delete_keyed_cmds(s, kind, guild, id));
            return;
        }
        self.del_one(kind.entry_key(id));
        self.srem_one(kind.guild_ids_key(guild), id);
        self.srem_one(kind.all_ids_key(), id);
        if k.expire_seconds.is_some() {
            self.del_one(kind.meta_key(id));
        }
        assert(self.cmds() =~= start + delete_keyed_cmds(s, kind, guild, id));
    }
}

} // verus!
