//! What the cache's operations promise together: an expiring entry's
//! expiry takes its id out of exactly the sets that storing it put it in.
use vstd::prelude::*;

use crate::archive::{archived_u64, opt_id};
use crate::cache::channel::{delete_channel_cmds, store_channel_entry_cmds};
use crate::cache::common::{
    all_ids_key, delete_keyed_cmds, entry_key, guild_ids_key, keyed_ids, keyed_items, kind_settings, meta_command,
    meta_commands, meta_key, store_keyed_cmds, store_keyed_one_cmds, EntryKind,
};
use crate::entries::Keyed;
use crate::cache::message::{delete_message_cmds, message_meta_command, message_score, store_message_entry_cmds};
use crate::cache::member::{
    delete_member_finish_cmds, delete_member_start_cmds, store_member_cmds, store_partial_member_cmds,
};
use crate::cache::user::store_user_cmds;
use crate::cache::message::{
    message_partial_members, partial_members_cmds, partial_members_to_update,
};
use crate::config::CacheSettings;
use crate::entries::{EmojiEntry, GuildEntry, MemberEntry, PartialMemberEntry, RoleEntry};
use crate::cache::interaction::InteractionEntry;
use crate::update::{update_cmds, update_refresh, CacheEvent, UpdateHooks};
use crate::decimal::{dec, lemma_dec, digits_value};
use crate::entries::{ChannelEntry, IntegrationEntry, MessageEntry, PresenceEntry, UserEntry, VoiceStateEntry};
use crate::cache::integration::{delete_integration_cmds, store_integration_cmds};
use crate::cache::presence::store_presence_cmds;
use crate::cache::voice_state::{delete_voice_state_cmds, store_voice_state_cmds};
use crate::expire::expire_plain_cmds;
use crate::expire::{expire_archived_cmds, member_expire_finish_cmds, member_expire_start_cmds, record_key};
use crate::key::{key_bytes, RedisKey};
use crate::meta::MetaKey;
use crate::pipe::{
    cmd_expire, cmd_mset, cmd_sadd, cmd_scard, cmd_set, cmd_setex, cmd_srem, cmd_zadd, cmd_zrem,
    expire_commands, item_pairs, mset_commands, name_del, name_expire, name_mset, name_sadd,
    name_scard, name_set, name_setex, name_srem, name_zadd, name_zrem, set_command,
};

verus! {

/// A member of a set, as the store sees it: the set's key and the member's
/// text.
pub type SetMember = (Seq<u8>, Seq<u8>);

/// What a command adds to sets: each member of `SADD key members`, the
/// member of `ZADD key score member`.
pub open spec fn cmd_adds(c: Seq<Seq<u8>>) -> Set<SetMember> {
    if c.len() >= 2 && c[0] == name_sadd() {
        Set::new(|p: SetMember| p.0 == c[1] && exists|j: int| 2 <= j < c.len() && p.1 == c[j])
    } else if c.len() == 4 && c[0] == name_zadd() {
        set![(c[1], c[3])]
    } else {
        Set::empty()
    }
}

/// What a command removes from sets: each member of `SREM key members` and
/// of `ZREM key members`.
pub open spec fn cmd_removes(c: Seq<Seq<u8>>) -> Set<SetMember> {
    if c.len() >= 2 && (c[0] == name_srem() || c[0] == name_zrem()) {
        Set::new(|p: SetMember| p.0 == c[1] && exists|j: int| 2 <= j < c.len() && p.1 == c[j])
    } else {
        Set::empty()
    }
}

/// What a list of commands adds to sets.
pub open spec fn adds(cmds: Seq<Seq<Seq<u8>>>) -> Set<SetMember>
    decreases cmds.len(),
{
    if cmds.len() == 0 {
        Set::empty()
    } else {
        adds(cmds.drop_last()).union(cmd_adds(cmds.last()))
    }
}

/// What a list of commands removes from sets.
pub open spec fn removes(cmds: Seq<Seq<Seq<u8>>>) -> Set<SetMember>
    decreases cmds.len(),
{
    if cmds.len() == 0 {
        Set::empty()
    } else {
        removes(cmds.drop_last()).union(cmd_removes(cmds.last()))
    }
}

/// The members of `ps` whose text is `m`.
pub open spec fn with_member(ps: Set<SetMember>, m: Seq<u8>) -> Set<SetMember> {
    ps.filter(|p: SetMember| p.1 == m)
}

/// The expiry that an entry of `kind` with `id` calls for, for the kinds
/// whose records hold a guild.
pub open spec fn keyed_meta(kind: EntryKind, id: u64) -> MetaKey {
    match kind {
        EntryKind::Emoji => MetaKey::Emoji { emoji: id },
        EntryKind::Role => MetaKey::Role { role: id },
        EntryKind::StageInstance => MetaKey::StageInstance { stage: id },
        _ => MetaKey::Sticker { sticker: id },
    }
}

/// Whether entries of `kind` keep a record of their guild that their
/// expiry reads.
pub open spec fn has_guild_record(kind: EntryKind) -> bool {
    kind == EntryKind::Emoji || kind == EntryKind::Role || kind == EntryKind::StageInstance
        || kind == EntryKind::Sticker
}

/// Distinct ids have distinct decimal texts.
pub proof fn lemma_dec_injective(a: u64, b: u64)
    ensures
        dec(a as nat) == dec(b as nat) ==> a == b,
{
    lemma_dec(a as nat);
    lemma_dec(b as nat);
}

/// The command names that add, remove or store are told apart.
proof fn lemma_names_distinct()
    ensures
        name_sadd() != name_srem(),
        name_sadd() != name_zrem(),
        name_sadd() != name_zadd(),
        name_sadd() != name_set(),
        name_sadd() != name_setex(),
        name_sadd() != name_del(),
        name_zadd() != name_set(),
        name_zadd() != name_setex(),
        name_zadd() != name_srem(),
        name_zadd() != name_zrem(),
        name_zadd() != name_del(),
        name_srem() != name_set(),
        name_srem() != name_setex(),
        name_srem() != name_del(),
        name_srem() != name_zadd(),
        name_zrem() != name_set(),
        name_zrem() != name_setex(),
        name_zrem() != name_del(),
{
    assert(name_sadd()[1] != name_srem()[1]);
    assert(name_sadd()[0] != name_zrem()[0]);
    assert(name_sadd()[0] != name_zadd()[0]);
    assert(name_sadd()[1] != name_set()[1]);
    assert(name_sadd()[1] != name_setex()[1]);
    assert(name_sadd()[0] != name_del()[0]);
    assert(name_zadd()[0] != name_set()[0]);
    assert(name_zadd()[0] != name_setex()[0]);
    assert(name_zadd()[0] != name_srem()[0]);
    assert(name_zadd()[1] != name_zrem()[1]);
    assert(name_zadd()[0] != name_del()[0]);
    assert(name_srem()[1] != name_set()[1]);
    assert(name_srem()[1] != name_setex()[1]);
    assert(name_srem()[0] != name_del()[0]);
    assert(name_srem()[0] != name_zadd()[0]);
    assert(name_zrem()[0] != name_set()[0]);
    assert(name_zrem()[0] != name_setex()[0]);
    assert(name_zrem()[0] != name_del()[0]);
}

/// `SADD key` with one member adds exactly that member.
proof fn lemma_sadd_one(key: Seq<u8>, id: u64)
    ensures
        cmd_adds(cmd_sadd(key, seq![id])) == set![(key, dec(id as nat))],
        cmd_removes(cmd_sadd(key, seq![id])) == Set::<SetMember>::empty(),
{
    lemma_names_distinct();
    let c = cmd_sadd(key, seq![id]);
    assert(c.len() == 3);
    assert(c[0] == name_sadd());
    assert(c[1] == key);
    assert(c[2] == dec(id as nat));
    assert(cmd_adds(c) =~= set![(key, dec(id as nat))]) by {
        assert forall|p: SetMember| cmd_adds(c).contains(p) implies p == (key, dec(id as nat)) by {
            let j = choose|j: int| 2 <= j < c.len() && p.1 == c[j];
            assert(j == 2);
        }
        assert(cmd_adds(c).contains((key, dec(id as nat))));
    }
}

/// `SREM key` with one member removes exactly that member.
proof fn lemma_srem_one(key: Seq<u8>, id: u64)
    ensures
        cmd_removes(cmd_srem(key, seq![id])) == set![(key, dec(id as nat))],
        cmd_adds(cmd_srem(key, seq![id])) == Set::<SetMember>::empty(),
{
    lemma_names_distinct();
    let c = cmd_srem(key, seq![id]);
    assert(c.len() == 3);
    assert(c[0] == name_srem());
    assert(c[1] == key);
    assert(c[2] == dec(id as nat));
    assert(cmd_removes(c) =~= set![(key, dec(id as nat))]) by {
        assert forall|p: SetMember| cmd_removes(c).contains(p) implies p == (key, dec(id as nat)) by {
            let j = choose|j: int| 2 <= j < c.len() && p.1 == c[j];
            assert(j == 2);
        }
        assert(cmd_removes(c).contains((key, dec(id as nat))));
    }
}

/// `ZREM key` with one member removes exactly that member.
proof fn lemma_zrem_one(key: Seq<u8>, id: u64)
    ensures
        cmd_removes(cmd_zrem(key, seq![id])) == set![(key, dec(id as nat))],
{
    lemma_names_distinct();
    let c = cmd_zrem(key, seq![id]);
    assert(c.len() == 3);
    assert(c[0] == name_zrem());
    assert(c[1] == key);
    assert(c[2] == dec(id as nat));
    assert(cmd_removes(c) =~= set![(key, dec(id as nat))]) by {
        assert forall|p: SetMember| cmd_removes(c).contains(p) implies p == (key, dec(id as nat)) by {
            let j = choose|j: int| 2 <= j < c.len() && p.1 == c[j];
            assert(j == 2);
        }
        assert(cmd_removes(c).contains((key, dec(id as nat))));
    }
}

/// Storing a value adds nothing to sets and removes nothing.
proof fn lemma_set_touches_no_set(key: Seq<u8>, value: Seq<u8>, expire: Option<u64>)
    ensures
        cmd_adds(set_command(key, value, expire)) == Set::<SetMember>::empty(),
        cmd_removes(set_command(key, value, expire)) == Set::<SetMember>::empty(),
        cmd_adds(cmd_set(key, value)) == Set::<SetMember>::empty(),
        cmd_removes(cmd_set(key, value)) == Set::<SetMember>::empty(),
{
    lemma_names_distinct();
    assert(cmd_set(key, value)[0] == name_set());
    match expire {
        Some(s) => {
            assert(cmd_setex(key, value, s)[0] == name_setex());
        },
        None => {},
    }
}

/// What a list of commands adds, and removes, are those of its parts.
pub proof fn lemma_adds_concat(a: Seq<Seq<Seq<u8>>>, b: Seq<Seq<Seq<u8>>>)
    ensures
        adds(a + b) == adds(a).union(adds(b)),
        removes(a + b) == removes(a).union(removes(b)),
    decreases b.len(),
{
    if b.len() == 0 {
        assert(a + b =~= a);
        assert(adds(a).union(adds(b)) =~= adds(a));
        assert(removes(a).union(removes(b)) =~= removes(a));
    } else {
        lemma_adds_concat(a, b.drop_last());
        assert((a + b).drop_last() =~= a + b.drop_last());
        assert((a + b).last() == b.last());
        assert(adds(a + b) =~= adds(a).union(adds(b)));
        assert(removes(a + b) =~= removes(a).union(removes(b)));
    }
}

/// What one command adds and removes.
pub proof fn lemma_adds_one(c: Seq<Seq<u8>>)
    ensures
        adds(seq![c]) == cmd_adds(c),
        removes(seq![c]) == cmd_removes(c),
{
    let e = seq![c].drop_last();
    assert(e =~= Seq::<Seq<Seq<u8>>>::empty());
    assert(adds(e) == Set::<SetMember>::empty());
    assert(removes(e) == Set::<SetMember>::empty());
    assert(seq![c].last() == c);
    assert(adds(seq![c]) =~= cmd_adds(c));
    assert(removes(seq![c]) =~= cmd_removes(c));
}

/// The expiry of an entry of a kind whose record holds a guild, read back
/// with the guild it was stored under, takes the entry's id out of the
/// guild's set and the set of all ids.
proof fn lemma_expire_keyed(kind: EntryKind, id: u64, guild: u64)
    requires
        has_guild_record(kind),
    ensures
        removes(expire_archived_cmds(keyed_meta(kind, id), guild)) == set![
            (key_bytes(guild_ids_key(kind, guild)), dec(id as nat)),
            (key_bytes(all_ids_key(kind)), dec(id as nat)),
        ],
        adds(expire_archived_cmds(keyed_meta(kind, id), guild)) == Set::<SetMember>::empty(),
{
    let a = cmd_srem(key_bytes(guild_ids_key(kind, guild)), seq![id]);
    let b = cmd_srem(key_bytes(all_ids_key(kind)), seq![id]);
    assert(expire_archived_cmds(keyed_meta(kind, id), guild) =~= seq![a] + seq![b]);
    lemma_adds_concat(seq![a], seq![b]);
    lemma_adds_one(a);
    lemma_adds_one(b);
    lemma_srem_one(key_bytes(guild_ids_key(kind, guild)), id);
    lemma_srem_one(key_bytes(all_ids_key(kind)), id);
    assert(removes(expire_archived_cmds(keyed_meta(kind, id), guild)) =~= set![
        (key_bytes(guild_ids_key(kind, guild)), dec(id as nat)),
        (key_bytes(all_ids_key(kind)), dec(id as nat)),
    ]);
    assert(adds(expire_archived_cmds(keyed_meta(kind, id), guild)) =~= Set::<SetMember>::empty());
}

/// Storing an expiring emoji, role, stage instance or sticker of `guild`
/// writes a record of the guild at the key that its expiry reads; its expiry
/// with that record then takes its id out of exactly the sets that storing
/// it put it in, and puts it in none.
pub proof fn law_expiry_undoes_keyed_store(
    s: CacheSettings,
    kind: EntryKind,
    guild: u64,
    id: u64,
    bytes: Seq<u8>,
)
    requires
        has_guild_record(kind),
        kind_settings(s, kind).wanted,
        kind_settings(s, kind).expires(),
    ensures
        record_key(keyed_meta(kind, id)) == Some(meta_key(kind, id)),
        store_keyed_one_cmds(s, kind, guild, id, bytes).contains(
            cmd_set(key_bytes(meta_key(kind, id)), archived_u64(guild)),
        ),
        removes(expire_archived_cmds(keyed_meta(kind, id), guild)) == adds(
            store_keyed_one_cmds(s, kind, guild, id, bytes),
        ),
        adds(expire_archived_cmds(keyed_meta(kind, id), guild)) == Set::<SetMember>::empty(),
{
    let k = kind_settings(s, kind);
    let c0 = set_command(key_bytes(crate::cache::common::entry_key(kind, id)), bytes, k.expire_seconds);
    let c1 = cmd_sadd(key_bytes(guild_ids_key(kind, guild)), seq![id]);
    let c2 = cmd_sadd(key_bytes(all_ids_key(kind)), seq![id]);
    let c3 = meta_command(kind, id, guild);
    let cmds = store_keyed_one_cmds(s, kind, guild, id, bytes);
    assert(cmds =~= seq![c0] + seq![c1] + seq![c2] + seq![c3]);
    assert(cmds[3] == c3);
    lemma_adds_concat(seq![c0] + seq![c1] + seq![c2], seq![c3]);
    lemma_adds_concat(seq![c0] + seq![c1], seq![c2]);
    lemma_adds_concat(seq![c0], seq![c1]);
    lemma_adds_one(c0);
    lemma_adds_one(c1);
    lemma_adds_one(c2);
    lemma_adds_one(c3);
    lemma_set_touches_no_set(key_bytes(crate::cache::common::entry_key(kind, id)), bytes, k.expire_seconds);
    lemma_set_touches_no_set(key_bytes(meta_key(kind, id)), archived_u64(guild), None);
    lemma_sadd_one(key_bytes(guild_ids_key(kind, guild)), id);
    lemma_sadd_one(key_bytes(all_ids_key(kind)), id);
    lemma_expire_keyed(kind, id, guild);
    assert(adds(cmds) =~= set![
        (key_bytes(guild_ids_key(kind, guild)), dec(id as nat)),
        (key_bytes(all_ids_key(kind)), dec(id as nat)),
    ]);
}

/// `ZADD key score member` adds exactly that member.
proof fn lemma_zadd_one(key: Seq<u8>, member: u64, score: i64)
    ensures
        cmd_adds(cmd_zadd(key, member, score)) == set![(key, dec(member as nat))],
        cmd_removes(cmd_zadd(key, member, score)) == Set::<SetMember>::empty(),
{
    lemma_names_distinct();
    let c = cmd_zadd(key, member, score);
    assert(c[0] == name_zadd());
    assert(c[1] == key);
    assert(c[3] == dec(member as nat));
    assert(cmd_adds(c) =~= set![(key, dec(member as nat))]);
}

/// Storing an expiring channel writes a record of its guild at the key that
/// its expiry reads; its expiry with that record then takes its id out of
/// exactly the sets that storing it put it in, and puts it in none. Ids are
/// never zero, which the record uses for a channel without a guild.
pub proof fn law_expiry_undoes_channel_store(s: CacheSettings, c: ChannelEntry)
    requires
        s.channel.wanted,
        s.channel.expires(),
        c.guild_id != Some(0u64),
    ensures
        record_key(MetaKey::Channel { channel: c.id }) == Some(RedisKey::ChannelMeta { id: c.id }),
        store_channel_entry_cmds(s, c).contains(
            cmd_set(key_bytes(RedisKey::ChannelMeta { id: c.id }), archived_u64(opt_id(c.guild_id))),
        ),
        removes(expire_archived_cmds(MetaKey::Channel { channel: c.id }, opt_id(c.guild_id)))
            == adds(store_channel_entry_cmds(s, c)),
        adds(expire_archived_cmds(MetaKey::Channel { channel: c.id }, opt_id(c.guild_id)))
            == Set::<SetMember>::empty(),
{
    let c0 = set_command(key_bytes(RedisKey::Channel { id: c.id }), c.bytes@, s.channel.expire_seconds);
    let c1 = cmd_set(key_bytes(RedisKey::ChannelMeta { id: c.id }), archived_u64(opt_id(c.guild_id)));
    let all = cmd_sadd(key_bytes(RedisKey::Channels), seq![c.id]);
    let all_rem = cmd_srem(key_bytes(RedisKey::Channels), seq![c.id]);
    let cmds = store_channel_entry_cmds(s, c);
    let ex = expire_archived_cmds(MetaKey::Channel { channel: c.id }, opt_id(c.guild_id));
    lemma_set_touches_no_set(key_bytes(RedisKey::Channel { id: c.id }), c.bytes@, s.channel.expire_seconds);
    lemma_set_touches_no_set(key_bytes(RedisKey::ChannelMeta { id: c.id }), archived_u64(opt_id(c.guild_id)), None);
    lemma_sadd_one(key_bytes(RedisKey::Channels), c.id);
    lemma_srem_one(key_bytes(RedisKey::Channels), c.id);
    lemma_adds_one(c0);
    lemma_adds_one(c1);
    lemma_adds_one(all);
    lemma_adds_one(all_rem);
    match c.guild_id {
        Some(g) => {
            let gc = cmd_sadd(key_bytes(RedisKey::GuildChannels { id: g }), seq![c.id]);
            let gr = cmd_srem(key_bytes(RedisKey::GuildChannels { id: g }), seq![c.id]);
            assert(cmds =~= seq![c0] + seq![c1] + seq![gc] + seq![all]);
            assert(cmds[1] == c1);
            assert(ex =~= seq![gr] + seq![all_rem]);
            lemma_sadd_one(key_bytes(RedisKey::GuildChannels { id: g }), c.id);
            lemma_srem_one(key_bytes(RedisKey::GuildChannels { id: g }), c.id);
            lemma_adds_one(gc);
            lemma_adds_one(gr);
            lemma_adds_concat(seq![c0] + seq![c1] + seq![gc], seq![all]);
            lemma_adds_concat(seq![c0] + seq![c1], seq![gc]);
            lemma_adds_concat(seq![c0], seq![c1]);
            lemma_adds_concat(seq![gr], seq![all_rem]);
            assert(adds(cmds) =~= removes(ex));
            assert(adds(ex) =~= Set::<SetMember>::empty());
        },
        None => {
            assert(cmds =~= seq![c0] + seq![c1] + seq![all]);
            assert(cmds[1] == c1);
            assert(ex =~= seq![all_rem]);
            lemma_adds_concat(seq![c0] + seq![c1], seq![all]);
            lemma_adds_concat(seq![c0], seq![c1]);
            assert(adds(cmds) =~= removes(ex));
        },
    }
}

/// Storing an expiring message writes a record of its channel at the key
/// that its expiry reads; its expiry with that record then takes its id out
/// of exactly the sets that storing it put it in, and puts it in none.
pub proof fn law_expiry_undoes_message_store(s: CacheSettings, m: MessageEntry)
    requires
        s.message.wanted,
        s.message.expires(),
    ensures
        record_key(MetaKey::Message { msg: m.id }) == Some(RedisKey::MessageMeta { id: m.id }),
        store_message_entry_cmds(s, m).contains(message_meta_command(m.id, m.channel_id)),
        message_meta_command(m.id, m.channel_id) == cmd_set(
            key_bytes(RedisKey::MessageMeta { id: m.id }),
            archived_u64(m.channel_id),
        ),
        removes(expire_archived_cmds(MetaKey::Message { msg: m.id }, m.channel_id)) == adds(
            store_message_entry_cmds(s, m),
        ),
        adds(expire_archived_cmds(MetaKey::Message { msg: m.id }, m.channel_id))
            == Set::<SetMember>::empty(),
{
    let score = crate::cache::message::message_score(m.timestamp_micros) as i64;
    let c0 = set_command(key_bytes(RedisKey::Message { id: m.id }), m.bytes@, s.message.expire_seconds);
    let c1 = cmd_sadd(key_bytes(RedisKey::Messages), seq![m.id]);
    let c2 = cmd_zadd(key_bytes(RedisKey::ChannelMessages { channel: m.channel_id }), m.id, score);
    let c3 = message_meta_command(m.id, m.channel_id);
    let r0 = cmd_zrem(key_bytes(RedisKey::ChannelMessages { channel: m.channel_id }), seq![m.id]);
    let r1 = cmd_srem(key_bytes(RedisKey::Messages), seq![m.id]);
    let cmds = store_message_entry_cmds(s, m);
    let ex = expire_archived_cmds(MetaKey::Message { msg: m.id }, m.channel_id);
    assert(cmds =~= seq![c0] + seq![c1] + seq![c2] + seq![c3]);
    assert(cmds[3] == c3);
    assert(ex =~= seq![r0] + seq![r1]);
    lemma_set_touches_no_set(key_bytes(RedisKey::Message { id: m.id }), m.bytes@, s.message.expire_seconds);
    lemma_set_touches_no_set(key_bytes(RedisKey::MessageMeta { id: m.id }), archived_u64(m.channel_id), None);
    lemma_sadd_one(key_bytes(RedisKey::Messages), m.id);
    lemma_zadd_one(key_bytes(RedisKey::ChannelMessages { channel: m.channel_id }), m.id, score);
    lemma_zrem_one(key_bytes(RedisKey::ChannelMessages { channel: m.channel_id }), m.id);
    lemma_srem_one(key_bytes(RedisKey::Messages), m.id);
    lemma_names_distinct();
    assert(cmd_adds(r0) == Set::<SetMember>::empty()) by {
        assert(r0[0] == name_zrem());
    }
    lemma_adds_one(c0);
    lemma_adds_one(c1);
    lemma_adds_one(c2);
    lemma_adds_one(c3);
    lemma_adds_one(r0);
    lemma_adds_one(r1);
    lemma_adds_concat(seq![c0] + seq![c1] + seq![c2], seq![c3]);
    lemma_adds_concat(seq![c0] + seq![c1], seq![c2]);
    lemma_adds_concat(seq![c0], seq![c1]);
    lemma_adds_concat(seq![r0], seq![r1]);
    assert(adds(cmds) =~= removes(ex));
    assert(adds(ex) =~= Set::<SetMember>::empty());
}

/// A list of commands none of which adds to a set adds nothing.
proof fn lemma_no_adds(cmds: Seq<Seq<Seq<u8>>>)
    requires
        forall|i: int| 0 <= i < cmds.len() ==> cmd_adds(#[trigger] cmds[i]) == Set::<SetMember>::empty(),
    ensures
        adds(cmds) == Set::<SetMember>::empty(),
    decreases cmds.len(),
{
    if cmds.len() > 0 {
        assert forall|i: int| 0 <= i < cmds.drop_last().len() implies cmd_adds(
            #[trigger] cmds.drop_last()[i],
        ) == Set::<SetMember>::empty() by {
            assert(cmds.drop_last()[i] == cmds[i]);
        }
        lemma_no_adds(cmds.drop_last());
        assert(cmd_adds(cmds.last()) == Set::<SetMember>::empty());
        assert(adds(cmds) =~= Set::<SetMember>::empty());
    }
}

/// Storing several entries at once adds nothing to sets.
proof fn lemma_mset_adds_nothing(items: Seq<(RedisKey, Seq<u8>)>, expire: Option<u64>)
    ensures
        adds(mset_commands(items, expire)) == Set::<SetMember>::empty(),
{
    lemma_names_distinct();
    let cmds = mset_commands(items, expire);
    assert(name_mset()[0] != name_sadd()[0]);
    assert(name_mset()[0] != name_zadd()[0]);
    assert(name_expire()[0] != name_sadd()[0]);
    assert(name_expire()[0] != name_zadd()[0]);
    assert forall|i: int| 0 <= i < cmds.len() implies cmd_adds(#[trigger] cmds[i])
        == Set::<SetMember>::empty() by {
        if i == 0 {
            assert(cmds[0] == cmd_mset(item_pairs(items)));
            assert(cmds[0][0] == name_mset());
        } else {
            match expire {
                Some(sec) => {
                    assert(cmds[i] == expire_commands(items, sec as i64)[i - 1]);
                    assert(cmds[i][0] == name_expire());
                },
                None => {},
            }
        }
    }
    lemma_no_adds(cmds);
}

/// Records of entries add nothing to sets.
proof fn lemma_metas_add_nothing<T: Keyed>(kind: EntryKind, entries: Seq<T>, value: u64)
    ensures
        adds(meta_commands(kind, entries, value)) == Set::<SetMember>::empty(),
{
    lemma_names_distinct();
    let cmds = meta_commands(kind, entries, value);
    assert forall|i: int| 0 <= i < cmds.len() implies cmd_adds(#[trigger] cmds[i])
        == Set::<SetMember>::empty() by {
        assert(cmds[i][0] == name_set());
    }
    lemma_no_adds(cmds);
}

/// Among what `SADD key ids` adds, the member written as the `i`-th id is
/// only that id in that set.
proof fn lemma_sadd_member(key: Seq<u8>, ids: Seq<u64>, i: int)
    requires
        0 <= i < ids.len(),
    ensures
        with_member(cmd_adds(cmd_sadd(key, ids)), dec(ids[i] as nat)) == set![(key, dec(ids[i] as nat))],
{
    let c = cmd_sadd(key, ids);
    let m = dec(ids[i] as nat);
    assert(c[0] == name_sadd());
    assert(c[1] == key);
    assert(c[i + 2] == m);
    assert(with_member(cmd_adds(c), m) =~= set![(key, m)]) by {
        assert(cmd_adds(c).contains((key, m)));
    }
}

/// Storing expiring emojis, stage instances or stickers of `guild` at once
/// writes, for each of them, a record of the guild at the key that its
/// expiry reads; its expiry with that record then takes its id out of
/// exactly the sets that storing them put it in, and puts it in none.
pub proof fn law_expiry_undoes_bulk_store<T: Keyed>(
    s: CacheSettings,
    kind: EntryKind,
    guild: u64,
    entries: Seq<T>,
    i: int,
)
    requires
        kind == EntryKind::Emoji || kind == EntryKind::StageInstance || kind == EntryKind::Sticker,
        kind_settings(s, kind).wanted,
        kind_settings(s, kind).expires(),
        0 <= i < entries.len(),
    ensures
        record_key(keyed_meta(kind, entries[i].spec_id())) == Some(meta_key(kind, entries[i].spec_id())),
        store_keyed_cmds(s, kind, guild, entries).contains(
            cmd_set(key_bytes(meta_key(kind, entries[i].spec_id())), archived_u64(guild)),
        ),
        removes(expire_archived_cmds(keyed_meta(kind, entries[i].spec_id()), guild)) == with_member(
            adds(store_keyed_cmds(s, kind, guild, entries)),
            dec(entries[i].spec_id() as nat),
        ),
        adds(expire_archived_cmds(keyed_meta(kind, entries[i].spec_id()), guild))
            == Set::<SetMember>::empty(),
{
    let k = kind_settings(s, kind);
    let id = entries[i].spec_id();
    let m = dec(id as nat);
    let ids = keyed_ids(entries);
    let ms = mset_commands(keyed_items(kind, entries), k.expire_seconds);
    let g = cmd_sadd(key_bytes(guild_ids_key(kind, guild)), ids);
    let a = cmd_sadd(key_bytes(all_ids_key(kind)), ids);
    let metas = meta_commands(kind, entries, guild);
    let cmds = store_keyed_cmds(s, kind, guild, entries);
    assert(cmds == ms + seq![g, a] + metas);
    assert(seq![g, a] =~= seq![g] + seq![a]);
    assert(ids[i] == id);
    assert(cmds[ms.len() + 2 + i] == metas[i]);
    assert(metas[i] == cmd_set(key_bytes(meta_key(kind, id)), archived_u64(guild)));
    lemma_mset_adds_nothing(keyed_items(kind, entries), k.expire_seconds);
    lemma_metas_add_nothing(kind, entries, guild);
    lemma_adds_one(g);
    lemma_adds_one(a);
    lemma_adds_concat(ms + seq![g] + seq![a], metas);
    lemma_adds_concat(ms + seq![g], seq![a]);
    lemma_adds_concat(ms, seq![g]);
    assert(ms + seq![g, a] + metas =~= ms + seq![g] + seq![a] + metas);
    lemma_sadd_member(key_bytes(guild_ids_key(kind, guild)), ids, i);
    lemma_sadd_member(key_bytes(all_ids_key(kind)), ids, i);
    lemma_expire_keyed(kind, id, guild);
    assert(with_member(adds(cmds), m) =~= set![
        (key_bytes(guild_ids_key(kind, guild)), m),
        (key_bytes(all_ids_key(kind)), m),
    ]) by {
        assert(adds(cmds) == cmd_adds(g).union(cmd_adds(a)));
        assert(with_member(cmd_adds(g).union(cmd_adds(a)), m) =~= with_member(cmd_adds(g), m).union(
            with_member(cmd_adds(a), m),
        ));
    }
}

/// The keys a command writes a value to: the key of `SET` and `SETEX`.
pub open spec fn cmd_writes(c: Seq<Seq<u8>>) -> Set<Seq<u8>> {
    if c.len() >= 2 && (c[0] == name_set() || c[0] == name_setex()) {
        set![c[1]]
    } else {
        Set::empty()
    }
}

/// The keys a command deletes: each key of `DEL`.
pub open spec fn cmd_deletes(c: Seq<Seq<u8>>) -> Set<Seq<u8>> {
    if c.len() >= 1 && c[0] == name_del() {
        Set::new(|k: Seq<u8>| exists|j: int| 1 <= j < c.len() && k == c[j])
    } else {
        Set::empty()
    }
}

/// The keys a list of commands writes values to.
pub open spec fn writes(cmds: Seq<Seq<Seq<u8>>>) -> Set<Seq<u8>>
    decreases cmds.len(),
{
    if cmds.len() == 0 {
        Set::empty()
    } else {
        writes(cmds.drop_last()).union(cmd_writes(cmds.last()))
    }
}

/// The keys a list of commands deletes.
pub open spec fn deletes(cmds: Seq<Seq<Seq<u8>>>) -> Set<Seq<u8>>
    decreases cmds.len(),
{
    if cmds.len() == 0 {
        Set::empty()
    } else {
        deletes(cmds.drop_last()).union(cmd_deletes(cmds.last()))
    }
}

/// What a list of commands writes and deletes are those of its parts.
pub proof fn lemma_writes_concat(a: Seq<Seq<Seq<u8>>>, b: Seq<Seq<Seq<u8>>>)
    ensures
        writes(a + b) == writes(a).union(writes(b)),
        deletes(a + b) == deletes(a).union(deletes(b)),
    decreases b.len(),
{
    if b.len() == 0 {
        assert(a + b =~= a);
        assert(writes(a).union(writes(b)) =~= writes(a));
        assert(deletes(a).union(deletes(b)) =~= deletes(a));
    } else {
        lemma_writes_concat(a, b.drop_last());
        assert((a + b).drop_last() =~= a + b.drop_last());
        assert((a + b).last() == b.last());
        assert(writes(a + b) =~= writes(a).union(writes(b)));
        assert(deletes(a + b) =~= deletes(a).union(deletes(b)));
    }
}

/// What one command writes and deletes.
pub proof fn lemma_writes_one(c: Seq<Seq<u8>>)
    ensures
        writes(seq![c]) == cmd_writes(c),
        deletes(seq![c]) == cmd_deletes(c),
{
    let e = seq![c].drop_last();
    assert(e =~= Seq::<Seq<Seq<u8>>>::empty());
    assert(writes(e) == Set::<Seq<u8>>::empty());
    assert(deletes(e) == Set::<Seq<u8>>::empty());
    assert(seq![c].last() == c);
    assert(writes(seq![c]) =~= cmd_writes(c));
    assert(deletes(seq![c]) =~= cmd_deletes(c));
}

/// What the commands that store, index and delete write and delete.
proof fn lemma_cmd_effects(key: Seq<u8>, value: Seq<u8>, expire: Option<u64>, id: u64)
    ensures
        cmd_writes(set_command(key, value, expire)) == set![key],
        cmd_deletes(set_command(key, value, expire)) == Set::<Seq<u8>>::empty(),
        cmd_writes(cmd_set(key, value)) == set![key],
        cmd_deletes(cmd_set(key, value)) == Set::<Seq<u8>>::empty(),
        cmd_writes(cmd_sadd(key, seq![id])) == Set::<Seq<u8>>::empty(),
        cmd_deletes(cmd_sadd(key, seq![id])) == Set::<Seq<u8>>::empty(),
        cmd_writes(cmd_srem(key, seq![id])) == Set::<Seq<u8>>::empty(),
        cmd_deletes(cmd_srem(key, seq![id])) == Set::<Seq<u8>>::empty(),
        cmd_writes(cmd_zrem(key, seq![id])) == Set::<Seq<u8>>::empty(),
        cmd_deletes(cmd_zrem(key, seq![id])) == Set::<Seq<u8>>::empty(),
        cmd_writes(crate::pipe::cmd_del(seq![key])) == Set::<Seq<u8>>::empty(),
        cmd_deletes(crate::pipe::cmd_del(seq![key])) == set![key],
        cmd_adds(crate::pipe::cmd_del(seq![key])) == Set::<SetMember>::empty(),
        cmd_removes(crate::pipe::cmd_del(seq![key])) == Set::<SetMember>::empty(),
{
    lemma_names_distinct();
    assert(name_del()[0] != name_set()[0]);
    assert(name_del()[0] != name_setex()[0]);
    assert(name_set() != name_setex()) by {
        assert(name_set().len() != name_setex().len());
    }
    assert(cmd_set(key, value)[0] == name_set());
    assert(cmd_set(key, value)[1] == key);
    match expire {
        Some(s) => {
            assert(cmd_setex(key, value, s)[0] == name_setex());
            assert(cmd_setex(key, value, s)[1] == key);
            assert(cmd_writes(cmd_setex(key, value, s)) =~= set![key]);
        },
        None => {},
    }
    assert(cmd_writes(cmd_set(key, value)) =~= set![key]);
    let d = crate::pipe::cmd_del(seq![key]);
    assert(d[0] == name_del());
    assert(d[1] == key);
    assert(d.len() == 2);
    assert(cmd_deletes(d) =~= set![key]) by {
        assert forall|k: Seq<u8>| cmd_deletes(d).contains(k) implies k == key by {
            let j = choose|j: int| 1 <= j < d.len() && k == d[j];
            assert(j == 1);
        }
        assert(cmd_deletes(d).contains(key));
    }
    assert(cmd_sadd(key, seq![id])[0] == name_sadd());
    assert(cmd_srem(key, seq![id])[0] == name_srem());
    assert(cmd_zrem(key, seq![id])[0] == name_zrem());
}

/// The effects of one command on sets and keys: what it adds, removes,
/// writes and deletes.
pub open spec fn effects(cmds: Seq<Seq<Seq<u8>>>) -> (Set<SetMember>, Set<SetMember>, Set<Seq<u8>>, Set<Seq<u8>>) {
    (adds(cmds), removes(cmds), writes(cmds), deletes(cmds))
}

/// The effects of a list of commands are those of its parts.
proof fn lemma_effects_concat(a: Seq<Seq<Seq<u8>>>, b: Seq<Seq<Seq<u8>>>)
    ensures
        effects(a + b) == (
            effects(a).0.union(effects(b).0),
            effects(a).1.union(effects(b).1),
            effects(a).2.union(effects(b).2),
            effects(a).3.union(effects(b).3),
        ),
{
    lemma_adds_concat(a, b);
    lemma_writes_concat(a, b);
}

/// The effects of one command.
proof fn lemma_effects_one(c: Seq<Seq<u8>>)
    ensures
        effects(seq![c]) == (cmd_adds(c), cmd_removes(c), cmd_writes(c), cmd_deletes(c)),
{
    lemma_adds_one(c);
    lemma_writes_one(c);
}

/// No command at all has no effect.
proof fn lemma_effects_empty()
    ensures
        effects(Seq::<Seq<Seq<u8>>>::empty()) == (
            Set::<SetMember>::empty(),
            Set::<SetMember>::empty(),
            Set::<Seq<u8>>::empty(),
            Set::<Seq<u8>>::empty(),
        ),
{
}

/// Removing an entry of any kind stored under its own id undoes storing it:
/// it deletes exactly the keys that storing it wrote, takes its id out of
/// exactly the sets that storing it put it in, and writes and adds nothing.
pub proof fn law_delete_undoes_keyed_store(
    s: CacheSettings,
    kind: EntryKind,
    guild: u64,
    id: u64,
    bytes: Seq<u8>,
)
    ensures
        removes(delete_keyed_cmds(s, kind, guild, id)) == adds(
            store_keyed_one_cmds(s, kind, guild, id, bytes),
        ),
        deletes(delete_keyed_cmds(s, kind, guild, id)) == writes(
            store_keyed_one_cmds(s, kind, guild, id, bytes),
        ),
        adds(delete_keyed_cmds(s, kind, guild, id)) == Set::<SetMember>::empty(),
        writes(delete_keyed_cmds(s, kind, guild, id)) == Set::<Seq<u8>>::empty(),
{
    let k = kind_settings(s, kind);
    let ek = key_bytes(entry_key(kind, id));
    let mk = key_bytes(meta_key(kind, id));
    let gk = key_bytes(guild_ids_key(kind, guild));
    let ak = key_bytes(all_ids_key(kind));
    let st = store_keyed_one_cmds(s, kind, guild, id, bytes);
    let dl = delete_keyed_cmds(s, kind, guild, id);
    if !k.wanted {
        lemma_effects_empty();
        assert(st =~= Seq::<Seq<Seq<u8>>>::empty());
        assert(dl =~= Seq::<Seq<Seq<u8>>>::empty());
        return;
    }
    let s0 = set_command(ek, bytes, k.expire_seconds);
    let s1 = cmd_sadd(gk, seq![id]);
    let s2 = cmd_sadd(ak, seq![id]);
    let s3 = cmd_set(mk, archived_u64(guild));
    let d0 = crate::pipe::cmd_del(seq![ek]);
    let d1 = cmd_srem(gk, seq![id]);
    let d2 = cmd_srem(ak, seq![id]);
    let d3 = crate::pipe::cmd_del(seq![mk]);
    lemma_cmd_effects(ek, bytes, k.expire_seconds, id);
    lemma_cmd_effects(gk, bytes, k.expire_seconds, id);
    lemma_cmd_effects(ak, bytes, k.expire_seconds, id);
    lemma_cmd_effects(mk, archived_u64(guild), None, id);
    lemma_set_touches_no_set(ek, bytes, k.expire_seconds);
    lemma_set_touches_no_set(mk, archived_u64(guild), None);
    lemma_sadd_one(gk, id);
    lemma_sadd_one(ak, id);
    lemma_srem_one(gk, id);
    lemma_srem_one(ak, id);
    lemma_effects_one(s0);
    lemma_effects_one(s1);
    lemma_effects_one(s2);
    lemma_effects_one(s3);
    lemma_effects_one(d0);
    lemma_effects_one(d1);
    lemma_effects_one(d2);
    lemma_effects_one(d3);
    lemma_effects_concat(seq![s0], seq![s1]);
    lemma_effects_concat(seq![s0] + seq![s1], seq![s2]);
    lemma_effects_concat(seq![d0], seq![d1]);
    lemma_effects_concat(seq![d0] + seq![d1], seq![d2]);
    if k.expires() {
        assert(st =~= seq![s0] + seq![s1] + seq![s2] + seq![s3]);
        assert(dl =~= seq![d0] + seq![d1] + seq![d2] + seq![d3]);
        lemma_effects_concat(seq![s0] + seq![s1] + seq![s2], seq![s3]);
        lemma_effects_concat(seq![d0] + seq![d1] + seq![d2], seq![d3]);
    } else {
        assert(st =~= seq![s0] + seq![s1] + seq![s2]);
        assert(dl =~= seq![d0] + seq![d1] + seq![d2]);
    }
    assert(removes(dl) =~= adds(st));
    assert(deletes(dl) =~= writes(st));
    assert(adds(dl) =~= Set::<SetMember>::empty());
    assert(writes(dl) =~= Set::<Seq<u8>>::empty());
}

/// Removing a channel undoes storing its entry: it deletes exactly the keys
/// that storing it wrote, takes its id out of exactly the sets that storing
/// it put it in, and writes and adds nothing.
pub proof fn law_delete_undoes_channel_store(s: CacheSettings, c: ChannelEntry)
    ensures
        removes(delete_channel_cmds(s, c.guild_id, c.id)) == adds(store_channel_entry_cmds(s, c)),
        deletes(delete_channel_cmds(s, c.guild_id, c.id)) == writes(store_channel_entry_cmds(s, c)),
        adds(delete_channel_cmds(s, c.guild_id, c.id)) == Set::<SetMember>::empty(),
        writes(delete_channel_cmds(s, c.guild_id, c.id)) == Set::<Seq<u8>>::empty(),
{
    let st = store_channel_entry_cmds(s, c);
    let dl = delete_channel_cmds(s, c.guild_id, c.id);
    if !s.channel.wanted {
        lemma_effects_empty();
        assert(st =~= Seq::<Seq<Seq<u8>>>::empty());
        assert(dl =~= Seq::<Seq<Seq<u8>>>::empty());
        return;
    }
    let ek = key_bytes(RedisKey::Channel { id: c.id });
    let mk = key_bytes(RedisKey::ChannelMeta { id: c.id });
    let ak = key_bytes(RedisKey::Channels);
    let s0 = set_command(ek, c.bytes@, s.channel.expire_seconds);
    let s1 = cmd_set(mk, archived_u64(opt_id(c.guild_id)));
    let s3 = cmd_sadd(ak, seq![c.id]);
    let d0 = crate::pipe::cmd_del(seq![ek]);
    let d2 = cmd_srem(ak, seq![c.id]);
    let d3 = crate::pipe::cmd_del(seq![mk]);
    lemma_cmd_effects(ek, c.bytes@, s.channel.expire_seconds, c.id);
    lemma_cmd_effects(mk, archived_u64(opt_id(c.guild_id)), None, c.id);
    lemma_cmd_effects(ak, c.bytes@, None, c.id);
    lemma_set_touches_no_set(ek, c.bytes@, s.channel.expire_seconds);
    lemma_set_touches_no_set(mk, archived_u64(opt_id(c.guild_id)), None);
    lemma_sadd_one(ak, c.id);
    lemma_srem_one(ak, c.id);
    lemma_effects_one(s0);
    lemma_effects_one(s1);
    lemma_effects_one(s3);
    lemma_effects_one(d0);
    lemma_effects_one(d2);
    lemma_effects_one(d3);
    lemma_effects_empty();
    let meta_s: Seq<Seq<Seq<u8>>> = if s.channel.expires() { seq![s1] } else { Seq::empty() };
    let meta_d: Seq<Seq<Seq<u8>>> = if s.channel.expires() { seq![d3] } else { Seq::empty() };
    let (guild_s, guild_d): (Seq<Seq<Seq<u8>>>, Seq<Seq<Seq<u8>>>) = match c.guild_id {
        Some(g) => {
            let gk = key_bytes(RedisKey::GuildChannels { id: g });
            lemma_cmd_effects(gk, c.bytes@, None, c.id);
            lemma_sadd_one(gk, c.id);
            lemma_srem_one(gk, c.id);
            lemma_effects_one(cmd_sadd(gk, seq![c.id]));
            lemma_effects_one(cmd_srem(gk, seq![c.id]));
            (seq![cmd_sadd(gk, seq![c.id])], seq![cmd_srem(gk, seq![c.id])])
        },
        None => (Seq::empty(), Seq::empty()),
    };
    assert(st =~= seq![s0] + meta_s + guild_s + seq![s3]);
    assert(dl =~= seq![d0] + guild_d + seq![d2] + meta_d);
    lemma_effects_concat(seq![s0], meta_s);
    lemma_effects_concat(seq![s0] + meta_s, guild_s);
    lemma_effects_concat(seq![s0] + meta_s + guild_s, seq![s3]);
    lemma_effects_concat(seq![d0], guild_d);
    lemma_effects_concat(seq![d0] + guild_d, seq![d2]);
    lemma_effects_concat(seq![d0] + guild_d + seq![d2], meta_d);
    assert(removes(dl) =~= adds(st));
    assert(deletes(dl) =~= writes(st));
    assert(adds(dl) =~= Set::<SetMember>::empty());
    assert(writes(dl) =~= Set::<Seq<u8>>::empty());
}

/// Removing a message undoes storing its entry: it deletes exactly the keys
/// that storing it wrote, takes its id out of exactly the sets that storing
/// it put it in, and writes and adds nothing.
pub proof fn law_delete_undoes_message_store(s: CacheSettings, m: MessageEntry)
    ensures
        removes(delete_message_cmds(s, m.id, m.channel_id)) == adds(store_message_entry_cmds(s, m)),
        deletes(delete_message_cmds(s, m.id, m.channel_id)) == writes(store_message_entry_cmds(s, m)),
        adds(delete_message_cmds(s, m.id, m.channel_id)) == Set::<SetMember>::empty(),
        writes(delete_message_cmds(s, m.id, m.channel_id)) == Set::<Seq<u8>>::empty(),
{
    let st = store_message_entry_cmds(s, m);
    let dl = delete_message_cmds(s, m.id, m.channel_id);
    if !s.message.wanted {
        lemma_effects_empty();
        assert(st =~= Seq::<Seq<Seq<u8>>>::empty());
        assert(dl =~= Seq::<Seq<Seq<u8>>>::empty());
        return;
    }
    let score = crate::cache::message::message_score(m.timestamp_micros) as i64;
    let ek = key_bytes(RedisKey::Message { id: m.id });
    let mk = key_bytes(RedisKey::MessageMeta { id: m.id });
    let ak = key_bytes(RedisKey::Messages);
    let ck = key_bytes(RedisKey::ChannelMessages { channel: m.channel_id });
    let s0 = set_command(ek, m.bytes@, s.message.expire_seconds);
    let s1 = cmd_sadd(ak, seq![m.id]);
    let s2 = cmd_zadd(ck, m.id, score);
    let s3 = message_meta_command(m.id, m.channel_id);
    let d0 = crate::pipe::cmd_del(seq![ek]);
    let d1 = cmd_srem(ak, seq![m.id]);
    let d2 = cmd_zrem(ck, seq![m.id]);
    let d3 = crate::pipe::cmd_del(seq![mk]);
    lemma_cmd_effects(ek, m.bytes@, s.message.expire_seconds, m.id);
    lemma_cmd_effects(mk, archived_u64(m.channel_id), None, m.id);
    lemma_cmd_effects(ak, m.bytes@, None, m.id);
    lemma_cmd_effects(ck, m.bytes@, None, m.id);
    lemma_set_touches_no_set(ek, m.bytes@, s.message.expire_seconds);
    lemma_set_touches_no_set(mk, archived_u64(m.channel_id), None);
    lemma_sadd_one(ak, m.id);
    lemma_srem_one(ak, m.id);
    lemma_zadd_one(ck, m.id, score);
    lemma_zrem_one(ck, m.id);
    lemma_names_distinct();
    assert(cmd_adds(d2) == Set::<SetMember>::empty()) by {
        assert(d2[0] == name_zrem());
    }
    assert(cmd_writes(s2) == Set::<Seq<u8>>::empty() && cmd_deletes(s2) == Set::<Seq<u8>>::empty()) by {
        assert(s2[0] == name_zadd());
        assert(name_zadd()[0] != name_set()[0]);
        assert(name_zadd()[0] != name_setex()[0]);
        assert(name_zadd()[0] != name_del()[0]);
    }
    lemma_effects_one(s0);
    lemma_effects_one(s1);
    lemma_effects_one(s2);
    lemma_effects_one(s3);
    lemma_effects_one(d0);
    lemma_effects_one(d1);
    lemma_effects_one(d2);
    lemma_effects_one(d3);
    lemma_effects_concat(seq![s0], seq![s1]);
    lemma_effects_concat(seq![s0] + seq![s1], seq![s2]);
    lemma_effects_concat(seq![d0], seq![d1]);
    lemma_effects_concat(seq![d0] + seq![d1], seq![d2]);
    if s.message.expires() {
        assert(st =~= seq![s0] + seq![s1] + seq![s2] + seq![s3]);
        assert(dl =~= seq![d0] + seq![d1] + seq![d2] + seq![d3]);
        lemma_effects_concat(seq![s0] + seq![s1] + seq![s2], seq![s3]);
        lemma_effects_concat(seq![d0] + seq![d1] + seq![d2], seq![d3]);
    } else {
        assert(st =~= seq![s0] + seq![s1] + seq![s2]);
        assert(dl =~= seq![d0] + seq![d1] + seq![d2]);
    }
    assert(removes(dl) =~= adds(st));
    assert(deletes(dl) =~= writes(st));
    assert(adds(dl) =~= Set::<SetMember>::empty());
    assert(writes(dl) =~= Set::<Seq<u8>>::empty());
}

/// Whether every kind of entry is ignored.
pub open spec fn nothing_wanted(s: CacheSettings) -> bool {
    &&& !s.channel.wanted
    &&& !s.current_user.wanted
    &&& !s.emoji.wanted
    &&& !s.guild.wanted
    &&& !s.integration.wanted
    &&& !s.member.wanted
    &&& !s.message.wanted
    &&& !s.presence.wanted
    &&& !s.role.wanted
    &&& !s.scheduled_event.wanted
    &&& !s.stage_instance.wanted
    &&& !s.sticker.wanted
    &&& !s.user.wanted
    &&& !s.voice_state.wanted
}

/// With every kind ignored, partial members queue nothing and leave no
/// member to fetch.
proof fn lemma_ignored_partial_members(
    s: CacheSettings,
    guild: u64,
    members: Seq<PartialMemberEntry>,
    updates: bool,
)
    requires
        nothing_wanted(s),
    ensures
        partial_members_cmds(s, guild, members) == Seq::<Seq<Seq<u8>>>::empty(),
        partial_members_to_update(s, guild, members, updates) == Seq::<RedisKey>::empty(),
    decreases members.len(),
{
    if members.len() > 0 {
        lemma_ignored_partial_members(s, guild, members.drop_last(), updates);
        assert(store_partial_member_cmds(s, guild, members.last()) =~= Seq::<Seq<Seq<u8>>>::empty());
        assert(partial_members_cmds(s, guild, members) =~= Seq::<Seq<Seq<u8>>>::empty());
        assert(partial_members_to_update(s, guild, members, updates) =~= Seq::<RedisKey>::empty());
    }
}

/// Types that are not cached are ignored: with every kind of entry ignored,
/// no event queues a command or leaves an entry to fetch.
pub proof fn law_ignored_config_queues_nothing(s: CacheSettings, h: UpdateHooks, e: CacheEvent)
    requires
        nothing_wanted(s),
    ensures
        update_cmds(s, e) == Seq::<Seq<Seq<u8>>>::empty(),
        update_refresh(s, h, e) == Seq::<crate::update::Refresh>::empty(),
{
    let empty = Seq::<Seq<Seq<u8>>>::empty();
    match e {
        CacheEvent::MessageCreate(m) => {
            match m.guild_id {
                Some(g) => lemma_ignored_partial_members(s, g, message_partial_members(m), h.partial_member),
                None => {},
            }
            assert(update_cmds(s, e) =~= empty);
            assert(update_refresh(s, h, e) =~= Seq::<crate::update::Refresh>::empty());
        },
        CacheEvent::InteractionCreate(i) => {
            match i.message {
                Some(m) => match m.guild_id {
                    Some(g) => lemma_ignored_partial_members(s, g, message_partial_members(m), h.partial_member),
                    None => {},
                },
                None => {},
            }
            assert(update_cmds(s, e) =~= empty);
            assert(update_refresh(s, h, e) =~= Seq::<crate::update::Refresh>::empty());
        },
        _ => {
            assert(update_cmds(s, e) =~= empty);
            assert(update_refresh(s, h, e) =~= Seq::<crate::update::Refresh>::empty());
        },
    }
}

/// The messages of a channel are kept in the order of their scores: of two
/// stored messages, the newer one gets the lower score, so that reading the
/// channel's set in order of score goes from the most recent message to the
/// oldest.
pub proof fn law_newer_messages_first(newer: i64, older: i64)
    requires
        newer > older,
        older > i64::MIN,
    ensures
        (message_score(newer) as i64) < (message_score(older) as i64),
{
}

/// `SCARD` only asks: it adds, removes, writes and deletes nothing.
proof fn lemma_scard_no_effects(key: Seq<u8>)
    ensures
        effects(seq![cmd_scard(key)]) == (
            Set::<SetMember>::empty(),
            Set::<SetMember>::empty(),
            Set::<Seq<u8>>::empty(),
            Set::<Seq<u8>>::empty(),
        ),
{
    let c = cmd_scard(key);
    assert(c[0] == name_scard());
    assert(c.len() == 2);
    assert(name_scard()[1] != name_sadd()[1]);
    assert(name_scard()[1] != name_setex()[1]);
    assert(name_scard().len() != name_srem().len());
    assert(name_scard().len() != name_zrem().len());
    assert(name_scard().len() != name_set().len());
    assert(name_scard().len() != name_del().len());
    lemma_effects_one(c);
    assert(cmd_adds(c) =~= Set::<SetMember>::empty());
    assert(cmd_removes(c) =~= Set::<SetMember>::empty());
    assert(cmd_writes(c) =~= Set::<Seq<u8>>::empty());
    assert(cmd_deletes(c) =~= Set::<Seq<u8>>::empty());
}

/// Storing a member apart from its user: the member's entry, its place among
/// the guild's members, and the guild among its user's guilds.
pub open spec fn store_member_own_cmds(s: CacheSettings, guild: u64, member: MemberEntry) -> Seq<
    Seq<Seq<u8>>,
> {
    let user = member.user.id;
    (if s.member.wanted {
        seq![
            set_command(key_bytes(RedisKey::Member { guild, user }), member.bytes@, s.member.expire_seconds),
            cmd_sadd(key_bytes(RedisKey::GuildMembers { id: guild }), seq![user]),
        ]
    } else {
        Seq::empty()
    }) + (if s.user.wanted {
        seq![cmd_sadd(key_bytes(RedisKey::UserGuilds { id: user }), seq![guild])]
    } else {
        Seq::empty()
    })
}

/// Removing a member undoes storing it: its entry, its place among the
/// guild's members and the guild among its user's guilds go; its user's
/// entry and place among the users go too exactly when the user shares no
/// guild anymore. Nothing is written or added.
pub proof fn law_delete_undoes_member_store(
    s: CacheSettings,
    guild: u64,
    member: MemberEntry,
    common_guilds: usize,
)
    ensures
        store_member_cmds(s, guild, member) == store_member_own_cmds(s, guild, member)
            + store_user_cmds(s, member.user),
        removes(
            delete_member_start_cmds(s, guild, member.user.id) + delete_member_finish_cmds(
                s,
                guild,
                member.user.id,
                common_guilds,
            ),
        ) == (if common_guilds == 0 {
            adds(store_member_cmds(s, guild, member))
        } else {
            adds(store_member_own_cmds(s, guild, member))
        }),
        deletes(
            delete_member_start_cmds(s, guild, member.user.id) + delete_member_finish_cmds(
                s,
                guild,
                member.user.id,
                common_guilds,
            ),
        ) == (if common_guilds == 0 {
            writes(store_member_cmds(s, guild, member))
        } else {
            writes(store_member_own_cmds(s, guild, member))
        }),
        adds(
            delete_member_start_cmds(s, guild, member.user.id) + delete_member_finish_cmds(
                s,
                guild,
                member.user.id,
                common_guilds,
            ),
        ) == Set::<SetMember>::empty(),
        writes(
            delete_member_start_cmds(s, guild, member.user.id) + delete_member_finish_cmds(
                s,
                guild,
                member.user.id,
                common_guilds,
            ),
        ) == Set::<Seq<u8>>::empty(),
{
    let u = member.user.id;
    let mk = key_bytes(RedisKey::Member { guild, user: u });
    let gk = key_bytes(RedisKey::GuildMembers { id: guild });
    let ugk = key_bytes(RedisKey::UserGuilds { id: u });
    let uk = key_bytes(RedisKey::User { id: u });
    let usk = key_bytes(RedisKey::Users);
    let s0 = set_command(mk, member.bytes@, s.member.expire_seconds);
    let s1 = cmd_sadd(gk, seq![u]);
    let s2 = cmd_sadd(ugk, seq![guild]);
    let s3 = set_command(uk, member.user.bytes@, s.user.expire_seconds);
    let s4 = cmd_sadd(usk, seq![u]);
    let d0 = cmd_srem(ugk, seq![guild]);
    let d1 = cmd_scard(ugk);
    let d2 = crate::pipe::cmd_del(seq![uk]);
    let d3 = cmd_srem(usk, seq![u]);
    let d4 = crate::pipe::cmd_del(seq![mk]);
    let d5 = cmd_srem(gk, seq![u]);
    lemma_cmd_effects(mk, member.bytes@, s.member.expire_seconds, u);
    lemma_cmd_effects(gk, member.bytes@, None, u);
    lemma_cmd_effects(ugk, member.bytes@, None, guild);
    lemma_cmd_effects(uk, member.user.bytes@, s.user.expire_seconds, u);
    lemma_cmd_effects(usk, member.user.bytes@, None, u);
    lemma_set_touches_no_set(mk, member.bytes@, s.member.expire_seconds);
    lemma_set_touches_no_set(uk, member.user.bytes@, s.user.expire_seconds);
    lemma_sadd_one(gk, u);
    lemma_sadd_one(ugk, guild);
    lemma_sadd_one(usk, u);
    lemma_srem_one(ugk, guild);
    lemma_srem_one(usk, u);
    lemma_srem_one(gk, u);
    lemma_scard_no_effects(ugk);
    lemma_effects_one(s0);
    lemma_effects_one(s1);
    lemma_effects_one(s2);
    lemma_effects_one(s3);
    lemma_effects_one(s4);
    lemma_effects_one(d0);
    lemma_effects_one(d2);
    lemma_effects_one(d3);
    lemma_effects_one(d4);
    lemma_effects_one(d5);
    lemma_effects_empty();
    let e = Seq::<Seq<Seq<u8>>>::empty();
    let a: Seq<Seq<Seq<u8>>> = if s.member.wanted { seq![s0] + seq![s1] } else { e };
    let b: Seq<Seq<Seq<u8>>> = if s.user.wanted { seq![s2] } else { e };
    let c: Seq<Seq<Seq<u8>>> = if s.user.wanted { seq![s3] + seq![s4] } else { e };
    let x: Seq<Seq<Seq<u8>>> = if s.user.wanted { seq![d0] + seq![d1] } else { e };
    let y: Seq<Seq<Seq<u8>>> = if s.user.wanted && common_guilds == 0 { seq![d2] + seq![d3] } else { e };
    let z: Seq<Seq<Seq<u8>>> = if s.member.wanted { seq![d4] + seq![d5] } else { e };
    lemma_effects_concat(seq![s0], seq![s1]);
    lemma_effects_concat(seq![s3], seq![s4]);
    lemma_effects_concat(seq![d0], seq![d1]);
    lemma_effects_concat(seq![d2], seq![d3]);
    lemma_effects_concat(seq![d4], seq![d5]);
    lemma_effects_concat(a, b);
    lemma_effects_concat(a + b, c);
    lemma_effects_concat(x, y);
    lemma_effects_concat(x + y, z);
    assert(store_member_own_cmds(s, guild, member) =~= a + b);
    assert(store_user_cmds(s, member.user) =~= c);
    assert(store_member_cmds(s, guild, member) =~= a + b + c);
    assert(delete_member_start_cmds(s, guild, u) =~= x);
    assert(delete_member_finish_cmds(s, guild, u, common_guilds) =~= y + z);
    assert(delete_member_start_cmds(s, guild, u) + delete_member_finish_cmds(s, guild, u, common_guilds)
        =~= x + y + z);
    let dl = x + y + z;
    if common_guilds == 0 {
        assert(removes(dl) =~= adds(a + b + c));
        assert(deletes(dl) =~= writes(a + b + c));
    } else {
        assert(removes(dl) =~= adds(a + b));
        assert(deletes(dl) =~= writes(a + b));
    }
    assert(adds(dl) =~= Set::<SetMember>::empty());
    assert(writes(dl) =~= Set::<Seq<u8>>::empty());
}

/// The expiry of a member undoes storing it, but for its entry, which the
/// store removed itself: the member's place among the guild's members and
/// the guild among its user's guilds go; its user's entry and place among
/// the users go too exactly when the user shares no guild anymore. Nothing
/// is written or added. Members and users are both cached, as the expiry
/// assumes.
pub proof fn law_expiry_undoes_member_store(
    s: CacheSettings,
    guild: u64,
    member: MemberEntry,
    count: usize,
)
    requires
        s.member.wanted,
        s.user.wanted,
    ensures
        removes(
            member_expire_start_cmds(guild, member.user.id) + member_expire_finish_cmds(
                member.user.id,
                count,
            ),
        ) == (if count == 0 {
            adds(store_member_cmds(s, guild, member))
        } else {
            adds(store_member_own_cmds(s, guild, member))
        }),
        deletes(
            member_expire_start_cmds(guild, member.user.id) + member_expire_finish_cmds(
                member.user.id,
                count,
            ),
        ) == (if count == 0 {
            writes(store_user_cmds(s, member.user))
        } else {
            Set::<Seq<u8>>::empty()
        }),
        adds(
            member_expire_start_cmds(guild, member.user.id) + member_expire_finish_cmds(
                member.user.id,
                count,
            ),
        ) == Set::<SetMember>::empty(),
        writes(
            member_expire_start_cmds(guild, member.user.id) + member_expire_finish_cmds(
                member.user.id,
                count,
            ),
        ) == Set::<Seq<u8>>::empty(),
{
    let u = member.user.id;
    let mk = key_bytes(RedisKey::Member { guild, user: u });
    let gk = key_bytes(RedisKey::GuildMembers { id: guild });
    let ugk = key_bytes(RedisKey::UserGuilds { id: u });
    let uk = key_bytes(RedisKey::User { id: u });
    let usk = key_bytes(RedisKey::Users);
    let s0 = set_command(mk, member.bytes@, s.member.expire_seconds);
    let s1 = cmd_sadd(gk, seq![u]);
    let s2 = cmd_sadd(ugk, seq![guild]);
    let s3 = set_command(uk, member.user.bytes@, s.user.expire_seconds);
    let s4 = cmd_sadd(usk, seq![u]);
    let d0 = cmd_srem(gk, seq![u]);
    let d1 = cmd_srem(ugk, seq![guild]);
    let d2 = cmd_scard(ugk);
    let d3 = crate::pipe::cmd_del(seq![uk]);
    let d4 = cmd_srem(usk, seq![u]);
    lemma_cmd_effects(mk, member.bytes@, s.member.expire_seconds, u);
    lemma_cmd_effects(gk, member.bytes@, None, u);
    lemma_cmd_effects(ugk, member.bytes@, None, guild);
    lemma_cmd_effects(uk, member.user.bytes@, s.user.expire_seconds, u);
    lemma_cmd_effects(usk, member.user.bytes@, None, u);
    lemma_set_touches_no_set(mk, member.bytes@, s.member.expire_seconds);
    lemma_set_touches_no_set(uk, member.user.bytes@, s.user.expire_seconds);
    lemma_sadd_one(gk, u);
    lemma_sadd_one(ugk, guild);
    lemma_sadd_one(usk, u);
    lemma_srem_one(gk, u);
    lemma_srem_one(ugk, guild);
    lemma_srem_one(usk, u);
    lemma_scard_no_effects(ugk);
    lemma_effects_one(s0);
    lemma_effects_one(s1);
    lemma_effects_one(s2);
    lemma_effects_one(s3);
    lemma_effects_one(s4);
    lemma_effects_one(d0);
    lemma_effects_one(d1);
    lemma_effects_one(d3);
    lemma_effects_one(d4);
    lemma_effects_empty();
    let e = Seq::<Seq<Seq<u8>>>::empty();
    let own = seq![s0] + seq![s1] + seq![s2];
    let user = seq![s3] + seq![s4];
    let x = seq![d0] + seq![d1] + seq![d2];
    let y: Seq<Seq<Seq<u8>>> = if count == 0 { seq![d3] + seq![d4] } else { e };
    lemma_effects_concat(seq![s0], seq![s1]);
    lemma_effects_concat(seq![s0] + seq![s1], seq![s2]);
    lemma_effects_concat(seq![s3], seq![s4]);
    lemma_effects_concat(seq![d0], seq![d1]);
    lemma_effects_concat(seq![d0] + seq![d1], seq![d2]);
    lemma_effects_concat(seq![d3], seq![d4]);
    lemma_effects_concat(own, user);
    lemma_effects_concat(x, y);
    assert(store_member_own_cmds(s, guild, member) =~= own);
    assert(store_user_cmds(s, member.user) =~= user);
    assert(store_member_cmds(s, guild, member) =~= own + user);
    assert(member_expire_start_cmds(guild, u) =~= x);
    assert(member_expire_finish_cmds(u, count) =~= y);
    let ex = x + y;
    if count == 0 {
        assert(removes(ex) =~= adds(own + user));
        assert(deletes(ex) =~= writes(user));
    } else {
        assert(removes(ex) =~= adds(own));
        assert(deletes(ex) =~= Set::<Seq<u8>>::empty());
    }
    assert(adds(ex) =~= Set::<SetMember>::empty());
    assert(writes(ex) =~= Set::<Seq<u8>>::empty());
}

/// The effects of storing an entry under `ek` and its id in the set `gk`,
/// of deleting both, and of taking the id out of the set alone.
proof fn lemma_pair_effects(ek: Seq<u8>, gk: Seq<u8>, id: u64, bytes: Seq<u8>, exp: Option<u64>)
    ensures
        effects(seq![set_command(ek, bytes, exp), cmd_sadd(gk, seq![id])]) == (
            set![(gk, dec(id as nat))],
            Set::<SetMember>::empty(),
            set![ek],
            Set::<Seq<u8>>::empty(),
        ),
        effects(seq![crate::pipe::cmd_del(seq![ek]), cmd_srem(gk, seq![id])]) == (
            Set::<SetMember>::empty(),
            set![(gk, dec(id as nat))],
            Set::<Seq<u8>>::empty(),
            set![ek],
        ),
        effects(seq![cmd_srem(gk, seq![id])]) == (
            Set::<SetMember>::empty(),
            set![(gk, dec(id as nat))],
            Set::<Seq<u8>>::empty(),
            Set::<Seq<u8>>::empty(),
        ),
{
    let s0 = set_command(ek, bytes, exp);
    let s1 = cmd_sadd(gk, seq![id]);
    let d0 = crate::pipe::cmd_del(seq![ek]);
    let d1 = cmd_srem(gk, seq![id]);
    lemma_cmd_effects(ek, bytes, exp, id);
    lemma_cmd_effects(gk, bytes, None, id);
    lemma_set_touches_no_set(ek, bytes, exp);
    lemma_sadd_one(gk, id);
    lemma_srem_one(gk, id);
    lemma_effects_one(s0);
    lemma_effects_one(s1);
    lemma_effects_one(d0);
    lemma_effects_one(d1);
    lemma_effects_concat(seq![s0], seq![s1]);
    lemma_effects_concat(seq![d0], seq![d1]);
    assert(seq![s0] + seq![s1] =~= seq![s0, s1]);
    assert(seq![d0] + seq![d1] =~= seq![d0, d1]);
    assert(effects(seq![s0, s1]).0 =~= set![(gk, dec(id as nat))]);
    assert(effects(seq![s0, s1]).1 =~= Set::<SetMember>::empty());
    assert(effects(seq![s0, s1]).2 =~= set![ek]);
    assert(effects(seq![s0, s1]).3 =~= Set::<Seq<u8>>::empty());
    assert(effects(seq![d0, d1]).0 =~= Set::<SetMember>::empty());
    assert(effects(seq![d0, d1]).1 =~= set![(gk, dec(id as nat))]);
    assert(effects(seq![d0, d1]).2 =~= Set::<Seq<u8>>::empty());
    assert(effects(seq![d0, d1]).3 =~= set![ek]);
}

/// Removing an integration undoes storing it, apart from its user, whose
/// entry other entries share: it deletes exactly the key that storing it
/// wrote, takes its id out of exactly the set that storing it put it in,
/// and writes and adds nothing.
pub proof fn law_delete_undoes_integration_store(s: CacheSettings, guild: u64, i: IntegrationEntry)
    ensures
        removes(delete_integration_cmds(s, guild, i.id)) == adds(
            store_integration_cmds(s, guild, (IntegrationEntry { id: i.id, bytes: i.bytes, user: None })),
        ),
        deletes(delete_integration_cmds(s, guild, i.id)) == writes(
            store_integration_cmds(s, guild, (IntegrationEntry { id: i.id, bytes: i.bytes, user: None })),
        ),
        adds(delete_integration_cmds(s, guild, i.id)) == Set::<SetMember>::empty(),
        writes(delete_integration_cmds(s, guild, i.id)) == Set::<Seq<u8>>::empty(),
{
    let own = IntegrationEntry { id: i.id, bytes: i.bytes, user: None };
    let ek = key_bytes(RedisKey::Integration { guild, id: i.id });
    let gk = key_bytes(RedisKey::GuildIntegrations { id: guild });
    lemma_pair_effects(ek, gk, i.id, i.bytes@, s.integration.expire_seconds);
    lemma_effects_empty();
    if s.integration.wanted {
        assert(store_integration_cmds(s, guild, own) =~= seq![
            set_command(ek, i.bytes@, s.integration.expire_seconds),
            cmd_sadd(gk, seq![i.id]),
        ]);
        assert(delete_integration_cmds(s, guild, i.id) =~= seq![
            crate::pipe::cmd_del(seq![ek]),
            cmd_srem(gk, seq![i.id]),
        ]);
    } else {
        assert(store_integration_cmds(s, guild, own) =~= Seq::<Seq<Seq<u8>>>::empty());
        assert(delete_integration_cmds(s, guild, i.id) =~= Seq::<Seq<Seq<u8>>>::empty());
    }
}

/// Removing a voice state undoes storing it, apart from its member, whose
/// removal is its own: it deletes exactly the key that storing it wrote,
/// takes its user out of exactly the set that storing it put it in, and
/// writes and adds nothing.
pub proof fn law_delete_undoes_voice_state_store(s: CacheSettings, guild: u64, v: VoiceStateEntry)
    ensures
        removes(delete_voice_state_cmds(s, guild, v.user_id)) == adds(
            store_voice_state_cmds(
                s,
                guild,
                (VoiceStateEntry { user_id: v.user_id, channel_id: v.channel_id, bytes: v.bytes, member: None }),
            ),
        ),
        deletes(delete_voice_state_cmds(s, guild, v.user_id)) == writes(
            store_voice_state_cmds(
                s,
                guild,
                (VoiceStateEntry { user_id: v.user_id, channel_id: v.channel_id, bytes: v.bytes, member: None }),
            ),
        ),
        adds(delete_voice_state_cmds(s, guild, v.user_id)) == Set::<SetMember>::empty(),
        writes(delete_voice_state_cmds(s, guild, v.user_id)) == Set::<Seq<u8>>::empty(),
{
    let own = VoiceStateEntry { user_id: v.user_id, channel_id: v.channel_id, bytes: v.bytes, member: None };
    let ek = key_bytes(RedisKey::VoiceState { guild, user: v.user_id });
    let gk = key_bytes(RedisKey::GuildVoiceStates { id: guild });
    lemma_pair_effects(ek, gk, v.user_id, v.bytes@, s.voice_state.expire_seconds);
    lemma_effects_empty();
    if s.voice_state.wanted {
        assert(store_voice_state_cmds(s, guild, own) =~= seq![
            set_command(ek, v.bytes@, s.voice_state.expire_seconds),
            cmd_sadd(gk, seq![v.user_id]),
        ]);
        assert(delete_voice_state_cmds(s, guild, v.user_id) =~= seq![
            crate::pipe::cmd_del(seq![ek]),
            cmd_srem(gk, seq![v.user_id]),
        ]);
    } else {
        assert(store_voice_state_cmds(s, guild, own) =~= Seq::<Seq<Seq<u8>>>::empty());
        assert(delete_voice_state_cmds(s, guild, v.user_id) =~= Seq::<Seq<Seq<u8>>>::empty());
    }
}

/// The expiry of an integration, a presence or a voice state undoes storing
/// it, apart from its user or member, whose entries are shared: its id goes
/// from exactly the set that storing it put it in, and nothing is written,
/// added or deleted, its own entry having gone with its expiry. Each kind is
/// cached, as its expiry assumes.
pub proof fn law_expiry_undoes_guild_entry_store(
    s: CacheSettings,
    guild: u64,
    i: IntegrationEntry,
    p: PresenceEntry,
    v: VoiceStateEntry,
)
    requires
        s.integration.wanted,
        s.presence.wanted,
        s.voice_state.wanted,
    ensures
        effects(expire_plain_cmds(MetaKey::Integration { guild, integration: i.id })) == (
            Set::<SetMember>::empty(),
            adds(store_integration_cmds(s, guild, (IntegrationEntry { id: i.id, bytes: i.bytes, user: None }))),
            Set::<Seq<u8>>::empty(),
            Set::<Seq<u8>>::empty(),
        ),
        effects(expire_plain_cmds(MetaKey::Presence { guild: p.guild_id, user: p.user_id })) == (
            Set::<SetMember>::empty(),
            adds(
                store_presence_cmds(
                    s,
                    (PresenceEntry { guild_id: p.guild_id, user_id: p.user_id, bytes: p.bytes, user: None }),
                ),
            ),
            Set::<Seq<u8>>::empty(),
            Set::<Seq<u8>>::empty(),
        ),
        effects(expire_plain_cmds(MetaKey::VoiceState { guild, user: v.user_id })) == (
            Set::<SetMember>::empty(),
            adds(
                store_voice_state_cmds(
                    s,
                    guild,
                    (VoiceStateEntry { user_id: v.user_id, channel_id: v.channel_id, bytes: v.bytes, member: None }),
                ),
            ),
            Set::<Seq<u8>>::empty(),
            Set::<Seq<u8>>::empty(),
        ),
{
    let ik = key_bytes(RedisKey::Integration { guild, id: i.id });
    let igk = key_bytes(RedisKey::GuildIntegrations { id: guild });
    lemma_pair_effects(ik, igk, i.id, i.bytes@, s.integration.expire_seconds);
    let pk = key_bytes(RedisKey::Presence { guild: p.guild_id, user: p.user_id });
    let pgk = key_bytes(RedisKey::GuildPresences { id: p.guild_id });
    lemma_pair_effects(pk, pgk, p.user_id, p.bytes@, s.presence.expire_seconds);
    let vk = key_bytes(RedisKey::VoiceState { guild, user: v.user_id });
    let vgk = key_bytes(RedisKey::GuildVoiceStates { id: guild });
    lemma_pair_effects(vk, vgk, v.user_id, v.bytes@, s.voice_state.expire_seconds);
    assert(store_integration_cmds(s, guild, (IntegrationEntry { id: i.id, bytes: i.bytes, user: None }))
        =~= seq![set_command(ik, i.bytes@, s.integration.expire_seconds), cmd_sadd(igk, seq![i.id])]);
    assert(store_presence_cmds(
        s,
        (PresenceEntry { guild_id: p.guild_id, user_id: p.user_id, bytes: p.bytes, user: None }),
    ) =~= seq![set_command(pk, p.bytes@, s.presence.expire_seconds), cmd_sadd(pgk, seq![p.user_id])]);
    assert(store_voice_state_cmds(
        s,
        guild,
        (VoiceStateEntry { user_id: v.user_id, channel_id: v.channel_id, bytes: v.bytes, member: None }),
    ) =~= seq![set_command(vk, v.bytes@, s.voice_state.expire_seconds), cmd_sadd(vgk, seq![v.user_id])]);
}

/// The expiry of a user undoes storing it: its id goes from the users, the
/// set of its guilds goes, and nothing is written or added, its own entry
/// having gone with its expiry. Users are cached, as their expiry assumes.
pub proof fn law_expiry_undoes_user_store(s: CacheSettings, user: UserEntry)
    requires
        s.user.wanted,
    ensures
        removes(expire_plain_cmds(MetaKey::User { user: user.id })) == adds(store_user_cmds(s, user)),
        deletes(expire_plain_cmds(MetaKey::User { user: user.id })) == set![
            key_bytes(RedisKey::UserGuilds { id: user.id }),
        ],
        adds(expire_plain_cmds(MetaKey::User { user: user.id })) == Set::<SetMember>::empty(),
        writes(expire_plain_cmds(MetaKey::User { user: user.id })) == Set::<Seq<u8>>::empty(),
{
    let uk = key_bytes(RedisKey::User { id: user.id });
    let usk = key_bytes(RedisKey::Users);
    let ugk = key_bytes(RedisKey::UserGuilds { id: user.id });
    lemma_pair_effects(uk, usk, user.id, user.bytes@, s.user.expire_seconds);
    let d0 = cmd_srem(usk, seq![user.id]);
    let d1 = crate::pipe::cmd_del(seq![ugk]);
    lemma_cmd_effects(ugk, user.bytes@, None, user.id);
    lemma_effects_one(d0);
    lemma_effects_one(d1);
    lemma_effects_concat(seq![d0], seq![d1]);
    assert(expire_plain_cmds(MetaKey::User { user: user.id }) =~= seq![d0] + seq![d1]);
    assert(store_user_cmds(s, user) =~= seq![
        set_command(uk, user.bytes@, s.user.expire_seconds),
        cmd_sadd(usk, seq![user.id]),
    ]);
    let ex = seq![d0] + seq![d1];
    assert(removes(ex) =~= adds(store_user_cmds(s, user)));
    assert(deletes(ex) =~= set![ugk]);
    assert(adds(ex) =~= Set::<SetMember>::empty());
    assert(writes(ex) =~= Set::<Seq<u8>>::empty());
}

/// Distinct keys have distinct texts, so that two keys never address the
/// same entry or set of the store.
pub proof fn law_distinct_keys_distinct_texts(a: RedisKey, b: RedisKey)
    requires
        a != b,
    ensures
        key_bytes(a) != key_bytes(b),
{
    crate::segments::lemma_key_of_text(a);
    crate::segments::lemma_key_of_text(b);
}

/// Whether two guilds are the same but for their roles.
pub open spec fn same_but_roles(a: GuildEntry, b: GuildEntry) -> bool {
    &&& a.id == b.id
    &&& a.bytes == b.bytes
    &&& a.channels == b.channels
    &&& a.emojis == b.emojis
    &&& a.members == b.members
    &&& a.presences == b.presences
    &&& a.stickers == b.stickers
    &&& a.threads == b.threads
    &&& a.stage_instances == b.stage_instances
    &&& a.voice_states == b.voice_states
}

/// Whether two interactions are the same but for the roles they resolved.
pub open spec fn same_but_resolved_roles(a: InteractionEntry, b: InteractionEntry) -> bool {
    &&& a.guild_id == b.guild_id
    &&& a.channel == b.channel
    &&& a.member == b.member
    &&& a.message == b.message
    &&& a.user == b.user
    &&& match (a.resolved, b.resolved) {
        (Some(x), Some(y)) => x.users == y.users,
        (None, None) => true,
        _ => false,
    }
}

/// A kind that is not cached is ignored, shown for roles: with roles not
/// cached, creating, updating or deleting a role queues nothing, and the
/// roles that a guild, a guild update or an interaction carries make no
/// difference to what is queued.
pub proof fn law_ignored_roles_make_no_difference(
    s: CacheSettings,
    guild: u64,
    role: RoleEntry,
    role_id: u64,
    g1: GuildEntry,
    g2: GuildEntry,
    emojis: Vec<EmojiEntry>,
    roles1: Vec<RoleEntry>,
    roles2: Vec<RoleEntry>,
    i1: InteractionEntry,
    i2: InteractionEntry,
)
    requires
        !s.role.wanted,
        same_but_roles(g1, g2),
        same_but_resolved_roles(i1, i2),
    ensures
        update_cmds(s, (CacheEvent::Role { guild, role })) == Seq::<Seq<Seq<u8>>>::empty(),
        update_cmds(s, (CacheEvent::RoleDelete { guild, role: role_id })) == Seq::<
            Seq<Seq<u8>>,
        >::empty(),
        update_cmds(s, CacheEvent::GuildCreate(g1)) == update_cmds(s, CacheEvent::GuildCreate(g2)),
        update_cmds(s, (CacheEvent::GuildUpdate { guild, emojis, roles: roles1 })) == update_cmds(
            s,
            (CacheEvent::GuildUpdate { guild, emojis, roles: roles2 }),
        ),
        update_cmds(s, CacheEvent::InteractionCreate(i1)) == update_cmds(
            s,
            CacheEvent::InteractionCreate(i2),
        ),
{
    assert(update_cmds(s, (CacheEvent::Role { guild, role })) =~= Seq::<Seq<Seq<u8>>>::empty());
    assert(update_cmds(s, (CacheEvent::RoleDelete { guild, role: role_id })) =~= Seq::<
        Seq<Seq<u8>>,
    >::empty());
    assert(update_cmds(s, CacheEvent::GuildCreate(g1)) =~= update_cmds(s, CacheEvent::GuildCreate(g2)));
    assert(update_cmds(s, (CacheEvent::GuildUpdate { guild, emojis, roles: roles1 })) =~= update_cmds(
        s,
        (CacheEvent::GuildUpdate { guild, emojis, roles: roles2 }),
    ));
    assert(update_cmds(s, CacheEvent::InteractionCreate(i1)) =~= update_cmds(
        s,
        CacheEvent::InteractionCreate(i2),
    ));
}

} // verus!
