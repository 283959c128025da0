//! Where channels do not expire, a channel entry is stored exactly when its
//! id is in the set of all channel ids: storing a channel adds its id,
//! removing it takes the id out, and nothing else names either.
use vstd::prelude::*;

use crate::decimal::{dec, lemma_dec};
use crate::guild_laws::{lemma_after_concat, lemma_after_one, lemma_effect_set_ops, names_key, set_after};
use crate::key::{key_bytes, RedisKey};
use crate::key_laws::{avoids, command_avoids, key_position};
use crate::pipe::{
    cmd_del, cmd_mset, cmd_sadd, cmd_srem, id_args, item_pairs, mset_commands, name_del, name_getdel, name_mset, name_set, name_setex, pair_args, set_command,
};
use crate::cache::channel::{
    delete_channel_cmds, store_channel_entry_cmds, store_channels_cmds, recipients_of,
};
use crate::cache::common::{keyed_ids, keyed_items, EntryKind};
use crate::cache::user::store_users_cmds;
use crate::config::CacheSettings;
use crate::entries::{ChannelEntry, Keyed};
use crate::key_laws::{lemma_names_distinct, lemma_pair_args, lemma_users_avoid, keys_fit};
use crate::key_laws::{
    lemma_concat_avoids, lemma_guild_entry_avoids, lemma_keyed_avoid, lemma_members_avoid, lemma_message_entry_avoids, lemma_partial_member_avoids, lemma_partial_members_avoid, lemma_presences_avoid, lemma_roles_avoid, lemma_thread_member_avoids, lemma_update_avoids, lemma_user_avoids, lemma_voice_states_avoid,
};
use crate::cache::channel::{store_channel_cmds, store_thread_member_cmds};
use crate::cache::guild::{
    store_guild_cmds, store_guild_entry_cmds, store_guild_parts_a_cmds, store_guild_parts_b_cmds, store_guild_parts_c_cmds, store_guild_parts_cmds,
};
use crate::cache::interaction::{
    interaction_member_cmds, opt_channel_cmds, opt_message_cmds, opt_user_cmds, store_interaction_cmds, store_resolved_cmds, InteractionEntry,
};
use crate::cache::member::store_members_cmds;
use crate::cache::message::{
    message_partial_members, store_message_cmds, store_message_entry_cmds, store_message_members_cmds, store_thread_cmds,
};
use crate::cache::presence::store_presences_cmds;
use crate::cache::role::store_roles_cmds;
use crate::cache::common::store_keyed_cmds;
use crate::cache::user::store_user_cmds;
use crate::cache::voice_state::store_voice_states_cmds;
use crate::entries::{GuildEntry, MessageEntry};
use crate::update::{update_cmds, CacheEvent};
use crate::cache::guild::{delete_guild_start_cmds, guild_lists, GuildList};
use crate::cache::guild_delete::{
    delete_guild_finish_cmds, delete_guild_keys, finish_keys, finish_srems, id_keys, is_keyed_list, list_entry_kind, list_keys, list_pair_shape, list_srems, user_guild_cmds, IdKey,
};
use crate::guild_laws::guild_removal_cmds;
use crate::pipe::key_texts;
use crate::removal_keys::{
    lemma_guild_start_avoids, lemma_guilds_start_avoids, lemma_user_guild_spared, lemma_users_each_spared, lemma_member_removal_avoids,
};
use crate::cache::guild::{delete_guilds_start_cmds, guild_list_key};
use crate::cache::guilds_delete::{
    block_of, delete_guilds_finish_cmds, delete_guilds_keys, flat, guild_keys, multi_keys, multi_list_keys, multi_list_srems, multi_srems, pair_keys, users_each_cmds,
};
use crate::cache::member::{delete_member_finish_cmds, delete_member_start_cmds};
use crate::cache::current_user::store_current_user_cmds;
use crate::guild_laws::ready_removal_cmds;
use crate::segments::{key_of_text, lemma_key_of_text};

verus! {

/// Whether the key whose text is `t` holds a value after command `c`,
/// `before` telling whether it held one before: `SET`, `SETEX` and `MSET`
/// give it one, `DEL` and `GETDEL` take it away, and other commands leave it
/// as it was.
pub open spec fn exists_effect(c: Seq<Seq<u8>>, t: Seq<u8>, before: bool) -> bool {
    if !names_key(c, t) {
        before
    } else if c[0] == name_set() || c[0] == name_setex() || c[0] == name_mset() {
        true
    } else if c[0] == name_del() || c[0] == name_getdel() {
        false
    } else {
        before
    }
}

/// Whether the key whose text is `t` holds a value after the commands
/// `cmds`, run in order, `before` telling whether it held one before.
pub open spec fn exists_after(cmds: Seq<Seq<Seq<u8>>>, t: Seq<u8>, before: bool) -> bool
    decreases cmds.len(),
{
    if cmds.len() == 0 {
        before
    } else {
        exists_effect(cmds.last(), t, exists_after(cmds.drop_last(), t, before))
    }
}

/// Whether `cmds` keep each channel entry stored exactly when its id is in
/// the set of all channel ids: from any store where that holds of an id, it
/// holds of it after them.
pub open spec fn keeps_channels_listed(cmds: Seq<Seq<Seq<u8>>>) -> bool {
    forall|id: u64, stored: bool, ids: Set<Seq<u8>>|
        #![trigger exists_after(cmds, key_bytes(RedisKey::Channel { id }), stored), set_after(cmds, key_bytes(RedisKey::Channels), ids)]
        stored == ids.contains(dec(id as nat)) ==> exists_after(cmds, key_bytes(RedisKey::Channel { id }), stored)
            == set_after(cmds, key_bytes(RedisKey::Channels), ids).contains(dec(id as nat))
}

/// The keys of the channel entries and the set of all channel ids.
pub open spec fn channel_keys() -> spec_fn(RedisKey) -> bool {
    |k: RedisKey| k is Channel || k is Channels
}

/// Running `a` and then `b`.
pub proof fn lemma_exists_concat(a: Seq<Seq<Seq<u8>>>, b: Seq<Seq<Seq<u8>>>, t: Seq<u8>, before: bool)
    ensures
        exists_after(a + b, t, before) == exists_after(b, t, exists_after(a, t, before)),
    decreases b.len(),
{
    if b.len() == 0 {
        assert(a + b =~= a);
    } else {
        lemma_exists_concat(a, b.drop_last(), t, before);
        assert((a + b).drop_last() =~= a + b.drop_last());
        assert((a + b).last() == b.last());
    }
}

/// Running one command.
pub proof fn lemma_exists_one(c: Seq<Seq<u8>>, t: Seq<u8>, before: bool)
    ensures
        exists_after(seq![c], t, before) == exists_effect(c, t, before),
{
    assert(seq![c].drop_last() =~= Seq::<Seq<Seq<u8>>>::empty());
    assert(exists_after(Seq::<Seq<Seq<u8>>>::empty(), t, before) == before);
    assert(seq![c].last() == c);
}

/// Two lists of commands that each keep the channels listed, joined.
pub proof fn lemma_keeps_concat(a: Seq<Seq<Seq<u8>>>, b: Seq<Seq<Seq<u8>>>)
    requires
        keeps_channels_listed(a),
        keeps_channels_listed(b),
    ensures
        keeps_channels_listed(a + b),
{
    assert forall|id: u64, stored: bool, ids: Set<Seq<u8>>|
        stored == ids.contains(dec(id as nat)) implies #[trigger] exists_after(
            a + b,
            key_bytes(RedisKey::Channel { id }),
            stored,
        ) == #[trigger] set_after(a + b, key_bytes(RedisKey::Channels), ids).contains(dec(id as nat)) by {
        let te = key_bytes(RedisKey::Channel { id });
        let ts = key_bytes(RedisKey::Channels);
        lemma_exists_concat(a, b, te, stored);
        lemma_after_concat(a, b, ts, ids);
        let s1 = exists_after(a, te, stored);
        let i1 = set_after(a, ts, ids);
        assert(s1 == i1.contains(dec(id as nat)));
        assert(exists_after(b, te, s1) == set_after(b, ts, i1).contains(dec(id as nat)));
    }
}

/// Commands that name no key that `bad` holds leave a key that it holds
/// with a value exactly where it had one.
pub proof fn lemma_exists_avoiding(
    bad: spec_fn(RedisKey) -> bool,
    cmds: Seq<Seq<Seq<u8>>>,
    k: RedisKey,
    before: bool,
)
    requires
        avoids(bad, cmds),
        bad(k),
    ensures
        exists_after(cmds, key_bytes(k), before) == before,
    decreases cmds.len(),
{
    if cmds.len() > 0 {
        let rest = cmds.drop_last();
        assert(avoids(bad, rest)) by {
            assert forall|i: int| 0 <= i < rest.len() implies command_avoids(bad, #[trigger] rest[i]) by {
                assert(rest[i] == cmds[i]);
            }
        }
        lemma_exists_avoiding(bad, rest, k, before);
        let c = cmds.last();
        assert(command_avoids(bad, cmds[cmds.len() - 1]));
        lemma_key_of_text(k);
        if names_key(c, key_bytes(k)) {
            let j = choose|j: int| #![trigger c[j]] key_position(c, j) && c[j] == key_bytes(k);
            assert(!bad(key_of_text(c[j])));
        }
    }
}

/// Commands that name neither a channel entry nor the set of all channel
/// ids keep the channels listed.
pub proof fn lemma_keeps_avoiding(cmds: Seq<Seq<Seq<u8>>>)
    requires
        avoids(channel_keys(), cmds),
    ensures
        keeps_channels_listed(cmds),
{
    assert forall|id: u64, stored: bool, ids: Set<Seq<u8>>|
        stored == ids.contains(dec(id as nat)) implies #[trigger] exists_after(
            cmds,
            key_bytes(RedisKey::Channel { id }),
            stored,
        ) == #[trigger] set_after(cmds, key_bytes(RedisKey::Channels), ids).contains(dec(id as nat)) by {
        lemma_exists_avoiding(channel_keys(), cmds, RedisKey::Channel { id }, stored);
        crate::guild_laws::lemma_after_avoiding(channel_keys(), cmds, RedisKey::Channels, ids);
    }
}

/// Distinct ids have distinct decimal texts.
pub proof fn lemma_dec_injective(a: u64, b: u64)
    ensures
        dec(a as nat) == dec(b as nat) ==> a == b,
{
    lemma_dec(a as nat);
    lemma_dec(b as nat);
}

/// A command whose only key is its first argument, the text of `k`, leaves
/// every other key as it was.
pub proof fn lemma_other_key(c: Seq<Seq<u8>>, k: RedisKey, other: RedisKey, stored: bool, ids: Set<Seq<u8>>)
    requires
        c.len() >= 2,
        c[0] != name_del(),
        c[0] != name_mset(),
        c[1] == key_bytes(k),
        k != other,
    ensures
        exists_effect(c, key_bytes(other), stored) == stored,
        crate::guild_laws::set_effect(c, key_bytes(other), ids) == ids,
        names_key(c, key_bytes(k)),
{
    lemma_key_of_text(k);
    lemma_key_of_text(other);
    assert(key_position(c, 1));
}

/// The set of the decimal texts of some ids holds the text of an id exactly
/// where the ids hold it.
pub proof fn lemma_id_texts(ids: Seq<u64>, id: u64)
    ensures
        id_args(ids).to_set().contains(dec(id as nat)) <==> ids.contains(id),
{
    if ids.contains(id) {
        let m = choose|m: int| 0 <= m < ids.len() && ids[m] == id;
        assert(id_args(ids)[m] == dec(id as nat));
    }
    if id_args(ids).to_set().contains(dec(id as nat)) {
        let m = choose|m: int| 0 <= m < id_args(ids).len() && id_args(ids)[m] == dec(id as nat);
        lemma_dec_injective(ids[m], id);
    }
}

/// Storing a channel entry, where channels do not expire.
pub proof fn lemma_channel_entry_keeps(s: CacheSettings, c: ChannelEntry)
    requires
        s.channel.expire_seconds is None,
    ensures
        keeps_channels_listed(store_channel_entry_cmds(s, c)),
{
    if s.channel.wanted {
        lemma_names_distinct();
        let set = set_command(key_bytes(RedisKey::Channel { id: c.id }), c.bytes@, s.channel.expire_seconds);
        let link = match c.guild_id {
            Some(g) => seq![cmd_sadd(key_bytes(RedisKey::GuildChannels { id: g }), seq![c.id])],
            None => Seq::empty(),
        };
        let add = cmd_sadd(key_bytes(RedisKey::Channels), seq![c.id]);
        let cmds = store_channel_entry_cmds(s, c);
        assert(cmds =~= seq![set] + Seq::empty() + link + seq![add]);
        assert(cmds =~= seq![set] + link + seq![add]);
        assert forall|id: u64, stored: bool, ids: Set<Seq<u8>>|
            stored == ids.contains(dec(id as nat)) implies #[trigger] exists_after(
                cmds,
                key_bytes(RedisKey::Channel { id }),
                stored,
            ) == #[trigger] set_after(cmds, key_bytes(RedisKey::Channels), ids).contains(dec(id as nat)) by {
            let te = key_bytes(RedisKey::Channel { id });
            let ts = key_bytes(RedisKey::Channels);
            lemma_exists_concat(seq![set], link, te, stored);
            lemma_exists_concat(seq![set] + link, seq![add], te, stored);
            lemma_after_concat(seq![set], link, ts, ids);
            lemma_after_concat(seq![set] + link, seq![add], ts, ids);
            lemma_exists_one(set, te, stored);
            lemma_after_one(set, ts, ids);
            lemma_other_key(set, RedisKey::Channel { id: c.id }, RedisKey::Channels, stored, ids);
            let e1 = if id == c.id { true } else { stored };
            if id != c.id {
                lemma_other_key(set, RedisKey::Channel { id: c.id }, RedisKey::Channel { id }, stored, ids);
            }
            assert(exists_after(seq![set], te, stored) == e1);
            match c.guild_id {
                Some(g) => {
                    let l = cmd_sadd(key_bytes(RedisKey::GuildChannels { id: g }), seq![c.id]);
                    lemma_exists_one(l, te, e1);
                    lemma_after_one(l, ts, ids);
                    lemma_other_key(l, RedisKey::GuildChannels { id: g }, RedisKey::Channel { id }, e1, ids);
                    lemma_other_key(l, RedisKey::GuildChannels { id: g }, RedisKey::Channels, e1, ids);
                },
                None => {},
            }
            assert(exists_after(link, te, e1) == e1);
            assert(set_after(link, ts, ids) == ids);
            lemma_exists_one(add, te, e1);
            lemma_after_one(add, ts, ids);
            lemma_other_key(add, RedisKey::Channels, RedisKey::Channel { id }, e1, ids);
            lemma_effect_set_ops(RedisKey::Channels, RedisKey::Channel { id }, seq![c.id], ids);
            lemma_id_texts(seq![c.id], id);
            assert(seq![c.id].contains(id) <==> id == c.id) by {
                if id == c.id {
                    assert(seq![c.id][0] == id);
                }
            }
        }
    }
}

/// Removing one key: it holds no value afterwards, and every other key is
/// left as it was.
pub proof fn lemma_del_one(k: RedisKey, other: RedisKey, stored: bool, ids: Set<Seq<u8>>)
    ensures
        exists_effect(cmd_del(seq![key_bytes(k)]), key_bytes(k), stored) == false,
        k != other ==> exists_effect(cmd_del(seq![key_bytes(k)]), key_bytes(other), stored) == stored,
        k != other ==> crate::guild_laws::set_effect(cmd_del(seq![key_bytes(k)]), key_bytes(other), ids) == ids,
{
    lemma_names_distinct();
    let c = cmd_del(seq![key_bytes(k)]);
    assert(c[1] == key_bytes(k));
    assert(key_position(c, 1));
    lemma_key_of_text(k);
    lemma_key_of_text(other);
    assert(c.len() == 2);
}

/// Removing a channel, where channels do not expire.
pub proof fn lemma_delete_channel_keeps(s: CacheSettings, guild: Option<u64>, channel: u64)
    requires
        s.channel.expire_seconds is None,
    ensures
        keeps_channels_listed(delete_channel_cmds(s, guild, channel)),
{
    if s.channel.wanted {
        lemma_names_distinct();
        let del = cmd_del(seq![key_bytes(RedisKey::Channel { id: channel })]);
        let unlink = match guild {
            Some(g) => seq![cmd_srem(key_bytes(RedisKey::GuildChannels { id: g }), seq![channel])],
            None => Seq::empty(),
        };
        let rem = cmd_srem(key_bytes(RedisKey::Channels), seq![channel]);
        let cmds = delete_channel_cmds(s, guild, channel);
        assert(cmds =~= seq![del] + unlink + seq![rem]);
        assert forall|id: u64, stored: bool, ids: Set<Seq<u8>>|
            stored == ids.contains(dec(id as nat)) implies #[trigger] exists_after(
                cmds,
                key_bytes(RedisKey::Channel { id }),
                stored,
            ) == #[trigger] set_after(cmds, key_bytes(RedisKey::Channels), ids).contains(dec(id as nat)) by {
            let te = key_bytes(RedisKey::Channel { id });
            let ts = key_bytes(RedisKey::Channels);
            lemma_exists_concat(seq![del], unlink, te, stored);
            lemma_exists_concat(seq![del] + unlink, seq![rem], te, stored);
            lemma_after_concat(seq![del], unlink, ts, ids);
            lemma_after_concat(seq![del] + unlink, seq![rem], ts, ids);
            lemma_exists_one(del, te, stored);
            lemma_after_one(del, ts, ids);
            lemma_del_one(RedisKey::Channel { id: channel }, RedisKey::Channel { id }, stored, ids);
            lemma_del_one(RedisKey::Channel { id: channel }, RedisKey::Channels, stored, ids);
            let e1 = if id == channel { false } else { stored };
            assert(exists_after(seq![del], te, stored) == e1);
            match guild {
                Some(g) => {
                    let l = cmd_srem(key_bytes(RedisKey::GuildChannels { id: g }), seq![channel]);
                    lemma_exists_one(l, te, e1);
                    lemma_after_one(l, ts, ids);
                    lemma_other_key(l, RedisKey::GuildChannels { id: g }, RedisKey::Channel { id }, e1, ids);
                    lemma_other_key(l, RedisKey::GuildChannels { id: g }, RedisKey::Channels, e1, ids);
                },
                None => {},
            }
            assert(exists_after(unlink, te, e1) == e1);
            assert(set_after(unlink, ts, ids) == ids);
            lemma_exists_one(rem, te, e1);
            lemma_after_one(rem, ts, ids);
            lemma_other_key(rem, RedisKey::Channels, RedisKey::Channel { id }, e1, ids);
            lemma_effect_set_ops(RedisKey::Channels, RedisKey::Channel { id }, seq![channel], ids);
            lemma_id_texts(seq![channel], id);
            assert(seq![channel].contains(id) <==> id == channel) by {
                if id == channel {
                    assert(seq![channel][0] == id);
                }
            }
        }
    }
}

/// Storing several entries at once names the key `k` exactly where one of
/// them is stored under it.
pub proof fn lemma_mset_names(items: Seq<(RedisKey, Seq<u8>)>, k: RedisKey)
    ensures
        names_key(cmd_mset(item_pairs(items)), key_bytes(k)) <==> exists|m: int|
            0 <= m < items.len() && #[trigger] items[m].0 == k,
        cmd_mset(item_pairs(items))[0] == name_mset(),
{
    lemma_names_distinct();
    let ps = item_pairs(items);
    let c = cmd_mset(ps);
    lemma_pair_args(ps);
    lemma_key_of_text(k);
    if exists|m: int| 0 <= m < items.len() && #[trigger] items[m].0 == k {
        let m = choose|m: int| 0 <= m < items.len() && #[trigger] items[m].0 == k;
        assert(c[2 * m + 1] == pair_args(ps)[2 * m]);
        assert(key_position(c, 2 * m + 1));
        assert(c[2 * m + 1] == key_bytes(k));
    }
    if names_key(c, key_bytes(k)) {
        let j = choose|j: int| #![trigger c[j]] key_position(c, j) && c[j] == key_bytes(k);
        let m = (j - 1) / 2;
        assert(2 * m == j - 1);
        assert(c[j] == pair_args(ps)[2 * m]);
        assert(ps[m].0 == key_bytes(items[m].0));
        lemma_key_of_text(items[m].0);
        assert(items[m].0 == k);
    }
}

/// Storing the channels of a guild and their recipients, where channels do
/// not expire.
pub proof fn lemma_channels_keep(s: CacheSettings, guild: u64, channels: Seq<ChannelEntry>)
    requires
        s.channel.expire_seconds is None,
    ensures
        keeps_channels_listed(store_channels_cmds(s, guild, channels)),
{
    let users = store_users_cmds(s, recipients_of(channels));
    let ck = channel_keys();
    assert(keys_fit(s, ck));
    lemma_users_avoid(ck, s, recipients_of(channels));
    lemma_keeps_avoiding(users);
    if s.channel.wanted && channels.len() > 0 {
        lemma_names_distinct();
        let items = keyed_items(EntryKind::Channel, channels);
        let ids_of = keyed_ids(channels);
        let mset = cmd_mset(item_pairs(items));
        let link = cmd_sadd(key_bytes(RedisKey::GuildChannels { id: guild }), ids_of);
        let add = cmd_sadd(key_bytes(RedisKey::Channels), ids_of);
        let head = seq![mset] + seq![link, add];
        assert(mset_commands(items, s.channel.expire_seconds) =~= seq![mset]);
        assert(store_channels_cmds(s, guild, channels) =~= head + users);
        assert(head =~= seq![mset] + seq![link] + seq![add]);
        assert forall|id: u64, stored: bool, ids: Set<Seq<u8>>|
            stored == ids.contains(dec(id as nat)) implies #[trigger] exists_after(
                head,
                key_bytes(RedisKey::Channel { id }),
                stored,
            ) == #[trigger] set_after(head, key_bytes(RedisKey::Channels), ids).contains(dec(id as nat)) by {
            let te = key_bytes(RedisKey::Channel { id });
            let ts = key_bytes(RedisKey::Channels);
            lemma_exists_concat(seq![mset], seq![link], te, stored);
            lemma_exists_concat(seq![mset] + seq![link], seq![add], te, stored);
            lemma_after_concat(seq![mset], seq![link], ts, ids);
            lemma_after_concat(seq![mset] + seq![link], seq![add], ts, ids);
            lemma_exists_one(mset, te, stored);
            lemma_after_one(mset, ts, ids);
            lemma_mset_names(items, RedisKey::Channel { id });
            lemma_mset_names(items, RedisKey::Channels);
            assert(!(exists|m: int| 0 <= m < items.len() && #[trigger] items[m].0 == RedisKey::Channels)) by {
                if exists|m: int| 0 <= m < items.len() && #[trigger] items[m].0 == RedisKey::Channels {
                    let m = choose|m: int| 0 <= m < items.len() && #[trigger] items[m].0 == RedisKey::Channels;
                    assert(items[m].0 == RedisKey::Channel { id: channels[m].spec_id() });
                }
            }
            let key = RedisKey::Channel { id };
            let listed = ids_of.contains(id);
            assert(listed <==> exists|m: int| 0 <= m < items.len() && #[trigger] items[m].0 == key) by {
                if listed {
                    let m = choose|m: int| 0 <= m < ids_of.len() && ids_of[m] == id;
                    assert(items[m].0 == RedisKey::Channel { id: channels[m].spec_id() });
                }
                if exists|m: int| 0 <= m < items.len() && #[trigger] items[m].0 == key {
                    let m = choose|m: int| 0 <= m < items.len() && #[trigger] items[m].0 == key;
                    assert(items[m].0 == RedisKey::Channel { id: channels[m].spec_id() });
                    assert(ids_of[m] == id);
                }
            }
            let e1 = stored || listed;
            assert(exists_after(seq![mset], te, stored) == e1);
            assert(set_after(seq![mset], ts, ids) == ids);
            lemma_exists_one(link, te, e1);
            lemma_after_one(link, ts, ids);
            lemma_other_key(link, RedisKey::GuildChannels { id: guild }, RedisKey::Channel { id }, e1, ids);
            lemma_other_key(link, RedisKey::GuildChannels { id: guild }, RedisKey::Channels, e1, ids);
            lemma_exists_one(add, te, e1);
            lemma_after_one(add, ts, ids);
            lemma_other_key(add, RedisKey::Channels, RedisKey::Channel { id }, e1, ids);
            lemma_effect_set_ops(RedisKey::Channels, RedisKey::Channel { id }, ids_of, ids);
            lemma_id_texts(ids_of, id);
        }
        lemma_keeps_concat(head, users);
    } else {
        assert(store_channels_cmds(s, guild, channels) =~= Seq::<Seq<Seq<u8>>>::empty() + users);
        lemma_keeps_concat(Seq::<Seq<Seq<u8>>>::empty(), users);
    }
}

/// Storing a channel, its thread member and its recipients, where channels
/// do not expire.
pub proof fn lemma_channel_keeps(s: CacheSettings, c: ChannelEntry)
    requires
        s.channel.expire_seconds is None,
    ensures
        keeps_channels_listed(store_channel_cmds(s, c)),
{
    let ck = channel_keys();
    assert(keys_fit(s, ck));
    lemma_channel_entry_keeps(s, c);
    lemma_thread_member_avoids(ck, s, c.guild_id, c.member);
    lemma_keeps_avoiding(store_thread_member_cmds(s, c.guild_id, c.member));
    let r = match c.recipients {
        Some(users) => store_users_cmds(s, users@),
        None => Seq::empty(),
    };
    match c.recipients {
        Some(users) => lemma_users_avoid(ck, s, users@),
        None => {},
    }
    lemma_keeps_avoiding(r);
    lemma_keeps_concat(store_channel_entry_cmds(s, c), store_thread_member_cmds(s, c.guild_id, c.member));
    lemma_keeps_concat(store_channel_entry_cmds(s, c) + store_thread_member_cmds(s, c.guild_id, c.member), r);
}

/// Storing a message, its author, its members and its thread, where
/// channels do not expire.
pub proof fn lemma_message_keeps(s: CacheSettings, m: MessageEntry)
    requires
        s.channel.expire_seconds is None,
    ensures
        keeps_channels_listed(store_message_cmds(s, m)),
{
    let ck = channel_keys();
    assert(keys_fit(s, ck));
    lemma_message_entry_avoids(ck, s, m);
    lemma_user_avoids(ck, s, m.author);
    match m.guild_id {
        Some(g) => lemma_partial_members_avoid(ck, s, g, message_partial_members(m)),
        None => {},
    }
    let a = store_message_entry_cmds(s, m);
    let b = store_user_cmds(s, m.author);
    let c = store_message_members_cmds(s, m);
    let d = store_thread_cmds(s, m.thread);
    lemma_concat_avoids(ck, a, b);
    lemma_concat_avoids(ck, a + b, c);
    lemma_keeps_avoiding(a + b + c);
    match m.thread {
        Some(t) => lemma_channel_keeps(s, t),
        None => {},
    }
    lemma_keeps_concat(a + b + c, d);
}

/// Storing the roles and users an interaction resolved, and its member,
/// names neither a channel entry nor the set of all channel ids.
proof fn lemma_interaction_middle_avoids(s: CacheSettings, i: InteractionEntry)
    ensures
        avoids(
            channel_keys(),
            store_resolved_cmds(s, i.guild_id, i.resolved) + interaction_member_cmds(s, i.guild_id, i.member),
        ),
{
    let ck = channel_keys();
    assert(keys_fit(s, ck));
    match i.resolved {
        Some(r) => {
            let rr = match i.guild_id {
                Some(g) => store_roles_cmds(s, g, r.roles@),
                None => Seq::empty(),
            };
            match i.guild_id {
                Some(g) => lemma_roles_avoid(ck, s, g, r.roles@),
                None => {},
            }
            lemma_users_avoid(ck, s, r.users@);
            lemma_concat_avoids(ck, rr, store_users_cmds(s, r.users@));
        },
        None => {},
    }
    match (i.guild_id, i.member) {
        (Some(g), Some(m)) => lemma_partial_member_avoids(ck, s, g, m),
        _ => {},
    }
    lemma_concat_avoids(
        ck,
        store_resolved_cmds(s, i.guild_id, i.resolved),
        interaction_member_cmds(s, i.guild_id, i.member),
    );
}

/// Storing what an interaction carries, where channels do not expire.
pub proof fn lemma_interaction_keeps(s: CacheSettings, i: InteractionEntry)
    requires
        s.channel.expire_seconds is None,
    ensures
        keeps_channels_listed(store_interaction_cmds(s, i)),
{
    let a = opt_channel_cmds(s, i.channel);
    let bc = store_resolved_cmds(s, i.guild_id, i.resolved) + interaction_member_cmds(s, i.guild_id, i.member);
    let d = opt_message_cmds(s, i.message);
    let e = opt_user_cmds(s, i.user);
    assert(store_interaction_cmds(s, i) =~= a + bc + d + e);
    match i.channel {
        Some(ch) => lemma_channel_keeps(s, ch),
        None => {},
    }
    lemma_interaction_middle_avoids(s, i);
    lemma_keeps_avoiding(bc);
    match i.message {
        Some(m) => lemma_message_keeps(s, m),
        None => {},
    }
    match i.user {
        Some(u) => {
            assert(keys_fit(s, channel_keys()));
            lemma_user_avoids(channel_keys(), s, u);
        },
        None => {},
    }
    lemma_keeps_avoiding(e);
    lemma_keeps_concat(a, bc);
    lemma_keeps_concat(a + bc, d);
    lemma_keeps_concat(a + bc + d, e);
}

/// Storing a guild and everything it comes with, where channels do not
/// expire.
pub proof fn lemma_guild_keeps(s: CacheSettings, g: GuildEntry)
    requires
        s.channel.expire_seconds is None,
    ensures
        keeps_channels_listed(store_guild_cmds(s, g)),
{
    let ck = channel_keys();
    assert(keys_fit(s, ck));
    lemma_guild_entry_avoids(ck, s, g.id, g.bytes@);
    lemma_keeps_avoiding(store_guild_entry_cmds(s, g.id, g.bytes@));
    lemma_channels_keep(s, g.id, g.channels@);
    lemma_keyed_avoid(ck, s, EntryKind::Emoji, g.id, g.emojis@);
    lemma_members_avoid(ck, s, g.id, g.members@);
    lemma_concat_avoids(ck, store_keyed_cmds(s, EntryKind::Emoji, g.id, g.emojis@), store_members_cmds(s, g.id, g.members@));
    lemma_keeps_avoiding(store_keyed_cmds(s, EntryKind::Emoji, g.id, g.emojis@) + store_members_cmds(s, g.id, g.members@));
    lemma_keeps_concat(
        store_channels_cmds(s, g.id, g.channels@),
        store_keyed_cmds(s, EntryKind::Emoji, g.id, g.emojis@) + store_members_cmds(s, g.id, g.members@),
    );
    assert(store_guild_parts_a_cmds(s, g) =~= store_channels_cmds(s, g.id, g.channels@) + (store_keyed_cmds(
        s,
        EntryKind::Emoji,
        g.id,
        g.emojis@,
    ) + store_members_cmds(s, g.id, g.members@)));
    lemma_presences_avoid(ck, s, g.id, g.presences@);
    lemma_roles_avoid(ck, s, g.id, g.roles@);
    lemma_keyed_avoid(ck, s, EntryKind::Sticker, g.id, g.stickers@);
    lemma_concat_avoids(ck, store_presences_cmds(s, g.id, g.presences@), store_roles_cmds(s, g.id, g.roles@));
    lemma_concat_avoids(
        ck,
        store_presences_cmds(s, g.id, g.presences@) + store_roles_cmds(s, g.id, g.roles@),
        store_keyed_cmds(s, EntryKind::Sticker, g.id, g.stickers@),
    );
    lemma_keeps_avoiding(store_guild_parts_b_cmds(s, g));
    lemma_channels_keep(s, g.id, g.threads@);
    lemma_keyed_avoid(ck, s, EntryKind::StageInstance, g.id, g.stage_instances@);
    lemma_voice_states_avoid(ck, s, g.id, g.voice_states@);
    lemma_concat_avoids(
        ck,
        store_keyed_cmds(s, EntryKind::StageInstance, g.id, g.stage_instances@),
        store_voice_states_cmds(s, g.id, g.voice_states@),
    );
    lemma_keeps_avoiding(
        store_keyed_cmds(s, EntryKind::StageInstance, g.id, g.stage_instances@) + store_voice_states_cmds(s, g.id, g.voice_states@),
    );
    lemma_keeps_concat(
        store_channels_cmds(s, g.id, g.threads@),
        store_keyed_cmds(s, EntryKind::StageInstance, g.id, g.stage_instances@) + store_voice_states_cmds(s, g.id, g.voice_states@),
    );
    assert(store_guild_parts_c_cmds(s, g) =~= store_channels_cmds(s, g.id, g.threads@) + (store_keyed_cmds(
        s,
        EntryKind::StageInstance,
        g.id,
        g.stage_instances@,
    ) + store_voice_states_cmds(s, g.id, g.voice_states@)));
    lemma_keeps_concat(store_guild_parts_a_cmds(s, g), store_guild_parts_b_cmds(s, g));
    lemma_keeps_concat(store_guild_parts_a_cmds(s, g) + store_guild_parts_b_cmds(s, g), store_guild_parts_c_cmds(s, g));
    lemma_keeps_concat(store_guild_entry_cmds(s, g.id, g.bytes@), store_guild_parts_cmds(s, g));
}

/// Where channels do not expire, the commands of every event keep each
/// channel entry stored exactly when its id is in the set of all channel
/// ids: storing a channel puts its entry and its id in place together,
/// removing one takes both away, and no other command names either.
pub proof fn law_update_keeps_channels_listed(s: CacheSettings, e: CacheEvent)
    requires
        s.channel.expire_seconds is None,
    ensures
        keeps_channels_listed(update_cmds(s, e)),
{
    match e {
        CacheEvent::Channel(c) => lemma_channel_keeps(s, c),
        CacheEvent::ChannelDelete { guild, channel } => lemma_delete_channel_keeps(s, guild, channel),
        CacheEvent::GuildCreate(g) => lemma_guild_keeps(s, g),
        CacheEvent::InteractionCreate(i) => lemma_interaction_keeps(s, i),
        CacheEvent::MessageCreate(m) => lemma_message_keeps(s, m),
        CacheEvent::ThreadListSync { guild, threads } => lemma_channels_keep(s, guild, threads@),
        _ => {
            let ck = channel_keys();
            assert(keys_fit(s, ck));
            lemma_update_avoids(ck, s, e);
            lemma_keeps_avoiding(update_cmds(s, e));
        },
    }
}

/// The channel ids whose entries the last step of removing a guild deletes:
/// those of the channel set among `kinds`, `lists[i]` holding the ids of
/// `kinds[i]`.
pub open spec fn removed_channels(kinds: Seq<GuildList>, lists: Seq<Seq<u64>>) -> Seq<u64>
    decreases kinds.len(),
{
    if kinds.len() == 0 {
        Seq::empty()
    } else {
        removed_channels(kinds.drop_last(), lists) + (if kinds.last() == GuildList::Channels {
            lists[kinds.len() - 1]
        } else {
            Seq::empty()
        })
    }
}

/// The keys of one shape for some ids hold a channel entry only for the
/// shape of entries of the channel kind, and never the set of all channel
/// ids.
proof fn lemma_id_keys_channels(shape: IdKey, guild: u64, ids: Seq<u64>, id: u64)
    ensures
        id_keys(shape, guild, ids).contains(RedisKey::Channel { id }) <==> (shape == IdKey::Entry(EntryKind::Channel)
            && ids.contains(id)),
        !id_keys(shape, guild, ids).contains(RedisKey::Channels),
{
    let keys = id_keys(shape, guild, ids);
    if keys.contains(RedisKey::Channel { id }) {
        let m = choose|m: int| 0 <= m < keys.len() && keys[m] == RedisKey::Channel { id };
        assert(keys[m] == crate::cache::guild_delete::id_key(shape, guild, ids[m]));
    }
    if shape == IdKey::Entry(EntryKind::Channel) && ids.contains(id) {
        let m = choose|m: int| 0 <= m < ids.len() && ids[m] == id;
        assert(keys[m] == crate::cache::guild_delete::id_key(shape, guild, ids[m]));
    }
    if keys.contains(RedisKey::Channels) {
        let m = choose|m: int| 0 <= m < keys.len() && keys[m] == RedisKey::Channels;
        assert(keys[m] == crate::cache::guild_delete::id_key(shape, guild, ids[m]));
    }
}

/// The keys deleted for one set of a guild hold a channel entry exactly for
/// the ids of the channel set, and never the set of all channel ids.
proof fn lemma_list_keys_channels(s: CacheSettings, guild: u64, k: GuildList, ids: Seq<u64>, counts: Seq<usize>, id: u64)
    ensures
        list_keys(s, guild, k, ids, counts).contains(RedisKey::Channel { id }) <==> (k == GuildList::Channels
            && ids.contains(id)),
        !list_keys(s, guild, k, ids, counts).contains(RedisKey::Channels),
{
    let est = crate::cache::guild_delete::estranged(ids, counts);
    let e = list_entry_kind(k);
    lemma_id_keys_channels(IdKey::User, guild, est, id);
    lemma_id_keys_channels(IdKey::Member, guild, ids, id);
    lemma_id_keys_channels(IdKey::Meta(e), guild, ids, id);
    lemma_id_keys_channels(IdKey::Entry(e), guild, ids, id);
    lemma_id_keys_channels(list_pair_shape(k), guild, ids, id);
    let keys = list_keys(s, guild, k, ids, counts);
    let targets = seq![RedisKey::Channel { id }, RedisKey::Channels];
    assert forall|x: RedisKey| #[trigger] targets.contains(x) implies (keys.contains(x) <==> (x == RedisKey::Channel { id } && k == GuildList::Channels && ids.contains(id))) by {
        broadcast use vstd::seq_lib::group_seq_properties;
    }
    assert(targets.contains(RedisKey::Channel { id })) by {
        assert(targets[0] == RedisKey::Channel { id });
    }
    assert(targets.contains(RedisKey::Channels)) by {
        assert(targets[1] == RedisKey::Channels);
    }
}

/// The keys deleted for the sets of a guild hold a channel entry exactly
/// for the removed channel ids, and never the set of all channel ids.
proof fn lemma_finish_keys_channels(s: CacheSettings, guild: u64, kinds: Seq<GuildList>, lists: Seq<Seq<u64>>, counts: Seq<usize>, id: u64)
    ensures
        finish_keys(s, guild, kinds, lists, counts).contains(RedisKey::Channel { id }) <==> removed_channels(
            kinds,
            lists,
        ).contains(id),
        !finish_keys(s, guild, kinds, lists, counts).contains(RedisKey::Channels),
    decreases kinds.len(),
{
    broadcast use vstd::seq_lib::group_seq_properties;
    if kinds.len() > 0 {
        lemma_finish_keys_channels(s, guild, kinds.drop_last(), lists, counts, id);
        lemma_list_keys_channels(s, guild, kinds.last(), lists[kinds.len() - 1], counts, id);
    }
}

/// Deleting keys: a key holds no value afterwards if it is among them, and
/// is left as it was otherwise; the sets not among them are left as they
/// were.
proof fn lemma_del_keys(keys: Seq<RedisKey>, k: RedisKey, stored: bool, ids: Set<Seq<u8>>)
    ensures
        exists_effect(cmd_del(key_texts(keys)), key_bytes(k), stored) == (stored && !keys.contains(k)),
        !keys.contains(k) ==> crate::guild_laws::set_effect(cmd_del(key_texts(keys)), key_bytes(k), ids) == ids,
{
    lemma_names_distinct();
    let c = cmd_del(key_texts(keys));
    lemma_key_of_text(k);
    if keys.contains(k) {
        let m = choose|m: int| 0 <= m < keys.len() && keys[m] == k;
        assert(c[m + 1] == key_bytes(keys[m]));
        assert(key_position(c, m + 1));
    }
    if names_key(c, key_bytes(k)) {
        let j = choose|j: int| #![trigger c[j]] key_position(c, j) && c[j] == key_bytes(k);
        assert(c[j] == key_bytes(keys[j - 1]));
        lemma_key_of_text(keys[j - 1]);
        assert(keys[j - 1] == k);
    }
}

/// The removals from the sets of all ids for the sets of a guild: the
/// removed channel ids leave the set of all channel ids, and no channel
/// entry is named.
proof fn lemma_finish_srems_channels(s: CacheSettings, kinds: Seq<GuildList>, lists: Seq<Seq<u64>>, counts: Seq<usize>, id: u64, stored: bool, ids: Set<Seq<u8>>)
    ensures
        exists_after(finish_srems(s, kinds, lists, counts), key_bytes(RedisKey::Channel { id }), stored) == stored,
        set_after(finish_srems(s, kinds, lists, counts), key_bytes(RedisKey::Channels), ids).contains(dec(id as nat))
            == (ids.contains(dec(id as nat)) && !removed_channels(kinds, lists).contains(id)),
    decreases kinds.len(),
{
    broadcast use vstd::seq_lib::group_seq_properties;
    if kinds.len() > 0 {
        let k = kinds.last();
        let ls = lists[kinds.len() - 1];
        let rest = finish_srems(s, kinds.drop_last(), lists, counts);
        let last = list_srems(s, k, ls, counts);
        let te = key_bytes(RedisKey::Channel { id });
        let ts = key_bytes(RedisKey::Channels);
        lemma_finish_srems_channels(s, kinds.drop_last(), lists, counts, id, stored, ids);
        lemma_exists_concat(rest, last, te, stored);
        lemma_after_concat(rest, last, ts, ids);
        let i1 = set_after(rest, ts, ids);
        if k == GuildList::Members {
            if s.user.wanted {
                let c = cmd_srem(key_bytes(RedisKey::Users), crate::cache::guild_delete::estranged(ls, counts));
                lemma_names_distinct();
                lemma_exists_one(c, te, stored);
                lemma_after_one(c, ts, i1);
                lemma_other_key(c, RedisKey::Users, RedisKey::Channel { id }, stored, i1);
                lemma_other_key(c, RedisKey::Users, RedisKey::Channels, stored, i1);
            }
        } else if is_keyed_list(k) {
            let key = crate::cache::common::all_ids_key(list_entry_kind(k));
            let c = cmd_srem(key_bytes(key), ls);
            lemma_names_distinct();
            lemma_exists_one(c, te, stored);
            lemma_after_one(c, ts, i1);
            lemma_other_key(c, key, RedisKey::Channel { id }, stored, i1);
            if k == GuildList::Channels {
                lemma_effect_set_ops(RedisKey::Channels, RedisKey::Channel { id }, ls, i1);
                lemma_id_texts(ls, id);
            } else {
                lemma_other_key(c, key, RedisKey::Channels, stored, i1);
            }
        }
    }
}

/// The last step of removing a guild keeps the channels listed.
proof fn lemma_guild_finish_keeps(s: CacheSettings, guild: u64, lists: Seq<Seq<u64>>, counts: Seq<usize>)
    ensures
        keeps_channels_listed(delete_guild_finish_cmds(s, guild, lists, counts)),
{
    let keys = delete_guild_keys(s, guild, lists, counts);
    let kinds = guild_lists(s);
    let fs = finish_srems(s, kinds, lists, counts);
    let sg = if s.guild.wanted {
        seq![cmd_srem(key_bytes(RedisKey::Guilds), seq![guild])]
    } else {
        Seq::empty()
    };
    let dl = if keys.len() > 0 {
        seq![cmd_del(key_texts(keys))]
    } else {
        Seq::empty()
    };
    let cmds = delete_guild_finish_cmds(s, guild, lists, counts);
    assert(cmds == fs + sg + dl);
    assert forall|id: u64, stored: bool, ids: Set<Seq<u8>>|
        stored == ids.contains(dec(id as nat)) implies #[trigger] exists_after(
            cmds,
            key_bytes(RedisKey::Channel { id }),
            stored,
        ) == #[trigger] set_after(cmds, key_bytes(RedisKey::Channels), ids).contains(dec(id as nat)) by {
        broadcast use vstd::seq_lib::group_seq_properties;
        let te = key_bytes(RedisKey::Channel { id });
        let ts = key_bytes(RedisKey::Channels);
        let removed = removed_channels(kinds, lists).contains(id);
        lemma_finish_srems_channels(s, kinds, lists, counts, id, stored, ids);
        lemma_exists_concat(fs, sg, te, stored);
        lemma_exists_concat(fs + sg, dl, te, stored);
        lemma_after_concat(fs, sg, ts, ids);
        lemma_after_concat(fs + sg, dl, ts, ids);
        let i1 = set_after(fs, ts, ids);
        if s.guild.wanted {
            let c = cmd_srem(key_bytes(RedisKey::Guilds), seq![guild]);
            lemma_names_distinct();
            lemma_exists_one(c, te, stored);
            lemma_after_one(c, ts, i1);
            lemma_other_key(c, RedisKey::Guilds, RedisKey::Channel { id }, stored, i1);
            lemma_other_key(c, RedisKey::Guilds, RedisKey::Channels, stored, i1);
        }
        assert(exists_after(fs + sg, te, stored) == stored);
        assert(set_after(fs + sg, ts, ids) == i1);
        lemma_finish_keys_channels(s, guild, kinds, lists, counts, id);
        let fk = finish_keys(s, guild, kinds, lists, counts);
        let tailk = if s.guild.wanted {
            seq![RedisKey::Guild { id: guild }]
        } else {
            Seq::empty()
        };
        assert(keys == fk + tailk);
        assert(!tailk.contains(RedisKey::Channel { id })) by {
            if tailk.contains(RedisKey::Channel { id }) {
                assert(tailk[0] == RedisKey::Guild { id: guild });
            }
        }
        assert(!tailk.contains(RedisKey::Channels)) by {
            if tailk.contains(RedisKey::Channels) {
                assert(tailk[0] == RedisKey::Guild { id: guild });
            }
        }
        assert(keys.contains(RedisKey::Channel { id }) == removed);
        assert(!keys.contains(RedisKey::Channels));
        if keys.len() > 0 {
            let c = cmd_del(key_texts(keys));
            lemma_exists_one(c, te, stored);
            lemma_after_one(c, ts, i1);
            lemma_del_keys(keys, RedisKey::Channel { id }, stored, i1);
            lemma_del_keys(keys, RedisKey::Channels, stored, i1);
        }
    }
}

/// Removing a guild keeps the channel entries stored exactly when their ids
/// are in the set of all channel ids: the last step takes the guild's
/// channels out of both together, and no other step names either.
pub proof fn law_guild_removal_keeps_channels_listed(
    s: CacheSettings,
    guild: u64,
    users: Seq<u64>,
    lists: Seq<Seq<u64>>,
    counts: Seq<usize>,
    unavailable: bool,
)
    ensures
        keeps_channels_listed(guild_removal_cmds(s, guild, users, lists, counts, unavailable)),
{
    let ck = channel_keys();
    assert(keys_fit(s, ck));
    let start = delete_guild_start_cmds(s, guild);
    lemma_guild_start_avoids(ck, s, guild);
    lemma_keeps_avoiding(start);
    let mid = if guild_lists(s).len() > 0 {
        user_guild_cmds(guild, users) + delete_guild_finish_cmds(s, guild, lists, counts)
    } else {
        Seq::empty()
    };
    if guild_lists(s).len() > 0 {
        lemma_user_guild_spared(ck, s, guild, users);
        lemma_keeps_avoiding(user_guild_cmds(guild, users));
        lemma_guild_finish_keeps(s, guild, lists, counts);
        lemma_keeps_concat(user_guild_cmds(guild, users), delete_guild_finish_cmds(s, guild, lists, counts));
    } else {
        lemma_keeps_avoiding(mid);
    }
    let tail = if unavailable && s.guild.wanted {
        seq![cmd_sadd(key_bytes(RedisKey::UnavailableGuilds), seq![guild])]
    } else {
        Seq::empty()
    };
    crate::key_laws::lemma_set_ops_avoid(ck, RedisKey::UnavailableGuilds, seq![guild], 0, 0, 0);
    crate::key_laws::lemma_one_avoids(ck, cmd_sadd(key_bytes(RedisKey::UnavailableGuilds), seq![guild]));
    lemma_keeps_avoiding(tail);
    lemma_keeps_concat(start, mid);
    lemma_keeps_concat(start + mid, tail);
}

/// The channel ids whose entries the last step of removing several guilds
/// deletes: those of the channel set among `kinds`, block `j` of `lists`
/// holding the lists of `kinds[j]` for the `n` guilds.
pub open spec fn removed_channels_of_all(kinds: Seq<GuildList>, lists: Seq<Seq<u64>>, n: int) -> Seq<u64>
    decreases kinds.len(),
{
    if kinds.len() == 0 {
        Seq::empty()
    } else {
        removed_channels_of_all(kinds.drop_last(), lists, n) + (if kinds.last() == GuildList::Channels {
            flat(block_of(lists, kinds.len() - 1, n))
        } else {
            Seq::empty()
        })
    }
}

/// The keys of one shape for the ids of each guild, for shapes other than
/// those of entries stored under their own id, hold no channel entry and not
/// the set of all channel ids.
proof fn lemma_pair_keys_channels(shape: IdKey, guilds: Seq<u64>, block: Seq<Seq<u64>>, id: u64)
    requires
        !(shape is Entry),
    ensures
        !pair_keys(shape, guilds, block).contains(RedisKey::Channel { id }),
        !pair_keys(shape, guilds, block).contains(RedisKey::Channels),
    decreases guilds.len(),
{
    broadcast use vstd::seq_lib::group_seq_properties;
    if guilds.len() > 0 {
        lemma_pair_keys_channels(shape, guilds.drop_last(), block, id);
        lemma_id_keys_channels(shape, guilds.last(), block[guilds.len() - 1], id);
    }
}

/// The keys of one set of each guild, and the keys of the guilds, hold no
/// channel entry and not the set of all channel ids.
proof fn lemma_guild_keys_channels(k: GuildList, guilds: Seq<u64>, id: u64)
    ensures
        !guild_keys(k, guilds).contains(RedisKey::Channel { id }),
        !guild_keys(k, guilds).contains(RedisKey::Channels),
        !guilds.map_values(|g: u64| RedisKey::Guild { id: g }).contains(RedisKey::Channel { id }),
        !guilds.map_values(|g: u64| RedisKey::Guild { id: g }).contains(RedisKey::Channels),
{
    let keys = guild_keys(k, guilds);
    let gk = guilds.map_values(|g: u64| RedisKey::Guild { id: g });
    if keys.contains(RedisKey::Channel { id }) {
        let m = choose|m: int| 0 <= m < keys.len() && keys[m] == RedisKey::Channel { id };
        assert(keys[m] == guild_list_key(k, guilds[m]));
    }
    if keys.contains(RedisKey::Channels) {
        let m = choose|m: int| 0 <= m < keys.len() && keys[m] == RedisKey::Channels;
        assert(keys[m] == guild_list_key(k, guilds[m]));
    }
    if gk.contains(RedisKey::Channel { id }) {
        let m = choose|m: int| 0 <= m < gk.len() && gk[m] == RedisKey::Channel { id };
        assert(gk[m] == RedisKey::Guild { id: guilds[m] });
    }
    if gk.contains(RedisKey::Channels) {
        let m = choose|m: int| 0 <= m < gk.len() && gk[m] == RedisKey::Channels;
        assert(gk[m] == RedisKey::Guild { id: guilds[m] });
    }
}

/// The keys deleted for one set of several guilds hold a channel entry
/// exactly for the ids of the channel set, and never the set of all channel
/// ids.
proof fn lemma_multi_list_keys_channels(s: CacheSettings, guilds: Seq<u64>, k: GuildList, block: Seq<Seq<u64>>, counts: Seq<usize>, id: u64)
    ensures
        multi_list_keys(s, guilds, k, block, counts).contains(RedisKey::Channel { id }) <==> (k
            == GuildList::Channels && flat(block).contains(id)),
        !multi_list_keys(s, guilds, k, block, counts).contains(RedisKey::Channels),
{
    broadcast use vstd::seq_lib::group_seq_properties;
    let fl = flat(block);
    let e = list_entry_kind(k);
    lemma_id_keys_channels(IdKey::User, 0, crate::cache::guild_delete::estranged(fl, counts), id);
    lemma_id_keys_channels(IdKey::Meta(e), 0, fl, id);
    lemma_id_keys_channels(IdKey::Entry(e), 0, fl, id);
    lemma_guild_keys_channels(k, guilds, id);
    lemma_pair_keys_channels(IdKey::Member, guilds, block, id);
    lemma_pair_keys_channels(list_pair_shape(k), guilds, block, id);
}

/// The keys deleted for the sets of several guilds hold a channel entry
/// exactly for the removed channel ids, and never the set of all channel ids.
proof fn lemma_multi_keys_channels(s: CacheSettings, guilds: Seq<u64>, kinds: Seq<GuildList>, lists: Seq<Seq<u64>>, counts: Seq<usize>, id: u64)
    ensures
        multi_keys(s, guilds, kinds, lists, counts).contains(RedisKey::Channel { id }) <==> removed_channels_of_all(
            kinds,
            lists,
            guilds.len() as int,
        ).contains(id),
        !multi_keys(s, guilds, kinds, lists, counts).contains(RedisKey::Channels),
    decreases kinds.len(),
{
    broadcast use vstd::seq_lib::group_seq_properties;
    if kinds.len() > 0 {
        lemma_multi_keys_channels(s, guilds, kinds.drop_last(), lists, counts, id);
        lemma_multi_list_keys_channels(
            s,
            guilds,
            kinds.last(),
            block_of(lists, kinds.len() - 1, guilds.len() as int),
            counts,
            id,
        );
    }
}

/// The removals from the sets of all ids for the sets of several guilds:
/// the removed channel ids leave the set of all channel ids, and no channel
/// entry is named.
proof fn lemma_multi_srems_channels(s: CacheSettings, n: int, kinds: Seq<GuildList>, lists: Seq<Seq<u64>>, id: u64, stored: bool, ids: Set<Seq<u8>>)
    ensures
        exists_after(multi_srems(s, n, kinds, lists), key_bytes(RedisKey::Channel { id }), stored) == stored,
        set_after(multi_srems(s, n, kinds, lists), key_bytes(RedisKey::Channels), ids).contains(dec(id as nat))
            == (ids.contains(dec(id as nat)) && !removed_channels_of_all(kinds, lists, n).contains(id)),
    decreases kinds.len(),
{
    broadcast use vstd::seq_lib::group_seq_properties;
    if kinds.len() > 0 {
        let k = kinds.last();
        let fl = flat(block_of(lists, kinds.len() - 1, n));
        let rest = multi_srems(s, n, kinds.drop_last(), lists);
        let last = multi_list_srems(s, k, block_of(lists, kinds.len() - 1, n));
        let te = key_bytes(RedisKey::Channel { id });
        let ts = key_bytes(RedisKey::Channels);
        lemma_multi_srems_channels(s, n, kinds.drop_last(), lists, id, stored, ids);
        lemma_exists_concat(rest, last, te, stored);
        lemma_after_concat(rest, last, ts, ids);
        let i1 = set_after(rest, ts, ids);
        if k == GuildList::Members {
            if s.user.wanted {
                let c = cmd_srem(key_bytes(RedisKey::Users), fl);
                lemma_names_distinct();
                lemma_exists_one(c, te, stored);
                lemma_after_one(c, ts, i1);
                lemma_other_key(c, RedisKey::Users, RedisKey::Channel { id }, stored, i1);
                lemma_other_key(c, RedisKey::Users, RedisKey::Channels, stored, i1);
            }
        } else if is_keyed_list(k) {
            let key = crate::cache::common::all_ids_key(list_entry_kind(k));
            let c = cmd_srem(key_bytes(key), fl);
            lemma_names_distinct();
            lemma_exists_one(c, te, stored);
            lemma_after_one(c, ts, i1);
            lemma_other_key(c, key, RedisKey::Channel { id }, stored, i1);
            if k == GuildList::Channels {
                lemma_effect_set_ops(RedisKey::Channels, RedisKey::Channel { id }, fl, i1);
                lemma_id_texts(fl, id);
            } else {
                lemma_other_key(c, key, RedisKey::Channels, stored, i1);
            }
        }
    }
}

/// The last step of removing several guilds keeps the channels listed.
proof fn lemma_guilds_finish_keeps(s: CacheSettings, guilds: Seq<u64>, lists: Seq<Seq<u64>>, counts: Seq<usize>)
    ensures
        keeps_channels_listed(delete_guilds_finish_cmds(s, guilds, lists, counts)),
{
    let keys = delete_guilds_keys(s, guilds, lists, counts);
    let kinds = guild_lists(s);
    let n = guilds.len() as int;
    let fs = multi_srems(s, n, kinds, lists);
    let sg = if s.guild.wanted {
        seq![cmd_srem(key_bytes(RedisKey::Guilds), guilds)]
    } else {
        Seq::empty()
    };
    let dl = if keys.len() > 0 {
        seq![cmd_del(key_texts(keys))]
    } else {
        Seq::empty()
    };
    let cmds = delete_guilds_finish_cmds(s, guilds, lists, counts);
    assert(cmds == fs + sg + dl);
    assert forall|id: u64, stored: bool, ids: Set<Seq<u8>>|
        stored == ids.contains(dec(id as nat)) implies #[trigger] exists_after(
            cmds,
            key_bytes(RedisKey::Channel { id }),
            stored,
        ) == #[trigger] set_after(cmds, key_bytes(RedisKey::Channels), ids).contains(dec(id as nat)) by {
        broadcast use vstd::seq_lib::group_seq_properties;
        let te = key_bytes(RedisKey::Channel { id });
        let ts = key_bytes(RedisKey::Channels);
        let removed = removed_channels_of_all(kinds, lists, n).contains(id);
        lemma_multi_srems_channels(s, n, kinds, lists, id, stored, ids);
        lemma_exists_concat(fs, sg, te, stored);
        lemma_exists_concat(fs + sg, dl, te, stored);
        lemma_after_concat(fs, sg, ts, ids);
        lemma_after_concat(fs + sg, dl, ts, ids);
        let i1 = set_after(fs, ts, ids);
        if s.guild.wanted {
            let c = cmd_srem(key_bytes(RedisKey::Guilds), guilds);
            lemma_names_distinct();
            lemma_exists_one(c, te, stored);
            lemma_after_one(c, ts, i1);
            lemma_other_key(c, RedisKey::Guilds, RedisKey::Channel { id }, stored, i1);
            lemma_other_key(c, RedisKey::Guilds, RedisKey::Channels, stored, i1);
        }
        assert(exists_after(fs + sg, te, stored) == stored);
        assert(set_after(fs + sg, ts, ids) == i1);
        lemma_multi_keys_channels(s, guilds, kinds, lists, counts, id);
        lemma_guild_keys_channels(GuildList::Members, guilds, id);
        let mk = multi_keys(s, guilds, kinds, lists, counts);
        let tailk = if s.guild.wanted {
            guilds.map_values(|g: u64| RedisKey::Guild { id: g })
        } else {
            Seq::empty()
        };
        assert(keys == mk + tailk);
        assert(keys.contains(RedisKey::Channel { id }) == removed);
        assert(!keys.contains(RedisKey::Channels));
        if keys.len() > 0 {
            let c = cmd_del(key_texts(keys));
            lemma_exists_one(c, te, stored);
            lemma_after_one(c, ts, i1);
            lemma_del_keys(keys, RedisKey::Channel { id }, stored, i1);
            lemma_del_keys(keys, RedisKey::Channels, stored, i1);
        }
    }
}

/// Removing the guilds of a ready event keeps the channel entries stored
/// exactly when their ids are in the set of all channel ids: the last step
/// takes the guilds' channels out of both together, and no other step
/// names either.
pub proof fn law_ready_removal_keeps_channels_listed(
    s: CacheSettings,
    guilds: Seq<u64>,
    users: Seq<Seq<u64>>,
    lists: Seq<Seq<u64>>,
    counts: Seq<usize>,
    current_user: Seq<u8>,
)
    ensures
        keeps_channels_listed(ready_removal_cmds(s, guilds, users, lists, counts, current_user)),
{
    let ck = channel_keys();
    assert(keys_fit(s, ck));
    let start = delete_guilds_start_cmds(s, guilds);
    lemma_guilds_start_avoids(ck, s, guilds);
    lemma_keeps_avoiding(start);
    let mid = if guild_lists(s).len() > 0 && guilds.len() > 0 {
        users_each_cmds(guilds, users) + delete_guilds_finish_cmds(s, guilds, lists, counts)
    } else {
        Seq::empty()
    };
    if guild_lists(s).len() > 0 && guilds.len() > 0 {
        lemma_users_each_spared(ck, s, guilds, users);
        lemma_keeps_avoiding(users_each_cmds(guilds, users));
        lemma_guilds_finish_keeps(s, guilds, lists, counts);
        lemma_keeps_concat(users_each_cmds(guilds, users), delete_guilds_finish_cmds(s, guilds, lists, counts));
    } else {
        lemma_keeps_avoiding(mid);
    }
    let mark = if s.guild.wanted {
        seq![cmd_sadd(key_bytes(RedisKey::UnavailableGuilds), guilds)]
    } else {
        Seq::empty()
    };
    crate::key_laws::lemma_set_ops_avoid(ck, RedisKey::UnavailableGuilds, guilds, 0, 0, 0);
    crate::key_laws::lemma_one_avoids(ck, cmd_sadd(key_bytes(RedisKey::UnavailableGuilds), guilds));
    lemma_keeps_avoiding(mark);
    crate::key_laws::lemma_current_user_avoids(ck, s, current_user);
    lemma_keeps_avoiding(store_current_user_cmds(s, current_user));
    lemma_keeps_concat(start, mid);
    lemma_keeps_concat(start + mid, mark);
    lemma_keeps_concat(start + mid + mark, store_current_user_cmds(s, current_user));
}

/// Removing a member names neither a channel entry nor the set of all
/// channel ids, so it keeps the channels listed.
pub proof fn law_member_removal_keeps_channels_listed(s: CacheSettings, guild: u64, user: u64, common_guilds: usize)
    ensures
        keeps_channels_listed(
            delete_member_start_cmds(s, guild, user) + delete_member_finish_cmds(s, guild, user, common_guilds),
        ),
{
    let ck = channel_keys();
    assert(keys_fit(s, ck));
    lemma_member_removal_avoids(ck, s, guild, user, common_guilds);
    lemma_keeps_avoiding(delete_member_start_cmds(s, guild, user) + delete_member_finish_cmds(s, guild, user, common_guilds));
}

} // verus!
