//! What operations are for, stated against their inputs: the gauges count
//! the kinds they are named after, an event asks to refresh only the entries
//! it changed, and removing entries deletes the keys that storing them wrote.
use vstd::prelude::*;

use crate::config::CacheSettings;
use crate::key::RedisKey;
use crate::metrics::{metric_sets, Metric};
use crate::update::{update_refresh, CacheEvent, Refresh, UpdateHooks};
use crate::cache::message::{delete_message_cmds, delete_messages_cmds, message_delete_keys};
use crate::key::key_bytes;
use crate::key_laws::lemma_names_distinct;
use crate::pipe::{cmd_del, cmd_srem, cmd_zrem, key_texts, name_del};
use crate::segments::lemma_key_of_text;
use crate::cache::common::{entry_key, EntryKind};
use crate::cache::guild::{guild_list_key, guild_lists, GuildList};
use crate::cache::guild_delete::{
    delete_guild_finish_cmds, delete_guild_keys, finish_keys, finish_srems, id_key, id_keys, is_keyed_list,
    list_entry_kind, list_keys, list_pair_shape, IdKey,
};
use crate::expire::{
    entry_meta_keys, expire_lists, guild_expire_finish_cmds, guild_expire_keys, guild_expire_start_cmds,
    list_or_empty, read_and_drop_cmds,
};
use crate::pipe::{cmd_smembers, name_srem};
use crate::cache::voice_state::store_voice_state_cmds;
use crate::cache::presence::store_presence_cmds;
use crate::cache::integration::store_integration_cmds;
use crate::cache::member::store_member_cmds;
use crate::cache::channel::store_channel_entry_cmds;
use crate::cache::common::store_keyed_one_cmds;
use crate::entries::{ChannelEntry, IntegrationEntry, MemberEntry, PresenceEntry, VoiceStateEntry};
use crate::cache::guilds_delete::{
    answer_fits, block_of, delete_guilds_finish_cmds, delete_guilds_keys, flat, multi_keys, multi_list_keys, pair_keys,
};

verus! {

/// The set whose size a gauge reports: the set of all ids of the kind it is
/// named after.
pub open spec fn counted_set(m: Metric) -> RedisKey {
    match m {
        Metric::ChannelCount => RedisKey::Channels,
        Metric::EmojiCount => RedisKey::Emojis,
        Metric::GuildCount => RedisKey::Guilds,
        Metric::UnavailableGuildCount => RedisKey::UnavailableGuilds,
        Metric::MessageCount => RedisKey::Messages,
        Metric::RoleCount => RedisKey::Roles,
        Metric::ScheduledEventCount => RedisKey::ScheduledEvents,
        Metric::StageInstanceCount => RedisKey::StageInstances,
        Metric::StickerCount => RedisKey::Stickers,
        Metric::UserCount => RedisKey::Users,
    }
}

/// Whether the kind a gauge counts is cached.
pub open spec fn counted_kind_cached(s: CacheSettings, m: Metric) -> bool {
    match m {
        Metric::ChannelCount => s.channel.wanted,
        Metric::EmojiCount => s.emoji.wanted,
        Metric::GuildCount => s.guild.wanted,
        Metric::UnavailableGuildCount => s.guild.wanted,
        Metric::MessageCount => s.message.wanted,
        Metric::RoleCount => s.role.wanted,
        Metric::ScheduledEventCount => s.scheduled_event.wanted,
        Metric::StageInstanceCount => s.stage_instance.wanted,
        Metric::StickerCount => s.sticker.wanted,
        Metric::UserCount => s.user.wanted,
    }
}

/// Every pair of `pairs` is a gauge of a cached kind with the set it counts.
pub open spec fn gauges_fit(s: CacheSettings, pairs: Seq<(Metric, RedisKey)>) -> bool {
    forall|i: int|
        0 <= i < pairs.len() ==> #[trigger] pairs[i].1 == counted_set(pairs[i].0) && counted_kind_cached(
            s,
            pairs[i].0,
        )
}

proof fn lemma_gauges_concat(s: CacheSettings, a: Seq<(Metric, RedisKey)>, b: Seq<(Metric, RedisKey)>)
    requires
        gauges_fit(s, a),
        gauges_fit(s, b),
    ensures
        gauges_fit(s, a + b),
{
    assert forall|i: int| 0 <= i < (a + b).len() implies #[trigger] (a + b)[i].1 == counted_set((a + b)[i].0)
        && counted_kind_cached(s, (a + b)[i].0) by {
        if i < a.len() {
            assert((a + b)[i] == a[i]);
        } else {
            assert((a + b)[i] == b[i - a.len()]);
        }
    }
}

proof fn lemma_in_concat<A>(a: Seq<A>, b: Seq<A>, x: A)
    ensures
        a.contains(x) || b.contains(x) ==> (a + b).contains(x),
{
    if a.contains(x) {
        let i = choose|i: int| 0 <= i < a.len() && a[i] == x;
        assert((a + b)[i] == x);
    } else if b.contains(x) {
        let i = choose|i: int| 0 <= i < b.len() && b[i] == x;
        assert((a + b)[i + a.len()] == x);
    }
}

proof fn lemma_in_nine<A>(
    p0: Seq<A>,
    p1: Seq<A>,
    p2: Seq<A>,
    p3: Seq<A>,
    p4: Seq<A>,
    p5: Seq<A>,
    p6: Seq<A>,
    p7: Seq<A>,
    p8: Seq<A>,
    x: A,
)
    requires
        p0.contains(x) || p1.contains(x) || p2.contains(x) || p3.contains(x) || p4.contains(x) || p5.contains(x)
            || p6.contains(x) || p7.contains(x) || p8.contains(x),
    ensures
        (p0 + p1 + p2 + p3 + p4 + p5 + p6 + p7 + p8).contains(x),
{
    lemma_in_concat(p0, p1, x);
    lemma_in_concat(p0 + p1, p2, x);
    lemma_in_concat(p0 + p1 + p2, p3, x);
    lemma_in_concat(p0 + p1 + p2 + p3, p4, x);
    lemma_in_concat(p0 + p1 + p2 + p3 + p4, p5, x);
    lemma_in_concat(p0 + p1 + p2 + p3 + p4 + p5, p6, x);
    lemma_in_concat(p0 + p1 + p2 + p3 + p4 + p5 + p6, p7, x);
    lemma_in_concat(p0 + p1 + p2 + p3 + p4 + p5 + p6 + p7, p8, x);
}

proof fn lemma_metric_sets_fit(s: CacheSettings)
    ensures
        gauges_fit(s, metric_sets(s)),
{
    let p0 = crate::metrics::when(s.channel.wanted, seq![(Metric::ChannelCount, RedisKey::Channels)]);
    let p1 = crate::metrics::when(s.emoji.wanted, seq![(Metric::EmojiCount, RedisKey::Emojis)]);
    let p2 = crate::metrics::when(
        s.guild.wanted,
        seq![(Metric::GuildCount, RedisKey::Guilds), (Metric::UnavailableGuildCount, RedisKey::UnavailableGuilds)],
    );
    let p3 = crate::metrics::when(s.message.wanted, seq![(Metric::MessageCount, RedisKey::Messages)]);
    let p4 = crate::metrics::when(s.role.wanted, seq![(Metric::RoleCount, RedisKey::Roles)]);
    let p5 = crate::metrics::when(
        s.scheduled_event.wanted,
        seq![(Metric::ScheduledEventCount, RedisKey::ScheduledEvents)],
    );
    let p6 = crate::metrics::when(s.stage_instance.wanted, seq![(Metric::StageInstanceCount, RedisKey::StageInstances)]);
    let p7 = crate::metrics::when(s.sticker.wanted, seq![(Metric::StickerCount, RedisKey::Stickers)]);
    let p8 = crate::metrics::when(s.user.wanted, seq![(Metric::UserCount, RedisKey::Users)]);
    let g2 = seq![(Metric::GuildCount, RedisKey::Guilds), (Metric::UnavailableGuildCount, RedisKey::UnavailableGuilds)];
    assert(gauges_fit(s, p0));
    assert(gauges_fit(s, p1));
    assert(gauges_fit(s, p2)) by {
        if s.guild.wanted {
            assert forall|i: int| 0 <= i < g2.len() implies #[trigger] g2[i].1 == counted_set(g2[i].0)
                && counted_kind_cached(s, g2[i].0) by {
                if i == 0 {
                    assert(g2[i] == (Metric::GuildCount, RedisKey::Guilds));
                } else {
                    assert(g2[i] == (Metric::UnavailableGuildCount, RedisKey::UnavailableGuilds));
                }
            }
        }
    }
    assert(gauges_fit(s, p3));
    assert(gauges_fit(s, p4));
    assert(gauges_fit(s, p5));
    assert(gauges_fit(s, p6));
    assert(gauges_fit(s, p7));
    assert(gauges_fit(s, p8));
    lemma_gauges_concat(s, p0, p1);
    lemma_gauges_concat(s, p0 + p1, p2);
    lemma_gauges_concat(s, p0 + p1 + p2, p3);
    lemma_gauges_concat(s, p0 + p1 + p2 + p3, p4);
    lemma_gauges_concat(s, p0 + p1 + p2 + p3 + p4, p5);
    lemma_gauges_concat(s, p0 + p1 + p2 + p3 + p4 + p5, p6);
    lemma_gauges_concat(s, p0 + p1 + p2 + p3 + p4 + p5 + p6, p7);
    lemma_gauges_concat(s, p0 + p1 + p2 + p3 + p4 + p5 + p6 + p7, p8);
    assert(metric_sets(s) == p0 + p1 + p2 + p3 + p4 + p5 + p6 + p7 + p8);
}

#[verifier::rlimit(40)]
proof fn lemma_metric_sets_cover(s: CacheSettings)
    ensures
        forall|m: Metric| counted_kind_cached(s, m) ==> #[trigger] metric_sets(s).contains((m, counted_set(m))),
{
    let p0 = crate::metrics::when(s.channel.wanted, seq![(Metric::ChannelCount, RedisKey::Channels)]);
    let p1 = crate::metrics::when(s.emoji.wanted, seq![(Metric::EmojiCount, RedisKey::Emojis)]);
    let p2 = crate::metrics::when(
        s.guild.wanted,
        seq![(Metric::GuildCount, RedisKey::Guilds), (Metric::UnavailableGuildCount, RedisKey::UnavailableGuilds)],
    );
    let p3 = crate::metrics::when(s.message.wanted, seq![(Metric::MessageCount, RedisKey::Messages)]);
    let p4 = crate::metrics::when(s.role.wanted, seq![(Metric::RoleCount, RedisKey::Roles)]);
    let p5 = crate::metrics::when(
        s.scheduled_event.wanted,
        seq![(Metric::ScheduledEventCount, RedisKey::ScheduledEvents)],
    );
    let p6 = crate::metrics::when(s.stage_instance.wanted, seq![(Metric::StageInstanceCount, RedisKey::StageInstances)]);
    let p7 = crate::metrics::when(s.sticker.wanted, seq![(Metric::StickerCount, RedisKey::Stickers)]);
    let p8 = crate::metrics::when(s.user.wanted, seq![(Metric::UserCount, RedisKey::Users)]);
    let all = metric_sets(s);
    assert(all == p0 + p1 + p2 + p3 + p4 + p5 + p6 + p7 + p8);
    assert forall|m: Metric| counted_kind_cached(s, m) implies #[trigger] all.contains((m, counted_set(m))) by {
        let x = (m, counted_set(m));
        match m {
            Metric::ChannelCount => assert(p0[0] == x),
            Metric::EmojiCount => assert(p1[0] == x),
            Metric::GuildCount => assert(p2[0] == x),
            Metric::UnavailableGuildCount => assert(p2[1] == x),
            Metric::MessageCount => assert(p3[0] == x),
            Metric::RoleCount => assert(p4[0] == x),
            Metric::ScheduledEventCount => assert(p5[0] == x),
            Metric::StageInstanceCount => assert(p6[0] == x),
            Metric::StickerCount => assert(p7[0] == x),
            Metric::UserCount => assert(p8[0] == x),
        }
        lemma_in_nine(p0, p1, p2, p3, p4, p5, p6, p7, p8, x);
    }
}


/// Each reported gauge counts its own kind: every gauge is paired with the
/// set of all ids of the kind it is named after, is reported only where
/// that kind is cached, and every cached kind's gauge is reported.
pub proof fn law_gauges_count_their_kinds(s: CacheSettings)
    ensures
        gauges_fit(s, metric_sets(s)),
        forall|m: Metric| counted_kind_cached(s, m) ==> #[trigger] metric_sets(s).contains((m, counted_set(m))),
        forall|i: int|
            0 <= i < metric_sets(s).len() ==> #[trigger] crate::metrics::scard_cmds(metric_sets(s))[i]
                == crate::pipe::cmd_scard(key_bytes(counted_set(metric_sets(s)[i].0))),
{
    lemma_metric_sets_fit(s);
    lemma_metric_sets_cover(s);
}

/// An event asks to refresh a message only where it updates that message,
/// and a message's reactions only where it is a reaction: a message update
/// leaves exactly the refresh of that message, where messages are cached
/// and the message-update hook is set, and a reaction exactly the refresh
/// of its message's reactions, where messages are cached and the reaction
/// hook is set.
pub proof fn law_refreshes_follow_their_events(s: CacheSettings, h: UpdateHooks, e: CacheEvent)
    ensures
        forall|i: int|
            0 <= i < update_refresh(s, h, e).len() ==> (#[trigger] update_refresh(s, h, e)[i] is Reaction
                ==> e is Reaction) && (update_refresh(s, h, e)[i] is Message ==> e is MessageUpdate) && (
            update_refresh(s, h, e)[i] is ChannelPins ==> e is ChannelPinsUpdate) && (update_refresh(s, h, e)[i] is Guild
                ==> e is GuildUpdate) && (update_refresh(s, h, e)[i] is Member ==> e is MemberUpdate),
        e matches CacheEvent::MessageUpdate { msg, channel, .. } ==> update_refresh(s, h, e) == (if s.message.wanted
            && h.message_update {
            seq![Refresh::Message { msg, channel }]
        } else {
            Seq::empty()
        }),
        e matches CacheEvent::Reaction { msg, channel, .. } ==> update_refresh(s, h, e) == (if s.message.wanted
            && h.reaction {
            seq![Refresh::Reaction { msg, channel }]
        } else {
            Seq::empty()
        }),
        e matches CacheEvent::ChannelPinsUpdate { guild, channel } ==> update_refresh(s, h, e) == (
        if s.channel.wanted && h.channel_pins {
            seq![Refresh::ChannelPins { channel, guild }]
        } else {
            Seq::empty()
        }),
        e matches CacheEvent::GuildUpdate { guild, .. } ==> update_refresh(s, h, e) == (if s.guild.wanted
            && h.guild_update {
            seq![Refresh::Guild { guild }]
        } else {
            Seq::empty()
        }),
        e matches CacheEvent::MemberUpdate { guild, user } ==> update_refresh(s, h, e) == (if s.member.wanted
            && h.member_update {
            seq![Refresh::Member { guild, user: user.id }]
        } else {
            Seq::empty()
        }),
{
    let r = update_refresh(s, h, e);
    match e {
        CacheEvent::InteractionCreate(i) => {
            let keys = crate::cache::interaction::interaction_members_to_update(s, i, h.partial_member);
            assert forall|j: int| 0 <= j < r.len() implies (#[trigger] r[j] is PartialMember || r[j] is PartialUser) by {
                assert(r[j] == crate::update::partial_member_refreshes(keys)[j]);
            }
        },
        CacheEvent::MessageCreate(m) => {
            let keys = crate::cache::message::message_members_to_update(s, m, h.partial_member);
            assert forall|j: int| 0 <= j < r.len() implies (#[trigger] r[j] is PartialMember || r[j] is PartialUser) by {
                assert(r[j] == crate::update::partial_member_refreshes(keys)[j]);
            }
        },
        _ => {},
    }
}

/// Whether one of `cmds` is a `DEL` that names the key `k`.
pub open spec fn deletes_key(cmds: Seq<Seq<Seq<u8>>>, k: RedisKey) -> bool {
    exists|i: int, j: int|
        #![trigger cmds[i][j]]
        0 <= i < cmds.len() && cmds[i].len() > 0 && cmds[i][0] == name_del() && 1 <= j < cmds[i].len()
            && cmds[i][j] == key_bytes(k)
}

/// A `DEL` of some keys names exactly those keys.
pub proof fn lemma_del_names(keys: Seq<RedisKey>, k: RedisKey)
    ensures
        (exists|j: int| 1 <= j < cmd_del(key_texts(keys)).len() && #[trigger] cmd_del(key_texts(keys))[j] == key_bytes(k))
            <==> keys.contains(k),
        cmd_del(key_texts(keys)).len() > 0,
        cmd_del(key_texts(keys))[0] == name_del(),
{
    let c = cmd_del(key_texts(keys));
    lemma_key_of_text(k);
    if keys.contains(k) {
        let m = choose|m: int| 0 <= m < keys.len() && keys[m] == k;
        assert(c[m + 1] == key_bytes(k));
    }
    if exists|j: int| 1 <= j < c.len() && #[trigger] c[j] == key_bytes(k) {
        let j = choose|j: int| 1 <= j < c.len() && #[trigger] c[j] == key_bytes(k);
        assert(c[j] == key_bytes(keys[j - 1]));
        lemma_key_of_text(keys[j - 1]);
        assert(keys[j - 1] == k);
    }
}

/// The keys removed with messages: the entry of each, and its record where
/// messages expire.
proof fn lemma_message_delete_keys_hold(msgs: Seq<u64>, with_records: bool, k: RedisKey)
    ensures
        message_delete_keys(msgs, with_records).contains(k) <==> exists|i: int|
            0 <= i < msgs.len() && (k == RedisKey::Message { id: #[trigger] msgs[i] } || (with_records && k
                == RedisKey::MessageMeta { id: msgs[i] })),
    decreases msgs.len(),
{
    broadcast use vstd::seq_lib::group_seq_properties;
    if msgs.len() > 0 {
        let rest = msgs.drop_last();
        lemma_message_delete_keys_hold(rest, with_records, k);
        let last = msgs.last();
        let tail = if with_records {
            seq![RedisKey::Message { id: last }, RedisKey::MessageMeta { id: last }]
        } else {
            seq![RedisKey::Message { id: last }]
        };
        assert(message_delete_keys(msgs, with_records) == message_delete_keys(rest, with_records) + tail);
        assert(tail.contains(k) <==> (k == RedisKey::Message { id: last } || (with_records && k
            == RedisKey::MessageMeta { id: last }))) by {
            if k == (RedisKey::Message { id: last }) {
                assert(tail[0] == k);
            }
            if with_records && k == (RedisKey::MessageMeta { id: last }) {
                assert(tail[1] == k);
            }
        }
        if exists|i: int|
            0 <= i < rest.len() && (k == RedisKey::Message { id: #[trigger] rest[i] } || (with_records && k
                == RedisKey::MessageMeta { id: rest[i] })) {
            let i = choose|i: int|
                0 <= i < rest.len() && (k == RedisKey::Message { id: #[trigger] rest[i] } || (with_records && k
                    == RedisKey::MessageMeta { id: rest[i] }));
            assert(msgs[i] == rest[i]);
        }
        if exists|i: int|
            0 <= i < msgs.len() && (k == RedisKey::Message { id: #[trigger] msgs[i] } || (with_records && k
                == RedisKey::MessageMeta { id: msgs[i] })) {
            let i = choose|i: int|
                0 <= i < msgs.len() && (k == RedisKey::Message { id: #[trigger] msgs[i] } || (with_records && k
                    == RedisKey::MessageMeta { id: msgs[i] }));
            if i < rest.len() {
                assert(rest[i] == msgs[i]);
            }
        }
    }
}

/// The keys that removing one message deletes: its entry, and its record
/// where messages expire.
proof fn lemma_single_delete(s: CacheSettings, msg: u64, channel: u64, k: RedisKey)
    ensures
        deletes_key(delete_message_cmds(s, msg, channel), k) <==> s.message.wanted && (k == RedisKey::Message {
            id: msg,
        } || (s.message.expires() && k == RedisKey::MessageMeta { id: msg })),
{
    if s.message.wanted {
        lemma_names_distinct();
        let d1 = cmd_del(seq![key_bytes(RedisKey::Message { id: msg })]);
        let d2 = cmd_del(seq![key_bytes(RedisKey::MessageMeta { id: msg })]);
        let sr = cmd_srem(key_bytes(RedisKey::Messages), seq![msg]);
        let zr = cmd_zrem(key_bytes(RedisKey::ChannelMessages { channel }), seq![msg]);
        assert(key_texts(seq![RedisKey::Message { id: msg }]) =~= seq![key_bytes(RedisKey::Message { id: msg })]);
        assert(key_texts(seq![RedisKey::MessageMeta { id: msg }]) =~= seq![key_bytes(RedisKey::MessageMeta { id: msg })]);
        lemma_del_names(seq![RedisKey::Message { id: msg }], k);
        lemma_del_names(seq![RedisKey::MessageMeta { id: msg }], k);
        assert(seq![RedisKey::Message { id: msg }].contains(k) <==> k == RedisKey::Message { id: msg }) by {
            if k == (RedisKey::Message { id: msg }) {
                assert(seq![RedisKey::Message { id: msg }][0] == k);
            }
        }
        assert(seq![RedisKey::MessageMeta { id: msg }].contains(k) <==> k == RedisKey::MessageMeta { id: msg }) by {
            if k == (RedisKey::MessageMeta { id: msg }) {
                assert(seq![RedisKey::MessageMeta { id: msg }][0] == k);
            }
        }
        let cmds = delete_message_cmds(s, msg, channel);
        assert(sr[0] != name_del());
        assert(zr[0] != name_del());
        if deletes_key(cmds, k) {
            let (i, j) = choose|i: int, j: int|
                #![trigger cmds[i][j]]
                0 <= i < cmds.len() && cmds[i].len() > 0 && cmds[i][0] == name_del() && 1 <= j < cmds[i].len()
                    && cmds[i][j] == key_bytes(k);
            if i == 0 {
                assert(cmds[i] == d1);
            } else if i == 1 {
                assert(cmds[i] == sr);
            } else if i == 2 {
                assert(cmds[i] == zr);
            } else {
                assert(cmds[i] == d2);
            }
        }
        if k == (RedisKey::Message { id: msg }) {
            assert(cmds[0] == d1);
            assert(cmds[0][1] == key_bytes(k));
        }
        if s.message.expires() && k == (RedisKey::MessageMeta { id: msg }) {
            assert(cmds[3] == d2);
            assert(cmds[3][1] == key_bytes(k));
        }
    }
}

/// Removing several messages at once deletes exactly what removing each
/// alone deletes: the entry of every message, and its record where messages
/// expire.
pub proof fn law_bulk_delete_is_each_delete(s: CacheSettings, msgs: Seq<u64>, channel: u64)
    ensures
        forall|k: RedisKey|
            #[trigger] deletes_key(delete_messages_cmds(s, msgs, channel), k) <==> exists|i: int|
                0 <= i < msgs.len() && #[trigger] deletes_key(delete_message_cmds(s, msgs[i], channel), k),
        s.message.wanted ==> forall|i: int|
            0 <= i < msgs.len() ==> deletes_key(
                delete_messages_cmds(s, msgs, channel),
                RedisKey::Message { id: #[trigger] msgs[i] },
            ),
        forall|msg: u64, k: RedisKey|
            #[trigger] deletes_key(delete_message_cmds(s, msg, channel), k) <==> s.message.wanted && (k
                == RedisKey::Message { id: msg } || (s.message.expires() && k == RedisKey::MessageMeta { id: msg })),
{
    assert forall|msg: u64, k: RedisKey|
        #[trigger] deletes_key(delete_message_cmds(s, msg, channel), k) <==> s.message.wanted && (k
            == RedisKey::Message { id: msg } || (s.message.expires() && k == RedisKey::MessageMeta { id: msg })) by {
        lemma_single_delete(s, msg, channel, k);
    }
    assert forall|k: RedisKey|
        #[trigger] deletes_key(delete_messages_cmds(s, msgs, channel), k) <==> exists|i: int|
            0 <= i < msgs.len() && #[trigger] deletes_key(delete_message_cmds(s, msgs[i], channel), k) by {
        lemma_bulk_delete_key(s, msgs, channel, k);
    }
    if s.message.wanted {
        assert forall|i: int| 0 <= i < msgs.len() implies deletes_key(
            delete_messages_cmds(s, msgs, channel),
            RedisKey::Message { id: #[trigger] msgs[i] },
        ) by {
            let k = RedisKey::Message { id: msgs[i] };
            lemma_bulk_delete_key(s, msgs, channel, k);
            lemma_single_delete(s, msgs[i], channel, k);
        }
    }
}

proof fn lemma_bulk_delete_key(s: CacheSettings, msgs: Seq<u64>, channel: u64, k: RedisKey)
    ensures
        deletes_key(delete_messages_cmds(s, msgs, channel), k) <==> exists|i: int|
            0 <= i < msgs.len() && #[trigger] deletes_key(delete_message_cmds(s, msgs[i], channel), k),
{
    let cmds = delete_messages_cmds(s, msgs, channel);
    let r = s.message.expires();
    assert forall|i: int| 0 <= i < msgs.len() implies (#[trigger] deletes_key(delete_message_cmds(s, msgs[i], channel), k)
        <==> s.message.wanted && (k == RedisKey::Message { id: msgs[i] } || (r && k == RedisKey::MessageMeta {
        id: msgs[i],
    }))) by {
        lemma_single_delete(s, msgs[i], channel, k);
    }
    if s.message.wanted && msgs.len() > 0 {
        lemma_names_distinct();
        let keys = message_delete_keys(msgs, r);
        lemma_message_delete_keys_hold(msgs, r, k);
        lemma_del_names(keys, k);
        let d = cmd_del(key_texts(keys));
        let sr = cmd_srem(key_bytes(RedisKey::Messages), msgs);
        let zr = cmd_zrem(key_bytes(RedisKey::ChannelMessages { channel }), msgs);
        assert(cmds == seq![d, sr, zr]);
        assert(sr[0] != name_del());
        assert(zr[0] != name_del());
        if deletes_key(cmds, k) {
            let (i, j) = choose|i: int, j: int|
                #![trigger cmds[i][j]]
                0 <= i < cmds.len() && cmds[i].len() > 0 && cmds[i][0] == name_del() && 1 <= j < cmds[i].len()
                    && cmds[i][j] == key_bytes(k);
            if i == 1 {
                assert(cmds[i] == sr);
            } else if i == 2 {
                assert(cmds[i] == zr);
            }
            assert(cmds[i] == d);
        }
        if keys.contains(k) {
            let j = choose|j: int| 1 <= j < d.len() && #[trigger] d[j] == key_bytes(k);
            assert(cmds[0][j] == key_bytes(k));
            let i = choose|i: int|
                0 <= i < msgs.len() && (k == RedisKey::Message { id: #[trigger] msgs[i] } || (r && k
                    == RedisKey::MessageMeta { id: msgs[i] }));
            assert(deletes_key(delete_message_cmds(s, msgs[i], channel), k));
        }
        if exists|i: int| 0 <= i < msgs.len() && #[trigger] deletes_key(delete_message_cmds(s, msgs[i], channel), k) {
            let i = choose|i: int| 0 <= i < msgs.len() && #[trigger] deletes_key(delete_message_cmds(s, msgs[i], channel), k);
            assert(k == RedisKey::Message { id: msgs[i] } || (r && k == RedisKey::MessageMeta { id: msgs[i] }));
            assert(keys.contains(k));
        }
    } else if s.message.wanted {
        assert(cmds.len() == 0);
    }
}

/// The key under which storing an entry of the set `k` of `guild` with id
/// `id` writes it: members, integrations, presences and voice states under
/// the guild and the id, the other kinds under their own id.
pub open spec fn stored_key(k: GuildList, guild: u64, id: u64) -> RedisKey {
    match k {
        GuildList::Members => RedisKey::Member { guild, user: id },
        GuildList::Channels => RedisKey::Channel { id },
        GuildList::Emojis => RedisKey::Emoji { id },
        GuildList::Integrations => RedisKey::Integration { guild, id },
        GuildList::Presences => RedisKey::Presence { guild, user: id },
        GuildList::Roles => RedisKey::Role { id },
        GuildList::StageInstances => RedisKey::StageInstance { id },
        GuildList::Stickers => RedisKey::Sticker { id },
        GuildList::VoiceStates => RedisKey::VoiceState { guild, user: id },
    }
}

/// The keys of one shape hold the key of each of the ids.
proof fn lemma_id_keys_has(shape: IdKey, guild: u64, ids: Seq<u64>, u: u64)
    requires
        ids.contains(u),
    ensures
        id_keys(shape, guild, ids).contains(id_key(shape, guild, u)),
{
    let m = choose|m: int| 0 <= m < ids.len() && ids[m] == u;
    assert(id_keys(shape, guild, ids)[m] == id_key(shape, guild, u));
}

/// The keys deleted for one set of a guild hold the key each of its ids was
/// stored under; for the members, where members are cached.
proof fn lemma_list_keys_has(s: CacheSettings, guild: u64, k: GuildList, ids: Seq<u64>, counts: Seq<usize>, u: u64)
    requires
        ids.contains(u),
        k != GuildList::Members || s.member.wanted,
    ensures
        list_keys(s, guild, k, ids, counts).contains(stored_key(k, guild, u)),
{
    broadcast use vstd::seq_lib::group_seq_properties;
    let e = list_entry_kind(k);
    lemma_id_keys_has(IdKey::Member, guild, ids, u);
    lemma_id_keys_has(IdKey::Entry(e), guild, ids, u);
    lemma_id_keys_has(list_pair_shape(k), guild, ids, u);
}

/// The keys deleted for the sets `kinds` of a guild hold the key each id of
/// each set was stored under; for the members, where members are cached.
proof fn lemma_finish_keys_has(
    s: CacheSettings,
    guild: u64,
    kinds: Seq<GuildList>,
    lists: Seq<Seq<u64>>,
    counts: Seq<usize>,
    p: int,
    u: u64,
)
    requires
        0 <= p < kinds.len(),
        lists[p].contains(u),
        kinds[p] != GuildList::Members || s.member.wanted,
    ensures
        finish_keys(s, guild, kinds, lists, counts).contains(stored_key(kinds[p], guild, u)),
    decreases kinds.len(),
{
    broadcast use vstd::seq_lib::group_seq_properties;
    if p == kinds.len() - 1 {
        lemma_list_keys_has(s, guild, kinds.last(), lists[p], counts, u);
    } else {
        assert(kinds.drop_last()[p] == kinds[p]);
        lemma_finish_keys_has(s, guild, kinds.drop_last(), lists, counts, p, u);
    }
}

/// A list of commands whose last is a `DEL` of `keys` deletes every one of
/// them.
proof fn lemma_last_del(cmds: Seq<Seq<Seq<u8>>>, keys: Seq<RedisKey>, k: RedisKey)
    requires
        cmds.len() > 0,
        cmds.last() == cmd_del(key_texts(keys)),
        keys.contains(k),
    ensures
        deletes_key(cmds, k),
{
    lemma_del_names(keys, k);
    let c = cmd_del(key_texts(keys));
    let j = choose|j: int| 1 <= j < c.len() && #[trigger] c[j] == key_bytes(k);
    assert(cmds[cmds.len() - 1][j] == key_bytes(k));
}

/// Removing a guild reads each of its cached sets, and deletes the key that
/// storing each entry of them wrote: for every id `u` in the answered
/// `p`-th set, the key of that entry (for members, where members are
/// cached).
pub proof fn law_guild_removal_deletes_its_entries(
    s: CacheSettings,
    guild: u64,
    lists: Seq<Seq<u64>>,
    counts: Seq<usize>,
)
    ensures
        guild_lists(s).len() > 0 ==> forall|p: int|
            0 <= p < guild_lists(s).len() ==> #[trigger] crate::cache::guild::delete_guild_start_cmds(s, guild)[p]
                == cmd_smembers(key_bytes(guild_list_key(guild_lists(s)[p], guild))),
        forall|p: int, u: u64|
            #![trigger lists[p].contains(u), guild_lists(s)[p]]
            0 <= p < guild_lists(s).len() && lists[p].contains(u) && (guild_lists(s)[p] != GuildList::Members
                || s.member.wanted) ==> deletes_key(
                delete_guild_finish_cmds(s, guild, lists, counts),
                stored_key(guild_lists(s)[p], guild, u),
            ),
{
    let kinds = guild_lists(s);
    assert forall|p: int, u: u64|
        #![trigger lists[p].contains(u), guild_lists(s)[p]]
        0 <= p < kinds.len() && lists[p].contains(u) && (kinds[p] != GuildList::Members || s.member.wanted) implies deletes_key(
            delete_guild_finish_cmds(s, guild, lists, counts),
            stored_key(kinds[p], guild, u),
        ) by {
        broadcast use vstd::seq_lib::group_seq_properties;
        lemma_finish_keys_has(s, guild, kinds, lists, counts, p, u);
        let keys = delete_guild_keys(s, guild, lists, counts);
        assert(keys.contains(stored_key(kinds[p], guild, u)));
        lemma_last_del(delete_guild_finish_cmds(s, guild, lists, counts), keys, stored_key(kinds[p], guild, u));
    }
}

/// The entry and record keys of some ids hold the entry key of each.
proof fn lemma_entry_meta_has(kind: EntryKind, ids: Seq<u64>, u: u64)
    requires
        ids.contains(u),
    ensures
        entry_meta_keys(kind, ids).contains(entry_key(kind, u)),
    decreases ids.len(),
{
    broadcast use vstd::seq_lib::group_seq_properties;
    if ids.last() == u {
        let t = seq![entry_key(kind, ids.last()), crate::cache::common::meta_key(kind, ids.last())];
        assert(t[0] == entry_key(kind, u));
    } else {
        let m = choose|m: int| 0 <= m < ids.len() && ids[m] == u;
        assert(ids.drop_last()[m] == u);
        lemma_entry_meta_has(kind, ids.drop_last(), u);
    }
}

/// Reading and deleting each set of `kinds`: the set `kinds[p]` is read by
/// the command at `2 * p`.
proof fn lemma_read_and_drop(kinds: Seq<GuildList>, guild: u64, p: int)
    requires
        0 <= p < kinds.len(),
    ensures
        read_and_drop_cmds(kinds, guild).len() == 2 * kinds.len(),
        read_and_drop_cmds(kinds, guild)[2 * p] == cmd_smembers(key_bytes(guild_list_key(kinds[p], guild))),
    decreases kinds.len(),
{
    if p == kinds.len() - 1 {
        if kinds.len() > 1 {
            lemma_read_and_drop(kinds.drop_last(), guild, 0);
        } else {
            assert(read_and_drop_cmds(kinds.drop_last(), guild).len() == 0);
        }
    } else {
        assert(kinds.drop_last()[p] == kinds[p]);
        lemma_read_and_drop(kinds.drop_last(), guild, p);
    }
}

/// After a guild expired, each of its nine sets is read in turn, and the
/// last step deletes the key that storing each entry of them wrote: for
/// every id `u` in the answered `p`-th set, the key of that entry, voice
/// states included.
pub proof fn law_guild_expiry_deletes_its_entries(guild: u64, lists: Seq<Seq<u64>>, counts: Seq<usize>)
    ensures
        forall|p: int|
            0 <= p < expire_lists().len() ==> #[trigger] guild_expire_start_cmds(guild)[1 + 2 * p] == cmd_smembers(
                key_bytes(guild_list_key(expire_lists()[p], guild)),
            ),
        forall|p: int, u: u64|
            #![trigger list_or_empty(lists, p).contains(u)]
            0 <= p < expire_lists().len() && list_or_empty(lists, p).contains(u) ==> deletes_key(
                guild_expire_finish_cmds(guild, lists, counts),
                stored_key(expire_lists()[p], guild, u),
            ),
{
    assert forall|p: int| 0 <= p < expire_lists().len() implies #[trigger] guild_expire_start_cmds(guild)[1 + 2 * p]
        == cmd_smembers(key_bytes(guild_list_key(expire_lists()[p], guild))) by {
        lemma_read_and_drop(expire_lists(), guild, p);
    }
    assert forall|p: int, u: u64|
        #![trigger list_or_empty(lists, p).contains(u)]
        0 <= p < expire_lists().len() && list_or_empty(lists, p).contains(u) implies deletes_key(
            guild_expire_finish_cmds(guild, lists, counts),
            stored_key(expire_lists()[p], guild, u),
        ) by {
        broadcast use vstd::seq_lib::group_seq_properties;
        let l = list_or_empty(lists, p);
        let k = stored_key(expire_lists()[p], guild, u);
        let keys = guild_expire_keys(guild, lists, counts);
        if p == 0 {
            lemma_entry_meta_has(EntryKind::Channel, l, u);
        } else if p == 1 {
            lemma_entry_meta_has(EntryKind::Emoji, l, u);
        } else if p == 2 {
            lemma_id_keys_has(IdKey::Integration, guild, l, u);
        } else if p == 3 {
            lemma_id_keys_has(IdKey::Member, guild, l, u);
        } else if p == 4 {
            lemma_id_keys_has(IdKey::Presence, guild, l, u);
        } else if p == 5 {
            lemma_entry_meta_has(EntryKind::Role, l, u);
        } else if p == 6 {
            lemma_entry_meta_has(EntryKind::StageInstance, l, u);
        } else if p == 7 {
            lemma_entry_meta_has(EntryKind::Sticker, l, u);
        } else {
            lemma_id_keys_has(IdKey::VoiceState, guild, l, u);
        }
        assert(keys.contains(k));
        lemma_last_del(guild_expire_finish_cmds(guild, lists, counts), keys, k);
    }
}

/// The ids of a block hold the ids of each of its lists.
proof fn lemma_flat_has(block: Seq<Seq<u64>>, gi: int, u: u64)
    requires
        0 <= gi < block.len(),
        block[gi].contains(u),
    ensures
        flat(block).contains(u),
    decreases block.len(),
{
    broadcast use vstd::seq_lib::group_seq_properties;
    if gi < block.len() - 1 {
        assert(block.drop_last()[gi] == block[gi]);
        lemma_flat_has(block.drop_last(), gi, u);
    }
}

/// The keys of one shape for the ids of each guild hold the key of each id
/// of each guild.
proof fn lemma_pair_keys_has(shape: IdKey, guilds: Seq<u64>, block: Seq<Seq<u64>>, gi: int, u: u64)
    requires
        0 <= gi < guilds.len(),
        block[gi].contains(u),
    ensures
        pair_keys(shape, guilds, block).contains(id_key(shape, guilds[gi], u)),
    decreases guilds.len(),
{
    broadcast use vstd::seq_lib::group_seq_properties;
    if gi == guilds.len() - 1 {
        lemma_id_keys_has(shape, guilds.last(), block[gi], u);
    } else {
        assert(guilds.drop_last()[gi] == guilds[gi]);
        lemma_pair_keys_has(shape, guilds.drop_last(), block, gi, u);
    }
}

/// The keys deleted for one set of several guilds hold the key each id of
/// each guild's list was stored under; for the members, where members are
/// cached.
proof fn lemma_multi_list_keys_has(
    s: CacheSettings,
    guilds: Seq<u64>,
    k: GuildList,
    block: Seq<Seq<u64>>,
    counts: Seq<usize>,
    gi: int,
    u: u64,
)
    requires
        0 <= gi < guilds.len(),
        block.len() == guilds.len(),
        block[gi].contains(u),
        k != GuildList::Members || s.member.wanted,
    ensures
        multi_list_keys(s, guilds, k, block, counts).contains(stored_key(k, guilds[gi], u)),
{
    broadcast use vstd::seq_lib::group_seq_properties;
    lemma_pair_keys_has(IdKey::Member, guilds, block, gi, u);
    lemma_pair_keys_has(list_pair_shape(k), guilds, block, gi, u);
    lemma_flat_has(block, gi, u);
    lemma_id_keys_has(IdKey::Entry(list_entry_kind(k)), 0, flat(block), u);
}

/// The keys deleted for the sets `kinds` of several guilds hold the key each
/// id of each guild's list was stored under; for the members, where members
/// are cached.
proof fn lemma_multi_keys_has(
    s: CacheSettings,
    guilds: Seq<u64>,
    kinds: Seq<GuildList>,
    lists: Seq<Seq<u64>>,
    counts: Seq<usize>,
    p: int,
    gi: int,
    u: u64,
)
    requires
        0 <= p < kinds.len(),
        0 <= gi < guilds.len(),
        lists.len() >= kinds.len() * guilds.len(),
        block_of(lists, p, guilds.len() as int)[gi].contains(u),
        kinds[p] != GuildList::Members || s.member.wanted,
    ensures
        multi_keys(s, guilds, kinds, lists, counts).contains(stored_key(kinds[p], guilds[gi], u)),
    decreases kinds.len(),
{
    broadcast use vstd::seq_lib::group_seq_properties;
    let n = guilds.len() as int;
    if p == kinds.len() - 1 {
        assert(p * n + n <= kinds.len() * n) by (nonlinear_arith)
            requires
                p + 1 <= kinds.len(),
                n >= 0,
        ;
        assert(0 <= p * n) by (nonlinear_arith)
            requires
                p >= 0,
                n >= 0,
        ;
        lemma_multi_list_keys_has(s, guilds, kinds.last(), block_of(lists, p, n), counts, gi, u);
    } else {
        assert(kinds.drop_last()[p] == kinds[p]);
        assert(kinds.drop_last().len() * n <= kinds.len() * n) by (nonlinear_arith)
            requires
                kinds.drop_last().len() <= kinds.len(),
                n >= 0,
        ;
        lemma_multi_keys_has(s, guilds, kinds.drop_last(), lists, counts, p, gi, u);
    }
}

/// Removing several guilds at once deletes the key that storing each entry
/// of their sets wrote: for every guild `guilds[g]` and every id `u` in its
/// answered list of the `p`-th set, the key of that entry (for members,
/// where members are cached).
pub proof fn law_guilds_removal_deletes_their_entries(
    s: CacheSettings,
    guilds: Seq<u64>,
    lists: Seq<Seq<u64>>,
    counts: Seq<usize>,
)
    requires
        answer_fits(s, guilds.len(), lists.len()),
    ensures
        forall|p: int, g: int, u: u64|
            #![trigger lists[p * guilds.len() + g].contains(u), guild_lists(s)[p], guilds[g]]
            0 <= p < guild_lists(s).len() && 0 <= g < guilds.len() && lists[p * guilds.len() + g].contains(u) && (
            guild_lists(s)[p] != GuildList::Members || s.member.wanted) ==> deletes_key(
                delete_guilds_finish_cmds(s, guilds, lists, counts),
                stored_key(guild_lists(s)[p], guilds[g], u),
            ),
{
    let kinds = guild_lists(s);
    let n = guilds.len() as int;
    assert forall|p: int, g: int, u: u64|
        #![trigger lists[p * guilds.len() + g].contains(u), guild_lists(s)[p], guilds[g]]
        0 <= p < kinds.len() && 0 <= g < n && lists[p * n + g].contains(u) && (kinds[p] != GuildList::Members
            || s.member.wanted) implies deletes_key(
            delete_guilds_finish_cmds(s, guilds, lists, counts),
            stored_key(kinds[p], guilds[g], u),
        ) by {
        broadcast use vstd::seq_lib::group_seq_properties;
        assert(p * n + n <= kinds.len() * n) by (nonlinear_arith)
            requires
                p + 1 <= kinds.len(),
                n >= 0,
        ;
        assert(0 <= p * n) by (nonlinear_arith)
            requires
                p >= 0,
                n >= 0,
        ;
        assert(block_of(lists, p, n)[g] == lists[p * n + g]);
        lemma_multi_keys_has(s, guilds, kinds, lists, counts, p, g, u);
        let keys = delete_guilds_keys(s, guilds, lists, counts);
        assert(keys.contains(stored_key(kinds[p], guilds[g], u)));
        lemma_last_del(delete_guilds_finish_cmds(s, guilds, lists, counts), keys, stored_key(kinds[p], guilds[g], u));
    }
}

/// The set of a guild that holds the ids of entries of a kind, for the
/// kinds kept in such sets.
pub open spec fn set_of_kind(kind: EntryKind) -> GuildList {
    match kind {
        EntryKind::Channel => GuildList::Channels,
        EntryKind::Emoji => GuildList::Emojis,
        EntryKind::Role => GuildList::Roles,
        EntryKind::StageInstance => GuildList::StageInstances,
        EntryKind::Sticker => GuildList::Stickers,
        EntryKind::ScheduledEvent => GuildList::Channels,
    }
}

/// The keys that the removals delete are those that storing wrote: storing
/// a voice state, a presence, an integration, a member, a channel or an
/// entry of a kind kept in a guild's set writes its value, first, under the
/// key [`stored_key`] names for its set.
pub proof fn law_stored_keys_are_written_by_storing(
    s: CacheSettings,
    guild: u64,
    v: VoiceStateEntry,
    p: PresenceEntry,
    i: IntegrationEntry,
    m: MemberEntry,
    c: ChannelEntry,
    kind: EntryKind,
    id: u64,
    bytes: Seq<u8>,
)
    ensures
        s.voice_state.wanted ==> store_voice_state_cmds(s, guild, v)[0][1] == key_bytes(
            stored_key(GuildList::VoiceStates, guild, v.user_id),
        ),
        s.presence.wanted ==> store_presence_cmds(s, p)[0][1] == key_bytes(
            stored_key(GuildList::Presences, p.guild_id, p.user_id),
        ),
        s.integration.wanted ==> store_integration_cmds(s, guild, i)[0][1] == key_bytes(
            stored_key(GuildList::Integrations, guild, i.id),
        ),
        s.member.wanted ==> store_member_cmds(s, guild, m)[0][1] == key_bytes(
            stored_key(GuildList::Members, guild, m.user.id),
        ),
        s.channel.wanted ==> store_channel_entry_cmds(s, c)[0][1] == key_bytes(
            stored_key(GuildList::Channels, guild, c.id),
        ),
        kind != EntryKind::ScheduledEvent && crate::cache::common::kind_settings(s, kind).wanted
            ==> store_keyed_one_cmds(s, kind, guild, id, bytes)[0][1] == key_bytes(
            stored_key(set_of_kind(kind), guild, id),
        ),
{
}

} // verus!
