//! Messages.
use vstd::prelude::*;

use crate::archive::{archive_id, archived_u64};
use crate::cache::channel::store_channel_cmds;
use crate::cache::member::{member_to_update, store_partial_member_cmds};
use crate::cache::user::store_user_cmds;
use crate::config::CacheSettings;
use crate::entries::{ChannelEntry, MessageEntry, PartialMemberEntry, UserEntry};
use crate::key::{key_bytes, RedisKey};
use crate::pipe::{cmd_del, cmd_sadd, cmd_set, cmd_srem, cmd_zadd, cmd_zrem, key_texts, set_command, Pipe};

verus! {

/// The record of a message: the id of its channel.
pub open spec fn message_meta_command(msg: u64, channel: u64) -> Seq<Seq<u8>> {
    cmd_set(key_bytes(RedisKey::MessageMeta { id: msg }), archived_u64(channel))
}

/// The score of a message in its channel's sorted set: newer messages come
/// first.
pub open spec fn message_score(timestamp_micros: i64) -> int {
    -timestamp_micros
}

/// Storing the entry of a message: the entry, its id among all messages,
/// its place in its channel, and its record when messages expire.
pub open spec fn store_message_entry_cmds(s: CacheSettings, m: MessageEntry) -> Seq<Seq<Seq<u8>>> {
    if s.message.wanted {
        seq![
            set_command(key_bytes(RedisKey::Message { id: m.id }), m.bytes@, s.message.expire_seconds),
            cmd_sadd(key_bytes(RedisKey::Messages), seq![m.id]),
            cmd_zadd(
                key_bytes(RedisKey::ChannelMessages { channel: m.channel_id }),
                m.id,
                message_score(m.timestamp_micros) as i64,
            ),
        ] + (if s.message.expires() {
            seq![message_meta_command(m.id, m.channel_id)]
        } else {
            Seq::empty()
        })
    } else {
        Seq::empty()
    }
}

/// The partial members a message comes with: its author's, then those of the
/// mentioned users.
pub open spec fn message_partial_members(m: MessageEntry) -> Seq<PartialMemberEntry> {
    (match m.member {
        Some(pm) => seq![pm],
        None => Seq::empty(),
    }) + m.mention_members@
}

/// Handling each partial member of `guild` in turn.
pub open spec fn partial_members_cmds(
    s: CacheSettings,
    guild: u64,
    members: Seq<PartialMemberEntry>,
) -> Seq<Seq<Seq<u8>>>
    decreases members.len(),
{
    if members.len() == 0 {
        Seq::empty()
    } else {
        partial_members_cmds(s, guild, members.drop_last()) + store_partial_member_cmds(
            s,
            guild,
            members.last(),
        )
    }
}

/// The member entries to fetch and update for `members`, in order.
pub open spec fn partial_members_to_update(
    s: CacheSettings,
    guild: u64,
    members: Seq<PartialMemberEntry>,
    updates: bool,
) -> Seq<RedisKey>
    decreases members.len(),
{
    if members.len() == 0 {
        Seq::empty()
    } else {
        partial_members_to_update(s, guild, members.drop_last(), updates) + match members.last().user {
            Some(user) => match member_to_update(s, guild, user.id, updates) {
                Some(key) => seq![key],
                None => Seq::empty(),
            },
            None => Seq::empty(),
        }
    }
}

/// Storing a message: its entry, its author, the partial members it comes
/// with where it was sent in a guild, and the thread it started.
pub open spec fn store_message_cmds(s: CacheSettings, m: MessageEntry) -> Seq<Seq<Seq<u8>>> {
    store_message_entry_cmds(s, m) + store_user_cmds(s, m.author) + store_message_members_cmds(s, m)
        + store_thread_cmds(s, m.thread)
}

/// Handling the partial members of a message where it was sent in a guild.
pub open spec fn store_message_members_cmds(s: CacheSettings, m: MessageEntry) -> Seq<Seq<Seq<u8>>> {
    match m.guild_id {
        Some(g) => partial_members_cmds(s, g, message_partial_members(m)),
        None => Seq::empty(),
    }
}

/// Storing the thread a message started, if any.
pub open spec fn store_thread_cmds(s: CacheSettings, thread: Option<ChannelEntry>) -> Seq<Seq<Seq<u8>>> {
    match thread {
        Some(c) => store_channel_cmds(s, c),
        None => Seq::empty(),
    }
}

/// The member entries to fetch and update after storing a message.
pub open spec fn message_members_to_update(s: CacheSettings, m: MessageEntry, updates: bool) -> Seq<
    RedisKey,
> {
    match m.guild_id {
        Some(g) => partial_members_to_update(s, g, message_partial_members(m), updates),
        None => Seq::empty(),
    }
}

/// Storing a message entry after its update: the entry, its id among all
/// messages, and its record when messages expire.
pub open spec fn store_updated_message_cmds(
    s: CacheSettings,
    msg: u64,
    channel: u64,
    bytes: Seq<u8>,
) -> Seq<Seq<Seq<u8>>> {
    seq![
        set_command(key_bytes(RedisKey::Message { id: msg }), bytes, s.message.expire_seconds),
        cmd_sadd(key_bytes(RedisKey::Messages), seq![msg]),
    ] + (if s.message.expires() {
        seq![message_meta_command(msg, channel)]
    } else {
        Seq::empty()
    })
}

/// The message entry to fetch for an update, if there is one to fetch.
pub open spec fn message_to_update(s: CacheSettings, msg: u64, updates: bool) -> Option<RedisKey> {
    if s.message.wanted && updates {
        Some(RedisKey::Message { id: msg })
    } else {
        None
    }
}

/// Removing a message: its entry, its id, its place in its channel, and its
/// record when messages expire.
pub open spec fn delete_message_cmds(s: CacheSettings, msg: u64, channel: u64) -> Seq<
    Seq<Seq<u8>>,
> {
    if s.message.wanted {
        seq![
            cmd_del(seq![key_bytes(RedisKey::Message { id: msg })]),
            cmd_srem(key_bytes(RedisKey::Messages), seq![msg]),
            cmd_zrem(key_bytes(RedisKey::ChannelMessages { channel }), seq![msg]),
        ] + (if s.message.expires() {
            seq![cmd_del(seq![key_bytes(RedisKey::MessageMeta { id: msg })])]
        } else {
            Seq::empty()
        })
    } else {
        Seq::empty()
    }
}

/// The keys that removing `msgs` deletes: each entry, followed by its record
/// when messages expire.
pub open spec fn message_delete_keys(msgs: Seq<u64>, with_records: bool) -> Seq<RedisKey>
    decreases msgs.len(),
{
    if msgs.len() == 0 {
        Seq::empty()
    } else {
        message_delete_keys(msgs.drop_last(), with_records) + (if with_records {
            seq![RedisKey::Message { id: msgs.last() }, RedisKey::MessageMeta { id: msgs.last() }]
        } else {
            seq![RedisKey::Message { id: msgs.last() }]
        })
    }
}

/// Removing several messages of a channel at once; nothing if there are
/// none.
pub open spec fn delete_messages_cmds(s: CacheSettings, msgs: Seq<u64>, channel: u64) -> Seq<
    Seq<Seq<u8>>,
> {
    if s.message.wanted && msgs.len() > 0 {
        seq![
            cmd_del(key_texts(message_delete_keys(msgs, s.message.expires()))),
            cmd_srem(key_bytes(RedisKey::Messages), msgs),
            cmd_zrem(key_bytes(RedisKey::ChannelMessages { channel }), msgs),
        ]
    } else {
        Seq::empty()
    }
}

/// The keys that removing `msgs` deletes.
fn message_delete_keys_of(msgs: &[u64], with_records: bool) -> (res: Vec<RedisKey>)
    ensures
        res@ == message_delete_keys(msgs@, with_records),
{
    let mut keys: Vec<RedisKey> = Vec::new();
    let mut i: usize = 0;
    while i < msgs.len()
        invariant
            i <= msgs@.len(),
            keys@ == message_delete_keys(msgs@.take(i as int), with_records),
        decreases msgs@.len() - i,
    {
        let id = msgs[i];
        keys.push(RedisKey::Message { id });
        if with_records {
            keys.push(RedisKey::MessageMeta { id });
        }
        assert(msgs@.take(i + 1).drop_last() =~= msgs@.take(i as int));
        assert(keys@ =~= message_delete_keys(msgs@.take(i + 1), with_records));
        i = i + 1;
    }
    assert(msgs@.take(i as int) =~= msgs@);
    keys
}

impl Pipe {
    /// Stores the record of a message.
    fn store_message_meta(&mut self, msg: u64, channel: u64)
        ensures
            final(self).cmds() == old(self).cmds().push(message_meta_command(msg, channel)),
            final(self).settings() == old(self).settings(),
            old(self).ignores_only_expires() ==> final(self).ignores_only_expires(),
    {
        let bytes = archive_id(channel);
        self.set(RedisKey::MessageMeta { id: msg }, bytes.as_slice(), None);
    }

    /// Handles each partial member of `guild` in turn; returns the member
    /// entries to fetch and update.
    fn store_partial_members(
        &mut self,
        guild: u64,
        members: &[PartialMemberEntry],
        updates: bool,
    ) -> (res: Vec<RedisKey>)
        ensures
            final(self).cmds() == old(self).cmds() + partial_members_cmds(
                old(self).settings(),
                guild,
                members@,
            ),
            final(self).settings() == old(self).settings(),
            res@ == partial_members_to_update(old(self).settings(), guild, members@, updates),
            old(self).ignores_only_expires() ==> final(self).ignores_only_expires(),
    {
        let ghost start = self.cmds();
        let ghost s = self.settings();
        let mut keys: Vec<RedisKey> = Vec::new();
        let mut i: usize = 0;
        while i < members.len()
            invariant
                old(self).ignores_only_expires() ==> self.ignores_only_expires(),
                i <= members@.len(),
                self.cmds() == start + partial_members_cmds(s, guild, members@.take(i as int)),
                self.settings() == s,
                keys@ == partial_members_to_update(s, guild, members@.take(i as int), updates),
            decreases members@.len() - i,
        {
            let key = self.store_partial_member(guild, &members[i], updates);
            if let Some(k) = key {
                keys.push(k);
            }
            assert(members@.take(i + 1).drop_last() =~= members@.take(i as int));
            assert(self.cmds() =~= start + partial_members_cmds(s, guild, members@.take(i + 1)));
            assert(keys@ =~= partial_members_to_update(s, guild, members@.take(i + 1), updates));
            i = i + 1;
        }
        assert(members@.take(i as int) =~= members@);
        keys
    }

    /// Stores a message with its author, the partial members it comes with
    /// and the thread it started. Returns the member entries to fetch and
    /// update, if the configured member type updates from partial members.
    pub fn store_message(&mut self, msg: &MessageEntry, member_updates: bool) -> (res: Vec<
        RedisKey,
    >)
        requires
            old(self).settings().valid(),
            msg.timestamp_micros > i64::MIN,
        ensures
            final(self).cmds() == old(self).cmds() + store_message_cmds(old(self).settings(), *msg),
            final(self).settings() == old(self).settings(),
            res@ == message_members_to_update(old(self).settings(), *msg, member_updates),
            old(self).ignores_only_expires() ==> final(self).ignores_only_expires(),
    {
        let ghost start = self.cmds();
        let ghost s = self.settings();
        self.store_message_entry(msg);
        let ghost a = self.cmds();
        self.store_user(&msg.author);
        let ghost b = self.cmds();
        let keys = self.store_message_members(msg, member_updates);
        let ghost c = self.cmds();
        self.store_thread(&msg.thread);
        proof {
            let e = store_message_entry_cmds(s, *msg);
            let u = store_user_cmds(s, msg.author);
            let m = store_message_members_cmds(s, *msg);
            let t = store_thread_cmds(s, msg.thread);
            assert(start + e + u + m + t =~= start + (e + u + m + t));
        }
        keys
    }

    /// Stores the thread a message started, if any.
    fn store_thread(&mut self, thread: &Option<ChannelEntry>)
        requires
            old(self).settings().valid(),
        ensures
            final(self).cmds() == old(self).cmds() + store_thread_cmds(old(self).settings(), *thread),
            final(self).settings() == old(self).settings(),
            old(self).ignores_only_expires() ==> final(self).ignores_only_expires(),
    {
        if let Some(c) = thread {
            self.store_channel(c);
        } else {
            assert(self.cmds() =~= self.cmds() + Seq::<Seq<Seq<u8>>>::empty());
        }
    }

    /// Stores the entry of a message.
    fn store_message_entry(&mut self, msg: &MessageEntry)
        requires
            msg.timestamp_micros > i64::MIN,
        ensures
            final(self).cmds() == old(self).cmds() + store_message_entry_cmds(
                old(self).settings(),
                *msg,
            ),
            final(self).settings() == old(self).settings(),
            old(self).ignores_only_expires() ==> final(self).ignores_only_expires(),
    {
        let ghost start = self.cmds();
        let s = *self.settings_ref();
        let id = msg.id;
        if s.message.wanted {
            self.set(RedisKey::Message { id }, msg.bytes.as_slice(), s.message.expire_seconds);
            self.sadd_one(RedisKey::Messages, id);
            let score: i64 = -msg.timestamp_micros;
            self.zadd(RedisKey::ChannelMessages { channel: msg.channel_id }, id, score);
            if s.message.expire_seconds.is_some() {
                self.store_message_meta(id, msg.channel_id);
            }
        }
        assert(self.cmds() =~= start + store_message_entry_cmds(s, *msg));
    }

    /// Handles the partial members a message of a guild comes with.
    fn store_message_members(&mut self, msg: &MessageEntry, updates: bool) -> (res: Vec<RedisKey>)
        ensures
            final(self).cmds() == old(self).cmds() + store_message_members_cmds(old(self).settings(), *msg),
            final(self).settings() == old(self).settings(),
            res@ == message_members_to_update(old(self).settings(), *msg, updates),
            old(self).ignores_only_expires() ==> final(self).ignores_only_expires(),
    {
        let ghost start = self.cmds();
        let ghost s = self.settings();
        if let Some(g) = msg.guild_id {
            let mut keys = match &msg.member {
                Some(pm) => self.store_partial_members_one(g, pm, updates),
                None => Vec::new(),
            };
            proof {
                lemma_partial_members_split(s, g, msg.member, msg.mention_members@, updates);
                assert(partial_members_cmds(s, g, Seq::empty()) =~= Seq::<Seq<Seq<u8>>>::empty());
                assert(partial_members_to_update(s, g, Seq::empty(), updates) =~= Seq::<RedisKey>::empty());
            }
            let mut rest = self.store_partial_members(g, msg.mention_members.as_slice(), updates);
            keys.append(&mut rest);
            assert(self.cmds() =~= start + partial_members_cmds(s, g, message_partial_members(*msg)));
            keys
        } else {
            assert(self.cmds() =~= start);
            Vec::new()
        }
    }

    /// Handles one partial member, as a list of at most one member entry to
    /// fetch and update.
    fn store_partial_members_one(&mut self, guild: u64, member: &PartialMemberEntry, updates: bool) -> (res: Vec<RedisKey>)
        ensures
            final(self).cmds() == old(self).cmds() + partial_members_cmds(
                old(self).settings(),
                guild,
                seq![*member],
            ),
            final(self).settings() == old(self).settings(),
            res@ == partial_members_to_update(old(self).settings(), guild, seq![*member], updates),
            old(self).ignores_only_expires() ==> final(self).ignores_only_expires(),
    {
        let ghost start = self.cmds();
        let ghost s = self.settings();
        let key = self.store_partial_member(guild, member, updates);
        let mut keys: Vec<RedisKey> = Vec::new();
        if let Some(k) = key {
            keys.push(k);
        }
        assert(seq![*member].drop_last() =~= Seq::<PartialMemberEntry>::empty());
        assert(seq![*member].last() == *member);
        assert(partial_members_cmds(s, guild, Seq::empty()) =~= Seq::<Seq<Seq<u8>>>::empty());
        assert(partial_members_to_update(s, guild, Seq::empty(), updates) =~= Seq::<RedisKey>::empty());
        assert(self.cmds() =~= start + partial_members_cmds(s, guild, seq![*member]));
        assert(keys@ =~= partial_members_to_update(s, guild, seq![*member], updates));
        keys
    }

    /// First step of a message update: stores the author if the update comes
    /// with one. Returns the key of the message entry to fetch and update, if
    /// the configured message type handles message updates.
    pub fn store_message_update(&mut self, author: &Option<UserEntry>, msg: u64, updates: bool) -> (res:
        Option<RedisKey>)
        ensures
            final(self).cmds() == old(self).cmds() + match *author {
                Some(user) => store_user_cmds(old(self).settings(), user),
                None => Seq::empty(),
            },
            final(self).settings() == old(self).settings(),
            res == message_to_update(old(self).settings(), msg, updates),
            old(self).ignores_only_expires() ==> final(self).ignores_only_expires(),
    {
        let ghost start = self.cmds();
        if let Some(user) = author {
            self.store_user(user);
        } else {
            assert(self.cmds() =~= start);
        }
        if self.settings_ref().message.wanted && updates {
            Some(RedisKey::Message { id: msg })
        } else {
            None
        }
    }

    /// A reaction was added or removed: returns the key of the message entry
    /// to fetch and update, if the configured message type handles reactions.
    pub fn handle_reaction(&self, msg: u64, updates: bool) -> (res: Option<RedisKey>)
        ensures
            res == message_to_update(self.settings(), msg, updates),
    {
        if self.settings_ref().message.wanted && updates {
            Some(RedisKey::Message { id: msg })
        } else {
            None
        }
    }

    /// Stores a message entry after its update.
    pub fn store_updated_message(&mut self, msg: u64, channel: u64, bytes: &[u8])
        ensures
            final(self).cmds() == old(self).cmds() + store_updated_message_cmds(
                old(self).settings(),
                msg,
                channel,
                bytes@,
            ),
            final(self).settings() == old(self).settings(),
            old(self).ignores_only_expires() ==> final(self).ignores_only_expires(),
    {
        let ghost start = self.cmds();
        let s = *self.settings_ref();
        self.set(RedisKey::Message { id: msg }, bytes, s.message.expire_seconds);
        self.sadd_one(RedisKey::Messages, msg);
        if s.message.expire_seconds.is_some() {
            self.store_message_meta(msg, channel);
        }
        assert(self.cmds() =~= start + store_updated_message_cmds(s, msg, channel, bytes@));
    }

    /// Removes a message.
    pub fn delete_message(&mut self, msg: u64, channel: u64)
        ensures
            final(self).cmds() == old(self).cmds() + delete_message_cmds(
                old(self).settings(),
                msg,
                channel,
            ),
            final(self).settings() == old(self).settings(),
            old(self).ignores_only_expires() ==> final(self).ignores_only_expires(),
    {
        let ghost start = self.cmds();
        let s = *self.settings_ref();
        if s.message.wanted {
            self.del_one(RedisKey::Message { id: msg });
            self.srem_one(RedisKey::Messages, msg);
            let ids = [msg];
            self.zrem(RedisKey::ChannelMessages { channel }, &ids);
            assert(ids@ =~= seq![msg]);
            if s.message.expire_seconds.is_some() {
                self.del_one(RedisKey::MessageMeta { id: msg });
            }
        }
        assert(self.cmds() =~= start + delete_message_cmds(s, msg, channel));
    }

    /// Removes several messages of a channel at once.
    pub fn delete_messages(&mut self, msgs: &[u64], channel: u64)
        ensures
            final(self).cmds() == old(self).cmds() + delete_messages_cmds(
                old(self).settings(),
                msgs@,
                channel,
            ),
            final(self).settings() == old(self).settings(),
            old(self).ignores_only_expires() ==> final(self).ignores_only_expires(),
    {
        let ghost start = self.cmds();
        let s = *self.settings_ref();
        if !s.message.wanted || msgs.len() == 0 {
            assert(self.cmds() =~= start + delete_messages_cmds(s, msgs@, channel));
            return;
        }
        let keys = message_delete_keys_of(msgs, s.message.expire_seconds.is_some());
        self.del(keys.as_slice());
        self.srem(RedisKey::Messages, msgs);
        self.zrem(RedisKey::ChannelMessages { channel }, msgs);
        assert(self.cmds() =~= start + delete_messages_cmds(s, msgs@, channel));
    }
}

/// Handling the author's partial member and then the mentioned ones is
/// handling them all in turn.
proof fn lemma_partial_members_split(
    s: CacheSettings,
    guild: u64,
    first: Option<PartialMemberEntry>,
    rest: Seq<PartialMemberEntry>,
    updates: bool,
)
    ensures
        partial_members_cmds(s, guild, (match first {
            Some(pm) => seq![pm],
            None => Seq::empty(),
        }) + rest) == partial_members_cmds(s, guild, match first {
            Some(pm) => seq![pm],
            None => Seq::empty(),
        }) + partial_members_cmds(s, guild, rest),
        partial_members_to_update(s, guild, (match first {
            Some(pm) => seq![pm],
            None => Seq::empty(),
        }) + rest, updates) == partial_members_to_update(s, guild, match first {
            Some(pm) => seq![pm],
            None => Seq::empty(),
        }, updates) + partial_members_to_update(s, guild, rest, updates),
    decreases rest.len(),
{
    let head: Seq<PartialMemberEntry> = match first {
        Some(pm) => seq![pm],
        None => Seq::empty(),
    };
    if rest.len() == 0 {
        assert(head + rest =~= head);
        assert(partial_members_cmds(s, guild, rest) =~= Seq::<Seq<Seq<u8>>>::empty());
        assert(partial_members_to_update(s, guild, rest, updates) =~= Seq::<RedisKey>::empty());
        assert(partial_members_cmds(s, guild, head) + partial_members_cmds(s, guild, rest)
            =~= partial_members_cmds(s, guild, head));
        assert(partial_members_to_update(s, guild, head, updates) + partial_members_to_update(s, guild, rest, updates)
            =~= partial_members_to_update(s, guild, head, updates));
    } else {
        lemma_partial_members_split(s, guild, first, rest.drop_last(), updates);
        assert((head + rest).drop_last() =~= head + rest.drop_last());
        assert((head + rest).last() == rest.last());
    }
}

} // verus!
