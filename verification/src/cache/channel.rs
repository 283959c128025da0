//! Channels and threads.
use vstd::prelude::*;

use crate::archive::opt_id;
use crate::cache::common::{keyed_ids, keyed_items, keyed_items_of, meta_command, EntryKind};
use crate::cache::member::store_member_cmds;
use crate::cache::presence::store_presence_cmds;
use crate::cache::user::{derefs, store_users_cmds};
use crate::config::CacheSettings;
use crate::entries::{ChannelEntry, ThreadMemberEntry, UserEntry};
use crate::key::{key_bytes, RedisKey};
use crate::pipe::{cmd_del, cmd_sadd, cmd_srem, mset_commands, set_command, Pipe};

verus! {

/// The record of a channel: the id of its guild, zero for none.
pub open spec fn channel_meta_command(channel: u64, guild: Option<u64>) -> Seq<Seq<u8>> {
    meta_command(EntryKind::Channel, channel, opt_id(guild))
}

/// The records of `channels`, each holding the channel's own guild.
pub open spec fn channel_meta_commands(channels: Seq<ChannelEntry>) -> Seq<Seq<Seq<u8>>> {
    channels.map_values(|c: ChannelEntry| channel_meta_command(c.id, c.guild_id))
}

/// The recipients of `channels`, in order.
pub open spec fn recipients_of(channels: Seq<ChannelEntry>) -> Seq<UserEntry>
    decreases channels.len(),
{
    if channels.len() == 0 {
        Seq::empty()
    } else {
        recipients_of(channels.drop_last()) + match channels.last().recipients {
            Some(users) => users@,
            None => Seq::empty(),
        }
    }
}

/// Storing the current user's membership of a thread: its member where the
/// thread has a guild, and its presence.
pub open spec fn store_thread_member_cmds(
    s: CacheSettings,
    guild: Option<u64>,
    member: Option<ThreadMemberEntry>,
) -> Seq<Seq<Seq<u8>>> {
    match member {
        Some(tm) => (match (guild, tm.member) {
            (Some(g), Some(m)) => store_member_cmds(s, g, m),
            _ => Seq::empty(),
        }) + match tm.presence {
            Some(p) => store_presence_cmds(s, p),
            None => Seq::empty(),
        },
        None => Seq::empty(),
    }
}

/// Storing the entry of a channel: the entry, its record when channels
/// expire, its id in its guild's channels and among all channels.
pub open spec fn store_channel_entry_cmds(s: CacheSettings, c: ChannelEntry) -> Seq<Seq<Seq<u8>>> {
    if s.channel.wanted {
        seq![set_command(key_bytes(RedisKey::Channel { id: c.id }), c.bytes@, s.channel.expire_seconds)]
            + (if s.channel.expires() {
            seq![channel_meta_command(c.id, c.guild_id)]
        } else {
            Seq::empty()
        }) + match c.guild_id {
            Some(g) => seq![cmd_sadd(key_bytes(RedisKey::GuildChannels { id: g }), seq![c.id])],
            None => Seq::empty(),
        } + seq![cmd_sadd(key_bytes(RedisKey::Channels), seq![c.id])]
    } else {
        Seq::empty()
    }
}

/// Storing a channel: its entry, then the current user's membership of it
/// and its recipients.
pub open spec fn store_channel_cmds(s: CacheSettings, c: ChannelEntry) -> Seq<Seq<Seq<u8>>> {
    store_channel_entry_cmds(s, c) + store_thread_member_cmds(s, c.guild_id, c.member) + match c.recipients {
        Some(users) => store_users_cmds(s, users@),
        None => Seq::empty(),
    }
}

/// Storing the channels of `guild` at once: the entries, their ids, their
/// records when channels expire; then the recipients of all of them.
pub open spec fn store_channels_cmds(s: CacheSettings, guild: u64, channels: Seq<ChannelEntry>) -> Seq<
    Seq<Seq<u8>>,
> {
    (if s.channel.wanted && channels.len() > 0 {
        mset_commands(keyed_items(EntryKind::Channel, channels), s.channel.expire_seconds) + seq![
            cmd_sadd(key_bytes(RedisKey::GuildChannels { id: guild }), keyed_ids(channels)),
            cmd_sadd(key_bytes(RedisKey::Channels), keyed_ids(channels)),
        ] + (if s.channel.expires() {
            channel_meta_commands(channels)
        } else {
            Seq::empty()
        })
    } else {
        Seq::empty()
    }) + store_users_cmds(s, recipients_of(channels))
}

/// Storing a channel entry after its update: the entry and its record when
/// channels expire.
pub open spec fn store_updated_channel_cmds(
    s: CacheSettings,
    channel: u64,
    guild: Option<u64>,
    bytes: Seq<u8>,
) -> Seq<Seq<Seq<u8>>> {
    seq![set_command(key_bytes(RedisKey::Channel { id: channel }), bytes, s.channel.expire_seconds)]
        + (if s.channel.expires() {
        seq![channel_meta_command(channel, guild)]
    } else {
        Seq::empty()
    })
}

/// The channel entry to fetch for an update, if there is one to fetch.
pub open spec fn channel_to_update(s: CacheSettings, channel: u64, updates: bool) -> Option<
    RedisKey,
> {
    if s.channel.wanted && updates {
        Some(RedisKey::Channel { id: channel })
    } else {
        None
    }
}

/// Removing a channel: its entry, its id from its guild's channels and from
/// all channels, and its record when channels expire.
pub open spec fn delete_channel_cmds(s: CacheSettings, guild: Option<u64>, channel: u64) -> Seq<
    Seq<Seq<u8>>,
> {
    if s.channel.wanted {
        seq![cmd_del(seq![key_bytes(RedisKey::Channel { id: channel })])] + match guild {
            Some(g) => seq![cmd_srem(key_bytes(RedisKey::GuildChannels { id: g }), seq![channel])],
            None => Seq::empty(),
        } + seq![cmd_srem(key_bytes(RedisKey::Channels), seq![channel])] + (if s.channel.expires() {
            seq![cmd_del(seq![key_bytes(RedisKey::ChannelMeta { id: channel })])]
        } else {
            Seq::empty()
        })
    } else {
        Seq::empty()
    }
}

/// References to each user of `users`.
pub fn user_refs(users: &[UserEntry]) -> (res: Vec<&UserEntry>)
    ensures
        derefs(res@) == users@,
{
    let mut refs: Vec<&UserEntry> = Vec::new();
    let mut i: usize = 0;
    while i < users.len()
        invariant
            i <= users@.len(),
            derefs(refs@) == users@.take(i as int),
        decreases users@.len() - i,
    {
        let ghost before = refs@;
        refs.push(&users[i]);
        assert(derefs(refs@) =~= derefs(before).push(users@[i as int]));
        assert(users@.take(i + 1) =~= users@.take(i as int).push(users@[i as int]));
        i = i + 1;
    }
    assert(users@.take(i as int) =~= users@);
    refs
}

/// References to the recipients of `channels`, in order.
pub fn recipient_refs(channels: &[ChannelEntry]) -> (res: Vec<&UserEntry>)
    ensures
        derefs(res@) == recipients_of(channels@),
{
    let mut refs: Vec<&UserEntry> = Vec::new();
    let mut i: usize = 0;
    while i < channels.len()
        invariant
            i <= channels@.len(),
            derefs(refs@) == recipients_of(channels@.take(i as int)),
        decreases channels@.len() - i,
    {
        assert(channels@.take(i + 1).drop_last() =~= channels@.take(i as int));
        if let Some(users) = &channels[i].recipients {
            let ghost base = refs@;
            let mut j: usize = 0;
            while j < users.len()
                invariant
                    j <= users@.len(),
                    derefs(refs@) == derefs(base) + users@.take(j as int),
                decreases users@.len() - j,
            {
                let ghost before = refs@;
                refs.push(&users[j]);
                assert(derefs(refs@) =~= derefs(before).push(users@[j as int]));
                assert(users@.take(j + 1) =~= users@.take(j as int).push(users@[j as int]));
                assert(derefs(refs@) =~= derefs(base) + users@.take(j + 1));
                j = j + 1;
            }
            assert(users@.take(j as int) =~= users@);
        } else {
            assert(derefs(refs@) =~= recipients_of(channels@.take(i + 1)));
        }
        i = i + 1;
    }
    assert(channels@.take(i as int) =~= channels@);
    refs
}

impl Pipe {
    /// Stores the current user's membership of a thread.
    fn store_thread_member(&mut self, guild: Option<u64>, member: &Option<ThreadMemberEntry>)
        ensures
            final(self).cmds() == old(self).cmds() + store_thread_member_cmds(
                old(self).settings(),
                guild,
                *member,
            ),
            final(self).settings() == old(self).settings(),
            old(self).ignores_only_expires() ==> final(self).ignores_only_expires(),
    {
        let ghost start = self.cmds();
        let ghost s = self.settings();
        if let Some(tm) = member {
            if let (Some(g), Some(m)) = (guild, &tm.member) {
                self.store_member(g, m);
            }
            let ghost mid = self.cmds();
            if let Some(p) = &tm.presence {
                self.store_presence(p);
            }
            assert(self.cmds() =~= start + store_thread_member_cmds(s, guild, *member));
        } else {
            assert(self.cmds() =~= start + store_thread_member_cmds(s, guild, *member));
        }
    }

    /// Stores a channel with the current user's membership of it and its
    /// recipients.
    pub fn store_channel(&mut self, channel: &ChannelEntry)
        requires
            old(self).settings().valid(),
        ensures
            final(self).cmds() == old(self).cmds() + store_channel_cmds(
                old(self).settings(),
                *channel,
            ),
            final(self).settings() == old(self).settings(),
            old(self).ignores_only_expires() ==> final(self).ignores_only_expires(),
    {
        let ghost start = self.cmds();
        let s = *self.settings_ref();
        let id = channel.id;
        if s.channel.wanted {
            self.set(RedisKey::Channel { id }, channel.bytes.as_slice(), s.channel.expire_seconds);
            if s.channel.expire_seconds.is_some() {
                self.store_meta(EntryKind::Channel, id, opt_id_of(channel.guild_id));
            }
            if let Some(g) = channel.guild_id {
                self.sadd_one(RedisKey::GuildChannels { id: g }, id);
            }
            self.sadd_one(RedisKey::Channels, id);
        }
        assert(self.cmds() =~= start + store_channel_entry_cmds(s, *channel));
        let ghost mid = self.cmds();
        self.store_thread_member(channel.guild_id, &channel.member);
        let ghost mid2 = self.cmds();
        if let Some(users) = &channel.recipients {
            let refs = user_refs(users.as_slice());
            self.store_users(refs.as_slice());
        }
        assert(self.cmds() =~= start + store_channel_cmds(s, *channel));
    }

    /// Stores the channels of `guild` at once, then their recipients.
    pub fn store_channels(&mut self, guild: u64, channels: &[ChannelEntry])
        requires
            old(self).settings().valid(),
        ensures
            final(self).cmds() == old(self).cmds() + store_channels_cmds(
                old(self).settings(),
                guild,
                channels@,
            ),
            final(self).settings() == old(self).settings(),
            old(self).ignores_only_expires() ==> final(self).ignores_only_expires(),
    {
        let ghost start = self.cmds();
        let s = *self.settings_ref();
        if s.channel.wanted && channels.len() > 0 {
            let (items, ids) = keyed_items_of(EntryKind::Channel, channels);
            self.mset(items.as_slice(), s.channel.expire_seconds);
            self.sadd(RedisKey::GuildChannels { id: guild }, ids.as_slice());
            self.sadd(RedisKey::Channels, ids.as_slice());
            if s.channel.expire_seconds.is_some() {
                self.store_channel_metas(channels);
            }
        }
        let ghost mid = self.cmds();
        let refs = recipient_refs(channels);
        self.store_users(refs.as_slice());
        assert(self.cmds() =~= start + store_channels_cmds(s, guild, channels@));
    }

    /// Stores the record of each channel, holding the channel's own guild.
    fn store_channel_metas(&mut self, channels: &[ChannelEntry])
        ensures
            final(self).cmds() == old(self).cmds() + channel_meta_commands(channels@),
            final(self).settings() == old(self).settings(),
            old(self).ignores_only_expires() ==> final(self).ignores_only_expires(),
    {
        let ghost start = self.cmds();
        let mut i: usize = 0;
        while i < channels.len()
            invariant
                old(self).ignores_only_expires() ==> self.ignores_only_expires(),
                i <= channels@.len(),
                self.cmds() == start + channel_meta_commands(channels@.take(i as int)),
                self.settings() == old(self).settings(),
            decreases channels@.len() - i,
        {
            let c = &channels[i];
            self.store_meta(EntryKind::Channel, c.id, opt_id_of(c.guild_id));
            assert(channels@.take(i + 1) =~= channels@.take(i as int).push(channels@[i as int]));
            assert(channel_meta_commands(channels@.take(i + 1)) =~= channel_meta_commands(
                channels@.take(i as int),
            ).push(channel_meta_command(c.id, c.guild_id)));
            i = i + 1;
        }
        assert(channels@.take(i as int) =~= channels@);
    }

    /// The pins of a channel changed: returns the key of the channel entry to
    /// fetch and update, if the configured channel type handles this.
    pub fn store_channel_pins_update(&self, channel: u64, updates: bool) -> (res: Option<
        RedisKey,
    >)
        ensures
            res == channel_to_update(self.settings(), channel, updates),
    {
        if self.settings_ref().channel.wanted && updates {
            Some(RedisKey::Channel { id: channel })
        } else {
            None
        }
    }

    /// Stores a channel entry after its update.
    pub fn store_updated_channel(&mut self, channel: u64, guild: Option<u64>, bytes: &[u8])
        ensures
            final(self).cmds() == old(self).cmds() + store_updated_channel_cmds(
                old(self).settings(),
                channel,
                guild,
                bytes@,
            ),
            final(self).settings() == old(self).settings(),
            old(self).ignores_only_expires() ==> final(self).ignores_only_expires(),
    {
        let ghost start = self.cmds();
        let s = *self.settings_ref();
        self.set(RedisKey::Channel { id: channel }, bytes, s.channel.expire_seconds);
        if s.channel.expire_seconds.is_some() {
            self.store_meta(EntryKind::Channel, channel, opt_id_of(guild));
        }
        assert(self.cmds() =~= start + store_updated_channel_cmds(s, channel, guild, bytes@));
    }

    /// Removes a channel.
    pub fn delete_channel(&mut self, guild: Option<u64>, channel: u64)
        ensures
            final(self).cmds() == old(self).cmds() + delete_channel_cmds(
                old(self).settings(),
                guild,
                channel,
            ),
            final(self).settings() == old(self).settings(),
            old(self).ignores_only_expires() ==> final(self).ignores_only_expires(),
    {
        let ghost start = self.cmds();
        let s = *self.settings_ref();
        if s.channel.wanted {
            self.del_one(RedisKey::Channel { id: channel });
            if let Some(g) = guild {
                self.srem_one(RedisKey::GuildChannels { id: g }, channel);
            }
            self.srem_one(RedisKey::Channels, channel);
            if s.channel.expire_seconds.is_some() {
                self.del_one(RedisKey::ChannelMeta { id: channel });
            }
        }
        assert(self.cmds() =~= start + delete_channel_cmds(s, guild, channel));
    }
}

/// An optional id as the records hold it.
pub fn opt_id_of(id: Option<u64>) -> (res: u64)
    ensures
        res == opt_id(id),
{
    match id {
        Some(x) => x,
        None => 0,
    }
}

} // verus!
