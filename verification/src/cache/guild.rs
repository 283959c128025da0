//! Guilds: storing a guild with everything it comes with, and the first step
//! of removing guilds.
use vstd::prelude::*;

use crate::cache::channel::store_channels_cmds;
use crate::cache::common::{store_keyed_cmds, EntryKind};
use crate::cache::member::store_members_cmds;
use crate::cache::presence::store_presences_cmds;
use crate::cache::role::store_roles_cmds;
use crate::cache::voice_state::store_voice_states_cmds;
use crate::config::CacheSettings;
use crate::entries::{EmojiEntry, GuildEntry, RoleEntry};
use crate::key::{key_bytes, RedisKey};
use crate::pipe::{cmd_del, cmd_sadd, cmd_smembers, cmd_srem, key_texts, set_command, Pipe};

verus! {

/// Storing the entry of a guild: the entry, its id among the guilds, and its
/// id out of the unavailable guilds.
pub open spec fn store_guild_entry_cmds(s: CacheSettings, id: u64, bytes: Seq<u8>) -> Seq<
    Seq<Seq<u8>>,
> {
    if s.guild.wanted {
        seq![
            set_command(key_bytes(RedisKey::Guild { id }), bytes, s.guild.expire_seconds),
            cmd_sadd(key_bytes(RedisKey::Guilds), seq![id]),
            cmd_srem(key_bytes(RedisKey::UnavailableGuilds), seq![id]),
        ]
    } else {
        Seq::empty()
    }
}

/// Storing the channels, emojis and members of a guild.
pub open spec fn store_guild_parts_a_cmds(s: CacheSettings, g: GuildEntry) -> Seq<Seq<Seq<u8>>> {
    store_channels_cmds(s, g.id, g.channels@) + store_keyed_cmds(s, EntryKind::Emoji, g.id, g.emojis@)
        + store_members_cmds(s, g.id, g.members@)
}

/// Storing the presences, roles and stickers of a guild.
pub open spec fn store_guild_parts_b_cmds(s: CacheSettings, g: GuildEntry) -> Seq<Seq<Seq<u8>>> {
    store_presences_cmds(s, g.id, g.presences@) + store_roles_cmds(s, g.id, g.roles@)
        + store_keyed_cmds(s, EntryKind::Sticker, g.id, g.stickers@)
}

/// Storing the threads, stage instances and voice states of a guild.
pub open spec fn store_guild_parts_c_cmds(s: CacheSettings, g: GuildEntry) -> Seq<Seq<Seq<u8>>> {
    store_channels_cmds(s, g.id, g.threads@) + store_keyed_cmds(
        s,
        EntryKind::StageInstance,
        g.id,
        g.stage_instances@,
    ) + store_voice_states_cmds(s, g.id, g.voice_states@)
}

/// Storing the parts of a guild, each kind at once: channels, emojis,
/// members, presences, roles, stickers, threads, stage instances and voice
/// states.
pub open spec fn store_guild_parts_cmds(s: CacheSettings, g: GuildEntry) -> Seq<Seq<Seq<u8>>> {
    store_guild_parts_a_cmds(s, g) + store_guild_parts_b_cmds(s, g) + store_guild_parts_c_cmds(s, g)
}

/// Storing a guild: its entry, then everything it comes with.
pub open spec fn store_guild_cmds(s: CacheSettings, g: GuildEntry) -> Seq<Seq<Seq<u8>>> {
    store_guild_entry_cmds(s, g.id, g.bytes@) + store_guild_parts_cmds(s, g)
}

/// Handling a guild update: its emojis and roles, then its id among the
/// guilds and out of the unavailable guilds.
pub open spec fn store_guild_update_cmds(
    s: CacheSettings,
    guild: u64,
    emojis: Seq<EmojiEntry>,
    roles: Seq<RoleEntry>,
) -> Seq<Seq<Seq<u8>>> {
    store_keyed_cmds(s, EntryKind::Emoji, guild, emojis) + store_roles_cmds(s, guild, roles) + (
    if s.guild.wanted {
        seq![
            cmd_sadd(key_bytes(RedisKey::Guilds), seq![guild]),
            cmd_srem(key_bytes(RedisKey::UnavailableGuilds), seq![guild]),
        ]
    } else {
        Seq::empty()
    })
}

/// The guild entry to fetch for an update, if there is one to fetch.
pub open spec fn guild_to_update(s: CacheSettings, guild: u64, updates: bool) -> Option<RedisKey> {
    if s.guild.wanted && updates {
        Some(RedisKey::Guild { id: guild })
    } else {
        None
    }
}

/// The per-guild sets that removing a guild reads, in the order they are
/// read.
#[derive(Clone, Copy, Debug, PartialEq, Eq, Structural)]
pub enum GuildList {
    Members,
    Channels,
    Emojis,
    Integrations,
    Presences,
    Roles,
    StageInstances,
    Stickers,
    VoiceStates,
}

/// Whether the set `k` is read: members are read when members or users are
/// cached, each other set when its kind is.
pub open spec fn list_wanted(s: CacheSettings, k: GuildList) -> bool {
    match k {
        GuildList::Members => s.member.wanted || s.user.wanted,
        GuildList::Channels => s.channel.wanted,
        GuildList::Emojis => s.emoji.wanted,
        GuildList::Integrations => s.integration.wanted,
        GuildList::Presences => s.presence.wanted,
        GuildList::Roles => s.role.wanted,
        GuildList::StageInstances => s.stage_instance.wanted,
        GuildList::Stickers => s.sticker.wanted,
        GuildList::VoiceStates => s.voice_state.wanted,
    }
}

/// `k` as a one-element list if it is read.
pub open spec fn if_wanted(s: CacheSettings, k: GuildList) -> Seq<GuildList> {
    if list_wanted(s, k) {
        seq![k]
    } else {
        Seq::empty()
    }
}

/// The sets that removing a guild reads, in order.
pub open spec fn guild_lists(s: CacheSettings) -> Seq<GuildList> {
    if_wanted(s, GuildList::Members) + if_wanted(s, GuildList::Channels) + if_wanted(
        s,
        GuildList::Emojis,
    ) + if_wanted(s, GuildList::Integrations) + if_wanted(s, GuildList::Presences) + if_wanted(
        s,
        GuildList::Roles,
    ) + if_wanted(s, GuildList::StageInstances) + if_wanted(s, GuildList::Stickers) + if_wanted(
        s,
        GuildList::VoiceStates,
    )
}

/// The key of the set `k` of `guild`.
pub open spec fn guild_list_key(k: GuildList, guild: u64) -> RedisKey {
    match k {
        GuildList::Members => RedisKey::GuildMembers { id: guild },
        GuildList::Channels => RedisKey::GuildChannels { id: guild },
        GuildList::Emojis => RedisKey::GuildEmojis { id: guild },
        GuildList::Integrations => RedisKey::GuildIntegrations { id: guild },
        GuildList::Presences => RedisKey::GuildPresences { id: guild },
        GuildList::Roles => RedisKey::GuildRoles { id: guild },
        GuildList::StageInstances => RedisKey::GuildStageInstances { id: guild },
        GuildList::Stickers => RedisKey::GuildStickers { id: guild },
        GuildList::VoiceStates => RedisKey::GuildVoiceStates { id: guild },
    }
}

/// Reading the sets `kinds` of `guild`.
pub open spec fn smembers_cmds(kinds: Seq<GuildList>, guild: u64) -> Seq<Seq<Seq<u8>>> {
    kinds.map_values(|k: GuildList| cmd_smembers(key_bytes(guild_list_key(k, guild))))
}

/// Removing the entry of a guild and its id among the guilds.
pub open spec fn delete_guild_entry_cmds(s: CacheSettings, guild: u64) -> Seq<Seq<Seq<u8>>> {
    if s.guild.wanted {
        seq![
            cmd_del(seq![key_bytes(RedisKey::Guild { id: guild })]),
            cmd_srem(key_bytes(RedisKey::Guilds), seq![guild]),
        ]
    } else {
        Seq::empty()
    }
}

/// First step of removing a guild: reading its sets; if there is none to
/// read, removing the guild right away.
pub open spec fn delete_guild_start_cmds(s: CacheSettings, guild: u64) -> Seq<Seq<Seq<u8>>> {
    if guild_lists(s).len() == 0 {
        delete_guild_entry_cmds(s, guild)
    } else {
        smembers_cmds(guild_lists(s), guild)
    }
}

/// Reading the set `k` of each of `guilds`.
pub open spec fn smembers_each_cmds(k: GuildList, guilds: Seq<u64>) -> Seq<Seq<Seq<u8>>> {
    guilds.map_values(|g: u64| cmd_smembers(key_bytes(guild_list_key(k, g))))
}

/// Reading the sets `kinds` of all `guilds`: each set of every guild before
/// the next set.
pub open spec fn smembers_all_cmds(kinds: Seq<GuildList>, guilds: Seq<u64>) -> Seq<Seq<Seq<u8>>>
    decreases kinds.len(),
{
    if kinds.len() == 0 {
        Seq::empty()
    } else {
        smembers_all_cmds(kinds.drop_last(), guilds) + smembers_each_cmds(kinds.last(), guilds)
    }
}

/// Removing the entries of `guilds` and their ids among the guilds at once.
pub open spec fn delete_guild_entries_cmds(s: CacheSettings, guilds: Seq<u64>) -> Seq<
    Seq<Seq<u8>>,
> {
    if s.guild.wanted {
        seq![cmd_srem(key_bytes(RedisKey::Guilds), guilds)] + (if guilds.len() > 0 {
            seq![cmd_del(key_texts(guilds.map_values(|g: u64| RedisKey::Guild { id: g })))]
        } else {
            Seq::empty()
        })
    } else {
        Seq::empty()
    }
}

/// First step of removing several guilds: reading their sets; if there is
/// none to read, removing the guilds right away.
pub open spec fn delete_guilds_start_cmds(s: CacheSettings, guilds: Seq<u64>) -> Seq<
    Seq<Seq<u8>>,
> {
    if guild_lists(s).len() == 0 || guilds.len() == 0 {
        delete_guild_entries_cmds(s, guilds)
    } else {
        smembers_all_cmds(guild_lists(s), guilds)
    }
}

/// Whether the set `k` is read.
pub fn is_list_wanted(s: &CacheSettings, k: GuildList) -> (res: bool)
    ensures
        res == list_wanted(*s, k),
{
    match k {
        GuildList::Members => s.member.wanted || s.user.wanted,
        GuildList::Channels => s.channel.wanted,
        GuildList::Emojis => s.emoji.wanted,
        GuildList::Integrations => s.integration.wanted,
        GuildList::Presences => s.presence.wanted,
        GuildList::Roles => s.role.wanted,
        GuildList::StageInstances => s.stage_instance.wanted,
        GuildList::Stickers => s.sticker.wanted,
        GuildList::VoiceStates => s.voice_state.wanted,
    }
}

/// Appends `k` if it is read.
fn push_if_wanted(v: &mut Vec<GuildList>, s: &CacheSettings, k: GuildList)
    ensures
        final(v)@ == old(v)@ + if_wanted(*s, k),
{
    if is_list_wanted(s, k) {
        v.push(k);
        assert(final(v)@ =~= old(v)@ + if_wanted(*s, k));
    } else {
        assert(v@ =~= old(v)@ + if_wanted(*s, k));
    }
}

/// The sets that removing a guild reads, in order.
pub fn guild_lists_of(s: &CacheSettings) -> (res: Vec<GuildList>)
    ensures
        res@ == guild_lists(*s),
{
    let mut v: Vec<GuildList> = Vec::new();
    push_if_wanted(&mut v, s, GuildList::Members);
    push_if_wanted(&mut v, s, GuildList::Channels);
    push_if_wanted(&mut v, s, GuildList::Emojis);
    push_if_wanted(&mut v, s, GuildList::Integrations);
    push_if_wanted(&mut v, s, GuildList::Presences);
    push_if_wanted(&mut v, s, GuildList::Roles);
    push_if_wanted(&mut v, s, GuildList::StageInstances);
    push_if_wanted(&mut v, s, GuildList::Stickers);
    push_if_wanted(&mut v, s, GuildList::VoiceStates);
    assert(Seq::<GuildList>::empty() + if_wanted(*s, GuildList::Members) =~= if_wanted(*s, GuildList::Members));
    v
}

impl GuildList {
    /// The key of this set of `guild`.
    pub fn key(self, guild: u64) -> (res: RedisKey)
        ensures
            res == guild_list_key(self, guild),
    {
        match self {
            GuildList::Members => RedisKey::GuildMembers { id: guild },
            GuildList::Channels => RedisKey::GuildChannels { id: guild },
            GuildList::Emojis => RedisKey::GuildEmojis { id: guild },
            GuildList::Integrations => RedisKey::GuildIntegrations { id: guild },
            GuildList::Presences => RedisKey::GuildPresences { id: guild },
            GuildList::Roles => RedisKey::GuildRoles { id: guild },
            GuildList::StageInstances => RedisKey::GuildStageInstances { id: guild },
            GuildList::Stickers => RedisKey::GuildStickers { id: guild },
            GuildList::VoiceStates => RedisKey::GuildVoiceStates { id: guild },
        }
    }
}

impl Pipe {
    /// Stores a guild with everything it comes with.
    pub fn store_guild(&mut self, guild: &GuildEntry)
        requires
            old(self).settings().valid(),
        ensures
            final(self).cmds() == old(self).cmds() + store_guild_cmds(old(self).settings(), *guild),
            final(self).settings() == old(self).settings(),
            old(self).ignores_only_expires() ==> final(self).ignores_only_expires(),
    {
        let ghost start = self.cmds();
        let s = *self.settings_ref();
        let id = guild.id;
        if s.guild.wanted {
            self.set(RedisKey::Guild { id }, guild.bytes.as_slice(), s.guild.expire_seconds);
            self.sadd_one(RedisKey::Guilds, id);
            self.srem_one(RedisKey::UnavailableGuilds, id);
        }
        assert(self.cmds() =~= start + store_guild_entry_cmds(s, id, guild.bytes@));
        let ghost mid = self.cmds();
        self.store_guild_parts(guild);
        assert(self.cmds() =~= start + store_guild_cmds(s, *guild));
    }

    /// Stores the parts of a guild, each kind at once.
    fn store_guild_parts(&mut self, guild: &GuildEntry)
        requires
            old(self).settings().valid(),
        ensures
            final(self).cmds() == old(self).cmds() + store_guild_parts_cmds(
                old(self).settings(),
                *guild,
            ),
            final(self).settings() == old(self).settings(),
            old(self).ignores_only_expires() ==> final(self).ignores_only_expires(),
    {
        let ghost s = self.settings();
        let ghost c0 = self.cmds();
        self.store_guild_parts_a(guild);
        self.store_guild_parts_b(guild);
        self.store_guild_parts_c(guild);
        proof {
            let a = store_guild_parts_a_cmds(s, *guild);
            let b = store_guild_parts_b_cmds(s, *guild);
            let c = store_guild_parts_c_cmds(s, *guild);
            assert(c0 + a + b + c =~= c0 + (a + b + c));
        }
    }

    /// Stores the channels, emojis and members of a guild.
    fn store_guild_parts_a(&mut self, guild: &GuildEntry)
        requires
            old(self).settings().valid(),
        ensures
            final(self).cmds() == old(self).cmds() + store_guild_parts_a_cmds(
                old(self).settings(),
                *guild,
            ),
            final(self).settings() == old(self).settings(),
            old(self).ignores_only_expires() ==> final(self).ignores_only_expires(),
    {
        let ghost s = self.settings();
        let ghost c0 = self.cmds();
        let id = guild.id;
        self.store_channels(id, guild.channels.as_slice());
        self.store_emojis(id, guild.emojis.as_slice());
        self.store_members(id, guild.members.as_slice());
        proof {
            let a = store_channels_cmds(s, id, guild.channels@);
            let b = store_keyed_cmds(s, EntryKind::Emoji, id, guild.emojis@);
            let c = store_members_cmds(s, id, guild.members@);
            assert(c0 + a + b + c =~= c0 + (a + b + c));
        }
    }

    /// Stores the presences, roles and stickers of a guild.
    fn store_guild_parts_b(&mut self, guild: &GuildEntry)
        requires
            old(self).settings().valid(),
        ensures
            final(self).cmds() == old(self).cmds() + store_guild_parts_b_cmds(
                old(self).settings(),
                *guild,
            ),
            final(self).settings() == old(self).settings(),
            old(self).ignores_only_expires() ==> final(self).ignores_only_expires(),
    {
        let ghost s = self.settings();
        let ghost c0 = self.cmds();
        let id = guild.id;
        self.store_presences(id, guild.presences.as_slice());
        self.store_roles(id, guild.roles.as_slice());
        self.store_stickers(id, guild.stickers.as_slice());
        proof {
            let a = store_presences_cmds(s, id, guild.presences@);
            let b = store_roles_cmds(s, id, guild.roles@);
            let c = store_keyed_cmds(s, EntryKind::Sticker, id, guild.stickers@);
            assert(c0 + a + b + c =~= c0 + (a + b + c));
        }
    }

    /// Stores the threads, stage instances and voice states of a guild.
    fn store_guild_parts_c(&mut self, guild: &GuildEntry)
        requires
            old(self).settings().valid(),
        ensures
            final(self).cmds() == old(self).cmds() + store_guild_parts_c_cmds(
                old(self).settings(),
                *guild,
            ),
            final(self).settings() == old(self).settings(),
            old(self).ignores_only_expires() ==> final(self).ignores_only_expires(),
    {
        let ghost s = self.settings();
        let ghost c0 = self.cmds();
        let id = guild.id;
        self.store_channels(id, guild.threads.as_slice());
        self.store_stage_instances(id, guild.stage_instances.as_slice());
        self.store_voice_states(id, guild.voice_states.as_slice());
        proof {
            let a = store_channels_cmds(s, id, guild.threads@);
            let b = store_keyed_cmds(s, EntryKind::StageInstance, id, guild.stage_instances@);
            let c = store_voice_states_cmds(s, id, guild.voice_states@);
            assert(c0 + a + b + c =~= c0 + (a + b + c));
        }
    }

    /// First step of a guild update: stores its emojis and roles and marks
    /// the guild available. Returns the key of the guild entry to fetch and
    /// update, if the configured guild type handles guild updates.
    pub fn store_guild_update(
        &mut self,
        guild: u64,
        emojis: &[EmojiEntry],
        roles: &[RoleEntry],
        updates: bool,
    ) -> (res: Option<RedisKey>)
        requires
            old(self).settings().valid(),
        ensures
            final(self).cmds() == old(self).cmds() + store_guild_update_cmds(
                old(self).settings(),
                guild,
                emojis@,
                roles@,
            ),
            final(self).settings() == old(self).settings(),
            res == guild_to_update(old(self).settings(), guild, updates),
            old(self).ignores_only_expires() ==> final(self).ignores_only_expires(),
    {
        let ghost start = self.cmds();
        let s = *self.settings_ref();
        self.store_emojis(guild, emojis);
        self.store_roles(guild, roles);
        let ghost mid = self.cmds();
        if !s.guild.wanted {
            assert(self.cmds() =~= start + store_guild_update_cmds(s, guild, emojis@, roles@));
            return None;
        }
        self.sadd_one(RedisKey::Guilds, guild);
        self.srem_one(RedisKey::UnavailableGuilds, guild);
        assert(self.cmds() =~= start + store_guild_update_cmds(s, guild, emojis@, roles@));
        if updates {
            Some(RedisKey::Guild { id: guild })
        } else {
            None
        }
    }

    /// Stores a guild entry after its update.
    pub fn store_updated_guild(&mut self, guild: u64, bytes: &[u8])
        ensures
            final(self).cmds() == old(self).cmds().push(
                set_command(
                    key_bytes(RedisKey::Guild { id: guild }),
                    bytes@,
                    old(self).settings().guild.expire_seconds,
                ),
            ),
            final(self).settings() == old(self).settings(),
            old(self).ignores_only_expires() ==> final(self).ignores_only_expires(),
    {
        let s = *self.settings_ref();
        self.set(RedisKey::Guild { id: guild }, bytes, s.guild.expire_seconds);
    }

    /// First step of removing a guild: asks for the sets of the guild that
    /// are cached, in the order of [`guild_lists`]. Returns whether their
    /// members must be fetched before the next step; if there is no set to
    /// read, the guild is removed right away and there is no next step.
    pub fn delete_guild_start(&mut self, guild: u64) -> (res: bool)
        ensures
            final(self).cmds() == old(self).cmds() + delete_guild_start_cmds(
                old(self).settings(),
                guild,
            ),
            final(self).ignored() == old(self).ignored(),
            final(self).settings() == old(self).settings(),
            res == (guild_lists(old(self).settings()).len() > 0),
    {
        let ghost start = self.cmds();
        let s = *self.settings_ref();
        let kinds = guild_lists_of(&s);
        if kinds.len() == 0 {
            if s.guild.wanted {
                self.del_one(RedisKey::Guild { id: guild });
                self.srem_one(RedisKey::Guilds, guild);
            }
            assert(self.cmds() =~= start + delete_guild_start_cmds(s, guild));
            return false;
        }
        let mut i: usize = 0;
        while i < kinds.len()
            invariant
                i <= kinds@.len(),
                kinds@ == guild_lists(s),
                self.cmds() == start + smembers_cmds(kinds@.take(i as int), guild),
                self.ignored() == old(self).ignored(),
                self.settings() == s,
            decreases kinds@.len() - i,
        {
            self.smembers(kinds[i].key(guild));
            assert(kinds@.take(i + 1) =~= kinds@.take(i as int).push(kinds@[i as int]));
            assert(smembers_cmds(kinds@.take(i + 1), guild) =~= smembers_cmds(
                kinds@.take(i as int),
                guild,
            ).push(cmd_smembers(key_bytes(guild_list_key(kinds@[i as int], guild)))));
            i = i + 1;
        }
        assert(kinds@.take(i as int) =~= kinds@);
        true
    }

    /// Asks for the set `k` of each guild.
    fn smembers_each(&mut self, k: GuildList, guilds: &[u64])
        ensures
            final(self).cmds() == old(self).cmds() + smembers_each_cmds(k, guilds@),
            final(self).ignored() == old(self).ignored(),
            final(self).settings() == old(self).settings(),
    {
        let ghost start = self.cmds();
        let mut i: usize = 0;
        while i < guilds.len()
            invariant
                i <= guilds@.len(),
                self.cmds() == start + smembers_each_cmds(k, guilds@.take(i as int)),
                self.ignored() == old(self).ignored(),
                self.settings() == old(self).settings(),
            decreases guilds@.len() - i,
        {
            self.smembers(k.key(guilds[i]));
            assert(guilds@.take(i + 1) =~= guilds@.take(i as int).push(guilds@[i as int]));
            assert(smembers_each_cmds(k, guilds@.take(i + 1)) =~= smembers_each_cmds(
                k,
                guilds@.take(i as int),
            ).push(cmd_smembers(key_bytes(guild_list_key(k, guilds@[i as int])))));
            i = i + 1;
        }
        assert(guilds@.take(i as int) =~= guilds@);
    }

    /// Asks for the sets `kinds` of all guilds, each set of every guild
    /// before the next set.
    fn smembers_all(&mut self, kinds: &[GuildList], guilds: &[u64])
        ensures
            final(self).cmds() == old(self).cmds() + smembers_all_cmds(kinds@, guilds@),
            final(self).ignored() == old(self).ignored(),
            final(self).settings() == old(self).settings(),
    {
        let ghost start = self.cmds();
        let mut i: usize = 0;
        while i < kinds.len()
            invariant
                i <= kinds@.len(),
                self.cmds() == start + smembers_all_cmds(kinds@.take(i as int), guilds@),
                self.ignored() == old(self).ignored(),
                self.settings() == old(self).settings(),
            decreases kinds@.len() - i,
        {
            self.smembers_each(kinds[i], guilds);
            proof {
                let prev = kinds@.take(i as int);
                let next = kinds@.take(i + 1);
                assert(next.drop_last() =~= prev);
                assert(next.last() == kinds@[i as int]);
                assert(start + smembers_all_cmds(prev, guilds@) + smembers_each_cmds(
                    kinds@[i as int],
                    guilds@,
                ) =~= start + smembers_all_cmds(next, guilds@));
            }
            i = i + 1;
        }
        assert(kinds@.take(i as int) =~= kinds@);
    }

    /// Removes the entries of `guilds` and their ids among the guilds.
    pub fn delete_guild_entries(&mut self, guilds: &[u64])
        ensures
            final(self).cmds() == old(self).cmds() + delete_guild_entries_cmds(
                old(self).settings(),
                guilds@,
            ),
            final(self).ignored() == old(self).ignored(),
            final(self).settings() == old(self).settings(),
    {
        let ghost start = self.cmds();
        let s = *self.settings_ref();
        if !s.guild.wanted {
            assert(self.cmds() =~= start + delete_guild_entries_cmds(s, guilds@));
            return;
        }
        self.srem(RedisKey::Guilds, guilds);
        if guilds.len() > 0 {
            let mut keys: Vec<RedisKey> = Vec::new();
            let mut i: usize = 0;
            while i < guilds.len()
                invariant
                    i <= guilds@.len(),
                    keys@ == guilds@.take(i as int).map_values(|g: u64| RedisKey::Guild { id: g }),
                decreases guilds@.len() - i,
            {
                keys.push(RedisKey::Guild { id: guilds[i] });
                assert(guilds@.take(i + 1) =~= guilds@.take(i as int).push(guilds@[i as int]));
                assert(keys@ =~= guilds@.take(i + 1).map_values(|g: u64| RedisKey::Guild { id: g }));
                i = i + 1;
            }
            assert(guilds@.take(i as int) =~= guilds@);
            self.del(keys.as_slice());
        }
        assert(self.cmds() =~= start + delete_guild_entries_cmds(s, guilds@));
    }

    /// First step of removing several guilds: asks for the sets of every
    /// guild that are cached, each set of all guilds before the next set.
    /// Returns whether their members must be fetched before the next step;
    /// if there is nothing to read, the guilds are removed right away and
    /// there is no next step.
    pub fn delete_guilds_start(&mut self, guilds: &[u64]) -> (res: bool)
        ensures
            final(self).cmds() == old(self).cmds() + delete_guilds_start_cmds(
                old(self).settings(),
                guilds@,
            ),
            final(self).ignored() == old(self).ignored(),
            final(self).settings() == old(self).settings(),
            res == (guild_lists(old(self).settings()).len() > 0 && guilds@.len() > 0),
    {
        let ghost start = self.cmds();
        let s = *self.settings_ref();
        let kinds = guild_lists_of(&s);
        if kinds.len() == 0 || guilds.len() == 0 {
            self.delete_guild_entries(guilds);
            return false;
        }
        self.smembers_all(kinds.as_slice(), guilds);
        true
    }

    /// Marks a guild unavailable once it was removed.
    pub fn store_unavailable_guild(&mut self, guild: u64)
        ensures
            final(self).cmds() == old(self).cmds() + (if old(self).settings().guild.wanted {
                seq![cmd_sadd(key_bytes(RedisKey::UnavailableGuilds), seq![guild])]
            } else {
                Seq::empty()
            }),
            final(self).settings() == old(self).settings(),
            old(self).ignores_only_expires() ==> final(self).ignores_only_expires(),
    {
        let ghost start = self.cmds();
        if self.settings_ref().guild.wanted {
            self.sadd_one(RedisKey::UnavailableGuilds, guild);
        }
        assert(self.cmds() =~= start + (if self.settings().guild.wanted {
            seq![cmd_sadd(key_bytes(RedisKey::UnavailableGuilds), seq![guild])]
        } else {
            Seq::empty()
        }));
    }

    /// Marks several guilds unavailable once they were removed.
    pub fn store_unavailable_guilds(&mut self, guilds: &[u64])
        ensures
            final(self).cmds() == old(self).cmds() + (if old(self).settings().guild.wanted {
                seq![cmd_sadd(key_bytes(RedisKey::UnavailableGuilds), guilds@)]
            } else {
                Seq::empty()
            }),
            final(self).settings() == old(self).settings(),
            old(self).ignores_only_expires() ==> final(self).ignores_only_expires(),
    {
        let ghost start = self.cmds();
        if self.settings_ref().guild.wanted {
            self.sadd(RedisKey::UnavailableGuilds, guilds);
        }
        assert(self.cmds() =~= start + (if self.settings().guild.wanted {
            seq![cmd_sadd(key_bytes(RedisKey::UnavailableGuilds), guilds@)]
        } else {
            Seq::empty()
        }));
    }
}

} // verus!
