//! Voice states.
use vstd::prelude::*;

use crate::cache::member::store_member_cmds;
use crate::config::CacheSettings;
use crate::entries::VoiceStateEntry;
use crate::key::{key_bytes, RedisKey};
use crate::pipe::{cmd_del, cmd_sadd, cmd_srem, entry_views, mset_commands, set_command, Pipe};

verus! {

/// The voice states that are connected to a channel; only those are stored.
pub open spec fn connected(states: Seq<VoiceStateEntry>) -> Seq<VoiceStateEntry>
    decreases states.len(),
{
    if states.len() == 0 {
        Seq::empty()
    } else {
        let rest = connected(states.drop_last());
        if states.last().channel_id is Some {
            rest.push(states.last())
        } else {
            rest
        }
    }
}

/// The entries that storing `states` of `guild` writes.
pub open spec fn voice_state_items(guild: u64, states: Seq<VoiceStateEntry>) -> Seq<
    (RedisKey, Seq<u8>),
> {
    states.map_values(
        |v: VoiceStateEntry| (RedisKey::VoiceState { guild, user: v.user_id }, v.bytes@),
    )
}

/// The user ids of `states`.
pub open spec fn voice_state_user_ids(states: Seq<VoiceStateEntry>) -> Seq<u64> {
    states.map_values(|v: VoiceStateEntry| v.user_id)
}

/// Storing a voice state of `guild`: its entry and its place in the guild,
/// then its member.
pub open spec fn store_voice_state_cmds(s: CacheSettings, guild: u64, v: VoiceStateEntry) -> Seq<
    Seq<Seq<u8>>,
> {
    (if s.voice_state.wanted {
        seq![
            set_command(
                key_bytes(RedisKey::VoiceState { guild, user: v.user_id }),
                v.bytes@,
                s.voice_state.expire_seconds,
            ),
            cmd_sadd(key_bytes(RedisKey::GuildVoiceStates { id: guild }), seq![v.user_id]),
        ]
    } else {
        Seq::empty()
    }) + match v.member {
        Some(member) => store_member_cmds(s, guild, member),
        None => Seq::empty(),
    }
}

/// Storing the voice states of a guild that are connected to a channel.
pub open spec fn store_voice_states_cmds(
    s: CacheSettings,
    guild: u64,
    states: Seq<VoiceStateEntry>,
) -> Seq<Seq<Seq<u8>>> {
    let c = connected(states);
    if s.voice_state.wanted && c.len() > 0 {
        mset_commands(voice_state_items(guild, c), s.voice_state.expire_seconds) + seq![
            cmd_sadd(key_bytes(RedisKey::GuildVoiceStates { id: guild }), voice_state_user_ids(c)),
        ]
    } else {
        Seq::empty()
    }
}

/// Removing a voice state of `guild`.
pub open spec fn delete_voice_state_cmds(s: CacheSettings, guild: u64, user: u64) -> Seq<
    Seq<Seq<u8>>,
> {
    if s.voice_state.wanted {
        seq![
            cmd_del(seq![key_bytes(RedisKey::VoiceState { guild, user })]),
            cmd_srem(key_bytes(RedisKey::GuildVoiceStates { id: guild }), seq![user]),
        ]
    } else {
        Seq::empty()
    }
}

/// Collects the entries and user ids of the connected voice states.
fn voice_state_items_of(guild: u64, states: &[VoiceStateEntry]) -> (res: (
    Vec<(RedisKey, Vec<u8>)>,
    Vec<u64>,
))
    ensures
        entry_views(res.0@) == voice_state_items(guild, connected(states@)),
        res.1@ == voice_state_user_ids(connected(states@)),
{
    let mut items: Vec<(RedisKey, Vec<u8>)> = Vec::new();
    let mut ids: Vec<u64> = Vec::new();
    let mut i: usize = 0;
    while i < states.len()
        invariant
            i <= states@.len(),
            entry_views(items@) == voice_state_items(guild, connected(states@.take(i as int))),
            ids@ == voice_state_user_ids(connected(states@.take(i as int))),
        decreases states@.len() - i,
    {
        let v = &states[i];
        assert(states@.take(i + 1).drop_last() =~= states@.take(i as int));
        assert(states@.take(i + 1).last() == states@[i as int]);
        if v.channel_id.is_some() {
            let key = RedisKey::VoiceState { guild, user: v.user_id };
            let ghost before_items = items@;
            let ghost c = connected(states@.take(i as int));
            items.push((key, v.bytes.clone()));
            ids.push(v.user_id);
            assert(entry_views(items@) =~= entry_views(before_items).push((key, v.bytes@)));
            assert(voice_state_items(guild, c.push(*v)) =~= voice_state_items(guild, c).push(
                (key, v.bytes@),
            ));
            assert(voice_state_user_ids(c.push(*v)) =~= voice_state_user_ids(c).push(v.user_id));
        }
        i = i + 1;
    }
    assert(states@.take(i as int) =~= states@);
    (items, ids)
}

impl Pipe {
    /// Stores a voice state of `guild` and its member, if any.
    pub fn store_voice_state(&mut self, guild: u64, state: &VoiceStateEntry)
        ensures
            final(self).cmds() == old(self).cmds() + store_voice_state_cmds(
                old(self).settings(),
                guild,
                *state,
            ),
            final(self).settings() == old(self).settings(),
            old(self).ignores_only_expires() ==> final(self).ignores_only_expires(),
    {
        let ghost start = self.cmds();
        let s = *self.settings_ref();
        if s.voice_state.wanted {
            self.set(
                RedisKey::VoiceState { guild, user: state.user_id },
                state.bytes.as_slice(),
                s.voice_state.expire_seconds,
            );
            self.sadd_one(RedisKey::GuildVoiceStates { id: guild }, state.user_id);
        }
        let ghost mid = self.cmds();
        if let Some(member) = &state.member {
            self.store_member(guild, member);
        }
        assert(self.cmds() =~= start + store_voice_state_cmds(s, guild, *state));
    }

    /// Stores the voice states of `guild` that are connected to a channel.
    pub fn store_voice_states(&mut self, guild: u64, states: &[VoiceStateEntry])
        requires
            old(self).settings().valid(),
        ensures
            final(self).cmds() == old(self).cmds() + store_voice_states_cmds(
                old(self).settings(),
                guild,
                states@,
            ),
            final(self).settings() == old(self).settings(),
            old(self).ignores_only_expires() ==> final(self).ignores_only_expires(),
    {
        let ghost start = self.cmds();
        let s = *self.settings_ref();
        if !s.voice_state.wanted {
            assert(self.cmds() =~= start + store_voice_states_cmds(s, guild, states@));
            return;
        }
        let (items, ids) = voice_state_items_of(guild, states);
        if items.len() == 0 {
            assert(self.cmds() =~= start + store_voice_states_cmds(s, guild, states@));
            return;
        }
        self.mset(items.as_slice(), s.voice_state.expire_seconds);
        self.sadd(RedisKey::GuildVoiceStates { id: guild }, ids.as_slice());
        assert(self.cmds() =~= start + store_voice_states_cmds(s, guild, states@));
    }

    /// Removes the voice state of `user` in `guild`.
    pub fn delete_voice_state(&mut self, guild: u64, user: u64)
        ensures
            final(self).cmds() == old(self).cmds() + delete_voice_state_cmds(
                old(self).settings(),
                guild,
                user,
            ),
            final(self).settings() == old(self).settings(),
            old(self).ignores_only_expires() ==> final(self).ignores_only_expires(),
    {
        let ghost start = self.cmds();
        let s = *self.settings_ref();
        if s.voice_state.wanted {
            self.del_one(RedisKey::VoiceState { guild, user });
            self.srem_one(RedisKey::GuildVoiceStates { id: guild }, user);
        }
        assert(self.cmds() =~= start + delete_voice_state_cmds(s, guild, user));
    }
}

} // verus!
