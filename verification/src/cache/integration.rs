//! Guild integrations.
use vstd::prelude::*;

use crate::cache::user::store_user_cmds;
use crate::config::CacheSettings;
use crate::entries::IntegrationEntry;
use crate::key::{key_bytes, RedisKey};
use crate::pipe::{cmd_del, cmd_sadd, cmd_srem, set_command, Pipe};

verus! {

/// Storing an integration of `guild`: its entry and its place in the guild,
/// then its user.
pub open spec fn store_integration_cmds(s: CacheSettings, guild: u64, i: IntegrationEntry) -> Seq<
    Seq<Seq<u8>>,
> {
    (if s.integration.wanted {
        seq![
            set_command(
                key_bytes(RedisKey::Integration { guild, id: i.id }),
                i.bytes@,
                s.integration.expire_seconds,
            ),
            cmd_sadd(key_bytes(RedisKey::GuildIntegrations { id: guild }), seq![i.id]),
        ]
    } else {
        Seq::empty()
    }) + match i.user {
        Some(user) => store_user_cmds(s, user),
        None => Seq::empty(),
    }
}

/// Removing an integration of `guild`.
pub open spec fn delete_integration_cmds(s: CacheSettings, guild: u64, id: u64) -> Seq<
    Seq<Seq<u8>>,
> {
    if s.integration.wanted {
        seq![
            cmd_del(seq![key_bytes(RedisKey::Integration { guild, id })]),
            cmd_srem(key_bytes(RedisKey::GuildIntegrations { id: guild }), seq![id]),
        ]
    } else {
        Seq::empty()
    }
}

impl Pipe {
    /// Stores an integration of `guild` and its user, if any.
    pub fn store_integration(&mut self, guild: u64, integration: &IntegrationEntry)
        ensures
            final(self).cmds() == old(self).cmds() + store_integration_cmds(
                old(self).settings(),
                guild,
                *integration,
            ),
            final(self).settings() == old(self).settings(),
            old(self).ignores_only_expires() ==> final(self).ignores_only_expires(),
    {
        let ghost start = self.cmds();
        let s = *self.settings_ref();
        if s.integration.wanted {
            self.set(
                RedisKey::Integration { guild, id: integration.id },
                integration.bytes.as_slice(),
                s.integration.expire_seconds,
            );
            self.sadd_one(RedisKey::GuildIntegrations { id: guild }, integration.id);
        }
        let ghost mid = self.cmds();
        if let Some(user) = &integration.user {
            self.store_user(user);
        }
        assert(self.cmds() =~= start + store_integration_cmds(s, guild, *integration));
    }

    /// Removes an integration of `guild`.
    pub fn delete_integration(&mut self, guild: u64, id: u64)
        ensures
            final(self).cmds() == old(self).cmds() + delete_integration_cmds(
                old(self).settings(),
                guild,
                id,
            ),
            final(self).settings() == old(self).settings(),
            old(self).ignores_only_expires() ==> final(self).ignores_only_expires(),
    {
        let ghost start = self.cmds();
        let s = *self.settings_ref();
        if s.integration.wanted {
            self.del_one(RedisKey::Integration { guild, id });
            self.srem_one(RedisKey::GuildIntegrations { id: guild }, id);
        }
        assert(self.cmds() =~= start + delete_integration_cmds(s, guild, id));
    }
}

} // verus!
