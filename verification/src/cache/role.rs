//! Roles.
use vstd::prelude::*;

use crate::cache::common::{
    delete_keyed_cmds, keyed_ids, keyed_items, meta_commands, store_keyed_one_cmds, EntryKind,
    keyed_items_of,
};
use crate::config::CacheSettings;
use crate::entries::RoleEntry;
use crate::key::{key_bytes, RedisKey};
use crate::pipe::{cmd_sadd, mset_commands, Pipe};

verus! {

/// Storing the roles of a guild at once: first a record of the guild for
/// each role when roles expire, then the roles and their ids. Nothing if
/// there are none.
pub open spec fn store_roles_cmds(s: CacheSettings, guild: u64, roles: Seq<RoleEntry>) -> Seq<
    Seq<Seq<u8>>,
> {
    if s.role.wanted {
        (if s.role.expires() {
            meta_commands(EntryKind::Role, roles, guild)
        } else {
            Seq::empty()
        }) + (if roles.len() > 0 {
            mset_commands(keyed_items(EntryKind::Role, roles), s.role.expire_seconds) + seq![
                cmd_sadd(key_bytes(RedisKey::GuildRoles { id: guild }), keyed_ids(roles)),
                cmd_sadd(key_bytes(RedisKey::Roles), keyed_ids(roles)),
            ]
        } else {
            Seq::empty()
        })
    } else {
        Seq::empty()
    }
}

impl Pipe {
    /// Stores a role of `guild`.
    pub fn store_role(&mut self, guild: u64, role: &RoleEntry)
        ensures
            final(self).cmds() == old(self).cmds() + store_keyed_one_cmds(
                old(self).settings(),
                EntryKind::Role,
                guild,
                role.id,
                role.bytes@,
            ),
            final(self).settings() == old(self).settings(),
            old(self).ignores_only_expires() ==> final(self).ignores_only_expires(),
    {
        self.store_keyed_one(EntryKind::Role, guild, role.id, role.bytes.as_slice());
    }

    /// Stores the roles of `guild` at once.
    pub fn store_roles(&mut self, guild: u64, roles: &[RoleEntry])
        requires
            old(self).settings().valid(),
        ensures
            final(self).cmds() == old(self).cmds() + store_roles_cmds(
                old(self).settings(),
                guild,
                roles@,
            ),
            final(self).settings() == old(self).settings(),
            old(self).ignores_only_expires() ==> final(self).ignores_only_expires(),
    {
        let ghost start = self.cmds();
        let s = *self.settings_ref();
        if !s.role.wanted {
            assert(self.cmds() =~= start + store_roles_cmds(s, guild, roles@));
            return;
        }
        if s.role.expire_seconds.is_some() {
            self.store_metas(EntryKind::Role, roles, guild);
        }
        let ghost mid = self.cmds();
        let (items, ids) = keyed_items_of(EntryKind::Role, roles);
        if items.len() == 0 {
            assert(self.cmds() =~= start + store_roles_cmds(s, guild, roles@));
            return;
        }
        self.mset(items.as_slice(), s.role.expire_seconds);
        self.sadd(RedisKey::GuildRoles { id: guild }, ids.as_slice());
        self.sadd(RedisKey::Roles, ids.as_slice());
        assert(self.cmds() =~= start + store_roles_cmds(s, guild, roles@));
    }

    /// Removes a role of `guild`.
    pub fn delete_role(&mut self, guild: u64, role: u64)
        ensures
            final(self).cmds() == old(self).cmds() + delete_keyed_cmds(
                old(self).settings(),
                EntryKind::Role,
                guild,
                role,
            ),
            final(self).settings() == old(self).settings(),
            old(self).ignores_only_expires() ==> final(self).ignores_only_expires(),
    {
        self.delete_keyed(EntryKind::Role, guild, role);
    }
}

} // verus!
