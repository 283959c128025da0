//! Stage instances.
use vstd::prelude::*;

use crate::cache::common::{delete_keyed_cmds, store_keyed_cmds, store_keyed_one_cmds, EntryKind};
use crate::entries::StageInstanceEntry;
use crate::pipe::Pipe;

verus! {

impl Pipe {
    /// Stores a stage instance, under the guild it names.
    pub fn store_stage_instance(&mut self, stage: &StageInstanceEntry)
        ensures
            final(self).cmds() == old(self).cmds() + store_keyed_one_cmds(
                old(self).settings(),
                EntryKind::StageInstance,
                stage.guild_id,
                stage.id,
                stage.bytes@,
            ),
            final(self).settings() == old(self).settings(),
            old(self).ignores_only_expires() ==> final(self).ignores_only_expires(),
    {
        self.store_keyed_one(
            EntryKind::StageInstance,
            stage.guild_id,
            stage.id,
            stage.bytes.as_slice(),
        );
    }

    /// Stores the stage instances of `guild` at once.
    pub fn store_stage_instances(&mut self, guild: u64, stages: &[StageInstanceEntry])
        requires
            old(self).settings().valid(),
        ensures
            final(self).cmds() == old(self).cmds() + store_keyed_cmds(
                old(self).settings(),
                EntryKind::StageInstance,
                guild,
                stages@,
            ),
            final(self).settings() == old(self).settings(),
            old(self).ignores_only_expires() ==> final(self).ignores_only_expires(),
    {
        self.store_keyed(EntryKind::StageInstance, guild, stages);
    }

    /// Removes a stage instance of `guild`.
    pub fn delete_stage_instance(&mut self, guild: u64, stage: u64)
        ensures
            final(self).cmds() == old(self).cmds() + delete_keyed_cmds(
                old(self).settings(),
                EntryKind::StageInstance,
                guild,
                stage,
            ),
            final(self).settings() == old(self).settings(),
            old(self).ignores_only_expires() ==> final(self).ignores_only_expires(),
    {
        self.delete_keyed(EntryKind::StageInstance, guild, stage);
    }
}

} // verus!
