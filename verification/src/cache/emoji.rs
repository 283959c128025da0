//! Emojis.
use vstd::prelude::*;

use crate::cache::common::{store_keyed_cmds, EntryKind};
use crate::entries::EmojiEntry;
use crate::pipe::Pipe;

verus! {

impl Pipe {
    /// Stores the emojis of `guild` at once, with a record of the guild for
    /// each when emojis expire.
    pub fn store_emojis(&mut self, guild: u64, emojis: &[EmojiEntry])
        requires
            old(self).settings().valid(),
        ensures
            final(self).cmds() == old(self).cmds() + store_keyed_cmds(
                old(self).settings(),
                EntryKind::Emoji,
                guild,
                emojis@,
            ),
            final(self).settings() == old(self).settings(),
            old(self).ignores_only_expires() ==> final(self).ignores_only_expires(),
    {
        self.store_keyed(EntryKind::Emoji, guild, emojis);
    }
}

} // verus!
