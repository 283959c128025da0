//! Stickers.
use vstd::prelude::*;

use crate::cache::common::{store_keyed_cmds, EntryKind};
use crate::entries::StickerEntry;
use crate::pipe::Pipe;

verus! {

impl Pipe {
    /// Stores the stickers of `guild` at once, with a record of the guild for
    /// each when stickers expire.
    pub fn store_stickers(&mut self, guild: u64, stickers: &[StickerEntry])
        requires
            old(self).settings().valid(),
        ensures
            final(self).cmds() == old(self).cmds() + store_keyed_cmds(
                old(self).settings(),
                EntryKind::Sticker,
                guild,
                stickers@,
            ),
            final(self).settings() == old(self).settings(),
            old(self).ignores_only_expires() ==> final(self).ignores_only_expires(),
    {
        self.store_keyed(EntryKind::Sticker, guild, stickers);
    }
}

} // verus!
