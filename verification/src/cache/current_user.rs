//! The current user.
use vstd::prelude::*;

use crate::config::CacheSettings;
use crate::key::{key_bytes, RedisKey};
use crate::pipe::{set_command, Pipe};

verus! {

/// Storing the current user's entry.
pub open spec fn store_current_user_cmds(s: CacheSettings, bytes: Seq<u8>) -> Seq<Seq<Seq<u8>>> {
    if s.current_user.wanted {
        seq![
            set_command(
                key_bytes(RedisKey::CurrentUser),
                bytes,
                s.current_user.expire_seconds,
            ),
        ]
    } else {
        Seq::empty()
    }
}

impl Pipe {
    /// Stores the current user, as the configured type serialized it.
    pub fn store_current_user(&mut self, bytes: &[u8])
        ensures
            final(self).cmds() == old(self).cmds() + store_current_user_cmds(
                old(self).settings(),
                bytes@,
            ),
            final(self).settings() == old(self).settings(),
            old(self).ignores_only_expires() ==> final(self).ignores_only_expires(),
    {
        let ghost start = self.cmds();
        let s = *self.settings_ref();
        if s.current_user.wanted {
            self.set(RedisKey::CurrentUser, bytes, s.current_user.expire_seconds);
        }
        assert(self.cmds() =~= start + store_current_user_cmds(s, bytes@));
    }
}

} // verus!
