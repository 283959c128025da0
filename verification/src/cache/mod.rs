//! The commands that the cache sends for each kind of entry.
pub mod user;
pub mod member;
pub mod common;
pub mod emoji;
pub mod role;
pub mod stage_instance;
pub mod sticker;
pub mod presence;
pub mod scheduled_event;
pub mod current_user;
pub mod integration;
pub mod voice_state;
pub mod channel;
pub mod message;
pub mod guild;
pub mod guild_delete;
pub mod guilds_delete;
pub mod interaction;
