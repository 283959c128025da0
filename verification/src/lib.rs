//! A cache for the data of a chat gateway's events, kept in a key-value
//! store: the keys it uses, the commands it sends for each event, and how it
//! cleans up when stored entries expire.
pub mod decimal;
pub mod key;
pub mod segments;
pub mod meta;
pub mod config;
pub mod pipe;
pub mod entries;
pub mod cache;
pub mod archive;
pub mod error;
pub mod expire;
pub mod listen;
pub mod metrics;
pub mod update;
pub mod iter;
pub mod resume;
pub mod laws;
pub mod removal_laws;
pub mod key_laws;
pub mod guild_laws;
pub mod removal_keys;
pub mod channel_laws;
pub mod effect_laws;
