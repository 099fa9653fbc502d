//! Verified core of the board relay and of its cluster operator.
//!
//! Relay: `intent`, `requests`, `send`, `moderation` check and complete the
//! intents users sign; `event`, `bbcode`, `codec`, `tripcode`, `text`,
//! `ipv4` read and write their parts; `realtime`, `observer`, `invalidate`, `board`,
//! `content`, `cache`, `tiers`, `projection` serve and cache the forum's
//! state; `media` checks uploads; `config`, `keys`, `error` set the relay
//! up. Import of old boards:
//! `dump`, `migrate`, `payload`, `replay`. Operator: `operator`, `workflow`, `pod`,
//! `node_config`, `common`. The calls into outside crates and std that
//! Verus takes on trust sit in small wrappers in `digest`, `sui`, `codec`,
//! `tripcode`, `requests`, `realtime`, `operator`, `dump`, `media` and `text`.
pub mod error;
pub mod event;
pub mod text;
pub mod intent;
pub mod realtime;
pub mod bbcode;
pub mod codec;
pub mod digest;
pub mod tripcode;
pub mod requests;
pub mod sui;
pub mod ipv4;
pub mod config;
pub mod common;
pub mod operator;
pub mod workflow;
pub mod invalidate;
pub mod board;
pub mod migrate;
pub mod send;
pub mod cache;
pub mod keys;
pub mod media;
pub mod content;
pub mod node_config;
pub mod moderation;
pub mod payload;
pub mod replay;
pub mod pod;
pub mod tiers;
pub mod projection;
pub mod dump;
pub mod observer;
