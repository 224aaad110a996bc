//! Verified core of the Zenith paper-trading backend: the Stellar strkey
//! codec, sign-in-with-wallet decisions, timestamp formatting, pagination
//! and the small request rules that the HTTP layer applies.

pub mod text;
pub mod codec;
pub mod strkey;
pub mod timefmt;
pub mod ed25519;
pub mod auth;
pub mod pagination;
pub mod request_id;
pub mod rate_limit_key;
pub mod market;
pub mod error;
pub mod alerts;
pub mod watchlist;
pub mod models;
pub mod payoff;
pub mod positions;
pub mod strategies;
pub mod history;
pub mod timeorder;
pub mod spot_feed;
