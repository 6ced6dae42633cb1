//! Verified core of a multi-platform chat bot: moderation rules, pattern
//! matching, points economy, achievements, giveaways, connection pooling,
//! graceful shutdown and the adaptive tuning safety mechanisms.

pub mod clock;
pub mod text;
pub mod keyed;
pub mod adaptive;
pub mod bot;
