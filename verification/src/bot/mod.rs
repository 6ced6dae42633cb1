//! Chat bot systems.

pub mod types;
pub mod pattern_matching;
pub mod points;
pub mod achievements;
pub mod filter_import_export;
pub mod moderation;
pub mod connection_pool;
pub mod shutdown;
pub mod commands;
pub mod filter_commands;
pub mod config_integration;
pub mod giveaways;
pub mod analytics;
pub mod realtime_analytics;
pub mod enhanced_moderation;
pub mod points_commands;
pub mod blacklist;
pub mod user_history;
pub mod chat_bot;
pub mod achievement_commands;
