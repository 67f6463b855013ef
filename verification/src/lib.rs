pub mod clock;
pub mod config;
pub mod donations;
pub mod error;
pub mod events;
pub mod feed;
pub mod moderation;
pub mod oauth;
pub mod sessions;
pub mod sql;
pub mod text;
pub mod tokens;
pub mod votes;
pub mod web;
