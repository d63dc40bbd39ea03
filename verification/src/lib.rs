pub mod attachment_crypto;
pub mod auth;
pub mod chat;
pub mod clock;
pub mod encoding;
pub mod keyed;
pub mod link_preview;
pub mod notifier;
pub mod pages;
pub mod passwords;
pub mod preview_fetch;
pub mod store;
pub mod text;
pub mod thumbnail;
pub mod users;
