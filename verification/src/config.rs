//! The configuration surface the core consumes. Loading and parsing the
//! values is an external concern; the core only reads them.
use vstd::prelude::*;

verus! {

/// Application-level settings: where the durable seen-item file lives.
pub struct AppConfig {
    pub announced_file: String,
}

/// Feed endpoint settings: where to fetch items and the bearer credential.
pub struct ApiConfig {
    pub url: String,
    pub token: String,
}

/// Messaging-network settings for one session.
pub struct IrcConfig {
    pub server: String,
    pub port: u16,
    pub use_tls: bool,
    pub channel: String,
    pub nickname: String,
    pub password: String,
    pub ns_password: String,
    pub oper: Option<bool>,
}

/// The whole configuration the announcer runs with.
pub struct Config {
    pub app: AppConfig,
    pub api: ApiConfig,
    pub irc: IrcConfig,
}

} // verus!
