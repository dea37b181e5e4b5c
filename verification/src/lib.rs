//! Reverse-tunnel core: models, tunnel lifecycle, connection sharing, framing and the
//! small text formats around them, each with a contract that Verus proves.
pub mod backend;
pub mod bytes;
pub mod cmd_recipes;
pub mod commands;
pub mod creds;
pub mod crypto;
pub mod diag;
pub mod direct;
pub mod engine;
pub mod keyed;
pub mod known_hosts;
pub mod model;
pub mod presets;
pub mod probe;
pub mod profiles;
pub mod scenarios;
pub mod secrets;
pub mod socks;
pub mod ssh;
pub mod store;
pub mod text;
pub mod text_map;
pub mod time;
pub mod transport;
pub mod tunnel;

use vstd::prelude::*;

verus! {

/// Where the engine reports what happens to tunnels. The user interface shows it; a test may
/// collect it.
pub trait TunnelEvents: Send + Sync + 'static {
    /// The tunnel `id`, of the shape `kind`, is now in this state: connecting, connected,
    /// reconnecting, disconnected or error.
    fn status(&self, id: &str, kind: &str, state: &str, message: Option<&str>);

    /// A line for the log of tunnel `id`.
    fn log(&self, id: &str, kind: &str, msg: &str);
}

} // verus!
