//! This module defines the configuration defaults of mcexport.
//!
//! The configuration values have an impact on the responses and the behavior of mcexport and come with their own
//! defaults, allowing for startup with zero explicit configuration. Instead, all configuration is implicit, falling
//! back to sensible defaults.

use vstd::prelude::*;

verus! {

/// The (at the time of the last release) most recent, supported protocol version.
///
/// As per the [Server List Ping][server-list-ping] documentation, it is a convention to use `-1` to determine the
/// version of the server. It would therefore be ideal to use this value. However, it turned out that very few servers
/// supported this convention, so we just go with the most recent version, which showed better results in all cases.
///
/// [server-list-ping]: https://minecraft.wiki/w/Minecraft_Wiki:Projects/wiki.vg_merge/Server_List_Ping#Handshake
pub const LATEST_PROTOCOL_VERSION: isize = 769;

/// The default socket address tuple and port that mcexport should listen on.
pub const DEFAULT_ADDRESS: ([u8; 4], u16) = ([0, 0, 0, 0], 10026);

} // verus!
