//! Markers shared by every kind of resource block.

use vstd::prelude::*;

verus! {

/// The line that separates two documents.
pub const SEPARATOR_VALUE: &'static str = "---";

/// The line that closes a block.
pub const RIGHT_BRACE_VALUE: &'static str = "}";

/// The character that opens a block, at the end of a header line.
pub const LEFT_BRACE_VALUE: &'static str = "{";

/// Opens the block of port mappings.
pub const PORTS_PREFIX: &'static str = "ports {";

/// The value carried by the token of a `ports` block.
pub const PORTS_TOKEN_VALUE: &'static str = "ports";

/// Introduces a port number.
pub const PORT_PREFIX: &'static str = "port:";

/// Introduces a target port number.
pub const TARGET_PORT_PREFIX: &'static str = "targetPort:";

} // verus!
