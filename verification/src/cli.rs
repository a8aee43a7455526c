//! The help text of the interactive control surface. The binary around the
//! library reads commands, prints this text on request, and translates the
//! other commands into control-plane messages.

use vstd::prelude::*;

verus! {

broadcast use vstd::string::to_string_from_display_ensures_for_str;

/// What the control surface offers.
pub const HELP_TEXT: &'static str = "Available commands:\n  help                                        - Show this help message\n  crash <node_id>                             - Simulate crashing a node\n  spawn <comma_separated_connected_node_ids>  - Spawn a new drone, with the given connections\n  exit                                        - Exit the simulation\n";

/// The help message listing the available commands, for the caller to print.
pub fn display_help() -> (s: String)
    ensures
        s@ == HELP_TEXT@,
{
    HELP_TEXT.to_string()
}

} // verus!
