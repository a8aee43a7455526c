//! Entry point of network bootstrap. The initializer itself carries no
//! state: the binary around the library reads and converts the topology
//! file, has it validated by the config module, wires the channels, and
//! spawns one thread per node running that node's event loop.

use vstd::prelude::*;

verus! {

/// Manages the initialization of the network topology and components.
pub struct NetworkInitializer {}

impl NetworkInitializer {
    /// Creates an initializer.
    pub fn new() -> (r: Self)
        ensures
            r == (NetworkInitializer {  }),
    {
        NetworkInitializer {  }
    }
}

} // verus!
