//! Control-plane messages: the commands an operator sends to a running
//! drone, and the events nodes may report back for observability.

use vstd::prelude::*;
use crate::types::NodeId;
use crate::types::Packet;

verus! {

/// A command delivered to a drone on its command channel. The drop rate is
/// given in hundredths: one hundred stands for certain drop.
pub enum DroneCommand {
    /// Register a neighbor's packet channel; an existing entry is replaced.
    AddSender(NodeId, crossbeam_channel::Sender<Packet>),
    /// Update the packet drop rate; values above one hundred are clamped.
    SetPacketDropRate(u8),
    /// Drain the packets already queued, then leave the run loop.
    Crash,
    /// Unregister a neighbor; absent entries are ignored.
    RemoveSender(NodeId),
}

/// An event a node reports to the central observability channel.
pub enum DroneEvent {
    PacketSent(Packet),
    PacketDropped(Packet),
    ControllerShortcut(Packet),
}

/// The drop rate a drone adopts when told to use `rate`: rates above one
/// hundred hundredths are clamped to certain drop.
pub open spec fn clamp_drop_rate(rate: u8) -> u8 {
    if rate > 100 {
        100
    } else {
        rate
    }
}

} // verus!
