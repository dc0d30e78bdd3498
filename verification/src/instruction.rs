//! What the multiplexer and the remote server tell each other.

use vstd::prelude::*;
use crate::frame::FrameData;
use crate::manager::{ClientId, Size};

verus! {

/// What the multiplexer tells the remote server.
#[derive(Debug)]
pub enum RemoteInstruction {
    /// A new screen is ready for the remote clients.
    FrameReady { client_id: ClientId, frame: FrameData },
    /// A client's terminal has another size.
    ClientResize { client_id: ClientId, size: Size },
    /// A client of the multiplexer connected.
    ClientConnected { client_id: ClientId, size: Size },
    /// A client of the multiplexer went away.
    ClientDisconnected { client_id: ClientId },
    /// The session ends.
    Shutdown,
}

/// What the remote server tells the multiplexer: input to inject.
#[derive(Debug, Clone, PartialEq, Eq)]
pub enum RemoteInputInstruction {
    /// A remote client sent keyboard input.
    Key { client_id: ClientId, key: Vec<u8> },
    /// A remote client sent a mouse event.
    Mouse { client_id: ClientId, row: usize, col: usize, button: u8 },
}

/// The multiplexer's client that remote input is written for, after an
/// instruction: the client that connected last, or none once that client
/// went away.
pub open spec fn spec_active_client(active: Option<ClientId>, instruction: RemoteInstruction) -> Option<ClientId> {
    match instruction {
        RemoteInstruction::ClientConnected { client_id, .. } => Some(client_id),
        RemoteInstruction::ClientDisconnected { client_id } => if active == Some(client_id) {
            None
        } else {
            active
        },
        _ => active,
    }
}

/// The multiplexer's client that remote input is written for, after an
/// instruction.
pub fn active_client_after(active: Option<ClientId>, instruction: &RemoteInstruction) -> (r: Option<ClientId>)
    ensures
        r == spec_active_client(active, *instruction),
{
    match instruction {
        RemoteInstruction::ClientConnected { client_id, size: _ } => Some(*client_id),
        RemoteInstruction::ClientDisconnected { client_id } => {
            match active {
                Some(current) => if current == *client_id {
                    None
                } else {
                    active
                },
                None => None,
            }
        },
        _ => active,
    }
}

/// Whether an instruction ends the server's loop.
pub fn is_shutdown(instruction: &RemoteInstruction) -> (b: bool)
    ensures
        b == (*instruction is Shutdown),
{
    match instruction {
        RemoteInstruction::Shutdown => true,
        _ => false,
    }
}

} // verus!
