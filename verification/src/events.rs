//! The server-origin events carried over the event bus into the
//! session manager and the registry.

use vstd::prelude::*;
use crate::net::IpAddress;

verus! {

/// One event produced by the HTTP layer or the streaming wrapper.
#[derive(Clone, Copy, Debug, PartialEq, Eq, Structural)]
pub enum ServerMessage {
    /// A file's stream finished; counted against the entry and client.
    Downloaded { index: usize, ip: IpAddress },
    /// Any request arrived from `ip`.
    ClientConnected { ip: IpAddress },
    /// Coalesced streaming progress: `num_packets` chunks since the
    /// last such event.
    DownloadActive { ip: IpAddress, num_packets: usize },
    /// A user-initiated single-file download was requested.
    DownloadRequest { index: usize, ip: IpAddress },
    /// The client asked to download everything; the files still arrive
    /// through individual requests.
    DownloadAllRequest { ip: IpAddress },
}

} // verus!
