//! Accounting for one streamed download.
//!
//! The byte stream itself runs outside; for every chunk the stream
//! yields, the wrapper is told the clock and decides whether to emit a
//! coalesced progress event — at most one per fixed interval — and on
//! stream exhaustion it emits one final progress event with the
//! un-flushed chunk count followed by exactly one terminal event. An
//! underlying I/O error ends the stream with no terminal event, so
//! nothing here is called for it.

use vstd::prelude::*;
use crate::events::ServerMessage;
use crate::net::IpAddress;

verus! {

/// The shortest time between two progress events, in milliseconds.
pub const PROGRESS_INTERVAL_MS: u64 = 250;

/// The progress accounting of one download stream.
#[derive(Clone, Copy, Debug, PartialEq, Eq, Structural)]
pub struct CountingStream {
    /// The registry index of the file being streamed.
    pub index: usize,
    /// The requesting client.
    pub ip: IpAddress,
    /// Chunks seen since the last emitted progress event.
    pub counter: usize,
    /// When the last progress event was emitted (ms).
    pub last_send_time: u64,
}

impl CountingStream {
    pub fn new(index: usize, ip: IpAddress, now: u64) -> (r: CountingStream)
        ensures
            r == (CountingStream { index, ip, counter: 0, last_send_time: now }),
    {
        CountingStream { index, ip, counter: 0, last_send_time: now }
    }

    /// Counts one chunk. When the progress interval has passed, the
    /// accumulated chunk count is flushed as one `DownloadActive`
    /// event and the interval restarts; otherwise nothing is emitted.
    pub fn on_chunk(&mut self, now: u64) -> (r: Option<ServerMessage>)
        ensures
            final(self).index == old(self).index,
            final(self).ip == old(self).ip,
            ({
                let bumped = old(self).counter.saturating_add(1);
                if now.saturating_sub(old(self).last_send_time) > PROGRESS_INTERVAL_MS {
                    r == Some(
                        ServerMessage::DownloadActive { ip: old(self).ip, num_packets: bumped },
                    ) && final(self).counter == 0 && final(self).last_send_time == now
                } else {
                    r == None::<ServerMessage> && final(self).counter == bumped && final(self).last_send_time == old(self).last_send_time
                }
            }),
    {
        self.counter = self.counter.saturating_add(1);
        if now.saturating_sub(self.last_send_time) > PROGRESS_INTERVAL_MS {
            let msg = ServerMessage::DownloadActive { ip: self.ip, num_packets: self.counter };
            self.counter = 0;
            self.last_send_time = now;
            Some(msg)
        } else {
            None
        }
    }

    /// The stream is exhausted: one final progress event with the
    /// remaining chunk count, then exactly one terminal event.
    pub fn on_end(&self) -> (r: (ServerMessage, ServerMessage))
        ensures
            r.0 == (ServerMessage::DownloadActive { ip: self.ip, num_packets: self.counter }),
            r.1 == (ServerMessage::Downloaded { index: self.index, ip: self.ip }),
    {
        (
            ServerMessage::DownloadActive { ip: self.ip, num_packets: self.counter },
            ServerMessage::Downloaded { index: self.index, ip: self.ip },
        )
    }
}

} // verus!
