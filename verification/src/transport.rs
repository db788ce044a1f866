use vstd::prelude::*;

verus! {

use crate::codec::spec_request_json;
use crate::json::{JsonValue, json_text};

/// The connection side of the session as the protocol sees it: either
/// disconnected, or connected with a monotonically increasing sequence
/// counter.  The counter starts at zero on a fresh connection and is bumped
/// before each send, so the first request carries sequence number one.
pub struct Transport {
    pub connected: bool,
    pub seq: u32,
}

/// A freshly established connection: counter at zero.
pub open spec fn spec_connected() -> Transport {
    Transport { connected: true, seq: 0 }
}

/// One send: the counter moves up by one and nothing else changes.
pub open spec fn spec_send(t: Transport) -> Transport
    recommends
        t.seq < u32::MAX,
{
    Transport { connected: t.connected, seq: (t.seq + 1) as u32 }
}

/// The transport after `n` sends.
pub open spec fn spec_sends(t: Transport, n: nat) -> Transport
    decreases n,
{
    if n == 0 {
        t
    } else {
        spec_send(spec_sends(t, (n - 1) as nat))
    }
}

impl Transport {
    /// A transport that has never connected.
    pub fn new() -> (r: Transport)
        ensures
            r == (Transport { connected: false, seq: 0 }),
    {
        Transport { connected: false, seq: 0 }
    }

    /// Records that a connection was just established; the counter starts
    /// over at zero.
    pub fn mark_connected(&mut self)
        ensures
            *final(self) == spec_connected(),
    {
        self.connected = true;
        self.seq = 0;
    }

    /// Records that the connection is gone; the counter keeps its value,
    /// which no longer means anything.
    pub fn mark_disconnected(&mut self)
        ensures
            *final(self) == (Transport { connected: false, seq: old(self).seq }),
    {
        self.connected = false;
    }

    /// Bumps the counter for one send and hands back the sequence number
    /// the request must carry.
    pub fn next_seq(&mut self) -> (r: u32)
        requires
            old(self).connected,
            old(self).seq < u32::MAX,
        ensures
            *final(self) == spec_send(*old(self)),
            r == old(self).seq + 1,
    {
        self.seq = self.seq + 1;
        self.seq
    }

    /// Frames one request: bumps the counter and writes the text frame that
    /// carries the envelope.  A failure to send afterwards does not roll the
    /// counter back; a gap in sequence numbers is acceptable.
    pub fn make_request(&mut self, method: u32, params: JsonValue) -> (r: String)
        requires
            old(self).connected,
            old(self).seq < u32::MAX,
        ensures
            *final(self) == spec_send(*old(self)),
            r@ == json_text(
                spec_request_json(method, (old(self).seq + 1) as u32, params@),
            ),
    {
        let seq = self.next_seq();
        crate::codec::encode_request(method, seq, params)
    }
}

/// The sequence counter counts sends and nothing but sends: starting from a
/// fresh connection, after `n` sends it reads exactly `n`.  Receiving —
/// including receiving failures — passes through functions whose contracts
/// leave the transport untouched, so interleaved receives cannot disturb
/// this count.
pub proof fn lemma_seq_counts_sends(n: nat)
    requires
        n <= u32::MAX,
    ensures
        spec_sends(spec_connected(), n).seq == n,
        spec_sends(spec_connected(), n).connected,
    decreases n,
{
    if n > 0 {
        lemma_seq_counts_sends((n - 1) as nat);
    }
}

} // verus!
