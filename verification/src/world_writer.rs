//! The outbound half of the world connection, as far as it computes: each send queues one
//! client packet — its opcode and body — for the connection to frame and write, in send order.

use vstd::prelude::*;

use crate::battlefield::battlefield_port as battlefield_port_body;
use crate::wire::u32_le_bytes;

verus! {

/// `CMSG_BATTLEFIELD_PORT`.
pub const CMSG_BATTLEFIELD_PORT: u32 = 0x2D5;

/// The largest body a client packet can carry: its header's `u16` size counts the `u32` opcode
/// and the body together.
pub const MAX_CLIENT_BODY: usize = 0xFFFF - 4;

/// One queued client packet.
#[derive(Clone, Debug, PartialEq, Eq)]
pub struct OutboundPacket {
    pub opcode: u32,
    pub body: Vec<u8>,
}

/// Why a send was refused.
#[derive(Clone, Copy, Debug, PartialEq, Eq)]
pub enum WriteError {
    /// The body does not fit the header's size field.
    BodyTooLarge,
}

/// The world connection's send side: the packets queued since the connection last drained it.
pub struct WorldWriter {
    outbox: Vec<OutboundPacket>,
}

impl WorldWriter {
    /// The queued packets, oldest first, each as its opcode and body.
    pub closed spec fn queued(&self) -> Seq<(u32, Seq<u8>)> {
        self.outbox@.map_values(|p: OutboundPacket| (p.opcode, p.body@))
    }

    pub fn new() -> (w: Self)
        ensures
            w.queued() == Seq::<(u32, Seq<u8>)>::empty(),
    {
        let w = WorldWriter { outbox: Vec::new() };
        assert(w.queued() =~= Seq::<(u32, Seq<u8>)>::empty());
        w
    }

    /// Queue one packet. Refused, and nothing queued, when the body outgrows the header.
    pub fn send(&mut self, opcode: u32, body: &[u8]) -> (res: Result<(), WriteError>)
        ensures
            res is Err <==> body@.len() > MAX_CLIENT_BODY,
            res is Err ==> res == Err::<(), WriteError>(WriteError::BodyTooLarge) && final(self).queued()
                == old(self).queued(),
            res is Ok ==> final(self).queued() == old(self).queued().push((opcode, body@)),
    {
        if body.len() > MAX_CLIENT_BODY {
            return Err(WriteError::BodyTooLarge);
        }
        let mut copy: Vec<u8> = Vec::new();
        let mut i: usize = 0;
        while i < body.len()
            invariant
                i <= body@.len(),
                copy@ =~= body@.subrange(0, i as int),
            decreases body@.len() - i,
        {
            copy.push(body[i]);
            i = i + 1;
        }
        assert(copy@ =~= body@);
        let ghost before = self.queued();
        self.outbox.push(OutboundPacket { opcode, body: copy });
        assert(self.queued() =~= before.push((opcode, body@)));
        Ok(())
    }

    /// Drain the queue: every packet sent since the last drain, oldest first.
    pub fn take_outbox(&mut self) -> (packets: Vec<OutboundPacket>)
        ensures
            packets@.map_values(|p: OutboundPacket| (p.opcode, p.body@)) == old(self).queued(),
            final(self).queued() == Seq::<(u32, Seq<u8>)>::empty(),
    {
        let mut packets: Vec<OutboundPacket> = Vec::new();
        std::mem::swap(&mut packets, &mut self.outbox);
        assert(self.queued() =~= Seq::<(u32, Seq<u8>)>::empty());
        packets
    }

    /// Answer a ready battleground (`CMSG_BATTLEFIELD_PORT`): the slot's map id and whether to
    /// enter.
    pub fn battlefield_port(&mut self, map_id: u32, accept: bool) -> (res: Result<(), WriteError>)
        ensures
            res is Ok,
            final(self).queued() == old(self).queued().push(
                (CMSG_BATTLEFIELD_PORT, u32_le_bytes(map_id).push(if accept { 1u8 } else { 0u8 })),
            ),
    {
        let body = battlefield_port_body(map_id, accept);
        self.send(CMSG_BATTLEFIELD_PORT, body.as_slice())
    }
}

} // verus!
