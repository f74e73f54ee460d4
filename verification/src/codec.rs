//! The binary device-command codec. A command is framed as, all integers
//! big-endian: a 16-bit instance id (0 when absent), a 16-bit command kind,
//! a 24-bit message length, the 16-bit protocol version 1, and the message
//! bytes. Encoding is fire-and-forget: nothing decodes a frame here.
use vstd::prelude::*;
use vstd::string::*;
use vstd::utf8::encode_utf8;

use byteorder::{BigEndian, WriteBytesExt};

verus! {

/// The kinds of instance-lifecycle commands a device understands.
#[derive(PartialEq, Eq, Structural, Clone, Copy, Debug)]
pub enum DaemonCommands {
    StartInstance,
    CloseInstance,
    RestartInstance,
    StopInstance,
    ResumeInstance,
}

/// Wire ordinal of a command kind: `StartInstance` is 0, the rest follow
/// in declaration order.
pub open spec fn command_ordinal(c: DaemonCommands) -> u16 {
    match c {
        DaemonCommands::StartInstance => 0,
        DaemonCommands::CloseInstance => 1,
        DaemonCommands::RestartInstance => 2,
        DaemonCommands::StopInstance => 3,
        DaemonCommands::ResumeInstance => 4,
    }
}

impl DaemonCommands {
    /// The wire ordinal of this command kind.
    pub fn ordinal(&self) -> (r: u16)
        ensures
            r == command_ordinal(*self),
    {
        match self {
            DaemonCommands::StartInstance => 0,
            DaemonCommands::CloseInstance => 1,
            DaemonCommands::RestartInstance => 2,
            DaemonCommands::StopInstance => 3,
            DaemonCommands::ResumeInstance => 4,
        }
    }
}

/// Big-endian byte pair of a 16-bit value.
pub open spec fn be16(n: u16) -> Seq<u8> {
    seq![(n >> 8) as u8, (n & 0xff) as u8]
}

/// Big-endian byte triple of a value below 2^24.
pub open spec fn be24(n: u32) -> Seq<u8> {
    seq![((n >> 16) & 0xff) as u8, ((n >> 8) & 0xff) as u8, (n & 0xff) as u8]
}

/// The full frame for a command: instance id, kind ordinal, message
/// length, protocol version 1, then the message itself.
pub open spec fn frame_bytes(command_id: u16, instance_id: Option<u16>, msg: Seq<u8>) -> Seq<u8> {
    be16(
        match instance_id {
            Some(i) => i,
            None => 0,
        },
    ) + be16(command_id) + be24(msg.len() as u32) + be16(1) + msg
}

/// An instance-directed command, built and encoded within one dispatch.
pub struct DaemonCommand {
    pub command_id: u16,
    pub instance_id: Option<u16>,
    pub message: String,
}

/// Relies on byteorder's `WriteBytesExt::write_u16::<BigEndian>`, which
/// appends the bytes of `u16::to_be_bytes`; a write to a `Vec` cannot fail.
#[verifier::external_body]
fn push_u16_be(out: &mut Vec<u8>, n: u16)
    ensures
        final(out)@ == old(out)@ + be16(n),
{
    let _ = out.write_u16::<BigEndian>(n);
}

/// Relies on byteorder's `WriteBytesExt::write_u24::<BigEndian>`, which
/// appends the low three bytes of `u32::to_be_bytes` and panics for values
/// of 2^24 or more; a write to a `Vec` cannot fail.
#[verifier::external_body]
fn push_u24_be(out: &mut Vec<u8>, n: u32)
    requires
        n < 0x1000000,
    ensures
        final(out)@ == old(out)@ + be24(n),
{
    let _ = out.write_u24::<BigEndian>(n);
}

impl DaemonCommand {
    /// Builds a command from a kind, an optional instance id and a payload.
    pub fn from(command: DaemonCommands, instance_id: Option<u16>, message: String) -> (r:
        DaemonCommand)
        ensures
            r.command_id == command_ordinal(command),
            r.instance_id == instance_id,
            r.message == message,
    {
        Self::new(command.ordinal(), instance_id, message)
    }

    /// Builds a command from a raw kind ordinal.
    fn new(command_id: u16, instance_id: Option<u16>, message: String) -> (r: DaemonCommand)
        ensures
            r.command_id == command_id,
            r.instance_id == instance_id,
            r.message == message,
    {
        DaemonCommand { command_id, instance_id, message }
    }

    /// The frame this command encodes to.
    pub open spec fn frame(self) -> Seq<u8> {
        frame_bytes(self.command_id, self.instance_id, encode_utf8(self.message@))
    }

    /// Encodes the command into its frame. Total for every message whose
    /// byte length fits the 24-bit length field.
    pub fn encode(&self) -> (frame: Vec<u8>)
        requires
            encode_utf8(self.message@).len() < 0x1000000,
        ensures
            frame@ == self.frame(),
    {
        let mut out: Vec<u8> = Vec::new();
        let iid: u16 = match self.instance_id {
            Some(i) => i,
            None => 0,
        };
        push_u16_be(&mut out, iid);
        push_u16_be(&mut out, self.command_id);
        let bytes = self.message.as_str().as_bytes();
        push_u24_be(&mut out, bytes.len() as u32);
        push_u16_be(&mut out, 1);
        let mut i: usize = 0;
        while i < bytes.len()
            invariant
                0 <= i <= bytes@.len(),
                bytes@ == encode_utf8(self.message@),
                bytes@.len() < 0x1000000,
                out@ == be16(
                    match self.instance_id {
                        Some(n) => n,
                        None => 0,
                    },
                ) + be16(self.command_id) + be24(bytes@.len() as u32) + be16(1) + bytes@.take(
                    i as int,
                ),
            decreases bytes@.len() - i,
        {
            out.push(bytes[i]);
            proof {
                assert(bytes@.take(i + 1) =~= bytes@.take(i as int).push(bytes@[i as int]));
                assert(out@ =~= be16(
                    match self.instance_id {
                        Some(n) => n,
                        None => 0,
                    },
                ) + be16(self.command_id) + be24(bytes@.len() as u32) + be16(1) + bytes@.take(
                    i + 1,
                ));
            }
            i = i + 1;
        }
        proof {
            assert(bytes@.take(bytes@.len() as int) =~= bytes@);
            assert(out@ =~= self.frame());
        }
        out
    }
}

} // verus!
