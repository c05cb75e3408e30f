//! The typed operations a user can ask for, and the wire names of their
//! fields.

use vstd::prelude::*;

verus! {

/// DDR generation of the target module.
#[derive(Clone, Copy, PartialEq, Eq, Structural, Debug)]
pub enum DdrType {
    Ddr4,
    Ddr5,
}

/// Memory operation requested of the device: read a byte range, write a
/// byte, or clear/set the module's software write protection.
#[derive(Clone, Copy, PartialEq, Eq, Structural, Debug)]
pub enum MemOp {
    Read,
    Write,
    Srswp,
    Crswp,
}

/// A memory operation with its parameters. `addr` and `value` travel on the
/// wire as `0x`-prefixed two-digit hex strings, `count` as a decimal string.
#[derive(Clone, Copy, PartialEq, Eq, Structural, Debug)]
pub struct MemCommand {
    pub ddr_type: DdrType,
    pub op: MemOp,
    pub addr: u8,
    pub value: u8,
    pub count: u16,
}

/// Credentials pushed to the device when provisioning its Wi-Fi link.
pub struct WifiCredentials {
    pub ssid: String,
    pub password: String,
}

/// One request to the device. Exactly one shape is active per request: a
/// memory operation and a Wi-Fi provisioning never mix in one payload.
pub enum Command {
    Memory(MemCommand),
    Wifi(WifiCredentials),
}

/// Name of a DDR generation as it appears in the request's `type` field.
pub open spec fn ddr_name_spec(t: DdrType) -> Seq<char> {
    match t {
        DdrType::Ddr4 => "ddr4"@,
        DdrType::Ddr5 => "ddr5"@,
    }
}

/// Name of an operation as it appears in the request's `cmd` field.
pub open spec fn op_name_spec(op: MemOp) -> Seq<char> {
    match op {
        MemOp::Read => "read"@,
        MemOp::Write => "write"@,
        MemOp::Srswp => "srswp"@,
        MemOp::Crswp => "crswp"@,
    }
}

/// Wire name of a DDR generation.
pub fn ddr_name(t: DdrType) -> (r: &'static str)
    ensures
        r@ == ddr_name_spec(t),
{
    match t {
        DdrType::Ddr4 => "ddr4",
        DdrType::Ddr5 => "ddr5",
    }
}

/// Wire name of a memory operation.
pub fn op_name(op: MemOp) -> (r: &'static str)
    ensures
        r@ == op_name_spec(op),
{
    match op {
        MemOp::Read => "read",
        MemOp::Write => "write",
        MemOp::Srswp => "srswp",
        MemOp::Crswp => "crswp",
    }
}

} // verus!
