//! The byte layout that CAN frames have on a raw socket.
use vstd::prelude::*;

verus! {

/// Number of bytes of a classic CAN frame on the wire.
pub const CAN_MTU: usize = 16;

/// Number of bytes of a CAN FD frame on the wire.
pub const CANFD_MTU: usize = 72;

/// Maximum data length of a classic CAN frame.
pub const CAN_MAX_DLEN: usize = 8;

/// Maximum data length of a CAN FD frame.
pub const CANFD_MAX_DLEN: usize = 64;

/// Flag of a CAN identifier that has 29 bits.
pub const CAN_EFF_FLAG: u32 = 0x8000_0000;

/// The bytes of `x`, the least significant first.
pub open spec fn little_endian(x: u32) -> Seq<u8> {
    seq![
        (x % 0x100) as u8,
        (x / 0x100 % 0x100) as u8,
        (x / 0x1_0000 % 0x100) as u8,
        (x / 0x100_0000) as u8,
    ]
}

/// The bytes of `x`, the most significant first.
pub open spec fn big_endian(x: u32) -> Seq<u8> {
    little_endian(x).reverse()
}

/// The bytes of `x` in the order of some machine.
pub open spec fn is_native_order(bytes: Seq<u8>, x: u32) -> bool {
    bytes == little_endian(x) || bytes == big_endian(x)
}

/// The bytes of `x` in memory, by `u32::to_ne_bytes`.
///
/// Claimed of it: the four bytes are those of `x`, either the least significant first or the most
/// significant first. Which of the two is up to the machine and is left open.
#[verifier::external_body]
fn native_bytes(x: u32) -> (bytes: [u8; 4])
    ensures
        is_native_order(bytes@, x),
{
    x.to_ne_bytes()
}

/// `bytes` is what the machine holds for `x` in memory.
pub closed spec fn machine_bytes(x: u32, bytes: [u8; 4]) -> bool {
    call_ensures(native_bytes, (x,), bytes)
}

/// The bytes of `x` in the byte order of the machine.
pub fn bytes_in_memory(x: u32) -> (bytes: [u8; 4])
    ensures
        machine_bytes(x, bytes),
        is_native_order(bytes@, x),
{
    native_bytes(x)
}

/// `data` as far as `width` bytes reach, filled up with zeros.
pub open spec fn padded(data: Seq<u8>, width: nat) -> Seq<u8> {
    Seq::new(
        width,
        |i: int|
            if i < data.len() {
                data[i]
            } else {
                0
            },
    )
}

/// The smaller of two numbers.
pub open spec fn lesser(a: nat, b: nat) -> nat {
    if a < b {
        a
    } else {
        b
    }
}

/// The number can be read back from its bytes in memory, in one of the two byte orders.
pub proof fn number_can_be_read_back(x: u32, bytes: [u8; 4])
    requires
        call_ensures(bytes_in_memory, (x,), bytes),
    ensures
        bytes@[0] + bytes@[1] * 0x100 + bytes@[2] * 0x1_0000 + bytes@[3] * 0x100_0000 == x
            || bytes@[3] + bytes@[2] * 0x100 + bytes@[1] * 0x1_0000 + bytes@[0] * 0x100_0000 == x,
{
    machine_order_is_native(x, bytes);
}

/// What the machine holds for a number in memory is the number, in one of the two byte orders.
pub proof fn machine_order_is_native(x: u32, bytes: [u8; 4])
    requires
        machine_bytes(x, bytes),
    ensures
        bytes@[0] + bytes@[1] * 0x100 + bytes@[2] * 0x1_0000 + bytes@[3] * 0x100_0000 == x
            || bytes@[3] + bytes@[2] * 0x100 + bytes@[1] * 0x1_0000 + bytes@[0] * 0x100_0000 == x,
{
    let little = little_endian(x);
    assert(little[0] + little[1] * 0x100 + little[2] * 0x1_0000 + little[3] * 0x100_0000 == x);
    let big = big_endian(x);
    assert(big[0] == little[3] && big[1] == little[2] && big[2] == little[1] && big[3]
        == little[0]);
}

} // verus!
