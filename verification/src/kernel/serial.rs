//! The COM1 serial port and the hexadecimal rendering of boot values.
use vstd::prelude::*;

verus! {

/// I/O port of COM1.
pub const COM1: u16 = 0x3F8;

/// The COM1 serial port.
#[derive(Clone, Copy, Debug, PartialEq, Eq, Structural)]
pub struct SerialPort;

impl SerialPort {
    /// The port handle.
    pub fn new() -> (p: Self)
        ensures
            p == SerialPort,
    {
        SerialPort
    }
}

/// The lowercase ASCII hexadecimal digit for `nibble`.
pub open spec fn hex_digit(nibble: int) -> u8 {
    if nibble < 10 {
        (48 + nibble) as u8
    } else {
        (97 + nibble - 10) as u8
    }
}

/// The low 32 bits of `value` as eight lowercase hexadecimal digits, most
/// significant first.
pub open spec fn hex_text(value: u64) -> Seq<u8> {
    Seq::new(8, |i: int| hex_digit((((value % 0x1_0000_0000) as int) / pow16(7 - i)) % 16))
}

/// The low 32 bits of `value` as eight lowercase hexadecimal digits, most
/// significant first.
pub fn hex32(value: u64) -> (digits: [u8; 8])
    ensures
        digits@ == hex_text(value),
        forall|i: int| 0 <= i < 8 ==> digits@[i] == hex_digit((((value % 0x1_0000_0000) as int) / pow16(7 - i)) % 16),
{
    let low = value & 0xFFFF_FFFF;
    assert(low == value % 0x1_0000_0000) by (bit_vector)
        requires low == value & 0xFFFF_FFFF;
    let mut digits = [0u8; 8];
    let mut i: usize = 0;
    while i < 8
        invariant
            0 <= i <= 8,
            low == value % 0x1_0000_0000,
            forall|k: int| 0 <= k < i ==> digits@[k] == hex_digit(((low as int) / pow16(7 - k)) % 16),
        decreases 8 - i,
    {
        let shift: u64 = ((7 - i) * 4) as u64;
        let bits = (low >> shift) & 0xF;
        assert(bits < 16) by (bit_vector)
            requires bits == (low >> shift) & 0xF;
        let nibble = bits as u8;
        proof {
            lemma_nibble(low, (7 - i) as nat, shift);
        }
        let c: u8 = if nibble < 10 { 48 + nibble } else { 97 + nibble - 10 };
        digits[i] = c;
        i += 1;
    }
    assert(digits@ =~= hex_text(value));
    digits
}

/// 16 to the power `n`.
pub open spec fn pow16(n: int) -> int
    decreases n,
{
    if n <= 0 {
        1
    } else {
        16 * pow16(n - 1)
    }
}

proof fn lemma_nibble(low: u64, n: nat, shift: u64)
    requires
        n < 8,
        shift == n * 4,
        low < 0x1_0000_0000,
    ensures
        (low >> shift) & 0xF == ((low as int) / pow16(n as int)) % 16,
{
    reveal_with_fuel(pow16, 9);
    assert((low >> shift) & 0xF == (low >> shift) % 16) by (bit_vector);
    if n == 0 { assert(low >> 0u64 == low) by (bit_vector); }
    else if n == 1 { assert(low >> 4u64 == low / 16) by (bit_vector); }
    else if n == 2 { assert(low >> 8u64 == low / 256) by (bit_vector); }
    else if n == 3 { assert(low >> 12u64 == low / 4096) by (bit_vector); }
    else if n == 4 { assert(low >> 16u64 == low / 65536) by (bit_vector); }
    else if n == 5 { assert(low >> 20u64 == low / 1048576) by (bit_vector); }
    else if n == 6 { assert(low >> 24u64 == low / 16777216) by (bit_vector); }
    else { assert(low >> 28u64 == low / 268435456) by (bit_vector); }
}

} // verus!
