use vstd::prelude::*;

verus! {

/// A `u32` written most significant byte first, so that byte-wise order is
/// numeric order.
#[derive(Clone, Copy, Debug, PartialEq, Eq)]
pub struct BigEndianU32(pub [u8; 4]);

/// The big-endian bytes of `val`.
pub open spec fn be_bytes(val: u32) -> [u8; 4] {
    [(val >> 24u32) as u8, ((val >> 16u32) & 0xffu32) as u8, ((val >> 8u32) & 0xffu32) as u8, (val & 0xffu32) as u8]
}

/// Whether `a` comes strictly before `b` byte by byte.
pub open spec fn bytes_lt(a: [u8; 4], b: [u8; 4]) -> bool {
    ||| a[0] < b[0]
    ||| a[0] == b[0] && a[1] < b[1]
    ||| a[0] == b[0] && a[1] == b[1] && a[2] < b[2]
    ||| a[0] == b[0] && a[1] == b[1] && a[2] == b[2] && a[3] < b[3]
}

impl BigEndianU32 {
    /// The key for `val`.
    pub fn new(val: u32) -> (r: Self)
        ensures
            r.0 == be_bytes(val),
    {
        let b0 = (val >> 24u32) as u8;
        let b1 = ((val >> 16u32) & 0xffu32) as u8;
        let b2 = ((val >> 8u32) & 0xffu32) as u8;
        let b3 = (val & 0xffu32) as u8;
        let r = BigEndianU32([b0, b1, b2, b3]);
        assert(r.0 =~= be_bytes(val));
        r
    }
}

/// Keys sort as the numbers they hold: one number is below another exactly
/// when its key comes first byte by byte.
pub proof fn lemma_big_endian_order(a: u32, b: u32)
    ensures
        a < b <==> bytes_lt(be_bytes(a), be_bytes(b)),
{
    let a0 = (a >> 24u32) as u8;
    let a1 = ((a >> 16u32) & 0xffu32) as u8;
    let a2 = ((a >> 8u32) & 0xffu32) as u8;
    let a3 = (a & 0xffu32) as u8;
    let b0 = (b >> 24u32) as u8;
    let b1 = ((b >> 16u32) & 0xffu32) as u8;
    let b2 = ((b >> 8u32) & 0xffu32) as u8;
    let b3 = (b & 0xffu32) as u8;
    assert(a < b <==> (a0 < b0 || (a0 == b0 && a1 < b1) || (a0 == b0 && a1 == b1 && a2 < b2) || (a0 == b0 && a1 == b1
        && a2 == b2 && a3 < b3))) by (bit_vector)
        requires
            a0 == (a >> 24u32) as u8,
            a1 == ((a >> 16u32) & 0xffu32) as u8,
            a2 == ((a >> 8u32) & 0xffu32) as u8,
            a3 == (a & 0xffu32) as u8,
            b0 == (b >> 24u32) as u8,
            b1 == ((b >> 16u32) & 0xffu32) as u8,
            b2 == ((b >> 8u32) & 0xffu32) as u8,
            b3 == (b & 0xffu32) as u8,
    ;
}

} // verus!
