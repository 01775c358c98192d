use vstd::prelude::*;

verus! {

/// Bytes in an object identity.
pub const OID_BYTES: usize = 20;

/// Hex digits in the longest textual object identity.
pub const OID_HEX_LEN: usize = 40;

pub open spec fn is_hex_digit(c: u8) -> bool {
    (48 <= c <= 57) || (65 <= c <= 70) || (97 <= c <= 102)
}

/// The value of a hex digit, upper or lower case.
pub open spec fn hex_value(c: u8) -> int {
    if 48 <= c <= 57 {
        c - 48
    } else if 65 <= c <= 70 {
        c - 55
    } else {
        c - 87
    }
}

/// The `p`-th digit of `s`, where digits past its end count as zero.
pub open spec fn padded_digit(s: Seq<u8>, p: int) -> int {
    if p < s.len() {
        hex_value(s[p])
    } else {
        0
    }
}

/// The object identity that a textual hash names: one to forty hex digits,
/// read two to a byte, high digit first, with missing digits taken as zero.
/// `None` for any other text.
pub open spec fn oid_from_hex(s: Seq<u8>) -> Option<Seq<u8>> {
    if 0 < s.len() <= OID_HEX_LEN && (forall|i: int| 0 <= i < s.len() ==> is_hex_digit(#[trigger] s[i])) {
        Some(Seq::new(OID_BYTES as nat, |k: int| (16 * padded_digit(s, 2 * k) + padded_digit(s, 2 * k + 1)) as u8))
    } else {
        None
    }
}

fn hex_digit(c: u8) -> (r: Option<u8>)
    ensures
        r is Some <==> is_hex_digit(c),
        r is Some ==> r->0 as int == hex_value(c) && r->0 < 16,
{
    if 48 <= c && c <= 57 {
        Some(c - 48)
    } else if 65 <= c && c <= 70 {
        Some(c - 55)
    } else if 97 <= c && c <= 102 {
        Some(c - 87)
    } else {
        None
    }
}

/// Reads a textual object identity (see [`oid_from_hex`]).
pub fn parse_oid_hex(s: &[u8]) -> (r: Option<Vec<u8>>)
    ensures
        r matches Some(v) ==> oid_from_hex(s@) == Some(v@),
        r is None ==> oid_from_hex(s@) is None,
{
    let n = s.len();
    if n == 0 || n > OID_HEX_LEN {
        return None;
    }
    let mut i: usize = 0;
    while i < n
        invariant
            0 <= i <= n,
            n == s@.len(),
            forall|j: int| 0 <= j < i ==> is_hex_digit(#[trigger] s@[j]),
        decreases n - i,
    {
        if hex_digit(s[i]).is_none() {
            return None;
        }
        i = i + 1;
    }
    let mut out: Vec<u8> = Vec::new();
    let mut k: usize = 0;
    while k < OID_BYTES
        invariant
            0 <= k <= OID_BYTES,
            n == s@.len(),
            0 < n <= OID_HEX_LEN,
            forall|j: int| 0 <= j < n ==> is_hex_digit(#[trigger] s@[j]),
            out@.len() == k,
            forall|j: int| 0 <= j < k ==> #[trigger] out@[j] == (16 * padded_digit(s@, 2 * j) + padded_digit(s@, 2 * j + 1)) as u8,
        decreases OID_BYTES - k,
    {
        let hi: u8 = if 2 * k < n {
            match hex_digit(s[2 * k]) {
                Some(v) => v,
                None => 0,
            }
        } else {
            0
        };
        let lo: u8 = if 2 * k + 1 < n {
            match hex_digit(s[2 * k + 1]) {
                Some(v) => v,
                None => 0,
            }
        } else {
            0
        };
        out.push(16 * hi + lo);
        k = k + 1;
    }
    proof {
        assert(out@ =~= Seq::new(OID_BYTES as nat, |j: int| (16 * padded_digit(s@, 2 * j) + padded_digit(s@, 2 * j + 1)) as u8));
    }
    Some(out)
}

} // verus!
