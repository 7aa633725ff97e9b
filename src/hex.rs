//! Hexadecimal key ids.
use vstd::prelude::*;
use vstd::string::StringSliceAdditionalSpecFns;
use vstd::utf8::is_char_boundary;

verus! {

/// The value of a hexadecimal digit, if `b` is one.
pub open spec fn hex_digit(b: u8) -> Option<int> {
    if 0x30 <= b <= 0x39 {
        Some(b - 0x30)
    } else if 0x61 <= b <= 0x66 {
        Some(b - 0x61 + 10)
    } else if 0x41 <= b <= 0x46 {
        Some(b - 0x41 + 10)
    } else {
        None
    }
}

/// Whether every byte of `b` is a hexadecimal digit.
pub open spec fn all_hex(b: Seq<u8>) -> bool {
    forall|i: int| 0 <= i < b.len() ==> (#[trigger] hex_digit(b[i])) is Some
}

/// The number that hexadecimal digits spell, most significant first.
pub open spec fn hex_value(b: Seq<u8>) -> int
    decreases b.len(),
{
    if b.len() == 0 {
        0
    } else {
        hex_value(b.drop_last()) * 16 + hex_digit(b.last())->Some_0
    }
}

/// The `u64` that the text `b` spells in base 16: an optional `+`, then one
/// or more hexadecimal digits, whose value fits.
pub open spec fn u64_of_hex(b: Seq<u8>) -> Option<u64> {
    let digits = if b.len() > 0 && b[0] == 0x2b {
        b.drop_first()
    } else {
        b
    };
    if digits.len() > 0 && all_hex(digits) && hex_value(digits) <= u64::MAX {
        Some(hex_value(digits) as u64)
    } else {
        None
    }
}

/// The value of the hexadecimal digit `b`, if it is one.
fn hex_digit_exec(b: u8) -> (r: Option<u64>)
    ensures
        r is None <==> hex_digit(b) is None,
        r is Some ==> hex_digit(b) == Some(r->Some_0 as int),
{
    if 0x30 <= b && b <= 0x39 {
        Some((b - 0x30) as u64)
    } else if 0x61 <= b && b <= 0x66 {
        Some((b - 0x61 + 10) as u64)
    } else if 0x41 <= b && b <= 0x46 {
        Some((b - 0x41 + 10) as u64)
    } else {
        None
    }
}

/// Reads `s` in base 16 as `u64::from_str_radix` does: an optional `+`,
/// then one or more hexadecimal digits of either case, whose value fits.
pub(crate) fn u64_from_hex(s: &str) -> (r: Option<u64>)
    ensures
        r == u64_of_hex(s.spec_bytes()),
{
    let b = s.as_bytes();
    let len = b.len();
    let start: usize = if len > 0 && b[0] == 0x2b {
        1
    } else {
        0
    };
    let ghost digits = b@.subrange(start as int, len as int);
    proof {
        if start == 1 {
            assert(b@.drop_first() =~= digits);
        } else {
            assert(b@ =~= digits);
        }
    }
    if start >= len {
        return None;
    }
    let mut v: u64 = 0;
    let mut overflow = false;
    let mut i: usize = start;
    assert(b@.subrange(start as int, start as int) =~= Seq::<u8>::empty());
    while i < len
        invariant
            start <= i <= len,
            len == b@.len(),
            digits == b@.subrange(start as int, len as int),
            b@ == s.spec_bytes(),
            digits == if b@.len() > 0 && b@[0] == 0x2b {
                b@.drop_first()
            } else {
                b@
            },
            all_hex(b@.subrange(start as int, i as int)),
            !overflow ==> v == hex_value(b@.subrange(start as int, i as int)),
            overflow ==> hex_value(b@.subrange(start as int, i as int)) > u64::MAX,
            hex_value(b@.subrange(start as int, i as int)) >= 0,
        decreases len - i,
    {
        let ghost prefix = b@.subrange(start as int, i as int);
        let ghost next = b@.subrange(start as int, i + 1);
        proof {
            assert(next.drop_last() =~= prefix);
            assert(next.last() == b@[i as int]);
        }
        let d = match hex_digit_exec(b[i]) {
            Some(d) => d,
            None => {
                assert(digits[i - start] == b@[i as int]);
                assert(hex_digit(digits[i - start]) is None);
                assert(!all_hex(digits));
                return None;
            },
        };
        assert(all_hex(next)) by {
            assert forall|k: int| 0 <= k < next.len() implies (#[trigger] hex_digit(next[k])) is Some by {
                if k < prefix.len() {
                    assert(next[k] == prefix[k]);
                }
            }
        }
        if !overflow {
            if v > (u64::MAX - d) / 16 {
                overflow = true;
                assert(v as int * 16 + d as int > u64::MAX) by (nonlinear_arith)
                    requires
                        v > (u64::MAX - d) / 16,
                        d < 16,
                ;
            } else {
                assert(v as int * 16 + d as int <= u64::MAX) by (nonlinear_arith)
                    requires
                        v <= (u64::MAX - d) / 16,
                        d < 16,
                ;
                v = v * 16 + d;
            }
        }
        i = i + 1;
    }
    assert(b@.subrange(start as int, i as int) == digits);
    if overflow {
        None
    } else {
        Some(v)
    }
}

/// Whether the text `b` starts with `0x`.
pub open spec fn has_hex_prefix(b: Seq<u8>) -> bool {
    b.len() >= 2 && b[0] == 0x30 && b[1] == 0x78
}

/// Why text could not be read as a hexadecimal key id.
#[derive(Clone, Copy, Debug, PartialEq, Eq, Structural)]
pub struct ParseHexError;

/// Reads a hexadecimal `u64`, with or without a leading `0x` (which, being
/// ASCII, always ends on a character boundary).
pub fn parse_hex(s: &str) -> (r: Result<u64, ParseHexError>)
    ensures
        ({
            let b = s.spec_bytes();
            let digits = if has_hex_prefix(b) && is_char_boundary(b, 2) {
                b.subrange(2, b.len() as int)
            } else {
                b
            };
            &&& r is Ok <==> u64_of_hex(digits) is Some
            &&& r is Ok ==> r->Ok_0 == u64_of_hex(digits)->Some_0
        }),
{
    let b = s.as_bytes();
    let parsed = if b.len() >= 2 && b[0] == 0x30 && b[1] == 0x78 && s.is_char_boundary(2) {
        let (_, rest) = s.split_at(2);
        u64_from_hex(rest)
    } else {
        u64_from_hex(s)
    };
    match parsed {
        Some(v) => Ok(v),
        None => Err(ParseHexError),
    }
}

} // verus!
