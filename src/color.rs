use vstd::prelude::*;
use vstd::string::StringSliceAdditionalSpecFns;

verus! {

/// The byte of `#`.
const HASH: u8 = 35;

/// The byte of `+`.
const PLUS: u8 = 43;

/// The value of a hexadecimal digit (`0`-`9`, `a`-`f`, `A`-`F` by their bytes), in either case.
pub open spec fn hex_digit(b: u8) -> Option<u8> {
    if 48 <= b <= 57 {
        Some((b - 48) as u8)
    } else if 97 <= b <= 102 {
        Some((b - 87) as u8)
    } else if 65 <= b <= 70 {
        Some((b - 55) as u8)
    } else {
        None
    }
}

/// A channel written as two characters from `j` on: two hex digits, or a
/// `+` sign and one digit.
pub open spec fn hex_pair(s: Seq<u8>, j: int) -> Option<u8> {
    match (hex_digit(s[j]), hex_digit(s[j + 1])) {
        (Some(hi), Some(lo)) => Some((hi * 16 + lo) as u8),
        (None, Some(lo)) => if s[j] == 43 {
            Some(lo)
        } else {
            None
        },
        _ => None,
    }
}

/// Whether the first `i` bytes are all `#` and byte `i` is not.
pub open spec fn hash_prefix(s: Seq<u8>, i: int) -> bool {
    &&& 0 <= i <= s.len()
    &&& forall|k: int| 0 <= k < i ==> s[k] == 35
    &&& i < s.len() ==> s[i] != 35
}

/// The red, green and blue channels written from `i` on.
pub open spec fn channels_at(s: Seq<u8>, i: int) -> Option<(u8, u8, u8)> {
    if i + 6 <= s.len() {
        match (hex_pair(s, i), hex_pair(s, i + 2), hex_pair(s, i + 4)) {
            (Some(r), Some(g), Some(b)) => Some((r, g, b)),
            _ => None,
        }
    } else {
        None
    }
}

fn digit(b: u8) -> (r: Option<u8>)
    ensures
        r == hex_digit(b),
{
    if 48 <= b && b <= 57 {
        Some(b - 48)
    } else if 97 <= b && b <= 102 {
        Some(b - 87)
    } else if 65 <= b && b <= 70 {
        Some(b - 55)
    } else {
        None
    }
}

fn pair(s: &[u8], j: usize) -> (r: Option<u8>)
    requires
        j + 1 < s@.len(),
    ensures
        r == hex_pair(s@, j as int),
{
    match (digit(s[j]), digit(s[j + 1])) {
        (Some(hi), Some(lo)) => Some(hi * 16 + lo),
        (None, Some(lo)) => if s[j] == PLUS {
            Some(lo)
        } else {
            None
        },
        _ => None,
    }
}

/// The red, green and blue channels of a hex color such as `#ff8000`:
/// leading `#` characters are skipped, and the next six characters are
/// read as three two-digit hexadecimal numbers; anything after them is
/// ignored. None when fewer than six characters follow or one of the
/// pairs is not a number.
pub fn hex_to_rgb(hex: &str) -> (r: Option<(u8, u8, u8)>)
    ensures
        forall|i: int| hash_prefix(hex.spec_bytes(), i) ==> r == channels_at(hex.spec_bytes(), i),
{
    let s = hex.as_bytes();
    let mut i: usize = 0;
    while i < s.len() && s[i] == HASH
        invariant
            i <= s@.len(),
            forall|k: int| 0 <= k < i ==> s@[k] == 35,
        decreases s@.len() - i,
    {
        i = i + 1;
    }
    proof {
        assert forall|j: int| hash_prefix(s@, j) implies j == i by {
            if j < i {
                assert(s@[j] == 35);
            } else if j > i {
                assert(s@[i as int] == 35);
            }
        }
    }
    if s.len() - i < 6 {
        return None;
    }
    match (pair(s, i), pair(s, i + 2), pair(s, i + 4)) {
        (Some(r), Some(g), Some(b)) => Some((r, g, b)),
        _ => None,
    }
}

} // verus!
