//! The accent color setting, `#rrggbb`, as red, green and blue.
use vstd::prelude::*;
use vstd::utf8::encode_utf8;

verus! {

/// The bytes after the leading `#` characters. Since `#` is ASCII and never
/// occurs inside a multi-byte UTF-8 sequence, this is `trim_start_matches('#')`.
pub open spec fn trim_hashes(b: Seq<u8>) -> Seq<u8>
    decreases b.len(),
{
    if b.len() > 0 && b[0] == 35u8 {
        trim_hashes(b.drop_first())
    } else {
        b
    }
}

/// The value of a hexadecimal digit (in either case), if it is one.
pub open spec fn hex_value(b: u8) -> Option<u8> {
    if 48 <= b <= 57 {
        Some((b - 48) as u8)
    } else if 97 <= b <= 102 {
        Some((b - 87) as u8)
    } else if 65 <= b <= 70 {
        Some((b - 55) as u8)
    } else {
        None
    }
}

/// The value of two hexadecimal digits, the first the high one.
pub open spec fn pair_value(hi: u8, lo: u8) -> u8 {
    (hex_value(hi)->Some_0 * 16 + hex_value(lo)->Some_0) as u8
}

/// Whether all six bytes are hexadecimal digits.
pub open spec fn six_hex_digits(h: Seq<u8>) -> bool {
    h.len() == 6 && forall|k: int| 0 <= k < 6 ==> #[trigger] hex_value(h[k]) is Some
}

/// What `hex_to_rgb` returns for the UTF-8 bytes of its argument: when the
/// bytes after the leading `#`s are exactly six hexadecimal digits, the red,
/// green and blue they spell; for any other value, the default wine red
/// `(0x72, 0x2f, 0x37)`.
pub open spec fn rgb_of(bytes: Seq<u8>) -> (u8, u8, u8) {
    let h = trim_hashes(bytes);
    if six_hex_digits(h) {
        (pair_value(h[0], h[1]), pair_value(h[2], h[3]), pair_value(h[4], h[5]))
    } else {
        (0x72, 0x2f, 0x37)
    }
}

fn hex_digit(b: u8) -> (r: Option<u8>)
    ensures
        r == hex_value(b),
{
    if 48 <= b && b <= 57 {
        Some(b - 48)
    } else if 97 <= b && b <= 102 {
        Some(b - 87)
    } else if 65 <= b && b <= 70 {
        Some(b - 55)
    } else {
        None
    }
}

/// Converts `#rrggbb` (any number of leading `#`s, digits in either case) to
/// its red, green and blue; a malformed value gives the default wine red.
pub fn hex_to_rgb(hex: &str) -> (r: (u8, u8, u8))
    ensures
        r == rgb_of(encode_utf8(hex@)),
{
    let b = hex.as_bytes();
    let n = b.len();
    let mut i: usize = 0;
    assert(b@.skip(0) =~= b@);
    while i < n && b[i] == 35
        invariant
            i <= n,
            n == b@.len(),
            trim_hashes(b@) == trim_hashes(b@.skip(i as int)),
        decreases n - i,
    {
        proof {
            let t = b@.skip(i as int);
            assert(t[0] == b@[i as int]);
            assert(t.drop_first() =~= b@.skip(i + 1));
        }
        i = i + 1;
    }
    let ghost h = b@.skip(i as int);
    assert(trim_hashes(h) == h) by {
        if h.len() > 0 {
            assert(h[0] == b@[i as int]);
        }
    }
    if n - i != 6 {
        return (0x72, 0x2f, 0x37);
    }
    let mut digits: Vec<u8> = Vec::new();
    let mut k: usize = 0;
    while k < 6
        invariant
            k <= 6,
            n - i == 6,
            n == b@.len(),
            h == b@.skip(i as int),
            b@ == encode_utf8(hex@),
            trim_hashes(b@) == h,
            digits@.len() == k,
            forall|j: int| 0 <= j < k ==> hex_value(#[trigger] h[j]) == Some(digits@[j]),
        decreases 6 - k,
    {
        match hex_digit(b[i + k]) {
            Some(d) => {
                assert(h[k as int] == b@[i + k]);
                digits.push(d);
            },
            None => {
                assert(h[k as int] == b@[i + k]);
                assert(hex_value(h[k as int]) is None);
                return (0x72, 0x2f, 0x37);
            },
        }
        k = k + 1;
    }
    assert(hex_value(h[0]) == Some(digits@[0]) && hex_value(h[1]) == Some(digits@[1]));
    assert(hex_value(h[2]) == Some(digits@[2]) && hex_value(h[3]) == Some(digits@[3]));
    assert(hex_value(h[4]) == Some(digits@[4]) && hex_value(h[5]) == Some(digits@[5]));
    assert(six_hex_digits(h));
    (digits[0] * 16 + digits[1], digits[2] * 16 + digits[3], digits[4] * 16 + digits[5])
}

} // verus!
