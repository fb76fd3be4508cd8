use vstd::prelude::*;
use vstd::utf8::encode_utf8;
use crate::error::DeviceError;

verus! {

#[verifier::external_type_specification]
#[verifier::external_body]
pub struct ExFromHexError(hex::FromHexError);

/// The value of one hex digit, or -1 for a byte that is not one.
pub open spec fn hex_value(c: u8) -> int {
    if 48 <= c <= 57 {
        c - 48
    } else if 97 <= c <= 102 {
        c - 97 + 10
    } else if 65 <= c <= 70 {
        c - 65 + 10
    } else {
        -1
    }
}

/// An even number of bytes, each of them a hex digit of either case.
pub open spec fn is_hex_text(b: Seq<u8>) -> bool {
    &&& b.len() % 2 == 0
    &&& forall|i: int| 0 <= i < b.len() ==> hex_value(#[trigger] b[i]) >= 0
}

/// The bytes that hex text stands for, two digits each, high digit first.
pub open spec fn hex_bytes(b: Seq<u8>) -> Seq<u8> {
    Seq::new(b.len() / 2, |i: int| (16 * hex_value(b[2 * i]) + hex_value(b[2 * i + 1])) as u8)
}

/// Relies on `<Vec<u8> as hex::FromHex>::from_hex`: it fails on odd length and on
/// any byte outside `0-9a-fA-F`, and otherwise decodes each pair of digits.
#[verifier::external_body]
fn decode_hex(b: &[u8]) -> (r: Result<Vec<u8>, hex::FromHexError>)
    ensures
        r is Ok <==> is_hex_text(b@),
        r matches Ok(v) ==> v@ == hex_bytes(b@),
{
    <Vec<u8> as hex::FromHex>::from_hex(b)
}

/// The text with every leading `#` removed.
pub open spec fn strip_marks(b: Seq<u8>) -> Seq<u8>
    decreases b.len(),
{
    if b.len() > 0 && b[0] == 35u8 {
        strip_marks(b.skip(1))
    } else {
        b
    }
}

proof fn lemma_strip_step(b: Seq<u8>, k: int)
    requires
        0 <= k < b.len(),
        b[k] == 35u8,
    ensures
        strip_marks(b.skip(k)) == strip_marks(b.skip(k + 1)),
{
    assert(b.skip(k).skip(1) =~= b.skip(k + 1));
}

proof fn lemma_strip_prefix(b: Seq<u8>, k: int)
    requires
        0 <= k <= b.len(),
        forall|i: int| 0 <= i < k ==> b[i] == 35u8,
    ensures
        strip_marks(b) == strip_marks(b.skip(k)),
    decreases k,
{
    if k > 0 {
        lemma_strip_prefix(b, k - 1);
        lemma_strip_step(b, k - 1);
    } else {
        assert(b.skip(0) =~= b);
    }
}

pub open spec fn max3(r: int, g: int, b: int) -> int {
    if r >= g && r >= b {
        r
    } else if g >= b {
        g
    } else {
        b
    }
}

pub open spec fn min3(r: int, g: int, b: int) -> int {
    if r <= g && r <= b {
        r
    } else if g <= b {
        g
    } else {
        b
    }
}

/// Twice-scaled HSV hue: `H / 360 * 65535`, rounded down, where `H` is the
/// standard hue angle in `[0, 360)`. `H / 360` is `x / 6` with `x` the sector
/// offset `(g - b) / d mod 6`, `(b - r) / d + 2` or `(r - g) / d + 4` for a
/// maximum in red, green or blue; a gray (`d == 0`) has hue 0.
pub open spec fn hue_of(r: int, g: int, b: int) -> int {
    let mx = max3(r, g, b);
    let d = mx - min3(r, g, b);
    if d == 0 {
        0
    } else if mx == r {
        let n = if g >= b { g - b } else { g - b + 6 * d };
        n * 65535 / (6 * d)
    } else if mx == g {
        (b - r + 2 * d) * 65535 / (6 * d)
    } else {
        (r - g + 4 * d) * 65535 / (6 * d)
    }
}

/// HSV saturation `(max - min) / max`, scaled to `0..=254` and rounded down.
pub open spec fn sat_of(r: int, g: int, b: int) -> int {
    let mx = max3(r, g, b);
    if mx == 0 {
        0
    } else {
        (mx - min3(r, g, b)) * 254 / mx
    }
}

/// The three color bytes a color string names, if it is hex RGB after its
/// leading `#` marks.
pub open spec fn rgb_of(color: Seq<char>) -> Option<Seq<u8>> {
    let t = strip_marks(encode_utf8(color));
    if is_hex_text(t) && t.len() == 6 {
        Some(hex_bytes(t))
    } else {
        None
    }
}

/// The controller's native `(hue, saturation)` of a color string, or `None`
/// where the string is no hex RGB color.
pub open spec fn native_color(color: Seq<char>) -> Option<(u16, u8)> {
    match rgb_of(color) {
        Some(c) => Some(
            (
                hue_of(c[0] as int, c[1] as int, c[2] as int) as u16,
                sat_of(c[0] as int, c[1] as int, c[2] as int) as u8,
            ),
        ),
        None => None,
    }
}

/// Hue and saturation of one RGB triple, in the controller's ranges.
pub fn rgb_to_hue_sat(r: u8, g: u8, b: u8) -> (res: (u16, u8))
    ensures
        res.0 as int == hue_of(r as int, g as int, b as int),
        res.1 as int == sat_of(r as int, g as int, b as int),
{
    let r = r as u64;
    let g = g as u64;
    let b = b as u64;
    let mx: u64 = if r >= g && r >= b {
        r
    } else if g >= b {
        g
    } else {
        b
    };
    let mn: u64 = if r <= g && r <= b {
        r
    } else if g <= b {
        g
    } else {
        b
    };
    let d: u64 = mx - mn;
    let hue: u64 = if d == 0 {
        0
    } else {
        let n: u64 = if mx == r {
            if g >= b {
                g - b
            } else {
                6 * d - (b - g)
            }
        } else if mx == g {
            2 * d + b - r
        } else {
            4 * d + r - g
        };
        assert(n < 6 * d);
        assert(n * 65535 <= 6 * d * 65535) by (nonlinear_arith)
            requires
                n < 6 * d,
        ;
        assert((n * 65535) as int / (6 * d) as int <= 65535) by (nonlinear_arith)
            requires
                n * 65535 <= 6 * d * 65535,
                d > 0,
        ;
        n * 65535 / (6 * d)
    };
    let sat: u64 = if mx == 0 {
        0
    } else {
        assert(d * 254 <= mx * 254) by (nonlinear_arith)
            requires
                d <= mx,
        ;
        assert((d * 254) as int / mx as int <= 254) by (nonlinear_arith)
            requires
                d * 254 <= mx * 254,
                mx > 0,
        ;
        d * 254 / mx
    };
    (hue as u16, sat as u8)
}

/// Converts a hex RGB color string (`"#RRGGBB"`, any number of leading `#`)
/// to the controller's native hue and saturation.
pub fn hex_to_hue(hex: &str) -> (res: Result<(u16, u8), DeviceError>)
    ensures
        match native_color(hex@) {
            Some(hs) => res == Ok::<(u16, u8), DeviceError>(hs),
            None => res == Err::<(u16, u8), DeviceError>(DeviceError::InvalidColor),
        },
{
    let bytes = hex.as_bytes();
    let n = bytes.len();
    let mut k: usize = 0;
    while k < n && bytes[k] == 35u8
        invariant
            k <= n,
            n == bytes@.len(),
            forall|i: int| 0 <= i < k ==> bytes@[i] == 35u8,
        decreases n - k,
    {
        k += 1;
    }
    let mut digits: Vec<u8> = Vec::new();
    let mut j: usize = k;
    while j < n
        invariant
            k <= j <= n,
            n == bytes@.len(),
            digits@ == bytes@.subrange(k as int, j as int),
        decreases n - j,
    {
        digits.push(bytes[j]);
        j += 1;
    }
    proof {
        lemma_strip_prefix(bytes@, k as int);
        assert(digits@ =~= bytes@.skip(k as int));
        if k < n {
            assert(bytes@.skip(k as int)[0] != 35u8);
        }
        assert(strip_marks(bytes@.skip(k as int)) == bytes@.skip(k as int));
    }
    match decode_hex(digits.as_slice()) {
        Err(_) => Err(DeviceError::InvalidColor),
        Ok(rgb) => {
            if rgb.len() != 3 {
                Err(DeviceError::InvalidColor)
            } else {
                let hs = rgb_to_hue_sat(rgb[0], rgb[1], rgb[2]);
                Ok(hs)
            }
        },
    }
}

} // verus!
