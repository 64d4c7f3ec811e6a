use vstd::prelude::*;
use vstd::string::StringSliceAdditionalSpecFns;

verus! {

/// The number of leading `#` bytes.
pub open spec fn leading_hashes(b: Seq<u8>) -> nat
    decreases b.len(),
{
    if b.len() > 0 && b[0] == 0x23u8 {
        1 + leading_hashes(b.drop_first())
    } else {
        0
    }
}

/// Position `k` of a UTF-8 byte string starts a character (or is its end).
pub open spec fn starts_char(b: Seq<u8>, k: int) -> bool {
    k == b.len() || !(0x80u8 <= b[k] && b[k] < 0xC0u8)
}

/// The value of an ASCII hexadecimal digit.
pub open spec fn hex_digit(c: u8) -> Option<u8> {
    if 0x30u8 <= c && c <= 0x39u8 {
        Some((c - 0x30u8) as u8)
    } else if 0x61u8 <= c && c <= 0x66u8 {
        Some((c - 0x61u8 + 10) as u8)
    } else if 0x41u8 <= c && c <= 0x46u8 {
        Some((c - 0x41u8 + 10) as u8)
    } else {
        None
    }
}

/// What `u8::from_str_radix(.., 16)` gives for a two-byte text, with 0 in place of
/// an error: a `+` sign followed by one digit, or two digits.
pub open spec fn hex_pair(a: u8, b: u8) -> u8 {
    if a == 0x2Bu8 {
        match hex_digit(b) {
            Some(d) => d,
            None => 0,
        }
    } else {
        match (hex_digit(a), hex_digit(b)) {
            (Some(h), Some(l)) => (h * 16 + l) as u8,
            _ => 0,
        }
    }
}

/// A solid layer's colour text can be read: after any leading `#`, it has at
/// least six bytes and the boundaries of the first three two-byte groups fall
/// between characters.
pub open spec fn solid_color_readable(color: Seq<u8>) -> bool {
    let c = color.skip(leading_hashes(color) as int);
    c.len() >= 6 && starts_char(c, 2) && starts_char(c, 4) && starts_char(c, 6)
}

/// The red, green and blue bytes of a solid layer's colour text: after any
/// leading `#`, the first three two-byte groups read as hexadecimal, an unreadable
/// group counting as 0.
pub open spec fn spec_solid_color(color: Seq<u8>) -> (u8, u8, u8) {
    let c = color.skip(leading_hashes(color) as int);
    (hex_pair(c[0], c[1]), hex_pair(c[2], c[3]), hex_pair(c[4], c[5]))
}

fn hex_digit_exec(c: u8) -> (r: Option<u8>)
    ensures
        r == hex_digit(c),
{
    if 0x30 <= c && c <= 0x39 {
        Some(c - 0x30)
    } else if 0x61 <= c && c <= 0x66 {
        Some(c - 0x61 + 10)
    } else if 0x41 <= c && c <= 0x46 {
        Some(c - 0x41 + 10)
    } else {
        None
    }
}

fn hex_pair_exec(a: u8, b: u8) -> (r: u8)
    ensures
        r == hex_pair(a, b),
{
    if a == 0x2B {
        match hex_digit_exec(b) {
            Some(d) => d,
            None => 0,
        }
    } else {
        match (hex_digit_exec(a), hex_digit_exec(b)) {
            (Some(h), Some(l)) => h * 16 + l,
            _ => 0,
        }
    }
}

proof fn lemma_leading_hashes_step(b: Seq<u8>, k: int)
    requires
        0 <= k <= b.len(),
        forall|j: int| 0 <= j < k ==> b[j] == 0x23u8,
    ensures
        leading_hashes(b) == k + leading_hashes(b.skip(k)),
    decreases k,
{
    if k > 0 {
        lemma_leading_hashes_step(b.drop_first(), k - 1);
        assert(b.drop_first().skip(k - 1) =~= b.skip(k));
    } else {
        assert(b.skip(0) =~= b);
    }
}

/// The number of leading `#` bytes of a text.
fn skip_hashes(b: &[u8]) -> (t: usize)
    ensures
        t == leading_hashes(b@),
        t <= b@.len(),
{
    let n = b.len();
    let mut t: usize = 0;
    while t < n && b[t] == 0x23
        invariant
            n == b@.len(),
            t <= n,
            forall|j: int| 0 <= j < t ==> b@[j] == 0x23u8,
        decreases n - t,
    {
        t = t + 1;
    }
    proof {
        lemma_leading_hashes_step(b@, t as int);
        if t < n {
            assert(b@.skip(t as int)[0] != 0x23u8);
        }
        assert(leading_hashes(b@.skip(t as int)) == 0);
    }
    t
}

/// Whether the colour text of a solid layer can be read (reading it otherwise
/// slices it out of bounds or inside a character).
pub fn solid_color_is_readable(color: &str) -> (r: bool)
    ensures
        r == solid_color_readable(color.spec_bytes()),
{
    let b = color.as_bytes();
    let n = b.len();
    let t = skip_hashes(b);
    let ghost c = b@.skip(t as int);
    if n - t < 6 {
        return false;
    }
    let cont2 = 0x80 <= b[t + 2] && b[t + 2] < 0xC0;
    let cont4 = 0x80 <= b[t + 4] && b[t + 4] < 0xC0;
    let cont6 = n - t > 6 && 0x80 <= b[t + 6] && b[t + 6] < 0xC0;
    assert(c[2] == b@[t + 2] && c[4] == b@[t + 4]);
    assert(n - t > 6 ==> c[6] == b@[t + 6]);
    !(cont2 || cont4 || cont6)
}

/// Reads the colour of a solid layer (`sc`, such as `#ff8000`) as bytes.
pub fn parse_solid_color(color: &str) -> (r: (u8, u8, u8))
    requires
        solid_color_readable(color.spec_bytes()),
    ensures
        r == spec_solid_color(color.spec_bytes()),
{
    let b = color.as_bytes();
    let t = skip_hashes(b);
    let ghost c = b@.skip(t as int);
    let red = hex_pair_exec(b[t], b[t + 1]);
    let green = hex_pair_exec(b[t + 2], b[t + 3]);
    let blue = hex_pair_exec(b[t + 4], b[t + 5]);
    assert(c[0] == b@[t as int] && c[1] == b@[t + 1] && c[2] == b@[t + 2] && c[3] == b@[t + 3]
        && c[4] == b@[t + 4] && c[5] == b@[t + 5]);
    (red, green, blue)
}

/// A dimension of a solid layer: the given value, or 100 when the layer gives none.
pub open spec fn solid_dimension(d: Option<u32>) -> u32 {
    match d {
        Some(v) => v,
        None => 100u32,
    }
}

/// The size of a solid layer's rectangle from its `sw` and `sh` fields, each 100
/// when absent.
pub fn solid_layer_size(sw: Option<u32>, sh: Option<u32>) -> (r: (u32, u32))
    ensures
        r == (solid_dimension(sw), solid_dimension(sh)),
{
    let w = match sw {
        Some(v) => v,
        None => 100,
    };
    let h = match sh {
        Some(v) => v,
        None => 100,
    };
    (w, h)
}

} // verus!
