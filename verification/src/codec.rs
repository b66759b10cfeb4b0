use vstd::prelude::*;

verus! {

/// Why a transport string failed to decode.
#[derive(Clone, Copy, Debug, PartialEq, Eq, Structural)]
pub enum CodecError {
    /// The string's length is odd, so it cannot be a byte-aligned hex string.
    OddLength,
    /// A character is not a lower-case hexadecimal digit.
    BadDigit,
}

/// The lower-case hex digit for a nibble.
pub open spec fn spec_hex_digit(d: u8) -> char {
    if d == 0 {
        '0'
    } else if d == 1 {
        '1'
    } else if d == 2 {
        '2'
    } else if d == 3 {
        '3'
    } else if d == 4 {
        '4'
    } else if d == 5 {
        '5'
    } else if d == 6 {
        '6'
    } else if d == 7 {
        '7'
    } else if d == 8 {
        '8'
    } else if d == 9 {
        '9'
    } else if d == 10 {
        'a'
    } else if d == 11 {
        'b'
    } else if d == 12 {
        'c'
    } else if d == 13 {
        'd'
    } else if d == 14 {
        'e'
    } else {
        'f'
    }
}

/// The nibble a character stands for, if it is a lower-case hex digit.
pub open spec fn spec_hex_val(c: char) -> Option<u8> {
    if c == '0' {
        Some(0u8)
    } else if c == '1' {
        Some(1u8)
    } else if c == '2' {
        Some(2u8)
    } else if c == '3' {
        Some(3u8)
    } else if c == '4' {
        Some(4u8)
    } else if c == '5' {
        Some(5u8)
    } else if c == '6' {
        Some(6u8)
    } else if c == '7' {
        Some(7u8)
    } else if c == '8' {
        Some(8u8)
    } else if c == '9' {
        Some(9u8)
    } else if c == 'a' {
        Some(10u8)
    } else if c == 'b' {
        Some(11u8)
    } else if c == 'c' {
        Some(12u8)
    } else if c == 'd' {
        Some(13u8)
    } else if c == 'e' {
        Some(14u8)
    } else if c == 'f' {
        Some(15u8)
    } else {
        None
    }
}

/// The canonical (lower-case) hex encoding of a byte string: two digits per
/// byte, high nibble first.
pub open spec fn spec_to_hex(data: Seq<u8>) -> Seq<char> {
    Seq::new(
        2 * data.len(),
        |i: int|
            if i % 2 == 0 {
                spec_hex_digit(data[i / 2] / 16)
            } else {
                spec_hex_digit(data[i / 2] % 16)
            },
    )
}

/// A string decodes iff its length is even and every character is a
/// lower-case hex digit.
pub open spec fn spec_valid_hex(s: Seq<char>) -> bool {
    &&& s.len() % 2 == 0
    &&& forall|i: int| 0 <= i < s.len() ==> (#[trigger] spec_hex_val(s[i])) is Some
}

/// The bytes a valid hex string decodes to.
pub open spec fn spec_from_hex(s: Seq<char>) -> Seq<u8> {
    Seq::new(
        s.len() / 2,
        |i: int| (spec_hex_val(s[2 * i]).unwrap() * 16 + spec_hex_val(s[2 * i + 1]).unwrap()) as u8,
    )
}

/// A nibble's digit decodes back to the nibble.
pub proof fn lemma_hex_digit_val(d: u8)
    requires
        d < 16,
    ensures
        spec_hex_val(spec_hex_digit(d)) == Some(d),
{
}

/// Decoding inverts encoding: every byte string comes back unchanged from
/// its canonical hex form.
pub proof fn lemma_hex_round_trip(data: Seq<u8>)
    ensures
        spec_valid_hex(spec_to_hex(data)),
        spec_from_hex(spec_to_hex(data)) == data,
{
    let h = spec_to_hex(data);
    assert forall|i: int| 0 <= i < h.len() implies (#[trigger] spec_hex_val(h[i])) is Some by {
        if i % 2 == 0 {
            lemma_hex_digit_val(data[i / 2] / 16);
        } else {
            lemma_hex_digit_val(data[i / 2] % 16);
        }
    }
    assert forall|i: int| 0 <= i < data.len() implies spec_from_hex(h)[i] == data[i] by {
        lemma_hex_digit_val(data[i] / 16);
        lemma_hex_digit_val(data[i] % 16);
        assert((2 * i) % 2 == 0 && (2 * i + 1) % 2 == 1 && (2 * i) / 2 == i && (2 * i + 1) / 2
            == i);
        assert(spec_from_hex(h)[i] == ((data[i] / 16) * 16 + data[i] % 16) as u8);
    }
    assert(spec_from_hex(h) =~= data);
}

/// Encoding inverts decoding on valid hex strings, so the canonical hex
/// form of a byte string is unique.
pub proof fn lemma_hex_canonical(s: Seq<char>)
    requires
        spec_valid_hex(s),
    ensures
        spec_to_hex(spec_from_hex(s)) == s,
{
    let data = spec_from_hex(s);
    assert forall|i: int| 0 <= i < s.len() implies spec_to_hex(data)[i] == s[i] by {
        let j = i / 2;
        let hi = spec_hex_val(s[2 * j]).unwrap();
        let lo = spec_hex_val(s[2 * j + 1]).unwrap();
        assert(spec_hex_val(s[2 * j]) is Some && spec_hex_val(s[2 * j + 1]) is Some);
        assert(hi < 16 && lo < 16);
        assert(data[j] == (hi * 16 + lo) as u8);
        assert(data[j] / 16 == hi && data[j] % 16 == lo);
        assert(spec_hex_digit(spec_hex_val(s[2 * j]).unwrap()) == s[2 * j]);
        assert(spec_hex_digit(spec_hex_val(s[2 * j + 1]).unwrap()) == s[2 * j + 1]);
        if i % 2 == 0 {
            assert(i == 2 * j);
        } else {
            assert(i == 2 * j + 1);
        }
    }
    assert(spec_to_hex(data) =~= s);
}

pub(crate) fn hex_digit_str(d: u8) -> (r: &'static str)
    requires
        d < 16,
    ensures
        r@ =~= seq![spec_hex_digit(d)],
{
    proof {
        reveal_strlit("0");
        reveal_strlit("1");
        reveal_strlit("2");
        reveal_strlit("3");
        reveal_strlit("4");
        reveal_strlit("5");
        reveal_strlit("6");
        reveal_strlit("7");
        reveal_strlit("8");
        reveal_strlit("9");
        reveal_strlit("a");
        reveal_strlit("b");
        reveal_strlit("c");
        reveal_strlit("d");
        reveal_strlit("e");
        reveal_strlit("f");
    }
    if d == 0 {
        "0"
    } else if d == 1 {
        "1"
    } else if d == 2 {
        "2"
    } else if d == 3 {
        "3"
    } else if d == 4 {
        "4"
    } else if d == 5 {
        "5"
    } else if d == 6 {
        "6"
    } else if d == 7 {
        "7"
    } else if d == 8 {
        "8"
    } else if d == 9 {
        "9"
    } else if d == 10 {
        "a"
    } else if d == 11 {
        "b"
    } else if d == 12 {
        "c"
    } else if d == 13 {
        "d"
    } else if d == 14 {
        "e"
    } else {
        "f"
    }
}

fn hex_val(c: char) -> (r: Option<u8>)
    ensures
        r == spec_hex_val(c),
{
    if c == '0' {
        Some(0u8)
    } else if c == '1' {
        Some(1u8)
    } else if c == '2' {
        Some(2u8)
    } else if c == '3' {
        Some(3u8)
    } else if c == '4' {
        Some(4u8)
    } else if c == '5' {
        Some(5u8)
    } else if c == '6' {
        Some(6u8)
    } else if c == '7' {
        Some(7u8)
    } else if c == '8' {
        Some(8u8)
    } else if c == '9' {
        Some(9u8)
    } else if c == 'a' {
        Some(10u8)
    } else if c == 'b' {
        Some(11u8)
    } else if c == 'c' {
        Some(12u8)
    } else if c == 'd' {
        Some(13u8)
    } else if c == 'e' {
        Some(14u8)
    } else if c == 'f' {
        Some(15u8)
    } else {
        None
    }
}

/// Encode bytes as canonical lower-case hex, the transport form of roots,
/// proofs and verifying keys.
pub fn to_hex(data: &[u8]) -> (r: String)
    ensures
        r@ == spec_to_hex(data@),
{
    let mut out = String::new();
    let n = data.len();
    let mut i: usize = 0;
    while i < n
        invariant
            n == data@.len(),
            i <= n,
            out@ =~= spec_to_hex(data@.take(i as int)),
        decreases n - i,
    {
        let b = data[i];
        let hi = hex_digit_str(b / 16);
        let lo = hex_digit_str(b % 16);
        out.append(hi);
        out.append(lo);
        proof {
            assert(out@ =~= spec_to_hex(data@.take(i + 1)));
        }
        i += 1;
    }
    proof {
        assert(data@.take(n as int) =~= data@);
    }
    out
}

/// Decode a canonical hex string back to bytes. Odd length or a character
/// outside `0..9a..f` is a deserialization error, reported distinctly from
/// any verification outcome.
pub fn from_hex(s: &str) -> (r: Result<Vec<u8>, CodecError>)
    ensures
        r is Ok <==> spec_valid_hex(s@),
        r is Ok ==> r.unwrap()@ == spec_from_hex(s@),
        r == Err::<Vec<u8>, CodecError>(CodecError::OddLength) <==> s@.len() % 2 != 0,
{
    let n = s.unicode_len();
    if n % 2 != 0 {
        return Err(CodecError::OddLength);
    }
    let mut out: Vec<u8> = Vec::new();
    let mut i: usize = 0;
    while i < n
        invariant
            n == s@.len(),
            n % 2 == 0,
            i % 2 == 0,
            i <= n,
            out@.len() == i / 2,
            forall|k: int| 0 <= k < i ==> (#[trigger] spec_hex_val(s@[k])) is Some,
            forall|k: int|
                0 <= k < i / 2 ==> out@[k] == (spec_hex_val(s@[2 * k]).unwrap() * 16 + spec_hex_val(
                    s@[2 * k + 1],
                ).unwrap()) as u8,
        decreases n - i,
    {
        let chi = s.get_char(i);
        let clo = s.get_char(i + 1);
        let hi = hex_val(chi);
        let lo = hex_val(clo);
        match (hi, lo) {
            (Some(h), Some(l)) => {
                assert(h < 16 && l < 16);
                out.push(h * 16 + l);
            },
            _ => {
                return Err(CodecError::BadDigit);
            },
        }
        i += 2;
    }
    proof {
        assert(out@ =~= spec_from_hex(s@));
    }
    Ok(out)
}

/// A `u64` as eight big-endian bytes.
pub open spec fn spec_u64_be(x: u64) -> Seq<u8> {
    seq![
        ((x >> 56) & 0xff) as u8,
        ((x >> 48) & 0xff) as u8,
        ((x >> 40) & 0xff) as u8,
        ((x >> 32) & 0xff) as u8,
        ((x >> 24) & 0xff) as u8,
        ((x >> 16) & 0xff) as u8,
        ((x >> 8) & 0xff) as u8,
        (x & 0xff) as u8,
    ]
}

/// An `i64`'s two's-complement bit pattern, as an unsigned value.
pub open spec fn spec_i64_as_u64(x: i64) -> u64 {
    if x >= 0 {
        x as u64
    } else {
        ((x as int) + 0x1_0000_0000_0000_0000) as u64
    }
}

/// An `i64` as eight big-endian two's-complement bytes, the fixed-width
/// timestamp encoding inside a member record.
pub open spec fn spec_i64_be(x: i64) -> Seq<u8> {
    spec_u64_be(spec_i64_as_u64(x))
}

/// Eight big-endian bytes of a timestamp.
pub fn i64_to_be_bytes(x: i64) -> (r: Vec<u8>)
    ensures
        r@ == spec_i64_be(x),
        r@.len() == 8,
{
    let u: u64 = if x >= 0 {
        x as u64
    } else {
        ((x as i128) + 0x1_0000_0000_0000_0000i128) as u64
    };
    assert(u == spec_i64_as_u64(x));
    let mut r: Vec<u8> = Vec::new();
    r.push(((u >> 56) & 0xff) as u8);
    r.push(((u >> 48) & 0xff) as u8);
    r.push(((u >> 40) & 0xff) as u8);
    r.push(((u >> 32) & 0xff) as u8);
    r.push(((u >> 24) & 0xff) as u8);
    r.push(((u >> 16) & 0xff) as u8);
    r.push(((u >> 8) & 0xff) as u8);
    r.push((u & 0xff) as u8);
    proof {
        assert(r@ =~= spec_u64_be(u));
    }
    r
}

} // verus!
