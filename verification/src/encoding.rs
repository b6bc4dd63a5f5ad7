//! The encoding codec: bech32 strings with a type prefix (trusted calls
//! into the bech32 crate) and a verified hexadecimal codec.

use vstd::prelude::*;
use vstd::string::StrSliceExecFns;
use vstd::string::StringExecFns;
use vstd::string::StringSliceAdditionalSpecFns;
use crate::error::Error;

verus! {

/// The bech32 string that encodes `data` under the prefix `hrp`.
pub uninterp spec fn bech32_of(hrp: Seq<char>, data: Seq<u8>) -> Seq<char>;

/// What decoding a bech32 string yields: the lowercase prefix and the
/// payload bytes, or nothing when the string is malformed.
pub uninterp spec fn bech32_decode_of(s: Seq<char>) -> Option<(Seq<char>, Seq<u8>)>;

/// A well-formed lowercase bech32 prefix: 1 to 83 characters, each in the
/// ASCII range 33 to 126, none of them an uppercase letter.
pub open spec fn valid_hrp(hrp: Seq<char>) -> bool {
    &&& 1 <= hrp.len() <= 83
    &&& forall|i: int|
        0 <= i < hrp.len() ==> 33 <= #[trigger] (hrp[i] as u32) <= 126 && !(65 <= hrp[i] as u32
            <= 90)
}

/// How many base-32 characters `n` bytes become.
pub open spec fn fe32_len(n: int) -> int {
    (8 * n + 4) / 5
}

/// Whether a prefix and payload fit in one bech32 string: the prefix, the
/// separator, the base-32 payload and the six checksum characters must
/// stay within the code length of the checksum.
pub open spec fn bech32_fits(hrp: Seq<char>, data: Seq<u8>) -> bool {
    hrp.len() + 1 + fe32_len(data.len() as int) + 6 <= 1023
}

/// Relies on bech32::encode with the Bech32 checksum: produces the
/// canonical lowercase encoding, and fails exactly when the encoded string
/// would exceed the code length the checksum supports. Decoding the result
/// gives back the prefix and payload (the crate's own round-trip).
#[verifier::external_body]
pub(crate) fn bech32_encode(hrp: &str, data: &[u8]) -> (r: Option<String>)
    requires
        valid_hrp(hrp@),
    ensures
        r is Some <==> bech32_fits(hrp@, data@),
        r matches Some(s) ==> s@ == bech32_of(hrp@, data@) && bech32_decode_of(s@) == Some(
            (hrp@, data@),
        ),
{
    let h = match bech32::Hrp::parse(hrp) {
        Ok(h) => h,
        Err(_) => return None,
    };
    bech32::encode::<bech32::Bech32>(h, data).ok()
}

/// Relies on bech32::decode: accepts a well-formed bech32 string with a
/// valid checksum and returns its lowercase prefix and payload bytes.
#[verifier::external_body]
pub(crate) fn bech32_decode(s: &str) -> (r: Option<(String, Vec<u8>)>)
    ensures
        r is Some <==> bech32_decode_of(s@) is Some,
        r matches Some(p) ==> bech32_decode_of(s@) == Some((p.0@, p.1@)),
{
    match bech32::decode(s) {
        Ok((hrp, data)) => Some((hrp.to_lowercase(), data)),
        Err(_) => None,
    }
}

/// Whether two byte slices hold the same bytes.
pub(crate) fn bytes_eq(a: &[u8], b: &[u8]) -> (r: bool)
    ensures
        r == (a@ == b@),
{
    if a.len() != b.len() {
        return false;
    }
    let mut i: usize = 0;
    while i < a.len()
        invariant
            i <= a@.len(),
            a@.len() == b@.len(),
            forall|j: int| 0 <= j < i ==> a@[j] == b@[j],
        decreases a@.len() - i,
    {
        if a[i] != b[i] {
            return false;
        }
        i = i + 1;
    }
    proof {
        assert(a@ =~= b@);
    }
    true
}

/// Whether two strings hold the same characters.
pub(crate) fn str_eq(a: &str, b: &str) -> (r: bool)
    ensures
        r == (a@ == b@),
{
    let r = bytes_eq(a.as_bytes(), b.as_bytes());
    proof {
        if a.spec_bytes() == b.spec_bytes() {
            vstd::utf8::encode_utf8_decode_utf8(a@);
            vstd::utf8::encode_utf8_decode_utf8(b@);
        }
    }
    r
}

/// The character for one hexadecimal digit.
pub open spec fn hex_char_of(n: u8) -> char
    recommends
        n < 16,
{
    if n == 0 {
        '0'
    } else if n == 1 {
        '1'
    } else if n == 2 {
        '2'
    } else if n == 3 {
        '3'
    } else if n == 4 {
        '4'
    } else if n == 5 {
        '5'
    } else if n == 6 {
        '6'
    } else if n == 7 {
        '7'
    } else if n == 8 {
        '8'
    } else if n == 9 {
        '9'
    } else if n == 10 {
        'a'
    } else if n == 11 {
        'b'
    } else if n == 12 {
        'c'
    } else if n == 13 {
        'd'
    } else if n == 14 {
        'e'
    } else {
        'f'
    }
}

/// The lowercase hexadecimal rendering of a byte string, two characters a
/// byte, high digit first.
pub open spec fn hex_of(data: Seq<u8>) -> Seq<char>
    decreases data.len(),
{
    if data.len() == 0 {
        Seq::empty()
    } else {
        seq![hex_char_of(data[0] / 16), hex_char_of(data[0] % 16)] + hex_of(data.drop_first())
    }
}

/// The value of one hexadecimal digit; upper and lower case are accepted.
pub open spec fn hex_val(c: char) -> Option<u8> {
    let u = c as u32;
    if 48 <= u <= 57 {
        Some((u - 48) as u8)
    } else if 97 <= u <= 102 {
        Some((u - 87) as u8)
    } else if 65 <= u <= 70 {
        Some((u - 55) as u8)
    } else {
        None
    }
}

/// What decoding a hexadecimal string yields: one byte for each pair of
/// digits, or nothing when a character is no digit or the length is odd.
pub open spec fn spec_hex_decode(s: Seq<char>) -> Option<Seq<u8>>
    decreases s.len(),
{
    if s.len() == 0 {
        Some(Seq::empty())
    } else if s.len() == 1 {
        None
    } else {
        match (hex_val(s[0]), hex_val(s[1])) {
            (Some(hi), Some(lo)) => match spec_hex_decode(s.subrange(2, s.len() as int)) {
                Some(rest) => Some(seq![(16 * hi + lo) as u8] + rest),
                None => None,
            },
            _ => None,
        }
    }
}

/// The one-character string for a hexadecimal digit.
pub(crate) fn hex_digit_str(n: u8) -> (r: &'static str)
    requires
        n < 16,
    ensures
        r@ =~= seq![hex_char_of(n)],
{
    proof {
        reveal_strlit("0");
        reveal_strlit("1");
        reveal_strlit("2");
        reveal_strlit("3");
        reveal_strlit("4");
        reveal_strlit("5");
        reveal_strlit("6");
        reveal_strlit("7");
        reveal_strlit("8");
        reveal_strlit("9");
        reveal_strlit("a");
        reveal_strlit("b");
        reveal_strlit("c");
        reveal_strlit("d");
        reveal_strlit("e");
        reveal_strlit("f");
    }
    match n {
        0 => "0",
        1 => "1",
        2 => "2",
        3 => "3",
        4 => "4",
        5 => "5",
        6 => "6",
        7 => "7",
        8 => "8",
        9 => "9",
        10 => "a",
        11 => "b",
        12 => "c",
        13 => "d",
        14 => "e",
        _ => "f",
    }
}

/// `hex_of` distributes over dropping the first byte, restated for an
/// extension at the front of the remaining bytes.
proof fn lemma_hex_of_push(data: Seq<u8>, i: int)
    requires
        0 <= i < data.len(),
    ensures
        hex_of(data.subrange(0, i + 1)) == hex_of(data.subrange(0, i)) + seq![
            hex_char_of(data[i] / 16),
            hex_char_of(data[i] % 16),
        ],
    decreases i,
{
    if i == 0 {
        assert(data.subrange(0, 1).drop_first() =~= data.subrange(0, 0));
        assert(hex_of(data.subrange(0, 0)) =~= Seq::<char>::empty());
        assert(hex_of(data.subrange(0, 1)) =~= seq![
            hex_char_of(data[0] / 16),
            hex_char_of(data[0] % 16),
        ]);
    } else {
        lemma_hex_of_push(data.drop_first(), i - 1);
        assert(data.subrange(0, i + 1).drop_first() =~= data.drop_first().subrange(0, i));
        assert(data.subrange(0, i).drop_first() =~= data.drop_first().subrange(0, i - 1));
        assert(data.drop_first()[i - 1] == data[i]);
        assert(hex_of(data.subrange(0, i + 1)) == hex_of(data.subrange(0, i)) + seq![
            hex_char_of(data[i] / 16),
            hex_char_of(data[i] % 16),
        ]);
    }
}

/// The lowercase hexadecimal rendering of the given bytes.
pub fn bytes_to_hex(data: &[u8]) -> (r: String)
    ensures
        r@ == hex_of(data@),
{
    let mut s = String::new();
    let mut i: usize = 0;
    while i < data.len()
        invariant
            i <= data@.len(),
            s@ == hex_of(data@.subrange(0, i as int)),
        decreases data@.len() - i,
    {
        let b = data[i];
        s.append(hex_digit_str(b / 16));
        s.append(hex_digit_str(b % 16));
        proof {
            lemma_hex_of_push(data@, i as int);
        }
        i = i + 1;
    }
    proof {
        assert(data@.subrange(0, data@.len() as int) =~= data@);
    }
    s
}

/// The value of one hexadecimal digit character, or `None`.
fn hex_val_exec(c: char) -> (r: Option<u8>)
    ensures
        r == hex_val(c),
{
    let u = c as u32;
    if 48 <= u && u <= 57 {
        Some((u - 48) as u8)
    } else if 97 <= u && u <= 102 {
        Some((u - 87) as u8)
    } else if 65 <= u && u <= 70 {
        Some((u - 55) as u8)
    } else {
        None
    }
}

/// The bytes a hexadecimal string denotes; `ParseError` when a character
/// is no hexadecimal digit or the length is odd.
pub fn hex_decode(s: &str) -> (r: Result<Vec<u8>, Error>)
    ensures
        spec_hex_decode(s@) matches Some(b) ==> r matches Ok(v) && v@ == b,
        spec_hex_decode(s@) is None ==> r == Err::<Vec<u8>, Error>(Error::ParseError),
{
    let n = s.unicode_len();
    let mut out: Vec<u8> = Vec::new();
    let mut i: usize = 0;
    proof {
        assert(s@.subrange(0, n as int) =~= s@);
        if spec_hex_decode(s@) is Some {
            assert(out@ + spec_hex_decode(s@).unwrap() =~= spec_hex_decode(s@).unwrap());
        }
    }
    while i < n
        invariant
            i <= n,
            n == s@.len(),
            i % 2 == 0,
            spec_hex_decode(s@) == match spec_hex_decode(s@.subrange(i as int, n as int)) {
                Some(t) => Some(out@ + t),
                None => None::<Seq<u8>>,
            },
        decreases n - i,
    {
        if i + 1 == n {
            proof {
                assert(s@.subrange(i as int, n as int).len() == 1);
            }
            return Err(Error::ParseError);
        }
        let hi = match hex_val_exec(s.get_char(i)) {
            Some(v) => v,
            None => {
                proof {
                    assert(s@.subrange(i as int, n as int)[0] == s@[i as int]);
                }
                return Err(Error::ParseError);
            },
        };
        let lo = match hex_val_exec(s.get_char(i + 1)) {
            Some(v) => v,
            None => {
                proof {
                    assert(s@.subrange(i as int, n as int)[1] == s@[i as int + 1]);
                }
                return Err(Error::ParseError);
            },
        };
        out.push(16 * hi + lo);
        proof {
            let t = s@.subrange(i as int, n as int);
            assert(t[0] == s@[i as int]);
            assert(t[1] == s@[i as int + 1]);
            assert(t.subrange(2, t.len() as int) =~= s@.subrange(i as int + 2, n as int));
        }
        i = i + 2;
    }
    proof {
        assert(s@.subrange(i as int, n as int).len() == 0);
        assert(spec_hex_decode(s@.subrange(i as int, n as int)) == Some(Seq::<u8>::empty()));
        assert(out@ + Seq::<u8>::empty() =~= out@);
    }
    Ok(out)
}

/// Decoding inverts rendering: the hexadecimal string of any byte string
/// decodes to exactly those bytes.
pub proof fn lemma_hex_round_trip(data: Seq<u8>)
    ensures
        spec_hex_decode(hex_of(data)) == Some(data),
    decreases data.len(),
{
    if data.len() == 0 {
        assert(hex_of(data).len() == 0);
    } else {
        lemma_hex_round_trip(data.drop_first());
        let b = data[0];
        let h = hex_of(data);
        assert(h == seq![hex_char_of(b / 16), hex_char_of(b % 16)] + hex_of(data.drop_first()));
        assert(h[0] == hex_char_of(b / 16));
        assert(h[1] == hex_char_of(b % 16));
        assert(hex_val(hex_char_of(b / 16)) == Some((b / 16) as u8));
        assert(hex_val(hex_char_of(b % 16)) == Some((b % 16) as u8));
        assert(h.subrange(2, h.len() as int) =~= hex_of(data.drop_first()));
        assert((16 * (b / 16) + b % 16) as u8 == b);
        assert(seq![b] + data.drop_first() =~= data);
    }
}

} // verus!
