use vstd::prelude::*;
use vstd::utf8::{encode_utf8, valid_utf8};

use crate::error::HttpError;

verus! {

/// The value of one hexadecimal digit, in either case.
pub open spec fn hex_digit(b: u8) -> Option<u8> {
    if 48 <= b && b <= 57 {
        Some((b - 48) as u8)
    } else if 97 <= b && b <= 102 {
        Some((b - 87) as u8)
    } else if 65 <= b && b <= 70 {
        Some((b - 55) as u8)
    } else {
        None
    }
}

/// The byte that two hexadecimal digits spell, high digit first.
pub open spec fn hex_pair(hi: u8, lo: u8) -> Option<u8> {
    match (hex_digit(hi), hex_digit(lo)) {
        (Some(h), Some(l)) => Some((h * 16 + l) as u8),
        _ => None,
    }
}

pub open spec fn prefixed(p: Seq<u8>, rest: Option<Seq<u8>>) -> Option<Seq<u8>> {
    match rest {
        Some(t) => Some(p + t),
        None => None,
    }
}

/// Percent-decoding of `b` from index `i` on: `%` and two hexadecimal digits stand for
/// the byte they spell, every other byte for itself; a `%` without two digits after
/// it makes the whole input invalid.
pub open spec fn pct_decode_from(b: Seq<u8>, i: int) -> Option<Seq<u8>>
    decreases b.len() - i,
{
    if i < 0 || i >= b.len() {
        Some(Seq::empty())
    } else if b[i] == 37 {
        if i + 2 < b.len() && hex_pair(b[i + 1], b[i + 2]) is Some {
            prefixed(seq![hex_pair(b[i + 1], b[i + 2])->0], pct_decode_from(b, i + 3))
        } else {
            None
        }
    } else {
        prefixed(seq![b[i]], pct_decode_from(b, i + 1))
    }
}

pub open spec fn percent_decode(b: Seq<u8>) -> Option<Seq<u8>> {
    pct_decode_from(b, 0)
}

/// The text that percent-encoded `s` stands for, when its decoded bytes are UTF-8.
pub open spec fn url_decoded(s: Seq<char>) -> Option<Seq<char>> {
    match percent_decode(encode_utf8(s)) {
        Some(d) => if valid_utf8(d) {
            Some(vstd::utf8::decode_utf8(d))
        } else {
            None
        },
        None => None,
    }
}

/// Relies on String::from_utf8: it succeeds exactly on valid UTF-8, and the
/// string then holds those bytes.
#[verifier::external_body]
fn utf8_text(b: Vec<u8>) -> (r: Option<String>)
    ensures
        r is Some <==> valid_utf8(b@),
        r matches Some(s) ==> encode_utf8(s@) == b@,
{
    String::from_utf8(b).ok()
}

fn digit_value(b: u8) -> (r: Option<u8>)
    ensures
        r == hex_digit(b),
{
    if 48 <= b && b <= 57 {
        Some(b - 48)
    } else if 97 <= b && b <= 102 {
        Some(b - 87)
    } else if 65 <= b && b <= 70 {
        Some(b - 55)
    } else {
        None
    }
}

/// The byte that the hexadecimal digits `hi` and `lo` spell.
pub fn hex_to_byte(hi: u8, lo: u8) -> (r: Option<u8>)
    ensures
        r == hex_pair(hi, lo),
{
    match (digit_value(hi), digit_value(lo)) {
        (Some(h), Some(l)) => Some(h * 16 + l),
        _ => None,
    }
}

/// Decodes a percent-encoded string into the UTF-8 text it stands for.
pub fn url_decoding(hex_string: String) -> (r: Result<String, HttpError>)
    ensures
        r is Ok <==> url_decoded(hex_string@) is Some,
        r matches Ok(t) ==> Some(encode_utf8(t@)) == percent_decode(encode_utf8(hex_string@)),
        r matches Ok(t) ==> Some(t@) == url_decoded(hex_string@),
        r matches Err(e) ==> (e.kind@ == "decode"@ <==> percent_decode(encode_utf8(hex_string@)) is None),
        r matches Err(e) ==> (e.kind@ == "decode"@ || e.kind@ == "utf8"@),
{
    let b = hex_string.as_str().as_bytes();
    let ghost bs = b@;
    let mut out: Vec<u8> = Vec::new();
    let mut i: usize = 0;
    while i < b.len()
        invariant
            b@ == bs,
            bs == encode_utf8(hex_string@),
            i <= bs.len(),
            pct_decode_from(bs, 0) == prefixed(out@, pct_decode_from(bs, i as int)),
        decreases bs.len() - i,
    {
        if b[i] == 37 {
            if b.len() - i > 2 {
                match hex_to_byte(b[i + 1], b[i + 2]) {
                    Some(x) => {
                        proof {
                            let rest = pct_decode_from(bs, i + 3);
                            if rest is Some {
                                assert(out@ + (seq![x] + rest->0) =~= out@.push(x) + rest->0);
                            }
                        }
                        out.push(x);
                        i += 3;
                    },
                    None => {
                        assert(pct_decode_from(bs, i as int) is None);
                        return Err(HttpError::new("decode", "invalid percent escape"));
                    },
                }
            } else {
                assert(pct_decode_from(bs, i as int) is None);
                return Err(HttpError::new("decode", "incomplete percent escape"));
            }
        } else {
            proof {
                let rest = pct_decode_from(bs, i + 1);
                if rest is Some {
                    assert(out@ + (seq![b[i as int]] + rest->0) =~= out@.push(b[i as int]) + rest->0);
                }
            }
            out.push(b[i]);
            i += 1;
        }
    }
    assert(out@ + Seq::<u8>::empty() =~= out@);
    let ghost d = out@;
    match utf8_text(out) {
        Some(t) => {
            proof {
                vstd::utf8::encode_utf8_decode_utf8(t@);
            }
            Ok(t)
        },
        None => {
            proof {
                reveal_strlit("utf8");
                reveal_strlit("decode");
                assert("utf8"@ != "decode"@) by {
                    assert("utf8"@[0] != "decode"@[0]);
                }
            }
            Err(HttpError::new("utf8", "decoded bytes are not UTF-8"))
        },
    }
}

} // verus!
