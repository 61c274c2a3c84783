//! Character classes and string building shared by validation and cleanup.

use vstd::prelude::*;

verus! {

/// ASCII decimal digit.
pub open spec fn is_ascii_digit_char(c: char) -> bool {
    '0' <= c && c <= '9'
}

/// ASCII letter or digit, the only characters the validated name-like fields
/// may hold.
pub open spec fn is_ascii_alnum_char(c: char) -> bool {
    ||| ('0' <= c && c <= '9')
    ||| ('a' <= c && c <= 'z')
    ||| ('A' <= c && c <= 'Z')
}

/// Exec counterpart of `is_ascii_alnum_char`.
pub fn ascii_alnum_char(c: char) -> (r: bool)
    ensures
        r == is_ascii_alnum_char(c),
{
    ('0' <= c && c <= '9') || ('a' <= c && c <= 'z') || ('A' <= c && c <= 'Z')
}

/// Every character of `s` is an ASCII letter or digit.
pub open spec fn all_ascii_alnum(s: Seq<char>) -> bool {
    forall|i: int| 0 <= i < s.len() ==> is_ascii_alnum_char(s[i])
}

/// Relies on `String::from_utf8`: a vector of ASCII bytes decodes to the
/// string of exactly those characters, one per byte.
#[verifier::external_body]
pub fn ascii_to_string(v: Vec<u8>) -> (s: String)
    requires
        forall|i: int| 0 <= i < v@.len() ==> v@[i] < 128,
    ensures
        s@.len() == v@.len(),
        forall|i: int| 0 <= i < v@.len() ==> #[trigger] s@[i] == v@[i] as char,
{
    String::from_utf8(v).unwrap_or_default()
}

/// `s` with every character outside ASCII letters and digits removed.
pub fn filter_alnum_string(s: &str) -> (r: String)
    ensures
        r@ =~= s@.filter(|c: char| is_ascii_alnum_char(c)),
{
    let n = s.unicode_len();
    let mut bytes: Vec<u8> = Vec::new();
    let mut i: usize = 0;
    proof {
        reveal(Seq::filter);
        assert(s@.take(0) =~= Seq::<char>::empty());
    }
    while i < n
        invariant
            0 <= i <= n,
            n == s@.len(),
            forall|k: int| 0 <= k < bytes@.len() ==> bytes@[k] < 128,
            bytes@.map_values(|b: u8| b as char) =~= s@.take(i as int).filter(
                |c: char| is_ascii_alnum_char(c),
            ),
        decreases n - i,
    {
        let c = s.get_char(i);
        let ghost pred = |cc: char| is_ascii_alnum_char(cc);
        proof {
            reveal(Seq::filter);
            assert(s@.take(i + 1).drop_last() =~= s@.take(i as int));
            assert(s@.take(i + 1).last() == s@[i as int]);
        }
        if ascii_alnum_char(c) {
            let b = c as u8;
            proof {
                assert((c as u32) < 128);
                assert(b as char == c);
            }
            let ghost before = bytes@;
            bytes.push(b);
            proof {
                assert(bytes@.map_values(|bb: u8| bb as char) =~= before.map_values(
                    |bb: u8| bb as char,
                ).push(c));
                assert(s@.take(i + 1).filter(pred) =~= s@.take(i as int).filter(pred).push(c));
            }
        } else {
            proof {
                assert(s@.take(i + 1).filter(pred) =~= s@.take(i as int).filter(pred));
            }
        }
        i = i + 1;
    }
    proof {
        assert(s@.take(n as int) =~= s@);
    }
    let r = ascii_to_string(bytes);
    proof {
        assert(r@ =~= s@.filter(|c: char| is_ascii_alnum_char(c)));
    }
    r
}

} // verus!
