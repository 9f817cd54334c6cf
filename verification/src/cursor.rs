//! Encoding and decoding of the persisted cursor.
//!
//! The cursor — the highest sequence number successfully delivered — is the
//! sole durable checkpoint of the relay.  It is persisted as a plain decimal
//! numeral with a trailing newline; on startup it is read back, or, when no
//! persisted value exists, seeded from the source table's maximum sequence
//! number ("skip all history, start from now").

use crate::numeral::{
    all_digits, char_digit, dec_digits, dec_val, is_digit, lemma_dec_digits_val,
    lemma_dec_val_extend, lemma_dec_val_take_mono, u32_to_dec,
};
use vstd::prelude::*;

verus! {

/// Whether a character counts as surrounding whitespace in the cursor file.
pub open spec fn is_space(c: char) -> bool {
    c == ' ' || c == '\n' || c == '\r' || c == '\t'
}

/// A sequence with its leading whitespace removed.
pub open spec fn trim_front(s: Seq<char>) -> Seq<char>
    decreases s.len(),
{
    if s.len() > 0 && is_space(s[0]) {
        trim_front(s.drop_first())
    } else {
        s
    }
}

/// A sequence with its trailing whitespace removed.
pub open spec fn trim_back(s: Seq<char>) -> Seq<char>
    decreases s.len(),
{
    if s.len() > 0 && is_space(s.last()) {
        trim_back(s.drop_last())
    } else {
        s
    }
}

/// A sequence with whitespace removed from both ends.
pub open spec fn trimmed(s: Seq<char>) -> Seq<char> {
    trim_back(trim_front(s))
}

/// Whether a text is a well-formed persisted cursor: after trimming, a
/// non-empty run of decimal digits whose value fits the cursor's range.
pub open spec fn valid_cursor_text(s: Seq<char>) -> bool {
    trimmed(s).len() > 0 && all_digits(trimmed(s)) && dec_val(trimmed(s)) <= i32::MAX
}

/// Tests a character for surrounding whitespace.
fn char_is_space(c: char) -> (b: bool)
    ensures
        b == is_space(c),
{
    c == ' ' || c == '\n' || c == '\r' || c == '\t'
}

/// Reads a persisted cursor text back to its value.
///
/// Returns the decimal value of the trimmed text exactly when the text is a
/// well-formed cursor (a non-empty all-digit numeral in range, surrounded by
/// optional whitespace), and nothing otherwise.  The value returned is never
/// negative.
pub fn parse_cursor(s: &str) -> (r: Option<i32>)
    ensures
        valid_cursor_text(s@) ==> (r matches Some(v) && v == dec_val(trimmed(s@)) && v >= 0),
        !valid_cursor_text(s@) ==> r is None,
{
    let len = s.unicode_len();
    let mut lo: usize = 0;
    proof {
        assert(s@.skip(0) =~= s@);
    }
    loop
        invariant
            lo <= len,
            len == s@.len(),
            trim_front(s@.skip(lo as int)) == trim_front(s@),
        ensures
            lo <= len,
            len == s@.len(),
            trim_front(s@) == s@.skip(lo as int),
        decreases len - lo,
    {
        if lo >= len {
            proof {
                assert(s@.skip(lo as int).len() == 0);
            }
            break ;
        }
        let c = s.get_char(lo);
        if !char_is_space(c) {
            proof {
                assert(s@.skip(lo as int)[0] == s@[lo as int]);
            }
            break ;
        }
        proof {
            assert(s@.skip(lo as int)[0] == s@[lo as int]);
            assert(s@.skip(lo as int).drop_first() =~= s@.skip(lo as int + 1));
        }
        lo = lo + 1;
    }
    let ghost u = s@.skip(lo as int);
    let mut hi: usize = len;
    proof {
        assert(u.take((len - lo) as int) =~= u);
    }
    loop
        invariant
            lo <= hi <= len,
            len == s@.len(),
            u == s@.skip(lo as int),
            trim_back(u.take((hi - lo) as int)) == trim_back(u),
        ensures
            lo <= hi <= len,
            len == s@.len(),
            u == s@.skip(lo as int),
            trim_back(u) == u.take((hi - lo) as int),
        decreases hi,
    {
        if hi <= lo {
            break ;
        }
        let c = s.get_char(hi - 1);
        proof {
            let t0 = u.take((hi - lo) as int);
            assert(t0.last() == s@[hi - 1]);
        }
        if !char_is_space(c) {
            break ;
        }
        proof {
            let t0 = u.take((hi - lo) as int);
            assert(t0.drop_last() =~= u.take((hi - 1 - lo) as int));
        }
        hi = hi - 1;
    }
    let ghost t = trimmed(s@);
    proof {
        assert(t == u.take((hi - lo) as int));
    }
    if hi <= lo {
        proof {
            assert(t.len() == 0);
        }
        return None;
    }
    let mut val: u64 = 0;
    let mut i: usize = lo;
    while i < hi
        invariant
            lo <= i <= hi <= len,
            lo < hi,
            len == s@.len(),
            t == trimmed(s@),
            t == s@.skip(lo as int).take((hi - lo) as int),
            t.len() == hi - lo,
            all_digits(t.take((i - lo) as int)),
            val == dec_val(t.take((i - lo) as int)),
            0 <= val <= i32::MAX,
        decreases hi - i,
    {
        let c = s.get_char(i);
        proof {
            assert(t[i - lo] == s@[i as int]);
        }
        match char_digit(c) {
            None => {
                proof {
                    assert(!all_digits(t)) by {
                        assert(0 <= i - lo < t.len() && !is_digit(t[i - lo]));
                    }
                }
                return None;
            },
            Some(d) => {
                let next: u64 = val * 10 + d as u64;
                proof {
                    lemma_dec_val_extend(t, i - lo);
                    assert(next == dec_val(t.take(i - lo + 1)));
                }
                if next > i32::MAX as u64 {
                    proof {
                        if all_digits(t) {
                            lemma_dec_val_take_mono(t, i - lo + 1, t.len() as int);
                            assert(t.take(t.len() as int) =~= t);
                        }
                    }
                    return None;
                }
                val = next;
                i = i + 1;
            },
        }
    }
    proof {
        assert(t.take((i - lo) as int) =~= t);
    }
    Some(val as i32)
}

/// Writes a cursor value as its persisted text: the decimal numeral and a
/// trailing newline.
pub fn format_cursor(v: i32) -> (s: String)
    requires
        v >= 0,
    ensures
        s@ == dec_digits(v as nat) + "\n"@,
{
    let mut s = u32_to_dec(v as u32);
    s.append("\n");
    proof {
        assert(s@ =~= dec_digits(v as nat) + "\n"@);
    }
    s
}

/// A persisted cursor reads back to exactly the value it was written from:
/// the text `format_cursor` produces is well formed and its trimmed numeral
/// has that value, so `parse_cursor` returns it.
pub proof fn lemma_cursor_round_trip(v: i32)
    requires
        v >= 0,
    ensures
        valid_cursor_text(dec_digits(v as nat) + "\n"@),
        dec_val(trimmed(dec_digits(v as nat) + "\n"@)) == v,
{
    reveal_strlit("\n");
    let d = dec_digits(v as nat);
    lemma_dec_digits_val(v as nat);
    let s = d + "\n"@;
    assert(s[0] == d[0]);
    assert(is_digit(d[0]));
    assert(trim_front(s) == s);
    assert(s.last() == '\n');
    assert(s.drop_last() =~= d);
    assert(is_digit(d.last()));
    assert(trim_back(d) == d);
    assert(trimmed(s) == d);
}

/// The cursor the relay starts from: the persisted value when one exists,
/// otherwise the source table's maximum sequence number (0 when the table
/// is empty).  Never negative.
pub fn init_cursor(persisted: Option<i32>, table_max: Option<i32>) -> (c: i32)
    requires
        persisted matches Some(p) ==> p >= 0,
    ensures
        c >= 0,
        persisted matches Some(p) ==> c == p,
        persisted is None ==> c == (match table_max {
            Some(m) => if m >= 0 { m as int } else { 0 },
            None => 0,
        }),
{
    match persisted {
        Some(p) => p,
        None => match table_max {
            Some(m) => if m >= 0 { m } else { 0 },
            None => 0,
        },
    }
}

} // verus!
