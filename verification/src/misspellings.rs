//! Misspellings of a name, used as extra search keywords: adjacent letters
//! exchanged near the front of the word, and single letters dropped from it.
//!
//! Positions are character positions; the functions expect ASCII text, where
//! character and byte positions agree.

use vstd::prelude::*;
use vstd::string::{StrSliceExecFns, StringExecFns};

verus! {

/// `t` with the characters at `i1` and `i2` exchanged; positions outside
/// the text leave it unchanged.
pub open spec fn swap_chars(t: Seq<char>, i1: int, i2: int) -> Seq<char> {
    Seq::new(
        t.len(),
        |i: int|
            if i == i1 {
                t[i2]
            } else if i == i2 {
                t[i1]
            } else {
                t[i]
            },
    )
}

/// How many adjacent exchanges are produced for `t`: one per position among
/// the first four, bounded by the length.
pub open spec fn missp_n(t: Seq<char>) -> int {
    if t.len() as int - 1 < 4 {
        t.len() as int - 1
    } else {
        4
    }
}

/// All misspellings of `t`, in order: the adjacent exchanges, then up to
/// three variants each dropping one of the early characters.
pub open spec fn misspellings_spec(t: Seq<char>) -> Seq<Seq<char>> {
    let n = missp_n(t);
    let swaps = Seq::new(n as nat, |i: int| swap_chars(t, i, i + 1));
    let drops = (if n >= 3 {
        seq![t.take(2) + t.skip(3)]
    } else {
        Seq::empty()
    }) + (if n >= 2 {
        seq![t.take(1) + t.skip(2)]
    } else {
        Seq::empty()
    }) + seq![t.skip(1)];
    swaps + drops
}

/// Copy `text` with the characters at positions `i1` and `i2` exchanged.
/// Positions are character positions; both must be inside the text, or both
/// outside it (in which case the text comes back unchanged).
pub fn invert_letters(text: &str, i1: usize, i2: usize) -> (result: String)
    requires
        (i1 < text@.len() && i2 < text@.len()) || (i1 >= text@.len() && i2 >= text@.len()),
    ensures
        result@ == swap_chars(text@, i1 as int, i2 as int),
{
    let n = text.unicode_len();
    let mut out = String::new();
    let mut i: usize = 0;
    while i < n
        invariant
            n == text@.len(),
            i <= n,
            (i1 < n && i2 < n) || (i1 >= n && i2 >= n),
            out@ == swap_chars(text@, i1 as int, i2 as int).take(i as int),
        decreases n - i,
    {
        let c = if i == i1 {
            text.get_char(i2)
        } else if i == i2 {
            text.get_char(i1)
        } else {
            text.get_char(i)
        };
        let ghost out_pre = out@;
        out.push(c);
        proof {
            let full = swap_chars(text@, i1 as int, i2 as int);
            assert(c == full[i as int]);
            assert(out@ =~= full.take(i as int + 1));
        }
        i = i + 1;
    }
    proof {
        assert(swap_chars(text@, i1 as int, i2 as int).take(n as int) =~= swap_chars(
            text@,
            i1 as int,
            i2 as int,
        ));
    }
    out
}

/// All misspellings of `text`, in order: adjacent characters near the front
/// exchanged, then early characters dropped one at a time. The text must be
/// non-empty ASCII.
pub fn misspellings(text: &str) -> (results: Vec<String>)
    requires
        text@.len() >= 1,
        text.is_ascii(),
    ensures
        results.deep_view() == misspellings_spec(text@),
{
    let mut results: Vec<String> = Vec::new();
    let len = text.unicode_len();

    // adjacent characters exchanged
    let n = if len - 1 < 4 {
        len - 1
    } else {
        4
    };
    let mut i: usize = 0;
    while i < n
        invariant
            n == missp_n(text@),
            n < len == text@.len(),
            i <= n,
            results@.len() == i,
            forall|j: int|
                0 <= j < i ==> results@[j]@ == #[trigger] swap_chars(text@, j, j + 1),
        decreases n - i,
    {
        results.push(invert_letters(text, i, i + 1));
        i = i + 1;
    }

    // early characters dropped
    if n >= 3 {
        let part = text.substring_char(0, 2).to_owned().concat(text.substring_char(3, len));
        results.push(part);
    }
    if n >= 2 {
        let part = text.substring_char(0, 1).to_owned().concat(text.substring_char(2, len));
        results.push(part);
    }
    let tail = text.substring_char(1, len).to_owned();
    results.push(tail);

    proof {
        let m = misspellings_spec(text@);
        assert(results.deep_view().len() == m.len());
        assert forall|j: int| 0 <= j < m.len() implies results.deep_view()[j] == m[j] by {
            assert(results.deep_view()[j] == results@[j]@);
            if j < missp_n(text@) {
                assert(m[j] == swap_chars(text@, j, j + 1));
            }
        }
        assert(results.deep_view() =~= m);
    }
    results
}

} // verus!
