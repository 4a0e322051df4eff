//! Text utilities around the launcher: string-building helpers and the
//! title-casing of an executable name.

use vstd::prelude::*;
use vstd::string::StringExecFns;

verus! {

/// Relies on `String::push`: it appends exactly one character at the end.
pub assume_specification[ String::push ](s: &mut String, ch: char)
    ensures
        final(s)@ == old(s)@.push(ch),
;

/// The first character of the Unicode uppercase mapping of a character.
pub uninterp spec fn upper_first(c: char) -> char;

/// Relies on `char::to_uppercase`: its result depends on the character
/// alone, it is never empty, and for an ASCII lowercase letter its first
/// character is the corresponding ASCII uppercase letter.
#[verifier::external_body]
fn uppercase_first(c: char) -> (r: char)
    ensures
        r == upper_first(c),
        'a' <= c <= 'z' ==> r as int == c as int - 32,
{
    match c.to_uppercase().next() {
        Some(u) => u,
        None => c,
    }
}

/// Uppercase a character as well as single-character replacement allows: a
/// character whose uppercase form needs several characters (such as the
/// German sharp s) keeps only the first of them.
pub fn best_effort_uppercase(c: char) -> (r: char)
    ensures
        r == upper_first(c),
        'a' <= c <= 'z' ==> r as int == c as int - 32,
{
    uppercase_first(c)
}

/// A separator turned into a space: `-` and `_` read as word breaks.
pub open spec fn space_swap(c: char) -> char {
    if c == '-' || c == '_' {
        ' '
    } else {
        c
    }
}

/// Title-casing a character sequence: each character that follows a space
/// (in the processed text, starting from an imaginary leading space) is
/// uppercased.
pub open spec fn title_case_rec(s: Seq<char>, prev: char) -> Seq<char>
    decreases s.len(),
{
    if s.len() == 0 {
        Seq::empty()
    } else {
        let c0 = if prev == ' ' {
            upper_first(s[0])
        } else {
            s[0]
        };
        seq![c0] + title_case_rec(s.drop_first(), c0)
    }
}

/// The full title-casing: separators become spaces, then every character
/// after a space is uppercased.
pub open spec fn title_case_spec(s: Seq<char>) -> Seq<char> {
    title_case_rec(s.map_values(|c: char| space_swap(c)), ' ')
}

/// Turn an executable name into a title-cased human name: `-` and `_`
/// become spaces, and each word's first character is uppercased.
pub fn turn_to_title_case(text: String) -> (result: String)
    ensures
        result@ == title_case_spec(text@),
{
    let ghost mapped = text@.map_values(|c: char| space_swap(c));
    let n = text.as_str().unicode_len();
    let mut out = String::new();
    let mut prev: char = ' ';
    let mut i: usize = 0;
    proof {
        assert(mapped.skip(0) =~= mapped);
        assert(out@ + title_case_rec(mapped, ' ') =~= title_case_rec(mapped, ' '));
    }
    while i < n
        invariant
            n == text@.len(),
            mapped == text@.map_values(|c: char| space_swap(c)),
            i <= n,
            title_case_rec(mapped, ' ') == out@ + title_case_rec(mapped.skip(i as int), prev),
        decreases n - i,
    {
        let raw = text.as_str().get_char(i);
        let c = if raw == '-' || raw == '_' {
            ' '
        } else {
            raw
        };
        assert(c == mapped[i as int]);
        let up = if prev == ' ' {
            best_effort_uppercase(c)
        } else {
            c
        };
        proof {
            assert(mapped.skip(i as int)[0] == mapped[i as int]);
            assert(mapped.skip(i as int).drop_first() =~= mapped.skip(i as int + 1));
            assert(title_case_rec(mapped.skip(i as int), prev) == seq![up] + title_case_rec(
                mapped.skip(i as int + 1),
                up,
            ));
        }
        let ghost out_pre = out@;
        out.push(up);
        proof {
            assert(out@ =~= out_pre + seq![up]);
            assert(out_pre + (seq![up] + title_case_rec(mapped.skip(i as int + 1), up)) =~= (
            out_pre + seq![up]) + title_case_rec(mapped.skip(i as int + 1), up));
        }
        prev = up;
        i = i + 1;
    }
    proof {
        assert(mapped.skip(n as int) =~= Seq::<char>::empty());
        assert(title_case_rec(mapped, ' ') == out@ + Seq::<char>::empty());
        assert(out@ + Seq::<char>::empty() =~= out@);
    }
    out
}

/// Compare two string slices character by character.
pub fn str_eq(a: &str, b: &str) -> (r: bool)
    ensures
        r == (a@ == b@),
{
    let n = a.unicode_len();
    let m = b.unicode_len();
    if n != m {
        proof {
            assert(a@ != b@);
        }
        return false;
    }
    let mut i: usize = 0;
    while i < n
        invariant
            n == a@.len(),
            n == b@.len(),
            i <= n,
            forall|j: int| 0 <= j < i ==> a@[j] == b@[j],
        decreases n - i,
    {
        if a.get_char(i) != b.get_char(i) {
            proof {
                assert(a@[i as int] != b@[i as int]);
            }
            return false;
        }
        i = i + 1;
    }
    proof {
        assert(a@ =~= b@);
    }
    true
}

/// The concatenation of the views of a sequence of string slices.
pub open spec fn flatten_strs(parts: Seq<&str>) -> Seq<char>
    decreases parts.len(),
{
    if parts.len() == 0 {
        Seq::empty()
    } else {
        parts[0]@ + flatten_strs(parts.drop_first())
    }
}

/// Appending one more slice extends the flattened view at the end.
pub proof fn lemma_flatten_strs_push(parts: Seq<&str>, one: &str)
    ensures
        flatten_strs(parts.push(one)) == flatten_strs(parts) + one@,
    decreases parts.len(),
{
    if parts.len() == 0 {
        assert(parts.push(one)[0] == one);
        assert(parts.push(one).drop_first() =~= Seq::<&str>::empty());
        assert(flatten_strs(Seq::<&str>::empty()) == Seq::<char>::empty());
        assert(flatten_strs(parts.push(one)) == one@ + flatten_strs(Seq::<&str>::empty()));
        assert(flatten_strs(parts.push(one)) =~= one@);
        assert(flatten_strs(parts) + one@ =~= one@);
    } else {
        assert(parts.push(one).drop_first() =~= parts.drop_first().push(one));
        lemma_flatten_strs_push(parts.drop_first(), one);
        assert(parts.push(one)[0] == parts[0]);
        assert(parts[0]@ + (flatten_strs(parts.drop_first()) + one@) =~= (parts[0]@
            + flatten_strs(parts.drop_first())) + one@);
    }
}

/// Push several string slices, or a whole line, onto a `String`.
pub trait AddManyThings: View<V = Seq<char>> {
    /// Append every slice of `parts`, in order.
    fn manypush(&mut self, parts: &[&str])
        ensures
            final(self)@ == old(self)@ + flatten_strs(parts@),
    ;

    /// Append a slice and terminate the line.
    fn push_line(&mut self, string: &str)
        ensures
            final(self)@ == old(self)@ + string@ + seq!['\n'],
    ;

    /// Append exactly four slices, in order.
    fn push_4(&mut self, strings_to_add: [&str; 4])
        ensures
            final(self)@ == old(self)@ + strings_to_add@[0]@ + strings_to_add@[1]@
                + strings_to_add@[2]@ + strings_to_add@[3]@,
    ;

    /// Append exactly three slices, in order.
    fn push_3(&mut self, strings_to_add: [&str; 3])
        ensures
            final(self)@ == old(self)@ + strings_to_add@[0]@ + strings_to_add@[1]@
                + strings_to_add@[2]@,
    ;

    /// Append exactly two slices, in order.
    fn push_2(&mut self, strings_to_add: [&str; 2])
        ensures
            final(self)@ == old(self)@ + strings_to_add@[0]@ + strings_to_add@[1]@,
    ;
}

impl AddManyThings for String {
    fn manypush(&mut self, parts: &[&str]) {
        let ghost all = parts@;
        let mut i: usize = 0;
        while i < parts.len()
            invariant
                all == parts@,
                i <= parts@.len(),
                self@ == old(self)@ + flatten_strs(parts@.take(i as int)),
            decreases parts@.len() - i,
        {
            self.append(parts[i]);
            proof {
                assert(parts@.take(i as int).push(parts@[i as int]) =~= parts@.take(i as int + 1));
                lemma_flatten_strs_push(parts@.take(i as int), parts@[i as int]);
            }
            i = i + 1;
        }
        proof {
            assert(parts@.take(parts@.len() as int) =~= parts@);
        }
    }

    fn push_line(&mut self, string: &str) {
        self.append(string);
        self.push('\n');
        proof {
            assert(old(self)@ + string@ + seq!['\n'] =~= (old(self)@ + string@).push('\n'));
        }
    }

    fn push_4(&mut self, strings_to_add: [&str; 4]) {
        self.append(strings_to_add[0]);
        self.append(strings_to_add[1]);
        self.append(strings_to_add[2]);
        self.append(strings_to_add[3]);
    }

    fn push_3(&mut self, strings_to_add: [&str; 3]) {
        self.append(strings_to_add[0]);
        self.append(strings_to_add[1]);
        self.append(strings_to_add[2]);
    }

    fn push_2(&mut self, strings_to_add: [&str; 2]) {
        self.append(strings_to_add[0]);
        self.append(strings_to_add[1]);
    }
}

/// Push a line, or two slices and a line break, onto a `String`.
pub trait DoublePushLine: View<V = Seq<char>> {
    /// Append two slices and terminate the line.
    fn pushln2(&mut self, string1: &str, string2: &str)
        ensures
            final(self)@ == old(self)@ + string1@ + string2@ + seq!['\n'],
    ;

    /// Append a slice and terminate the line.
    fn pushln(&mut self, string: &str)
        ensures
            final(self)@ == old(self)@ + string@ + seq!['\n'],
    ;
}

impl DoublePushLine for String {
    fn pushln2(&mut self, string1: &str, string2: &str) {
        self.append(string1);
        self.append(string2);
        self.push('\n');
        proof {
            assert(old(self)@ + string1@ + string2@ + seq!['\n'] =~= ((old(self)@ + string1@)
                + string2@).push('\n'));
        }
    }

    fn pushln(&mut self, string: &str) {
        self.append(string);
        self.push('\n');
        proof {
            assert(old(self)@ + string@ + seq!['\n'] =~= (old(self)@ + string@).push('\n'));
        }
    }
}

} // verus!
