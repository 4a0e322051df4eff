//! The launcher-entry text: a template is rewritten line by line.
//!
//! The template's first four lines are headers and are copied as they are.
//! Every later line names a key (its second token, with `#` comments making
//! the key the second word): known keys are replaced by filled-in lines,
//! anything else is copied through.

use vstd::prelude::*;
use vstd::string::{StrSliceExecFns, StringExecFns};
use crate::text::{str_eq, AddManyThings};
use crate::misspellings::{misspellings, misspellings_spec};

verus! {

/// The characters that separate tokens on a template line.
pub open spec fn is_sep(c: char) -> bool {
    c == ' ' || c == '='
}

/// The first separator position in `s` at or after `from`, or the length
/// when there is none.
pub open spec fn sep_from(s: Seq<char>, from: int) -> int
    decreases s.len() - from,
{
    if from < 0 || from >= s.len() {
        s.len() as int
    } else if is_sep(s[from]) {
        from
    } else {
        sep_from(s, from + 1)
    }
}

/// A position scanned without separators up to a separator (or the end) is
/// where the scan ends.
proof fn lemma_sep_from_found(s: Seq<char>, from: int, at: int)
    requires
        0 <= from <= at <= s.len(),
        forall|j: int| from <= j < at ==> !is_sep(#[trigger] s[j]),
        at == s.len() || is_sep(s[at]),
    ensures
        sep_from(s, from) == at,
    decreases at - from,
{
    if from < at {
        lemma_sep_from_found(s, from + 1, at);
    }
}

/// Whether `s` has a second token: its first token ends before the text
/// does.
pub open spec fn has_second_token(s: Seq<char>) -> bool {
    sep_from(s, 0) < s.len()
}

/// The second token of `s`: what stands between the first separator and the
/// next one (empty when the first token is all there is).
pub open spec fn second_token_spec(s: Seq<char>) -> Seq<char> {
    let a = sep_from(s, 0);
    if a >= s.len() {
        Seq::empty()
    } else {
        s.subrange(a + 1, sep_from(s, a + 1))
    }
}

/// The key named by a template line: its second token, or nothing when the
/// line has no second token.
pub fn line_key(line: &str) -> (k: Option<String>)
    ensures
        match k {
            Some(key) => has_second_token(line@) && key@ == second_token_spec(line@),
            None => !has_second_token(line@),
        },
{
    let n = line.unicode_len();
    let a = scan_sep(line, 0);
    if a == n {
        return None;
    }
    let b = scan_sep(line, a + 1);
    Some(line.substring_char(a + 1, b).to_owned())
}

/// The first separator position in `line` at or after `from`, or the
/// length when there is none.
fn scan_sep(line: &str, from: usize) -> (r: usize)
    requires
        from <= line@.len(),
    ensures
        r as int == sep_from(line@, from as int),
        from <= r <= line@.len(),
{
    let n = line.unicode_len();
    let mut i: usize = from;
    while i < n
        invariant
            n == line@.len(),
            from <= i <= n,
            forall|j: int| from <= j < i ==> !is_sep(#[trigger] line@[j]),
        decreases n - i,
    {
        let c = line.get_char(i);
        if c == ' ' || c == '=' {
            proof {
                lemma_sep_from_found(line@, from as int, i as int);
            }
            return i;
        }
        i = i + 1;
    }
    proof {
        lemma_sep_from_found(line@, from as int, n as int);
    }
    n
}

/// One rewritten template line, ending in a line break: known keys get
/// their filled-in text, anything else is copied through.
pub open spec fn rewrite_line_spec(
    line: Seq<char>,
    title: Seq<char>,
    exec_path: Seq<char>,
    icon: Seq<char>,
    keytext: Seq<char>,
    terminal: bool,
    misspell: bool,
) -> Seq<char> {
    let key = second_token_spec(line);
    if key == "Name"@ {
        "Name="@ + title + seq!['\n']
    } else if key == "Exec"@ {
        if terminal {
            "Exec=bash -c '"@ + exec_path + ";$SHELL'"@ + seq!['\n']
        } else {
            "Exec="@ + exec_path + seq!['\n']
        }
    } else if key == "Terminal"@ {
        if terminal {
            "Terminal=true"@ + seq!['\n']
        } else {
            "# Terminal="@ + seq!['\n']
        }
    } else if key == "Keywords"@ {
        if misspell {
            "Keywords="@ + keytext + seq!['\n']
        } else {
            "# Keywords="@ + seq!['\n']
        }
    } else if key == "Icon"@ {
        "Icon="@ + icon + seq!['\n']
    } else {
        line + seq!['\n']
    }
}

/// Rewrite one template line.
pub fn rewrite_line(
    line: &str,
    title: &str,
    exec_path: &str,
    icon: &str,
    keytext: &str,
    terminal: bool,
    misspell: bool,
) -> (out: String)
    requires
        has_second_token(line@),
    ensures
        out@ == rewrite_line_spec(line@, title@, exec_path@, icon@, keytext@, terminal, misspell),
{
    let key_opt = line_key(line);
    let key = match key_opt {
        Some(k) => k,
        None => String::new(),
    };
    proof {
        reveal_strlit("\n");
        assert("\n"@ =~= seq!['\n']);
    }
    let mut out = String::new();
    if str_eq(key.as_str(), "Name") {
        out.append("Name=");
        out.append(title);
        out.append("\n");
        proof {
            assert(out@ =~= "Name="@ + title@ + seq!['\n']);
        }
    } else if str_eq(key.as_str(), "Exec") {
        if terminal {
            out.append("Exec=bash -c '");
            out.append(exec_path);
            out.append(";$SHELL'");
            out.append("\n");
            proof {
                assert(out@ =~= "Exec=bash -c '"@ + exec_path@ + ";$SHELL'"@ + seq!['\n']);
            }
        } else {
            out.append("Exec=");
            out.append(exec_path);
            out.append("\n");
            proof {
                assert(out@ =~= "Exec="@ + exec_path@ + seq!['\n']);
            }
        }
    } else if str_eq(key.as_str(), "Terminal") {
        if terminal {
            out.append("Terminal=true");
            out.append("\n");
            proof {
                assert(out@ =~= "Terminal=true"@ + seq!['\n']);
            }
        } else {
            out.append("# Terminal=");
            out.append("\n");
            proof {
                assert(out@ =~= "# Terminal="@ + seq!['\n']);
            }
        }
    } else if str_eq(key.as_str(), "Keywords") {
        if misspell {
            out.append("Keywords=");
            out.append(keytext);
            out.append("\n");
            proof {
                assert(out@ =~= "Keywords="@ + keytext@ + seq!['\n']);
            }
        } else {
            out.append("# Keywords=");
            out.append("\n");
            proof {
                assert(out@ =~= "# Keywords="@ + seq!['\n']);
            }
        }
    } else if str_eq(key.as_str(), "Icon") {
        out.append("Icon=");
        out.append(icon);
        out.append("\n");
        proof {
            assert(out@ =~= "Icon="@ + icon@ + seq!['\n']);
        }
    } else {
        out.append(line);
        out.append("\n");
        proof {
            assert(out@ =~= line@ + seq!['\n']);
        }
    }
    out
}

/// The text of the comma-separated keyword list.
pub open spec fn join_comma_spec(words: Seq<Seq<char>>) -> Seq<char>
    decreases words.len(),
{
    if words.len() == 0 {
        Seq::empty()
    } else if words.len() == 1 {
        words[0]
    } else {
        words[0] + seq![','] + join_comma_spec(words.drop_first())
    }
}

/// Appending one more word extends the joined text by a comma and the word.
proof fn lemma_join_comma_push(words: Seq<Seq<char>>, one: Seq<char>)
    requires
        words.len() >= 1,
    ensures
        join_comma_spec(words.push(one)) == join_comma_spec(words) + seq![','] + one,
    decreases words.len(),
{
    let pushed = words.push(one);
    assert(pushed[0] == words[0]);
    if words.len() == 1 {
        assert(pushed.drop_first() =~= seq![one]);
        assert(join_comma_spec(seq![one]) == one);
        assert(words[0] + seq![','] + one =~= words[0] + (seq![','] + one));
    } else {
        assert(pushed.drop_first() =~= words.drop_first().push(one));
        lemma_join_comma_push(words.drop_first(), one);
        assert((words[0] + seq![','] + join_comma_spec(words.drop_first())) + seq![','] + one =~= words[0] + seq![','] + (join_comma_spec(words.drop_first()) + seq![','] + one));
    }
}

/// Join words with commas between them.
pub fn join_comma(words: &Vec<String>) -> (out: String)
    ensures
        out@ == join_comma_spec(words.deep_view()),
{
    let mut out = String::new();
    if words.len() == 0 {
        return out;
    }
    out.append(words[0].as_str());
    let mut i: usize = 1;
    while i < words.len()
        invariant
            1 <= i <= words@.len(),
            out@ == join_comma_spec(words.deep_view().take(i as int)),
        decreases words@.len() - i,
    {
        out.append(",");
        out.append(words[i].as_str());
        proof {
            reveal_strlit(",");
            let prefix = words.deep_view().take(i as int);
            assert(prefix.len() >= 1);
            lemma_join_comma_push(prefix, words.deep_view()[i as int]);
            assert(prefix.push(words.deep_view()[i as int]) =~= words.deep_view().take(
                i as int + 1,
            ));
            assert(","@ =~= seq![',']);
            assert((join_comma_spec(prefix) + ","@) + words@[i as int]@ =~= join_comma_spec(prefix)
                + seq![','] + words.deep_view()[i as int]);
        }
        i = i + 1;
    }
    proof {
        assert(words.deep_view().take(words@.len() as int) =~= words.deep_view());
    }
    out
}

/// Whether this run adds misspelling keywords, and the bin name can feed
/// the misspelling generator.
pub open spec fn keywords_ok(bin_name: Seq<char>, misspell: bool) -> bool {
    misspell ==> bin_name.len() >= 1 && vstd::utf8::is_ascii_chars(bin_name)
}

/// The rewritten tail of the template, one line at a time.
pub open spec fn desktop_tail_spec(
    lines: Seq<Seq<char>>,
    title: Seq<char>,
    exec_path: Seq<char>,
    icon: Seq<char>,
    keytext: Seq<char>,
    terminal: bool,
    misspell: bool,
) -> Seq<char>
    decreases lines.len(),
{
    if lines.len() == 0 {
        Seq::empty()
    } else {
        rewrite_line_spec(lines[0], title, exec_path, icon, keytext, terminal, misspell)
            + desktop_tail_spec(lines.drop_first(), title, exec_path, icon, keytext, terminal, misspell)
    }
}

/// The whole launcher-entry text: the first four template lines copied,
/// then every further line rewritten. The title is the title-cased bin
/// name; the keyword text joins the bin name's misspellings.
pub open spec fn desktop_text_spec(
    lines: Seq<Seq<char>>,
    bin_name: Seq<char>,
    exec_path: Seq<char>,
    icon: Seq<char>,
    terminal: bool,
    misspell: bool,
) -> Seq<char> {
    let title = title_case_of(bin_name);
    let keytext = join_comma_spec(misspellings_spec(bin_name));
    lines[0] + seq!['\n'] + lines[1] + seq!['\n'] + lines[2] + seq!['\n'] + lines[3] + seq!['\n']
        + desktop_tail_spec(lines.skip(4), title, exec_path, icon, keytext, terminal, misspell)
}

/// The title casing that `convert_case` gives a string: a function of the
/// string alone.
pub uninterp spec fn title_case_of(s: Seq<char>) -> Seq<char>;

/// Relies on `convert_case::Casing::to_case` with `Case::Title`: the title
/// casing of a string depends on the string alone.
#[verifier::external_body]
fn to_title_case(s: &str) -> (r: String)
    ensures
        r@ == title_case_of(s@),
{
    convert_case::Casing::to_case(&s, convert_case::Case::Title)
}

/// Build the launcher-entry text from the template lines: copy the four
/// header lines, then rewrite each line by its key, filling in the
/// title-cased name, the executable path, the icon text, and (when asked)
/// the misspelling keywords.
pub fn build_desktop_text(
    lines: &Vec<String>,
    bin_name: &str,
    exec_path: &str,
    icon_text: &str,
    terminal: bool,
    misspell_keywords: bool,
) -> (out: String)
    requires
        lines@.len() >= 4,
        forall|i: int| 4 <= i < lines@.len() ==> has_second_token(#[trigger] lines@[i]@),
        keywords_ok(bin_name@, misspell_keywords),
    ensures
        out@ == desktop_text_spec(
            lines.deep_view(),
            bin_name@,
            exec_path@,
            icon_text@,
            terminal,
            misspell_keywords,
        ),
{
    let title = to_title_case(bin_name);
    let keytext = if misspell_keywords {
        join_comma(&misspellings(bin_name))
    } else {
        String::new()
    };
    let ghost spec_keytext = join_comma_spec(misspellings_spec(bin_name@));
    let mut out = String::new();
    out.push_line(lines[0].as_str());
    out.push_line(lines[1].as_str());
    out.push_line(lines[2].as_str());
    out.push_line(lines[3].as_str());
    proof {
        let dv = lines.deep_view();
        assert(out@ =~= dv[0] + seq!['\n'] + dv[1] + seq!['\n'] + dv[2] + seq!['\n'] + dv[3]
            + seq!['\n']);
    }
    let ghost head = out@;
    let mut i: usize = 4;
    while i < lines.len()
        invariant
            4 <= i <= lines@.len(),
            title@ == title_case_of(bin_name@),
            misspell_keywords ==> keytext@ == spec_keytext,
            spec_keytext == join_comma_spec(misspellings_spec(bin_name@)),
            forall|j: int| 4 <= j < lines@.len() ==> has_second_token(#[trigger] lines@[j]@),
            out@ == head + desktop_tail_spec(
                lines.deep_view().skip(4).take(i - 4),
                title@,
                exec_path@,
                icon_text@,
                spec_keytext,
                terminal,
                misspell_keywords,
            ),
        decreases lines@.len() - i,
    {
        let part = rewrite_line(
            lines[i].as_str(),
            title.as_str(),
            exec_path,
            icon_text,
            keytext.as_str(),
            terminal,
            misspell_keywords,
        );
        out.append(part.as_str());
        proof {
            let dv = lines.deep_view();
            let done = dv.skip(4).take(i - 4);
            let line = dv[i as int];
            assert(part@ == rewrite_line_spec(
                line,
                title@,
                exec_path@,
                icon_text@,
                spec_keytext,
                terminal,
                misspell_keywords,
            ));
            lemma_desktop_tail_push(
                done,
                line,
                title@,
                exec_path@,
                icon_text@,
                spec_keytext,
                terminal,
                misspell_keywords,
            );
            assert(done.push(line) =~= dv.skip(4).take(i - 4 + 1));
            assert(head + (desktop_tail_spec(
                done,
                title@,
                exec_path@,
                icon_text@,
                spec_keytext,
                terminal,
                misspell_keywords,
            ) + part@) =~= (head + desktop_tail_spec(
                done,
                title@,
                exec_path@,
                icon_text@,
                spec_keytext,
                terminal,
                misspell_keywords,
            )) + part@);
        }
        i = i + 1;
    }
    proof {
        let dv = lines.deep_view();
        assert(dv.skip(4).take(dv.len() - 4) =~= dv.skip(4));
    }
    out
}

/// Rewriting one more line extends the tail text by that line.
proof fn lemma_desktop_tail_push(
    lines: Seq<Seq<char>>,
    one: Seq<char>,
    title: Seq<char>,
    exec_path: Seq<char>,
    icon: Seq<char>,
    keytext: Seq<char>,
    terminal: bool,
    misspell: bool,
)
    ensures
        desktop_tail_spec(lines.push(one), title, exec_path, icon, keytext, terminal, misspell)
            == desktop_tail_spec(lines, title, exec_path, icon, keytext, terminal, misspell)
            + rewrite_line_spec(one, title, exec_path, icon, keytext, terminal, misspell),
    decreases lines.len(),
{
    let rewritten = rewrite_line_spec(one, title, exec_path, icon, keytext, terminal, misspell);
    if lines.len() == 0 {
        assert(lines.push(one)[0] == one);
        assert(lines.push(one).drop_first() =~= Seq::<Seq<char>>::empty());
        assert(desktop_tail_spec(
            Seq::<Seq<char>>::empty(),
            title,
            exec_path,
            icon,
            keytext,
            terminal,
            misspell,
        ) == Seq::<char>::empty());
        assert(rewritten + Seq::<char>::empty() =~= rewritten);
        assert(Seq::<char>::empty() + rewritten =~= rewritten);
    } else {
        assert(lines.push(one)[0] == lines[0]);
        assert(lines.push(one).drop_first() =~= lines.drop_first().push(one));
        lemma_desktop_tail_push(
            lines.drop_first(),
            one,
            title,
            exec_path,
            icon,
            keytext,
            terminal,
            misspell,
        );
        let head = rewrite_line_spec(lines[0], title, exec_path, icon, keytext, terminal, misspell);
        let rest = desktop_tail_spec(
            lines.drop_first(),
            title,
            exec_path,
            icon,
            keytext,
            terminal,
            misspell,
        );
        assert(head + (rest + rewritten) =~= (head + rest) + rewritten);
    }
}

} // verus!
