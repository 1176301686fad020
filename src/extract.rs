//! Plain text out of markup: the title of a Markdown note and the text of a
//! word-processing XML part.

use vstd::prelude::*;
use crate::text::{chars_of, is_white_space, is_whitespace, string_of_chars};

verus! {

/// Index of the first line feed in `s`, or its length when there is none.
pub open spec fn line_end(s: Seq<char>) -> nat
    decreases s.len(),
{
    if s.len() == 0 {
        0
    } else if s[0] == '\n' {
        0
    } else {
        1 + line_end(s.drop_first())
    }
}

/// The first line of `s`, without its line ending (`\n` or `\r\n`).
pub open spec fn first_line(s: Seq<char>) -> Seq<char> {
    let e = line_end(s) as int;
    let l = s.take(e);
    if e < s.len() && l.len() > 0 && l.last() == '\r' {
        l.drop_last()
    } else {
        l
    }
}

pub open spec fn is_heading(l: Seq<char>) -> bool {
    l.len() >= 2 && l[0] == '#' && l[1] == ' '
}

/// `l` with every leading `"# "` removed.
pub open spec fn strip_heading(l: Seq<char>) -> Seq<char>
    decreases l.len(),
{
    if is_heading(l) {
        strip_heading(l.skip(2))
    } else {
        l
    }
}

proof fn lemma_line_end(s: Seq<char>, i: int)
    requires
        0 <= i <= s.len(),
        forall|k: int| 0 <= k < i ==> s[k] != '\n',
        i == s.len() || s[i] == '\n',
    ensures
        line_end(s) == i,
    decreases s.len(),
{
    if s.len() > 0 && s[0] != '\n' {
        assert forall|k: int| 0 <= k < i - 1 implies s.drop_first()[k] != '\n' by {
            assert(s.drop_first()[k] == s[k + 1]);
        }
        if i < s.len() {
            assert(s.drop_first()[i - 1] == s[i]);
        }
        lemma_line_end(s.drop_first(), i - 1);
    }
}

proof fn lemma_line_end_bound(s: Seq<char>)
    ensures
        line_end(s) <= s.len(),
    decreases s.len(),
{
    if s.len() > 0 && s[0] != '\n' {
        lemma_line_end_bound(s.drop_first());
    }
}

/// Title of a Markdown text: the text of its first line that starts with
/// `"# "`, with the leading `"# "` markers removed.
pub open spec fn title_of(s: Seq<char>) -> Option<Seq<char>>
    decreases s.len(),
{
    if s.len() == 0 {
        None
    } else if is_heading(first_line(s)) {
        Some(strip_heading(first_line(s)))
    } else if line_end(s) < s.len() {
        title_of(s.skip(line_end(s) + 1int))
    } else {
        None
    }
}

/// Title of a Markdown note (see `title_of`); `None` when no line starts
/// with `"# "`.
pub fn extract_title(content: &str) -> (r: Option<String>)
    ensures
        match r {
            Some(t) => title_of(content@) == Some(t@),
            None => title_of(content@) is None,
        },
{
    let s = chars_of(content);
    let n = s.len();
    let mut pos: usize = 0;
    assert(s@.skip(0) =~= s@);
    while pos < n
        invariant
            pos <= n == s.len(),
            s@ == content@,
            title_of(s@) == title_of(s@.skip(pos as int)),
        decreases n - pos,
    {
        let ghost rest = s@.skip(pos as int);
        let mut e: usize = pos;
        while e < n && s[e] != '\n'
            invariant
                pos <= e <= n,
                n == s.len(),
                forall|k: int| pos <= k < e ==> s@[k] != '\n',
            decreases n - e,
        {
            e = e + 1;
        }
        proof {
            lemma_line_end(rest, e - pos);
        }
        let mut stop = e;
        if e < n && e > pos && s[e - 1] == '\r' {
            stop = e - 1;
        }
        let ghost line = first_line(rest);
        assert(line =~= s@.subrange(pos as int, stop as int));
        if stop - pos >= 2 && s[pos] == '#' && s[pos + 1] == ' ' {
            let mut a: usize = pos;
            while stop - a >= 2 && s[a] == '#' && s[a + 1] == ' '
                invariant
                    pos <= a <= stop,
                    stop <= n == s.len(),
                    strip_heading(line) == strip_heading(s@.subrange(a as int, stop as int)),
                decreases stop - a,
            {
                assert(s@.subrange(a as int, stop as int).skip(2) =~= s@.subrange(
                    a + 2,
                    stop as int,
                ));
                a = a + 2;
            }
            let mut out: Vec<char> = Vec::new();
            let mut k: usize = a;
            while k < stop
                invariant
                    a <= k <= stop,
                    stop <= n == s.len(),
                    out@ == s@.subrange(a as int, k as int),
                decreases stop - k,
            {
                out.push(s[k]);
                k = k + 1;
            }
            return Some(string_of_chars(&out));
        }
        if e == n {
            return None;
        }
        assert(rest.skip(line_end(rest) + 1int) =~= s@.skip(e + 1));
        pos = e + 1;
    }
    assert(s@.skip(pos as int).len() == 0);
    None
}

/// Characters outside markup tags; where a tag follows text, one space.
/// The state is (text so far, inside a tag, last character was text).
pub open spec fn strip_tags(s: Seq<char>) -> (Seq<char>, bool, bool)
    decreases s.len(),
{
    if s.len() == 0 {
        (Seq::empty(), false, false)
    } else {
        let (o, in_tag, last_text) = strip_tags(s.drop_last());
        let c = s.last();
        if c == '<' {
            (
                if last_text {
                    o.push(' ')
                } else {
                    o
                },
                true,
                false,
            )
        } else if c == '>' {
            (o, false, last_text)
        } else if !in_tag {
            (o.push(c), false, true)
        } else {
            (o, in_tag, last_text)
        }
    }
}

/// The whitespace-separated words of `s` joined by single spaces; the state
/// is (text so far, a space is owed before the next word).
pub open spec fn collapse_spaces(s: Seq<char>) -> (Seq<char>, bool)
    decreases s.len(),
{
    if s.len() == 0 {
        (Seq::empty(), false)
    } else {
        let (o, pending) = collapse_spaces(s.drop_last());
        let c = s.last();
        if is_white_space(c) {
            (o, o.len() > 0)
        } else {
            (
                if pending {
                    o.push(' ')
                } else {
                    o
                }.push(c),
                false,
            )
        }
    }
}

/// Plain text of an XML fragment: tags removed, words joined by single
/// spaces.
pub open spec fn xml_text(s: Seq<char>) -> Seq<char> {
    collapse_spaces(strip_tags(s).0).0
}

/// Extracts the plain text of an XML fragment (see `xml_text`).
pub fn extract_text_from_xml(xml: &str) -> (r: String)
    ensures
        r@ == xml_text(xml@),
{
    let s = chars_of(xml);
    let mut stripped: Vec<char> = Vec::new();
    let mut in_tag = false;
    let mut last_text = false;
    let mut i: usize = 0;
    while i < s.len()
        invariant
            i <= s.len(),
            s@ == xml@,
            strip_tags(s@.take(i as int)) == (stripped@, in_tag, last_text),
        decreases s.len() - i,
    {
        assert(s@.take(i + 1).drop_last() =~= s@.take(i as int));
        let c = s[i];
        if c == '<' {
            in_tag = true;
            if last_text {
                stripped.push(' ');
                last_text = false;
            }
        } else if c == '>' {
            in_tag = false;
        } else if !in_tag {
            stripped.push(c);
            last_text = true;
        }
        i = i + 1;
    }
    assert(s@.take(s.len() as int) =~= s@);
    let mut out: Vec<char> = Vec::new();
    let mut pending = false;
    let mut j: usize = 0;
    while j < stripped.len()
        invariant
            j <= stripped.len(),
            strip_tags(xml@).0 == stripped@,
            collapse_spaces(stripped@.take(j as int)) == (out@, pending),
        decreases stripped.len() - j,
    {
        assert(stripped@.take(j + 1).drop_last() =~= stripped@.take(j as int));
        let c = stripped[j];
        if is_whitespace(c) {
            pending = out.len() > 0;
        } else {
            if pending {
                out.push(' ');
            }
            out.push(c);
            pending = false;
        }
        j = j + 1;
    }
    assert(stripped@.take(stripped.len() as int) =~= stripped@);
    string_of_chars(&out)
}

} // verus!
