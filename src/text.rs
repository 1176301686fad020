//! Character-level helpers shared by the tokenizer and the text utilities.

use vstd::prelude::*;

verus! {

/// The Unicode `White_Space` property.
pub open spec fn is_white_space(c: char) -> bool {
    let u = c as u32;
    ||| 0x9 <= u <= 0xD
    ||| u == 0x20
    ||| u == 0x85
    ||| u == 0xA0
    ||| u == 0x1680
    ||| 0x2000 <= u <= 0x200A
    ||| u == 0x2028
    ||| u == 0x2029
    ||| u == 0x202F
    ||| u == 0x205F
    ||| u == 0x3000
}

/// Whether `c` has the Unicode `White_Space` property.
pub fn is_whitespace(c: char) -> (r: bool)
    ensures
        r == is_white_space(c),
{
    let u = c as u32;
    (0x9 <= u && u <= 0xD) || u == 0x20 || u == 0x85 || u == 0xA0 || u == 0x1680 || (0x2000 <= u
        && u <= 0x200A) || u == 0x2028 || u == 0x2029 || u == 0x202F || u == 0x205F || u == 0x3000
}

/// The characters of `s`, in order.
pub fn chars_of(s: &str) -> (r: Vec<char>)
    ensures
        r@ == s@,
{
    let mut out: Vec<char> = Vec::new();
    for c in it: s.chars()
        invariant
            out@ == it.seq().take(it.index() as int),
    {
        out.push(c);
    }
    out
}

/// Number of whitespace characters at the start of `s`.
pub open spec fn leading_white_space(s: Seq<char>) -> nat
    decreases s.len(),
{
    if s.len() > 0 && is_white_space(s[0]) {
        1 + leading_white_space(s.drop_first())
    } else {
        0
    }
}

/// Number of whitespace characters at the end of `s`.
pub open spec fn trailing_white_space(s: Seq<char>) -> nat
    decreases s.len(),
{
    if s.len() > 0 && is_white_space(s.last()) {
        1 + trailing_white_space(s.drop_last())
    } else {
        0
    }
}

/// `s` without whitespace at either end.
pub open spec fn trim(s: Seq<char>) -> Seq<char> {
    let t = s.skip(leading_white_space(s) as int);
    t.take(t.len() - trailing_white_space(t))
}

proof fn lemma_leading_bound(s: Seq<char>)
    ensures
        leading_white_space(s) <= s.len(),
        forall|i: int| 0 <= i < leading_white_space(s) ==> is_white_space(#[trigger] s[i]),
        leading_white_space(s) < s.len() ==> !is_white_space(s[leading_white_space(s) as int]),
    decreases s.len(),
{
    if s.len() > 0 && is_white_space(s[0]) {
        lemma_leading_bound(s.drop_first());
        assert forall|i: int| 0 <= i < leading_white_space(s) implies is_white_space(
            #[trigger] s[i],
        ) by {
            if i > 0 {
                assert(s[i] == s.drop_first()[i - 1]);
            }
        }
    }
}

/// Index of the first character of `s` that is not whitespace (`s.len()` if none).
pub fn skip_leading_whitespace(s: &Vec<char>) -> (r: usize)
    ensures
        r == leading_white_space(s@),
        r <= s.len(),
{
    let mut i: usize = 0;
    assert(s@.skip(0) =~= s@);
    while i < s.len() && is_whitespace(s[i])
        invariant
            i <= s.len(),
            leading_white_space(s@) == i + leading_white_space(s@.skip(i as int)),
        decreases s.len() - i,
    {
        assert(s@.skip(i as int).drop_first() =~= s@.skip(i + 1));
        i = i + 1;
    }
    if i < s.len() {
        assert(s@.skip(i as int)[0] == s@[i as int]);
    }
    i
}

/// Whether `s` holds nothing but whitespace.
pub open spec fn is_blank(s: Seq<char>) -> bool {
    forall|i: int| 0 <= i < s.len() ==> is_white_space(#[trigger] s[i])
}

/// Whether `s` is empty or all whitespace.
pub fn is_blank_text(s: &str) -> (r: bool)
    ensures
        r == is_blank(s@),
{
    let chars = chars_of(s);
    let n = skip_leading_whitespace(&chars);
    proof {
        lemma_leading_bound(s@);
    }
    n == chars.len()
}

/// Index one past the last character of `s[from..]` that is not whitespace.
pub fn trimmed_end(s: &Vec<char>, from: usize) -> (r: usize)
    requires
        from <= s.len(),
    ensures
        from <= r <= s.len(),
        r - from == s@.skip(from as int).len() - trailing_white_space(s@.skip(from as int)),
{
    let mut j: usize = s.len();
    assert(s@.subrange(from as int, s.len() as int) =~= s@.skip(from as int));
    while j > from && is_whitespace(s[j - 1])
        invariant
            from <= j <= s.len(),
            trailing_white_space(s@.skip(from as int)) == (s.len() - j) + trailing_white_space(
                s@.subrange(from as int, j as int),
            ),
        decreases j - from,
    {
        assert(s@.subrange(from as int, j as int).drop_last() =~= s@.subrange(
            from as int,
            j - 1,
        ));
        j = j - 1;
    }
    if j > from {
        assert(s@.subrange(from as int, j as int).last() == s@[j - 1]);
    }
    j
}

/// Most characters a snippet keeps.
pub const SNIPPET_CHARS: usize = 120;

/// The snippet shown for a text: the text trimmed, cut to `SNIPPET_CHARS`
/// characters; empty when there is no text or it is blank.
pub open spec fn snippet_of(text: Option<Seq<char>>) -> Seq<char> {
    match text {
        None => Seq::empty(),
        Some(s) => {
            let t = trim(s);
            if t.len() > SNIPPET_CHARS {
                t.take(SNIPPET_CHARS as int)
            } else {
                t
            }
        },
    }
}

pub open spec fn opt_view(o: Option<String>) -> Option<Seq<char>> {
    match o {
        None => None,
        Some(s) => Some(s@),
    }
}

/// Builds the snippet of an optional text (see `snippet_of`).
pub fn build_snippet(text: Option<String>) -> (r: String)
    ensures
        r@ == snippet_of(opt_view(text)),
{
    match text {
        None => String::new(),
        Some(value) => {
            let s = value.as_str();
            let chars = chars_of(s);
            let a = skip_leading_whitespace(&chars);
            let b = trimmed_end(&chars, a);
            let end = if b - a > SNIPPET_CHARS {
                a + SNIPPET_CHARS
            } else {
                b
            };
            let piece = s.substring_char(a, end);
            let ghost t = trim(s@);
            assert(t =~= s@.subrange(a as int, b as int));
            assert(piece@ =~= snippet_of(opt_view(Some(value))));
            String::from_str(piece)
        },
    }
}

/// What `str::to_lowercase` returns for a text: a function of its characters.
pub uninterp spec fn lower_of(s: Seq<char>) -> Seq<char>;

/// Relies on `str::to_lowercase`: the Unicode lower-case mapping of each
/// character, which depends on the characters alone.
#[verifier::external_body]
pub(crate) fn lowercase(s: &str) -> (r: String)
    ensures
        r@ == lower_of(s@),
{
    s.to_lowercase()
}

/// Relies on `FromIterator<char> for String`: the string of the characters,
/// in order.
#[verifier::external_body]
pub(crate) fn string_of_chars(v: &Vec<char>) -> (r: String)
    ensures
        r@ == v@,
{
    v.iter().collect()
}

/// Whether `a` and `b` hold the same characters.
pub fn text_eq(a: &str, b: &str) -> (r: bool)
    ensures
        r == (a@ == b@),
{
    let x = chars_of(a);
    let y = chars_of(b);
    if x.len() != y.len() {
        return false;
    }
    let mut i: usize = 0;
    while i < x.len()
        invariant
            i <= x.len() == y.len(),
            x@ == a@,
            y@ == b@,
            x@.take(i as int) == y@.take(i as int),
        decreases x.len() - i,
    {
        if x[i] != y[i] {
            assert(a@[i as int] != b@[i as int]);
            return false;
        }
        assert(x@.take(i + 1) =~= x@.take(i as int).push(x@[i as int]));
        assert(y@.take(i + 1) =~= y@.take(i as int).push(y@[i as int]));
        i = i + 1;
    }
    assert(x@.take(i as int) =~= x@);
    assert(y@.take(i as int) =~= y@);
    true
}

/// Snippet of a source hit: that of its text, or its name when that is empty.
pub fn source_snippet(name: String, text: Option<String>) -> (r: String)
    ensures
        r@ == if snippet_of(opt_view(text)).len() == 0 {
            name@
        } else {
            snippet_of(opt_view(text))
        },
{
    let snippet = build_snippet(text);
    if snippet.as_str().is_empty() {
        name
    } else {
        snippet
    }
}

} // verus!
