//! Text fingerprints by feature hashing.
//!
//! A text is reduced to tokens (runs of ASCII letters and digits, lower-cased,
//! and single CJK ideographs); each token is hashed with 64-bit FNV-1a over its
//! UTF-8 bytes and adds +1 or -1 to one of `EMBEDDING_DIM` buckets. The hash
//! is part of the persisted-data contract: changing it invalidates every
//! stored vector. The resulting signed counts are the unnormalised vector;
//! dividing by its Euclidean norm gives the stored fingerprint.

use vstd::prelude::*;
use crate::text::{chars_of, trim, skip_leading_whitespace, trimmed_end};

verus! {

/// Width of every fingerprint.
pub const EMBEDDING_DIM: usize = 384;

/// Characters of a text that are looked at, counted after leading whitespace.
pub const MAX_TEXT_CHARS: usize = 20000;

/// FNV-1a 64-bit offset basis.
pub const FNV_OFFSET: u64 = 0xcbf2_9ce4_8422_2325;

/// FNV-1a 64-bit prime.
pub const FNV_PRIME: u64 = 0x0000_0100_0000_01b3;

/// CJK ideographs: U+3400..U+4DBF, U+4E00..U+9FFF, U+F900..U+FAFF.
pub open spec fn is_cjk_char(c: char) -> bool {
    let u = c as u32;
    ||| 0x3400 <= u <= 0x4DBF
    ||| 0x4E00 <= u <= 0x9FFF
    ||| 0xF900 <= u <= 0xFAFF
}

pub open spec fn is_ascii_alnum(c: char) -> bool {
    let u = c as u32;
    ||| 0x30 <= u <= 0x39
    ||| 0x41 <= u <= 0x5A
    ||| 0x61 <= u <= 0x7A
}

pub open spec fn ascii_lower(c: char) -> char {
    if 0x41 <= c as u32 <= 0x5A {
        ((c as u32) + 32) as char
    } else {
        c
    }
}

/// Whether `ch` is a CJK ideograph that forms a token of its own.
pub fn is_cjk(ch: char) -> (r: bool)
    ensures
        r == is_cjk_char(ch),
{
    let u = ch as u32;
    (0x3400 <= u && u <= 0x4DBF) || (0x4E00 <= u && u <= 0x9FFF) || (0xF900 <= u && u <= 0xFAFF)
}

fn is_alnum(ch: char) -> (r: bool)
    ensures
        r == is_ascii_alnum(ch),
{
    let u = ch as u32;
    (0x30 <= u && u <= 0x39) || (0x41 <= u && u <= 0x5A) || (0x61 <= u && u <= 0x7A)
}

fn to_lower(ch: char) -> (r: char)
    ensures
        r == ascii_lower(ch),
{
    let u = ch as u32;
    if 0x41 <= u && u <= 0x5A {
        let b = (u as u8) + 32;
        assert(b as u32 == u + 32) by (bit_vector)
            requires
                0x41 <= u <= 0x5A,
                b == (u as u8) + 32,
        ;
        b as char
    } else {
        ch
    }
}

/// Scanner state after reading `s`: tokens emitted so far and the
/// alphanumeric run still open.
pub open spec fn scan(s: Seq<char>) -> (Seq<Seq<char>>, Seq<char>)
    decreases s.len(),
{
    if s.len() == 0 {
        (Seq::empty(), Seq::empty())
    } else {
        let prev = scan(s.drop_last());
        let c = s.last();
        if is_ascii_alnum(c) {
            (prev.0, prev.1.push(ascii_lower(c)))
        } else {
            let flushed = if prev.1.len() > 0 {
                prev.0.push(prev.1)
            } else {
                prev.0
            };
            (
                if is_cjk_char(c) {
                    flushed.push(seq![c])
                } else {
                    flushed
                },
                Seq::empty(),
            )
        }
    }
}

/// The tokens of `s`, in order of appearance.
pub open spec fn tokens_of(s: Seq<char>) -> Seq<Seq<char>> {
    let st = scan(s);
    if st.1.len() > 0 {
        st.0.push(st.1)
    } else {
        st.0
    }
}

pub open spec fn views(v: Seq<Vec<char>>) -> Seq<Seq<char>> {
    v.map_values(|t: Vec<char>| t@)
}

proof fn lemma_scan_len(s: Seq<char>)
    ensures
        scan(s).0.len() + (if scan(s).1.len() > 0 { 1int } else { 0int }) <= s.len(),
        forall|i: int| 0 <= i < scan(s).0.len() ==> (#[trigger] scan(s).0[i]).len() > 0,
    decreases s.len(),
{
    if s.len() > 0 {
        lemma_scan_len(s.drop_last());
    }
}

/// Splits `text` into tokens: each maximal run of ASCII letters and digits,
/// lower-cased, and each CJK ideograph on its own; every other character only
/// separates tokens.
pub fn tokenize(text: &Vec<char>) -> (r: Vec<Vec<char>>)
    ensures
        views(r@) == tokens_of(text@),
{
    let mut tokens: Vec<Vec<char>> = Vec::new();
    let mut current: Vec<char> = Vec::new();
    let mut i: usize = 0;
    while i < text.len()
        invariant
            i <= text.len(),
            views(tokens@) == scan(text@.take(i as int)).0,
            current@ == scan(text@.take(i as int)).1,
        decreases text.len() - i,
    {
        let ch = text[i];
        assert(text@.take(i + 1).drop_last() =~= text@.take(i as int));
        if is_alnum(ch) {
            current.push(to_lower(ch));
        } else {
            if current.len() > 0 {
                let ghost before = tokens@;
                tokens.push(current);
                assert(views(tokens@) =~= views(before).push(current@));
                current = Vec::new();
            }
            if is_cjk(ch) {
                let ghost before = tokens@;
                let mut single: Vec<char> = Vec::new();
                single.push(ch);
                tokens.push(single);
                assert(views(tokens@) =~= views(before).push(seq![ch]));
            }
            assert(current@ =~= Seq::<char>::empty());
        }
        i = i + 1;
    }
    assert(text@.take(text.len() as int) =~= text@);
    if current.len() > 0 {
        let ghost before = tokens@;
        tokens.push(current);
        assert(views(tokens@) =~= views(before).push(current@));
    }
    tokens
}

pub open spec fn fnv_step(h: u64, b: u8) -> u64 {
    (h ^ (b as u64)).wrapping_mul(FNV_PRIME)
}

/// FNV-1a state after feeding the UTF-8 encoding of `c`.
pub open spec fn fnv_char(h: u64, c: char) -> u64 {
    let u = c as u32;
    if u < 0x80 {
        fnv_step(h, u as u8)
    } else if u < 0x800 {
        fnv_step(fnv_step(h, (0xC0 | (u >> 6)) as u8), (0x80 | (u & 0x3F)) as u8)
    } else if u < 0x10000 {
        fnv_step(
            fnv_step(fnv_step(h, (0xE0 | (u >> 12)) as u8), (0x80 | ((u >> 6) & 0x3F)) as u8),
            (0x80 | (u & 0x3F)) as u8,
        )
    } else {
        fnv_step(
            fnv_step(
                fnv_step(fnv_step(h, (0xF0 | (u >> 18)) as u8), (0x80 | ((u >> 12) & 0x3F)) as u8),
                (0x80 | ((u >> 6) & 0x3F)) as u8,
            ),
            (0x80 | (u & 0x3F)) as u8,
        )
    }
}

/// 64-bit FNV-1a of the UTF-8 encoding of `t`.
pub open spec fn token_hash(t: Seq<char>) -> u64
    decreases t.len(),
{
    if t.len() == 0 {
        FNV_OFFSET
    } else {
        fnv_char(token_hash(t.drop_last()), t.last())
    }
}

fn fnv_byte(h: u64, b: u8) -> (r: u64)
    ensures
        r == fnv_step(h, b),
{
    (h ^ (b as u64)).wrapping_mul(FNV_PRIME)
}

fn fnv_feed_char(h: u64, c: char) -> (r: u64)
    ensures
        r == fnv_char(h, c),
{
    let u = c as u32;
    if u < 0x80 {
        fnv_byte(h, u as u8)
    } else if u < 0x800 {
        fnv_byte(fnv_byte(h, (0xC0 | (u >> 6)) as u8), (0x80 | (u & 0x3F)) as u8)
    } else if u < 0x10000 {
        let h1 = fnv_byte(h, (0xE0 | (u >> 12)) as u8);
        let h2 = fnv_byte(h1, (0x80 | ((u >> 6) & 0x3F)) as u8);
        fnv_byte(h2, (0x80 | (u & 0x3F)) as u8)
    } else {
        let h1 = fnv_byte(h, (0xF0 | (u >> 18)) as u8);
        let h2 = fnv_byte(h1, (0x80 | ((u >> 12) & 0x3F)) as u8);
        let h3 = fnv_byte(h2, (0x80 | ((u >> 6) & 0x3F)) as u8);
        fnv_byte(h3, (0x80 | (u & 0x3F)) as u8)
    }
}

/// The 64-bit hash of a token: FNV-1a over its UTF-8 bytes.
pub fn hash_token(token: &Vec<char>) -> (r: u64)
    ensures
        r == token_hash(token@),
{
    let mut h: u64 = FNV_OFFSET;
    let mut i: usize = 0;
    while i < token.len()
        invariant
            i <= token.len(),
            h == token_hash(token@.take(i as int)),
        decreases token.len() - i,
    {
        assert(token@.take(i + 1).drop_last() =~= token@.take(i as int));
        h = fnv_feed_char(h, token[i]);
        i = i + 1;
    }
    assert(token@.take(token.len() as int) =~= token@);
    h
}

/// Bucket that a token with hash `h` falls into.
pub open spec fn bucket_of(h: u64) -> int {
    (h % (EMBEDDING_DIM as u64)) as int
}

/// +1 when bit 1 of `h` is clear, else -1.
pub open spec fn sign_of(h: u64) -> int {
    if (h >> 1u64) & 1u64 == 0 {
        1
    } else {
        -1
    }
}

pub open spec fn zero_counts() -> Seq<int> {
    Seq::new(EMBEDDING_DIM as nat, |i: int| 0int)
}

/// Signed bucket counts of a token sequence; a token seen twice counts twice.
pub open spec fn hashed_counts(toks: Seq<Seq<char>>) -> Seq<int>
    decreases toks.len(),
{
    if toks.len() == 0 {
        zero_counts()
    } else {
        let prev = hashed_counts(toks.drop_last());
        let h = token_hash(toks.last());
        prev.update(bucket_of(h), prev[bucket_of(h)] + sign_of(h))
    }
}

/// The part of a text that is tokenized: the text trimmed of whitespace at
/// both ends, then cut to its first `MAX_TEXT_CHARS` characters.
pub open spec fn embedding_input(s: Seq<char>) -> Seq<char> {
    let t = trim(s);
    if t.len() > MAX_TEXT_CHARS {
        t.take(MAX_TEXT_CHARS as int)
    } else {
        t
    }
}

/// The unnormalised fingerprint of a text: empty when the text has no token,
/// else the `EMBEDDING_DIM` signed bucket counts of its tokens.
pub open spec fn embedding_of(s: Seq<char>) -> Seq<int> {
    let toks = tokens_of(embedding_input(s));
    if toks.len() == 0 {
        Seq::empty()
    } else {
        hashed_counts(toks)
    }
}

pub open spec fn ints(v: Seq<i32>) -> Seq<int> {
    v.map_values(|x: i32| x as int)
}

/// The hashed, unnormalised fingerprint of `text` (see `embedding_of`):
/// empty when `text` yields no token, else `EMBEDDING_DIM` signed counts.
pub fn hashed_embedding(text: &str) -> (r: Vec<i32>)
    ensures
        ints(r@) == embedding_of(text@),
        r.len() == 0 || r.len() == EMBEDDING_DIM,
{
    let chars = chars_of(text);
    let start = skip_leading_whitespace(&chars);
    let stop = trimmed_end(&chars, start);
    assert(trim(text@) =~= chars@.subrange(start as int, stop as int));
    let end = if stop - start > MAX_TEXT_CHARS {
        start + MAX_TEXT_CHARS
    } else {
        stop
    };
    let mut input: Vec<char> = Vec::new();
    let mut i: usize = start;
    while i < end
        invariant
            start <= i <= end <= chars.len(),
            input@ == chars@.subrange(start as int, i as int),
        decreases end - i,
    {
        input.push(chars[i]);
        i = i + 1;
    }
    assert(input@ =~= embedding_input(text@));
    let tokens = tokenize(&input);
    proof {
        lemma_scan_len(input@);
    }
    if tokens.len() == 0 {
        return Vec::new();
    }
    let mut counts: Vec<i32> = Vec::new();
    let mut j: usize = 0;
    while j < EMBEDDING_DIM
        invariant
            j <= EMBEDDING_DIM,
            counts.len() == j,
            forall|b: int| 0 <= b < j ==> #[trigger] counts@[b] == 0,
        decreases EMBEDDING_DIM - j,
    {
        counts.push(0);
        j = j + 1;
    }
    let ghost toks = views(tokens@);
    assert(toks.take(0) =~= Seq::<Seq<char>>::empty());
    assert(ints(counts@) =~= zero_counts());
    let mut k: usize = 0;
    while k < tokens.len()
        invariant
            k <= tokens.len() <= MAX_TEXT_CHARS,
            toks == views(tokens@),
            counts.len() == EMBEDDING_DIM,
            ints(counts@) == hashed_counts(toks.take(k as int)),
            forall|b: int| 0 <= b < EMBEDDING_DIM ==> -k <= #[trigger] counts@[b] <= k,
        decreases tokens.len() - k,
    {
        assert(toks.take(k + 1).drop_last() =~= toks.take(k as int));
        assert(toks.take(k + 1).last() == tokens@[k as int]@);
        let h = hash_token(&tokens[k]);
        let b = (h % (EMBEDDING_DIM as u64)) as usize;
        let sign: i32 = if (h >> 1u64) & 1u64 == 0 {
            1
        } else {
            -1
        };
        let old = counts[b];
        counts.set(b, old + sign);
        assert(ints(counts@) =~= hashed_counts(toks.take(k + 1)));
        k = k + 1;
    }
    assert(toks.take(tokens.len() as int) =~= toks);
    counts
}

} // verus!
