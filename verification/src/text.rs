//! Cleaning of transcription text.
//!
//! The model writes a prefix `language {lang}<asr_text>` before each segment.
//! Cleaning drops the prefixes, joins the segments and removes line feeds.

use vstd::prelude::*;

verus! {

/// Ends the model's prefix of a segment.
pub const ASR_TEXT_TAG: &'static str = "<asr_text>";

/// Starts the model's prefix of a segment; the language follows.
pub const LANGUAGE_PREFIX: &'static str = "language ";

/// `String::push` of the standard library: appends one character.
pub assume_specification[ String::push ](s: &mut String, c: char)
    ensures
        final(s)@ == old(s)@.push(c),
;

// ---------------------------------------------------------------------------
// Searching
// ---------------------------------------------------------------------------

/// Whether `pat` stands in `t` at index `i`.
pub open spec fn occurs_at(t: Seq<char>, pat: Seq<char>, i: int) -> bool {
    0 <= i && i + pat.len() <= t.len() && t.subrange(i, i + pat.len()) == pat
}

/// Whether `pat` stands anywhere in `t`.
pub open spec fn occurs(t: Seq<char>, pat: Seq<char>) -> bool {
    exists|i: int| occurs_at(t, pat, i)
}

/// Whether `i` is the first place in `t` where `pat` stands.
pub open spec fn first_at(t: Seq<char>, pat: Seq<char>, i: int) -> bool {
    occurs_at(t, pat, i) && forall|j: int| j < i ==> !occurs_at(t, pat, j)
}

/// Whether `i` is the last place in `t` where `pat` stands.
pub open spec fn last_at(t: Seq<char>, pat: Seq<char>, i: int) -> bool {
    occurs_at(t, pat, i) && forall|j: int| j > i ==> !occurs_at(t, pat, j)
}

/// The characters of a text.
pub(crate) fn chars_of(text: &str) -> (r: Vec<char>)
    ensures
        r@ == text@,
{
    let mut out: Vec<char> = Vec::new();
    for c in it: text.chars()
        invariant
            it.seq() == text@,
            out@ == text@.take(it.index() as int),
    {
        out.push(c);
        assert(out@ =~= text@.take(it.index() + 1));
    }
    assert(text@.take(text@.len() as int) =~= text@);
    out
}

/// The text made of the characters `from..to`.
pub(crate) fn string_of(chars: &Vec<char>, from: usize, to: usize) -> (r: String)
    requires
        from <= to <= chars@.len(),
    ensures
        r@ == chars@.subrange(from as int, to as int),
{
    let mut out = String::new();
    let mut i: usize = from;
    while i < to
        invariant
            from <= i <= to <= chars@.len(),
            out@ == chars@.subrange(from as int, i as int),
        decreases to - i,
    {
        out.push(chars[i]);
        assert(out@ =~= chars@.subrange(from as int, i + 1));
        i = i + 1;
    }
    out
}

/// Whether `pat` stands in `chars` at index `i`.
fn occurs_here(chars: &Vec<char>, pat: &Vec<char>, i: usize) -> (r: bool)
    requires
        i + pat@.len() <= chars@.len(),
    ensures
        r == occurs_at(chars@, pat@, i as int),
{
    let mut k: usize = 0;
    while k < pat.len()
        invariant
            i + pat@.len() <= chars.len(),
            k <= pat@.len(),
            forall|m: int| 0 <= m < k ==> chars@[i + m] == pat@[m],
        decreases pat@.len() - k,
    {
        if chars[i + k] != pat[k] {
            assert(chars@.subrange(i as int, i + pat@.len())[k as int] != pat@[k as int]);
            return false;
        }
        k = k + 1;
    }
    assert(chars@.subrange(i as int, i + pat@.len()) =~= pat@);
    true
}

/// The first place at or after `from` where `pat` stands.
fn find_from(chars: &Vec<char>, pat: &Vec<char>, from: usize) -> (r: Option<usize>)
    requires
        from <= chars@.len(),
    ensures
        match r {
            Some(i) => from <= i && occurs_at(chars@, pat@, i as int) && forall|j: int|
                from <= j < i ==> !occurs_at(chars@, pat@, j),
            None => forall|j: int| from <= j ==> !occurs_at(chars@, pat@, j),
        },
{
    let mut i: usize = from;
    while i <= chars.len() && pat.len() <= chars.len() - i
        invariant
            from <= i <= chars@.len() + 1,
            forall|j: int| from <= j < i ==> !occurs_at(chars@, pat@, j),
        decreases chars@.len() + 1 - i,
    {
        if occurs_here(chars, pat, i) {
            return Some(i);
        }
        if i == chars.len() {
            return None;
        }
        i = i + 1;
    }
    None
}

/// The last place within `from..to` where `pat` stands.
fn find_last(chars: &Vec<char>, pat: &Vec<char>, from: usize, to: usize) -> (r: Option<usize>)
    requires
        from <= to <= chars@.len(),
    ensures
        match r {
            Some(i) => from <= i && i + pat@.len() <= to && occurs_at(chars@, pat@, i as int)
                && forall|j: int| i < j && j + pat@.len() <= to ==> !occurs_at(chars@, pat@, j),
            None => forall|j: int|
                from <= j && j + pat@.len() <= to ==> !occurs_at(chars@, pat@, j),
        },
{
    if pat.len() > to - from {
        return None;
    }
    let mut i: usize = to - pat.len();
    loop
        invariant
            from <= i,
            i + pat@.len() <= to <= chars@.len(),
            forall|j: int| i < j && j + pat@.len() <= to ==> !occurs_at(chars@, pat@, j),
        decreases i,
    {
        if occurs_here(chars, pat, i) {
            return Some(i);
        }
        if i == from {
            return None;
        }
        i = i - 1;
    }
}

// ---------------------------------------------------------------------------
// White space
// ---------------------------------------------------------------------------

/// Whether a character has the Unicode property `White_Space`.
pub open spec fn white_space(c: char) -> bool {
    let u = c as u32;
    ||| 0x9 <= u <= 0xd
    ||| u == 0x20
    ||| u == 0x85
    ||| u == 0xa0
    ||| u == 0x1680
    ||| 0x2000 <= u <= 0x200a
    ||| u == 0x2028
    ||| u == 0x2029
    ||| u == 0x202f
    ||| u == 0x205f
    ||| u == 0x3000
}

/// Whether no character of a text is white space.
pub open spec fn solid(t: Seq<char>) -> bool {
    forall|i: int| 0 <= i < t.len() ==> !white_space(#[trigger] t[i])
}

/// Whether a character is white space.
pub fn is_white_space(c: char) -> (r: bool)
    ensures
        r == white_space(c),
{
    let u: u32 = c as u32;
    (0x9 <= u && u <= 0xd) || u == 0x20 || u == 0x85 || u == 0xa0 || u == 0x1680 || (0x2000 <= u
        && u <= 0x200a) || u == 0x2028 || u == 0x2029 || u == 0x202f || u == 0x205f || u == 0x3000
}

/// Whether none of the characters `from..to` is white space.
fn is_solid(chars: &Vec<char>, from: usize, to: usize) -> (r: bool)
    requires
        from <= to <= chars@.len(),
    ensures
        r == solid(chars@.subrange(from as int, to as int)),
{
    let ghost part = chars@.subrange(from as int, to as int);
    let mut i: usize = from;
    while i < to
        invariant
            from <= i <= to <= chars@.len(),
            part == chars@.subrange(from as int, to as int),
            forall|k: int| 0 <= k < i - from ==> !white_space(#[trigger] part[k]),
        decreases to - i,
    {
        assert(part[i - from] == chars@[i as int]);
        if is_white_space(chars[i]) {
            return false;
        }
        i = i + 1;
    }
    true
}

/// A text without the white space at its start.
pub open spec fn trimmed_start(t: Seq<char>) -> Seq<char>
    decreases t.len(),
{
    if t.len() > 0 && white_space(t[0]) {
        trimmed_start(t.skip(1))
    } else {
        t
    }
}

/// A text without the white space at its end.
pub open spec fn trimmed_end(t: Seq<char>) -> Seq<char>
    decreases t.len(),
{
    if t.len() > 0 && white_space(t.last()) {
        trimmed_end(t.drop_last())
    } else {
        t
    }
}

/// A text without the white space around it.
pub open spec fn trimmed(t: Seq<char>) -> Seq<char> {
    trimmed_end(trimmed_start(t))
}

/// The text without the white space around it.
pub fn trim(text: &str) -> (r: String)
    ensures
        r@ == trimmed(text@),
{
    let chars = chars_of(text);
    let mut from: usize = 0;
    assert(chars@.skip(0) =~= chars@);
    while from < chars.len() && is_white_space(chars[from])
        invariant
            from <= chars@.len(),
            trimmed_start(chars@.skip(from as int)) == trimmed_start(chars@),
        decreases chars@.len() - from,
    {
        assert(chars@.skip(from as int).skip(1) =~= chars@.skip(from + 1));
        from = from + 1;
    }
    let ghost start = chars@.skip(from as int);
    assert(trimmed_start(chars@) == start);
    let mut to: usize = chars.len();
    assert(chars@.subrange(from as int, to as int) =~= start);
    while to > from && is_white_space(chars[to - 1])
        invariant
            from <= to <= chars@.len(),
            trimmed_end(chars@.subrange(from as int, to as int)) == trimmed_end(start),
        decreases to,
    {
        assert(chars@.subrange(from as int, to as int).drop_last() =~= chars@.subrange(
            from as int,
            to - 1,
        ));
        to = to - 1;
    }
    string_of(&chars, from, to)
}

// ---------------------------------------------------------------------------
// Cleaning
// ---------------------------------------------------------------------------

/// A segment without a `language {lang}` at its end, where `{lang}` is one word.
pub open spec fn without_language(seg: Seq<char>) -> Seq<char> {
    if exists|p: int| last_at(seg, LANGUAGE_PREFIX@, p) {
        let p = choose|p: int| last_at(seg, LANGUAGE_PREFIX@, p);
        let lang = seg.skip(p + LANGUAGE_PREFIX@.len());
        if lang.len() > 0 && solid(lang) {
            seg.take(p)
        } else {
            seg
        }
    } else {
        seg
    }
}

/// The segments between the tags, each without its prefix, one after the other.
pub open spec fn joined_segments(t: Seq<char>) -> Seq<char>
    decreases t.len(),
{
    if exists|i: int| first_at(t, ASR_TEXT_TAG@, i) {
        let i = choose|i: int| first_at(t, ASR_TEXT_TAG@, i);
        proof {
            reveal_strlit("<asr_text>");
        }
        without_language(t.take(i)) + joined_segments(t.skip(i + ASR_TEXT_TAG@.len()))
    } else {
        without_language(t)
    }
}

/// A text without its line feeds.
pub open spec fn one_line(t: Seq<char>) -> Seq<char> {
    t.filter(|c: char| c != '\n')
}

/// What is left of a transcription once it is cleaned.
pub open spec fn cleaned(t: Seq<char>) -> Seq<char> {
    one_line(joined_segments(t))
}

/// The end of what is kept of the segment `from..to` when a `language {lang}`
/// at its end is dropped.
fn language_start(chars: &Vec<char>, from: usize, to: usize) -> (r: usize)
    requires
        from <= to <= chars@.len(),
    ensures
        from <= r <= to,
        chars@.subrange(from as int, r as int) == without_language(
            chars@.subrange(from as int, to as int),
        ),
{
    let ghost seg = chars@.subrange(from as int, to as int);
    let prefix = chars_of(LANGUAGE_PREFIX);
    proof {
        assert forall|j: int| occurs_at(seg, prefix@, j) <==> (0 <= j && from + j + prefix@.len()
            <= to && occurs_at(chars@, prefix@, from + j)) by {
            if 0 <= j && from + j + prefix@.len() <= to {
                assert(seg.subrange(j, j + prefix@.len()) =~= chars@.subrange(
                    from + j,
                    from + j + prefix@.len(),
                ));
            }
        }
    }
    match find_last(chars, &prefix, from, to) {
        None => {
            assert forall|p: int| !last_at(seg, prefix@, p) by {
                assert(occurs_at(seg, prefix@, p) ==> occurs_at(chars@, prefix@, from + p));
            }
            to
        },
        Some(at) => {
            let ghost p = at - from;
            assert(occurs_at(seg, prefix@, p));
            assert forall|j: int| j > p implies !occurs_at(seg, prefix@, j) by {
                assert(occurs_at(seg, prefix@, j) ==> occurs_at(chars@, prefix@, from + j));
            }
            assert(last_at(seg, prefix@, p));
            let ghost q = choose|q: int| last_at(seg, prefix@, q);
            assert(q == p);
            let start: usize = at + prefix.len();
            let ghost lang = seg.skip(p + prefix@.len());
            assert(lang =~= chars@.subrange(start as int, to as int));
            if start < to && is_solid(chars, start, to) {
                assert(seg.take(p) =~= chars@.subrange(from as int, at as int));
                at
            } else {
                to
            }
        },
    }
}

/// If `seg` ends with an unclosed `language <lang>` prefix, drop it.
pub fn strip_trailing_lang_prefix(seg: &str) -> (r: &str)
    ensures
        r@ == without_language(seg@),
{
    let chars = chars_of(seg);
    assert(chars@.subrange(0, chars@.len() as int) =~= chars@);
    let kept: usize = language_start(&chars, 0, chars.len());
    seg.substring_char(0, kept)
}

/// Appends the characters `from..to` except line feeds.
fn append_one_line(out: &mut String, chars: &Vec<char>, from: usize, to: usize)
    requires
        from <= to <= chars@.len(),
    ensures
        final(out)@ == old(out)@ + one_line(chars@.subrange(from as int, to as int)),
{
    let ghost before = out@;
    let mut i: usize = from;
    proof {
        law_one_line_of_nothing();
        assert(chars@.subrange(from as int, from as int) =~= Seq::empty());
    }
    while i < to
        invariant
            from <= i <= to <= chars@.len(),
            out@ == before + one_line(chars@.subrange(from as int, i as int)),
        decreases to - i,
    {
        proof {
            law_only_line_feeds_are_removed(chars@.subrange(from as int, i as int), chars@[i as int]);
            assert(chars@.subrange(from as int, i + 1) =~= chars@.subrange(
                from as int,
                i as int,
            ).push(chars@[i as int]));
        }
        if chars[i] != '\n' {
            out.push(chars[i]);
        }
        i = i + 1;
    }
}

/// Strip every `language {lang}<asr_text>` prefix and join segments.
pub fn strip_prefix(text: &str) -> (r: String)
    ensures
        r@ == cleaned(text@),
{
    let chars = chars_of(text);
    let tag = chars_of(ASR_TEXT_TAG);
    let mut out = String::new();
    let mut pos: usize = 0;
    proof {
        reveal_strlit("<asr_text>");
        assert(chars@.skip(0) =~= chars@);
    }
    loop
        invariant
            tag@ == ASR_TEXT_TAG@,
            tag@.len() > 0,
            chars@ == text@,
            pos <= chars@.len(),
            out@ + one_line(joined_segments(chars@.skip(pos as int))) == cleaned(text@),
        decreases chars@.len() - pos,
    {
        let ghost rest = chars@.skip(pos as int);
        let ghost before = out@;
        proof {
            assert forall|j: int| occurs_at(rest, tag@, j) <==> (0 <= j && occurs_at(
                chars@,
                tag@,
                pos + j,
            )) by {
                if 0 <= j && pos + j + tag@.len() <= chars@.len() {
                    assert(rest.subrange(j, j + tag@.len()) =~= chars@.subrange(
                        pos + j,
                        pos + j + tag@.len(),
                    ));
                }
            }
        }
        match find_from(&chars, &tag, pos) {
            Some(at) => {
                let ghost i = at - pos;
                assert(occurs_at(rest, tag@, i));
                assert forall|j: int| j < i implies !occurs_at(rest, tag@, j) by {
                    assert(occurs_at(rest, tag@, j) ==> occurs_at(chars@, tag@, pos + j));
                }
                assert(first_at(rest, tag@, i));
                let kept: usize = language_start(&chars, pos, at);
                append_one_line(&mut out, &chars, pos, kept);
                proof {
                    let q = choose|q: int| first_at(rest, tag@, q);
                    assert(q == i);
                    assert(rest.take(i) =~= chars@.subrange(pos as int, at as int));
                    assert(rest.skip(i + tag@.len()) =~= chars@.skip(at + tag@.len()));
                    let head = without_language(rest.take(i));
                    let tail = joined_segments(chars@.skip(at + tag@.len()));
                    assert(joined_segments(rest) == head + tail);
                    lemma_one_line_add(head, tail);
                    assert(out@ + one_line(tail) =~= before + (one_line(head) + one_line(tail)));
                }
                assert(at + tag@.len() <= chars.len());
                pos = at + tag.len();
            },
            None => {
                assert forall|j: int| !first_at(rest, tag@, j) by {
                    assert(occurs_at(rest, tag@, j) ==> occurs_at(chars@, tag@, pos + j));
                }
                let kept: usize = language_start(&chars, pos, chars.len());
                append_one_line(&mut out, &chars, pos, kept);
                assert(chars@.subrange(pos as int, chars@.len() as int) =~= rest);
                return out;
            },
        }
    }
}

/// Cleaner that returns full cleaned text so far (replace semantics).
pub struct StreamCleaner {
    raw: String,
}

impl View for StreamCleaner {
    type V = Seq<char>;

    /// Everything received so far, uncleaned.
    closed spec fn view(&self) -> Seq<char> {
        self.raw@
    }
}

impl StreamCleaner {
    /// A cleaner that has received nothing.
    pub fn new() -> (r: Self)
        ensures
            r@ == Seq::<char>::empty(),
    {
        StreamCleaner { raw: String::new() }
    }

    /// Takes in a piece of raw text and returns all text so far, cleaned.
    pub fn push_delta(&mut self, delta: &str) -> (r: String)
        ensures
            final(self)@ == old(self)@ + delta@,
            r@ == cleaned(old(self)@ + delta@),
    {
        self.raw.append(delta);
        strip_prefix(self.raw.as_str())
    }

    /// All text so far, cleaned.
    pub fn current(&self) -> (r: String)
        ensures
            r@ == cleaned(self@),
    {
        strip_prefix(self.raw.as_str())
    }
}

// ---------------------------------------------------------------------------
// Facts about cleaning
// ---------------------------------------------------------------------------

/// No text has no line feeds to lose.
pub proof fn law_one_line_of_nothing()
    ensures
        one_line(Seq::empty()) == Seq::<char>::empty(),
{
    reveal(Seq::filter);
}

/// Character by character, line feeds go and all else stays, in its order.
pub proof fn law_only_line_feeds_are_removed(t: Seq<char>, c: char)
    ensures
        one_line(t.push(c)) == if c == '\n' {
            one_line(t)
        } else {
            one_line(t).push(c)
        },
{
    reveal(Seq::filter);
    assert(t.push(c).drop_last() =~= t);
}

proof fn lemma_one_line_add(s: Seq<char>, t: Seq<char>)
    ensures
        one_line(s + t) == one_line(s) + one_line(t),
    decreases t.len(),
{
    if t.len() == 0 {
        law_one_line_of_nothing();
        assert(s + t =~= s);
        assert(one_line(s) + Seq::empty() =~= one_line(s));
    } else {
        let init = t.drop_last();
        lemma_one_line_add(s, init);
        law_only_line_feeds_are_removed(init, t.last());
        law_only_line_feeds_are_removed(s + init, t.last());
        assert(t =~= init.push(t.last()));
        assert(s + t =~= (s + init).push(t.last()));
        assert(one_line(s + t) =~= one_line(s) + one_line(t));
    }
}

/// Where a pattern stands at all, there is a first place where it stands.
proof fn lemma_first_exists(t: Seq<char>, pat: Seq<char>, i: int)
    requires
        occurs_at(t, pat, i),
    ensures
        exists|j: int| first_at(t, pat, j),
    decreases i,
{
    if exists|j: int| j < i && occurs_at(t, pat, j) {
        let j = choose|j: int| j < i && occurs_at(t, pat, j);
        lemma_first_exists(t, pat, j);
    } else {
        assert(first_at(t, pat, i));
    }
}

/// A text without a tag is one segment.
pub(crate) proof fn lemma_single_segment(t: Seq<char>)
    requires
        !occurs(t, ASR_TEXT_TAG@),
    ensures
        cleaned(t) == one_line(without_language(t)),
{
    assert forall|i: int| !first_at(t, ASR_TEXT_TAG@, i) by {
        assert(first_at(t, ASR_TEXT_TAG@, i) ==> occurs_at(t, ASR_TEXT_TAG@, i));
    }
}

/// The first tag of a text ends its first segment.
proof fn lemma_first_segment(head: Seq<char>, tail: Seq<char>)
    requires
        !occurs(head, ASR_TEXT_TAG@),
    ensures
        cleaned(head + ASR_TEXT_TAG@ + tail) == cleaned(head) + cleaned(tail),
{
    lemma_single_segment(head);
    reveal_strlit("<asr_text>");
    let tag = ASR_TEXT_TAG@;
    let t = head + tag + tail;
    let n = head.len() as int;
    assert(t.subrange(n, n + tag.len()) =~= tag);
    assert(occurs_at(t, tag, n));
    assert forall|j: int| j < n implies !occurs_at(t, tag, j) by {
        if occurs_at(t, tag, j) {
            let here = t.subrange(j, j + tag.len());
            if j + tag.len() <= n {
                assert(here =~= head.subrange(j, j + tag.len()));
                assert(occurs_at(head, tag, j));
            } else {
                assert(here[n - j] == t[n]);
                assert(t[n] == tag[0]);
            }
        }
    }
    assert(first_at(t, tag, n));
    let i = choose|i: int| first_at(t, tag, i);
    assert(i == n);
    assert(t.take(n) =~= head);
    assert(t.skip(n + tag.len()) =~= tail);
    lemma_one_line_add(without_language(head), joined_segments(tail));
}

/// Every tag is a seam: what stands before it and what stands after it are
/// cleaned each on its own, and joined.
pub proof fn law_segments_join(head: Seq<char>, tail: Seq<char>)
    ensures
        cleaned(head + ASR_TEXT_TAG@ + tail) == cleaned(head) + cleaned(tail),
    decreases head.len(),
{
    let tag = ASR_TEXT_TAG@;
    if occurs(head, tag) {
        reveal_strlit("<asr_text>");
        lemma_first_exists(head, tag, choose|i: int| occurs_at(head, tag, i));
        let i = choose|i: int| first_at(head, tag, i);
        let first = head.take(i);
        let rest = head.skip(i + tag.len());
        assert(head =~= first + tag + rest);
        assert forall|j: int| !occurs_at(first, tag, j) by {
            if occurs_at(first, tag, j) {
                assert(first.subrange(j, j + tag.len()) =~= head.subrange(j, j + tag.len()));
                assert(occurs_at(head, tag, j));
            }
        }
        law_segments_join(rest, tail);
        lemma_first_segment(first, rest);
        lemma_first_segment(first, rest + tag + tail);
        assert(head + tag + tail =~= first + tag + (rest + tag + tail));
        assert(cleaned(first) + (cleaned(rest) + cleaned(tail)) =~= cleaned(head) + cleaned(tail));
    } else {
        lemma_first_segment(head, tail);
    }
}

/// A prefix `language {lang}<asr_text>` leaves no trace, and the segments
/// around it are joined.
pub proof fn law_prefix_is_stripped(head: Seq<char>, lang: Seq<char>, tail: Seq<char>)
    requires
        lang.len() > 0,
        solid(lang),
        !occurs(head + LANGUAGE_PREFIX@ + lang, ASR_TEXT_TAG@),
    ensures
        cleaned(head + LANGUAGE_PREFIX@ + lang + ASR_TEXT_TAG@ + tail) == one_line(head) + cleaned(
            tail,
        ),
{
    let seg = head + LANGUAGE_PREFIX@ + lang;
    law_segments_join(seg, tail);
    lemma_single_segment(seg);
    lemma_language_is_dropped(head, lang);
}

/// A segment of a transcription: its language and its text.
pub struct Segment {
    pub lang: Seq<char>,
    pub body: Seq<char>,
}

/// What the model writes for segments that follow the text `first`.
pub open spec fn transcript(first: Seq<char>, segments: Seq<Segment>) -> Seq<char>
    decreases segments.len(),
{
    if segments.len() == 0 {
        first
    } else {
        first + LANGUAGE_PREFIX@ + segments[0].lang + ASR_TEXT_TAG@ + transcript(
            segments[0].body,
            segments.skip(1),
        )
    }
}

/// The text `first` and the texts of the segments, one after the other.
pub open spec fn joined_bodies(first: Seq<char>, segments: Seq<Segment>) -> Seq<char>
    decreases segments.len(),
{
    if segments.len() == 0 {
        first
    } else {
        first + joined_bodies(segments[0].body, segments.skip(1))
    }
}

/// Whether a transcript can be told apart into its segments: languages are
/// single words, no text holds a tag or makes one up together with the prefix
/// that follows, and the last text does not itself look like a prefix.
pub open spec fn separable(first: Seq<char>, segments: Seq<Segment>) -> bool
    decreases segments.len(),
{
    if segments.len() == 0 {
        !occurs(first, ASR_TEXT_TAG@) && without_language(first) == first
    } else {
        &&& segments[0].lang.len() > 0
        &&& solid(segments[0].lang)
        &&& !occurs(first + LANGUAGE_PREFIX@ + segments[0].lang, ASR_TEXT_TAG@)
        &&& separable(segments[0].body, segments.skip(1))
    }
}

/// Cleaning a transcript of any number of segments leaves their texts, joined.
pub proof fn law_transcript_is_joined(first: Seq<char>, segments: Seq<Segment>)
    requires
        separable(first, segments),
    ensures
        cleaned(transcript(first, segments)) == one_line(joined_bodies(first, segments)),
    decreases segments.len(),
{
    if segments.len() == 0 {
        lemma_single_segment(first);
    } else {
        let body = segments[0].body;
        let rest = segments.skip(1);
        law_transcript_is_joined(body, rest);
        law_prefix_is_stripped(first, segments[0].lang, transcript(body, rest));
        lemma_one_line_add(first, joined_bodies(body, rest));
    }
}

/// A `language {lang}` at the end of a text, which no tag closes yet, is dropped as well.
pub proof fn law_unclosed_prefix_is_stripped(head: Seq<char>, lang: Seq<char>)
    requires
        lang.len() > 0,
        solid(lang),
        !occurs(head + LANGUAGE_PREFIX@ + lang, ASR_TEXT_TAG@),
    ensures
        cleaned(head + LANGUAGE_PREFIX@ + lang) == one_line(head),
{
    lemma_single_segment(head + LANGUAGE_PREFIX@ + lang);
    lemma_language_is_dropped(head, lang);
}

pub(crate) proof fn lemma_language_is_dropped(head: Seq<char>, lang: Seq<char>)
    requires
        lang.len() > 0,
        solid(lang),
    ensures
        without_language(head + LANGUAGE_PREFIX@ + lang) == head,
{
    reveal_strlit("language ");
    let prefix = LANGUAGE_PREFIX@;
    let seg = head + prefix + lang;
    let n = head.len() as int;
    assert(seg.subrange(n, n + prefix.len()) =~= prefix);
    assert(occurs_at(seg, prefix, n));
    assert forall|j: int| j > n implies !occurs_at(seg, prefix, j) by {
        if occurs_at(seg, prefix, j) {
            assert(seg.subrange(j, j + prefix.len())[8] == seg[j + 8]);
            assert(seg[j + 8] == lang[j + 8 - n - 9]);
        }
    }
    assert(last_at(seg, prefix, n));
    let p = choose|p: int| last_at(seg, prefix, p);
    assert(p == n);
    assert(seg.skip(n + prefix.len()) =~= lang);
    assert(seg.take(n) =~= head);
}

/// Text that holds neither a tag nor a prefix nor a line feed is left as it is.
pub proof fn law_plain_text_is_kept(t: Seq<char>)
    requires
        !occurs(t, ASR_TEXT_TAG@),
        !occurs(t, LANGUAGE_PREFIX@),
        !t.contains('\n'),
    ensures
        cleaned(t) == t,
{
    lemma_single_segment(t);
    assert forall|i: int| !last_at(t, LANGUAGE_PREFIX@, i) by {
        assert(last_at(t, LANGUAGE_PREFIX@, i) ==> occurs_at(t, LANGUAGE_PREFIX@, i));
    }
    lemma_one_line_of_one_line(t);
}

proof fn lemma_one_line_of_one_line(t: Seq<char>)
    requires
        !t.contains('\n'),
    ensures
        one_line(t) == t,
    decreases t.len(),
{
    if t.len() == 0 {
        law_one_line_of_nothing();
        assert(t =~= Seq::empty());
    } else {
        let init = t.drop_last();
        assert forall|i: int| 0 <= i < init.len() implies init[i] != '\n' by {
            assert(t.contains(t[i]));
        }
        assert(t.contains(t.last()));
        lemma_one_line_of_one_line(init);
        law_only_line_feeds_are_removed(init, t.last());
        assert(t =~= init.push(t.last()));
    }
}

proof fn lemma_one_line_has_no_line_feed(t: Seq<char>)
    ensures
        !one_line(t).contains('\n'),
    decreases t.len(),
{
    if t.len() == 0 {
        law_one_line_of_nothing();
        assert(t =~= Seq::empty());
    } else {
        let init = t.drop_last();
        lemma_one_line_has_no_line_feed(init);
        law_only_line_feeds_are_removed(init, t.last());
        assert(t =~= init.push(t.last()));
        assert forall|i: int| 0 <= i < one_line(t).len() implies one_line(t)[i] != '\n' by {
            if i < one_line(init).len() {
                assert(one_line(init).contains(one_line(init)[i]));
            }
        }
    }
}

/// Cleaned text has no line feeds.
pub proof fn law_cleaned_text_is_one_line(t: Seq<char>)
    ensures
        !cleaned(t).contains('\n'),
{
    lemma_one_line_has_no_line_feed(joined_segments(t));
}

/// Taking white space off the ends brings no line feed in.
pub(crate) proof fn lemma_trimmed_is_one_line(t: Seq<char>)
    requires
        !t.contains('\n'),
    ensures
        !trimmed(t).contains('\n'),
{
    lemma_trimmed_start_is_one_line(t);
    lemma_trimmed_end_is_one_line(trimmed_start(t));
}

proof fn lemma_trimmed_start_is_one_line(t: Seq<char>)
    requires
        !t.contains('\n'),
    ensures
        !trimmed_start(t).contains('\n'),
    decreases t.len(),
{
    if t.len() > 0 && white_space(t[0]) {
        assert forall|i: int| 0 <= i < t.skip(1).len() implies t.skip(1)[i] != '\n' by {
            assert(t.contains(t[i + 1]));
        }
        lemma_trimmed_start_is_one_line(t.skip(1));
    }
}

proof fn lemma_trimmed_end_is_one_line(t: Seq<char>)
    requires
        !t.contains('\n'),
    ensures
        !trimmed_end(t).contains('\n'),
    decreases t.len(),
{
    if t.len() > 0 && white_space(t.last()) {
        assert forall|i: int| 0 <= i < t.drop_last().len() implies t.drop_last()[i] != '\n' by {
            assert(t.contains(t[i]));
        }
        lemma_trimmed_end_is_one_line(t.drop_last());
    }
}

/// How the raw text was split into deltas does not matter: pushing two pieces
/// leaves the cleaner where pushing them as one would, with the same answer.
pub proof fn law_delta_split_is_immaterial(raw: Seq<char>, first: Seq<char>, second: Seq<char>)
    ensures
        (raw + first) + second == raw + (first + second),
        cleaned((raw + first) + second) == cleaned(raw + (first + second)),
{
    assert((raw + first) + second =~= raw + (first + second));
}

} // verus!
