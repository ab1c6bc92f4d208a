//! What cleaning keeps of a transcription, and what it drops.

use vstd::prelude::*;

use crate::text;

verus! {

/// A pattern stands in a text where the text can be cut around it.
pub proof fn law_cut_is_an_occurrence(before: Seq<char>, pat: Seq<char>, after: Seq<char>)
    ensures
        text::occurs_at(before + pat + after, pat, before.len() as int),
        text::occurs(before + pat + after, pat),
{
    let t = before + pat + after;
    let n = before.len() as int;
    assert(t.subrange(n, n + pat.len()) =~= pat);
    assert(text::occurs_at(t, pat, n));
}

/// Where a pattern stands in a text, the text can be cut around it.
pub proof fn law_occurrence_is_a_cut(t: Seq<char>, pat: Seq<char>, i: int)
    requires
        text::occurs_at(t, pat, i),
    ensures
        0 <= i <= t.len() - pat.len(),
        t == t.take(i) + pat + t.skip(i + pat.len()),
{
    assert(t =~= t.take(i) + t.subrange(i, i + pat.len()) + t.skip(i + pat.len()));
}

/// Text that holds neither a tag nor a prefix keeps every character but its line feeds.
pub proof fn law_text_without_prefix_is_kept(t: Seq<char>)
    requires
        !text::occurs(t, "<asr_text>"@),
        !text::occurs(t, "language "@),
    ensures
        text::without_language(t) == t,
        text::cleaned(t) == text::one_line(t),
{
    text::lemma_single_segment(t);
    if exists|i: int| text::last_at(t, text::LANGUAGE_PREFIX@, i) {
        let i = choose|i: int| text::last_at(t, text::LANGUAGE_PREFIX@, i);
        assert(text::occurs_at(t, "language "@, i));
    }
}

proof fn lemma_last_prefix(head: Seq<char>, rest: Seq<char>)
    requires
        text::last_at(
            head + text::LANGUAGE_PREFIX@ + rest,
            text::LANGUAGE_PREFIX@,
            head.len() as int,
        ),
        rest.len() == 0 || !text::solid(rest),
    ensures
        text::without_language(head + text::LANGUAGE_PREFIX@ + rest) == head
            + text::LANGUAGE_PREFIX@ + rest,
{
    let prefix = text::LANGUAGE_PREFIX@;
    let seg = head + prefix + rest;
    let n = head.len() as int;
    let p = choose|p: int| text::last_at(seg, prefix, p);
    assert(p == n);
    assert(seg.skip(n + prefix.len()) =~= rest);
}

/// Speech about a language is kept: where white space follows in `rest`, or
/// nothing at all, `language ` starts no prefix, and every character but the
/// line feeds stays.
pub proof fn law_word_language_is_kept(head: Seq<char>, rest: Seq<char>)
    requires
        rest.len() == 0 || exists|i: int| 0 <= i < rest.len() && text::white_space(#[trigger] rest[i]),
        forall|j: int|
            j > head.len() ==> !#[trigger] text::occurs_at(
                head + "language "@ + rest,
                "language "@,
                j,
            ),
    ensures
        text::without_language(head + "language "@ + rest) == head + "language "@ + rest,
        !text::occurs(head + "language "@ + rest, "<asr_text>"@) ==> text::cleaned(
            head + "language "@ + rest,
        ) == text::one_line(head + "language "@ + rest),
{
    let seg = head + "language "@ + rest;
    law_cut_is_an_occurrence(head, "language "@, rest);
    assert(text::last_at(seg, text::LANGUAGE_PREFIX@, head.len() as int));
    lemma_last_prefix(head, rest);
    if !text::occurs(seg, "<asr_text>"@) {
        text::lemma_single_segment(seg);
    }
}

/// What follows the last `language ` of a segment is dropped together with it
/// if it is one word: some characters, none of them white space.
pub proof fn law_trailing_language_is_dropped(head: Seq<char>, lang: Seq<char>)
    requires
        lang.len() > 0,
        forall|i: int| 0 <= i < lang.len() ==> !text::white_space(#[trigger] lang[i]),
    ensures
        text::without_language(head + "language "@ + lang) == head,
        !text::occurs(head + "language "@ + lang, "<asr_text>"@) ==> text::cleaned(
            head + "language "@ + lang,
        ) == text::one_line(head),
{
    text::lemma_language_is_dropped(head, lang);
    if !text::occurs(head + "language "@ + lang, "<asr_text>"@) {
        text::lemma_single_segment(head + "language "@ + lang);
    }
}

} // verus!
