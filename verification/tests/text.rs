use vinput_ws_asr::text::{is_white_space, strip_prefix, strip_trailing_lang_prefix, trim, StreamCleaner};

#[test]
fn prefix_is_stripped() {
    assert_eq!(strip_prefix("language English<asr_text>hello world"), "hello world");
}

#[test]
fn segments_are_joined() {
    assert_eq!(
        strip_prefix("language English<asr_text>Hello. language Chinese<asr_text>\u{4f60}\u{597d}"),
        "Hello. \u{4f60}\u{597d}"
    );
}

#[test]
fn plain_text_is_kept() {
    assert_eq!(strip_prefix("nothing to do here"), "nothing to do here");
    assert_eq!(strip_prefix(""), "");
}

#[test]
fn line_feeds_are_removed() {
    assert_eq!(strip_prefix("language English<asr_text>a\nb\r\nc\n"), "ab\rc");
    assert_eq!(strip_prefix("\n\n"), "");
}

#[test]
fn tag_without_language_is_dropped() {
    assert_eq!(strip_prefix("one<asr_text>two"), "onetwo");
    assert_eq!(strip_prefix("<asr_text><asr_text>"), "");
}

#[test]
fn unclosed_prefix_at_the_end_is_dropped() {
    assert_eq!(strip_prefix("language Engl"), "");
    assert_eq!(strip_prefix("language English<asr_text>hi language Ger"), "hi ");
}

#[test]
fn word_language_alone_is_kept() {
    assert_eq!(strip_prefix("language "), "language ");
    assert_eq!(strip_prefix("a language that is spoken"), "a language that is spoken");
    assert_eq!(strip_prefix("my language model is<asr_text>x"), "my language model isx");
}

#[test]
fn only_the_last_prefix_of_a_segment_counts() {
    assert_eq!(strip_trailing_lang_prefix("language a language b"), "language a ");
    assert_eq!(strip_trailing_lang_prefix("language a language b c"), "language a language b c");
    assert_eq!(strip_trailing_lang_prefix("language a\u{3000}b"), "language a\u{3000}b");
    assert_eq!(strip_trailing_lang_prefix("sprachelanguage x"), "sprache");
    assert_eq!(strip_trailing_lang_prefix(""), "");
    assert_eq!(strip_trailing_lang_prefix("language \u{4e2d}\u{6587}"), "");
}

#[test]
fn a_tag_that_joining_makes_up_stays() {
    assert_eq!(strip_prefix("<asr_<asr_text>text>x"), "<asr_text>x");
}

#[test]
fn partial_tag_is_text() {
    assert_eq!(strip_prefix("x <asr_text"), "x <asr_text");
}

#[test]
fn cleaner_returns_all_text_so_far() {
    let mut cleaner = StreamCleaner::new();
    assert_eq!(cleaner.current(), "");
    assert_eq!(cleaner.push_delta("language Eng"), "");
    assert_eq!(cleaner.push_delta("lish<asr_"), "");
    assert_eq!(cleaner.push_delta("text>Hi"), "Hi");
    assert_eq!(cleaner.push_delta(" there\n"), "Hi there");
    assert_eq!(cleaner.current(), "Hi there");
}

#[test]
fn splitting_a_delta_does_not_matter() {
    let whole = "language English<asr_text>one language French<asr_text>deux";
    let mut at_once = StreamCleaner::new();
    let expected = at_once.push_delta(whole);
    let mut by_char = StreamCleaner::new();
    let mut last = String::new();
    for c in whole.chars() {
        last = by_char.push_delta(&c.to_string());
    }
    assert_eq!(expected, "one deux");
    assert_eq!(last, expected);
}

#[test]
fn cleaned_text_has_no_line_feed() {
    for text in ["a\nb", "\n<asr_text>\n", "language x\n<asr_text>\ny"] {
        assert!(!strip_prefix(text).contains('\n'));
    }
}

#[test]
fn white_space_is_that_of_unicode() {
    for u in 0..=0x10ffffu32 {
        if let Some(c) = char::from_u32(u) {
            assert_eq!(is_white_space(c), c.is_whitespace(), "{:x}", u);
        }
    }
}

#[test]
fn trim_takes_white_space_off_both_ends() {
    for text in ["", " ", " a", "a ", "\t a b \r\n", "\u{3000}\u{a0}x\u{2028}", "x"] {
        assert_eq!(trim(text), text.trim());
    }
}

#[test]
fn cleaning_goes_segment_by_segment() {
    let heads = ["", "language", "one language French<asr_text>deux\n", "a<asr_text>language x", "<asr_<asr_text>"];
    let tails = ["", "text>x", "hi language Ger", "b<asr_text>c language y<asr_text>"];
    for head in heads {
        for tail in tails {
            let whole = format!("{head}<asr_text>{tail}");
            assert_eq!(strip_prefix(&whole), format!("{}{}", strip_prefix(head), strip_prefix(tail)));
        }
    }
    assert_eq!(strip_prefix("one language French<asr_text>deux<asr_text>hi language Ger"), "one deuxhi ");
}
