//! What counts as white space, and what trimming takes off.

use vstd::prelude::*;

use crate::protocol;
use crate::protocol::RequestModel;
use crate::text;

verus! {

/// White space is these characters and no others.
pub proof fn law_white_space_characters(c: char)
    ensures
        text::white_space(c) <==> {
            ||| c == '\t'
            ||| c == '\n'
            ||| c == '\u{b}'
            ||| c == '\u{c}'
            ||| c == '\r'
            ||| c == ' '
            ||| c == '\u{85}'
            ||| c == '\u{a0}'
            ||| c == '\u{1680}'
            ||| '\u{2000}' <= c <= '\u{200a}'
            ||| c == '\u{2028}'
            ||| c == '\u{2029}'
            ||| c == '\u{202f}'
            ||| c == '\u{205f}'
            ||| c == '\u{3000}'
        },
{
}

/// A text is solid exactly when none of its characters is white space.
pub proof fn law_solid_character_by_character(t: Seq<char>, c: char)
    ensures
        text::solid(Seq::empty()),
        text::solid(t.push(c)) <==> text::solid(t) && !text::white_space(c),
{
    assert(t.push(c)[t.len() as int] == c);
    if text::solid(t.push(c)) {
        assert forall|i: int| 0 <= i < t.len() implies !text::white_space(#[trigger] t[i]) by {
            assert(t.push(c)[i] == t[i]);
        }
    }
}

/// Whether a text is nothing but white space.
pub open spec fn blank(t: Seq<char>) -> bool {
    forall|i: int| 0 <= i < t.len() ==> text::white_space(#[trigger] t[i])
}

proof fn lemma_trimmed_start_add(space: Seq<char>, t: Seq<char>)
    requires
        blank(space),
    ensures
        text::trimmed_start(space + t) == text::trimmed_start(t),
    decreases space.len(),
{
    if space.len() == 0 {
        assert(space + t =~= t);
    } else {
        let rest = space.skip(1);
        assert(blank(rest)) by {
            assert forall|i: int| 0 <= i < rest.len() implies text::white_space(
                #[trigger] rest[i],
            ) by {
                assert(rest[i] == space[i + 1]);
            }
        }
        lemma_trimmed_start_add(rest, t);
        assert((space + t)[0] == space[0]);
        assert((space + t).skip(1) =~= rest + t);
    }
}

proof fn lemma_trimmed_end_add(t: Seq<char>, space: Seq<char>)
    requires
        blank(space),
    ensures
        text::trimmed_end(t + space) == text::trimmed_end(t),
    decreases space.len(),
{
    if space.len() == 0 {
        assert(t + space =~= t);
    } else {
        let rest = space.drop_last();
        assert(blank(rest)) by {
            assert forall|i: int| 0 <= i < rest.len() implies text::white_space(
                #[trigger] rest[i],
            ) by {
                assert(rest[i] == space[i]);
            }
        }
        lemma_trimmed_end_add(t, rest);
        assert((t + space).last() == space[space.len() - 1]);
        assert((t + space).drop_last() =~= t + rest);
    }
}

/// White space around a text is taken off, and nothing else is.
pub proof fn law_trimming_takes_off_white_space(
    before: Seq<char>,
    core: Seq<char>,
    after: Seq<char>,
)
    requires
        blank(before),
        blank(after),
        core.len() > 0,
        !text::white_space(core[0]),
        !text::white_space(core.last()),
    ensures
        text::trimmed(before + (core + after)) == core,
{
    lemma_trimmed_start_add(before, core + after);
    assert((core + after)[0] == core[0]);
    lemma_trimmed_end_add(core, after);
}

/// Nothing is left of white space alone.
pub proof fn law_nothing_is_left_of_white_space(t: Seq<char>)
    requires
        blank(t),
    ensures
        text::trimmed(t).len() == 0,
{
    lemma_trimmed_start_add(t, Seq::empty());
    assert(t + Seq::empty() =~= t);
}

/// The end of the input is told by its line, and a blank line asks for
/// nothing, whatever white space there is.
pub proof fn law_blank_lines_and_end_of_input(before: Seq<char>, after: Seq<char>)
    requires
        blank(before),
        blank(after),
    ensures
        protocol::request_of(before) == RequestModel::Ignored,
        protocol::request_of(before + ("__STDIN_EOF__"@ + after)) == RequestModel::EndOfInput,
{
    reveal_strlit("__STDIN_EOF__");
    law_nothing_is_left_of_white_space(before);
    law_trimming_takes_off_white_space(before, "__STDIN_EOF__"@, after);
}

} // verus!
