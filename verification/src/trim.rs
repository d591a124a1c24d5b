//! White space at the ends of texts.

use crate::text::{chars_of, text_of};
use vstd::prelude::*;

verus! {

/// A character with the Unicode property `White_Space`.
pub open spec fn is_white_space(c: char) -> bool {
    let code = c as u32;
    ||| 0x9 <= code <= 0xd
    ||| code == 0x20
    ||| code == 0x85
    ||| code == 0xa0
    ||| code == 0x1680
    ||| 0x2000 <= code <= 0x200a
    ||| code == 0x2028
    ||| code == 0x2029
    ||| code == 0x202f
    ||| code == 0x205f
    ||| code == 0x3000
}

/// The text without the white space before it.
pub open spec fn trimmed_start(text: Seq<char>) -> Seq<char>
    decreases text.len(),
{
    if text.len() > 0 && is_white_space(text[0]) {
        trimmed_start(text.drop_first())
    } else {
        text
    }
}

/// The text without the white space after it.
pub open spec fn trimmed_end(text: Seq<char>) -> Seq<char>
    decreases text.len(),
{
    if text.len() > 0 && is_white_space(text.last()) {
        trimmed_end(text.drop_last())
    } else {
        text
    }
}

/// The text without the white space around it.
pub open spec fn trimmed(text: Seq<char>) -> Seq<char> {
    trimmed_end(trimmed_start(text))
}

/// The text holds white space only, if anything.
pub open spec fn is_blank_text(text: Seq<char>) -> bool {
    forall|i: int| 0 <= i < text.len() ==> is_white_space(#[trigger] text[i])
}

/// Whether `c` is white space.
pub fn white_space(c: char) -> (r: bool)
    ensures
        r == is_white_space(c),
{
    let code = c as u32;
    (0x9 <= code && code <= 0xd) || code == 0x20 || code == 0x85 || code == 0xa0 || code == 0x1680
        || (0x2000 <= code && code <= 0x200a) || code == 0x2028 || code == 0x2029 || code == 0x202f
        || code == 0x205f || code == 0x3000
}

/// Cuts the white space off both ends.
pub fn trim(text: &str) -> (r: String)
    ensures
        r@ == trimmed(text@),
{
    let chars = chars_of(text);
    let mut from: usize = 0;
    assert(chars@.skip(0) =~= chars@);
    while from < chars.len() && white_space(chars[from])
        invariant
            from <= chars@.len(),
            trimmed_start(chars@) == trimmed_start(chars@.skip(from as int)),
        decreases chars@.len() - from,
    {
        assert(chars@.skip(from as int).drop_first() =~= chars@.skip(from + 1));
        from += 1;
    }
    assert(trimmed_start(chars@) == chars@.skip(from as int));
    let mut to: usize = chars.len();
    assert(chars@.subrange(from as int, to as int) =~= chars@.skip(from as int));
    while from < to && white_space(chars[to - 1])
        invariant
            from <= to <= chars@.len(),
            trimmed_end(chars@.skip(from as int)) == trimmed_end(
                chars@.subrange(from as int, to as int),
            ),
        decreases to - from,
    {
        assert(chars@.subrange(from as int, to as int).drop_last() =~= chars@.subrange(
            from as int,
            to - 1,
        ));
        to -= 1;
    }
    text_of(&chars, from, to)
}

/// Whether a text holds white space only, if anything.
pub fn is_blank(text: &str) -> (r: bool)
    ensures
        r == is_blank_text(text@),
{
    let chars = chars_of(text);
    let mut i: usize = 0;
    while i < chars.len()
        invariant
            chars@ == text@,
            i <= chars@.len(),
            forall|k: int| 0 <= k < i ==> is_white_space(#[trigger] chars@[k]),
        decreases chars@.len() - i,
    {
        if !white_space(chars[i]) {
            return false;
        }
        i += 1;
    }
    true
}

/// Nothing is left of a text exactly where it holds white space only.
pub proof fn blank_texts_trim_to_nothing(text: Seq<char>)
    ensures
        is_blank_text(text) == (trimmed(text).len() == 0),
    decreases text.len(),
{
    if text.len() > 0 {
        if is_white_space(text[0]) {
            let rest = text.drop_first();
            blank_texts_trim_to_nothing(rest);
            assert(is_blank_text(text) == is_blank_text(rest)) by {
                if is_blank_text(rest) {
                    assert forall|i: int| 0 <= i < text.len() implies is_white_space(
                        #[trigger] text[i],
                    ) by {
                        if i > 0 {
                            assert(rest[i - 1] == text[i]);
                        }
                    }
                }
                if is_blank_text(text) {
                    assert forall|i: int| 0 <= i < rest.len() implies is_white_space(
                        #[trigger] rest[i],
                    ) by {
                        assert(rest[i] == text[i + 1]);
                    }
                }
            }
        } else {
            trimming_the_end_keeps_the_start(text);
        }
    }
}

/// Trimming the end never eats a text that does not start with white space.
proof fn trimming_the_end_keeps_the_start(text: Seq<char>)
    requires
        text.len() > 0,
        !is_white_space(text[0]),
    ensures
        trimmed_end(text).len() > 0,
    decreases text.len(),
{
    if is_white_space(text.last()) {
        assert(text.len() > 1);
        trimming_the_end_keeps_the_start(text.drop_last());
    }
}

/// Trimming the start takes nothing from the middle and leaves no white space in front.
proof fn trimmed_starts_are_tight(text: Seq<char>)
    ensures
        trimmed_start(text).len() > 0 ==> !is_white_space(trimmed_start(text)[0]),
        forall|i: int|
            0 <= i < trimmed_start(text).len() ==> text.contains(#[trigger] trimmed_start(text)[i]),
    decreases text.len(),
{
    if text.len() > 0 && is_white_space(text[0]) {
        let rest = text.drop_first();
        trimmed_starts_are_tight(rest);
        assert forall|i: int| 0 <= i < trimmed_start(text).len() implies text.contains(
            #[trigger] trimmed_start(text)[i],
        ) by {
            let k = rest.index_of(trimmed_start(rest)[i]);
            assert(rest[k] == text[k + 1]);
        }
    }
}

/// Trimming the end keeps the start and leaves no white space behind.
proof fn trimmed_ends_are_tight(text: Seq<char>)
    ensures
        trimmed_end(text).len() > 0 ==> !is_white_space(trimmed_end(text).last()),
        trimmed_end(text).is_prefix_of(text),
    decreases text.len(),
{
    if text.len() > 0 && is_white_space(text.last()) {
        trimmed_ends_are_tight(text.drop_last());
    }
}

/// A trimmed text has no white space at its ends, and holds nothing that the text did not.
pub proof fn trimmed_texts_are_tight(text: Seq<char>)
    ensures
        trimmed(text).len() > 0 ==> !is_white_space(trimmed(text)[0]) && !is_white_space(
            trimmed(text).last(),
        ),
        forall|i: int| 0 <= i < trimmed(text).len() ==> text.contains(#[trigger] trimmed(text)[i]),
{
    let start = trimmed_start(text);
    trimmed_starts_are_tight(text);
    trimmed_ends_are_tight(start);
    assert forall|i: int| 0 <= i < trimmed(text).len() implies text.contains(
        #[trigger] trimmed(text)[i],
    ) by {
        assert(trimmed(text)[i] == start[i]);
    }
}

/// Trimming the start cuts off white space and nothing else.
proof fn trimmed_start_cuts_white_space(text: Seq<char>) -> (cut: int)
    ensures
        0 <= cut <= text.len(),
        trimmed_start(text) == text.skip(cut),
        forall|i: int| 0 <= i < cut ==> is_white_space(#[trigger] text[i]),
    decreases text.len(),
{
    if text.len() > 0 && is_white_space(text[0]) {
        let rest = text.drop_first();
        let cut = trimmed_start_cuts_white_space(rest);
        assert(rest.skip(cut) =~= text.skip(cut + 1));
        assert forall|i: int| 0 <= i < cut + 1 implies is_white_space(#[trigger] text[i]) by {
            if i > 0 {
                assert(rest[i - 1] == text[i]);
            }
        }
        cut + 1
    } else {
        assert(text.skip(0) =~= text);
        0
    }
}

/// Trimming the end cuts off white space and nothing else.
proof fn trimmed_end_cuts_white_space(text: Seq<char>) -> (kept: int)
    ensures
        0 <= kept <= text.len(),
        trimmed_end(text) == text.take(kept),
        forall|i: int| kept <= i < text.len() ==> is_white_space(#[trigger] text[i]),
    decreases text.len(),
{
    if text.len() > 0 && is_white_space(text.last()) {
        let rest = text.drop_last();
        let kept = trimmed_end_cuts_white_space(rest);
        assert(rest.take(kept) =~= text.take(kept));
        assert forall|i: int| kept <= i < text.len() implies is_white_space(#[trigger] text[i]) by {
            if i < text.len() - 1 {
                assert(rest[i] == text[i]);
            }
        }
        kept
    } else {
        assert(text.take(text.len() as int) =~= text);
        text.len() as int
    }
}

/// A trimmed text is the text without the white space at its ends: what was cut off is white
/// space, what is left has none at its ends, and nothing in between is lost.
pub proof fn trimming_cuts_white_space_at_the_ends(text: &str, cut: String)
    requires
        call_ensures(trim, (text,), cut),
    ensures
        exists|from: int, to: int|
            0 <= from <= to <= text@.len() && cut@ == #[trigger] text@.subrange(from, to) && (
            forall|i: int|
                (0 <= i < from || to <= i < text@.len()) ==> is_white_space(#[trigger] text@[i])),
        cut@.len() > 0 ==> !is_white_space(cut@[0]) && !is_white_space(cut@[cut@.len() - 1]),
{
    trimmed_texts_are_tight(text@);
    let from = trimmed_start_cuts_white_space(text@);
    let rest = text@.skip(from);
    let kept = trimmed_end_cuts_white_space(rest);
    assert(rest.take(kept) =~= text@.subrange(from, from + kept));
    assert forall|i: int| (0 <= i < from || from + kept <= i < text@.len()) implies is_white_space(
        #[trigger] text@[i],
    ) by {
        if i >= from {
            assert(rest[i - from] == text@[i]);
        }
    }
}

/// A text is blank exactly where each of its characters is white space.
pub proof fn blank_texts_hold_white_space_only(text: &str, blank: bool, cut: String)
    requires
        call_ensures(is_blank, (text,), blank),
        call_ensures(trim, (text,), cut),
    ensures
        blank == forall|i: int| 0 <= i < text@.len() ==> is_white_space(#[trigger] text@[i]),
        blank == (cut@.len() == 0),
{
    blank_texts_trim_to_nothing(text@);
}

/// White space is the 25 characters that Unicode gives the property `White_Space`.
pub proof fn white_space_is_that_of_unicode(c: char, r: bool)
    requires
        call_ensures(white_space, (c,), r),
    ensures
        r == (c == '\t' || c == '\n' || c == '\u{b}' || c == '\u{c}' || c == '\r' || c == ' ' || c
            == '\u{85}' || c == '\u{a0}' || c == '\u{1680}' || '\u{2000}' <= c <= '\u{200a}' || c
            == '\u{2028}' || c == '\u{2029}' || c == '\u{202f}' || c == '\u{205f}' || c
            == '\u{3000}'),
        r == is_white_space(c),
{
}

} // verus!
