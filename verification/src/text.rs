//! Text building blocks: every message of the library is assembled from these, so that
//! contracts can spell messages out character by character.

use vstd::prelude::*;
use vstd::string::*;

verus! {

/// What `{:?}` prints for a string: the text in double quotes, with its escapes.
pub uninterp spec fn quoted_text(text: Seq<char>) -> Seq<char>;

/// `String::push` of the standard library: appends one character.
pub assume_specification[ String::push ](text: &mut String, c: char)
    ensures
        final(text)@ == old(text)@.push(c),
;

/// Calls the standard library's `Debug` formatting of `str` (`format!("{:?}", ..)`).
/// The contract only gives the printed text a name, `quoted_text`: which characters are
/// escaped follows Unicode tables and is left unsaid.
#[verifier::external_body]
pub(crate) fn quoted(text: &str) -> (r: String)
    ensures
        r@ == quoted_text(text@),
{
    format!("{:?}", text)
}

/// What can stand where an option wants an owned string.
pub trait IntoText: Sized {
    /// The characters of the string.
    spec fn text(&self) -> Seq<char>;

    /// The string itself.
    fn into_text(self) -> (r: String)
        ensures
            r@ == self.text(),
    ;
}

impl IntoText for String {
    open spec fn text(&self) -> Seq<char> {
        self@
    }

    fn into_text(self) -> (r: String) {
        self
    }
}

impl<'a> IntoText for &'a str {
    open spec fn text(&self) -> Seq<char> {
        self@
    }

    fn into_text(self) -> (r: String) {
        self.to_owned()
    }
}

impl<'a> IntoText for &'a String {
    open spec fn text(&self) -> Seq<char> {
        self@
    }

    fn into_text(self) -> (r: String) {
        self.clone()
    }
}

/// The characters of a list of texts.
pub open spec fn text_views(texts: Seq<String>) -> Seq<Seq<char>> {
    texts.map_values(|text: String| text@)
}

/// The characters of an optional text.
pub open spec fn optional_text(text: Option<String>) -> Option<Seq<char>> {
    match text {
        Some(text) => Some(text@),
        None => None,
    }
}

/// The decimal digit `d` as a character.
pub open spec fn digit_char(d: nat) -> char {
    (48 + d) as char
}

/// `n` in decimal, without leading zeros.
pub open spec fn decimal_text(n: nat) -> Seq<char>
    decreases n,
{
    if n < 10 {
        seq![digit_char(n)]
    } else {
        decimal_text(n / 10).push(digit_char(n % 10))
    }
}

/// Prints `n` in decimal.
pub fn decimal(n: u64) -> (r: String)
    ensures
        r@ == decimal_text(n as nat),
    decreases n,
{
    let digit: u8 = 48 + (n % 10) as u8;
    let mut text = if n < 10 {
        String::new()
    } else {
        decimal(n / 10)
    };
    text.push(digit as char);
    text
}

/// The characters of `text`, one per element.
pub fn chars_of(text: &str) -> (r: Vec<char>)
    ensures
        r@ == text@,
{
    let mut out: Vec<char> = Vec::new();
    for c in iter: text.chars()
        invariant
            iter.seq() == text@,
            out@ == text@.take(iter.index()),
    {
        out.push(c);
    }
    out
}

/// The characters `chars[from..to]` as a string.
pub fn text_of(chars: &Vec<char>, from: usize, to: usize) -> (r: String)
    requires
        from <= to <= chars@.len(),
    ensures
        r@ == chars@.subrange(from as int, to as int),
{
    let mut out = String::new();
    let mut i: usize = from;
    while i < to
        invariant
            from <= i <= to <= chars@.len(),
            out@ == chars@.subrange(from as int, i as int),
        decreases to - i,
    {
        out.push(chars[i]);
        i += 1;
    }
    out
}

/// Whether two strings hold the same characters.
pub fn same_text(a: &str, b: &str) -> (r: bool)
    ensures
        r == (a@ == b@),
{
    let x = chars_of(a);
    let y = chars_of(b);
    if x.len() != y.len() {
        return false;
    }
    let mut i: usize = 0;
    while i < x.len()
        invariant
            i <= x@.len(),
            x@ == a@,
            y@ == b@,
            x@.len() == y@.len(),
            x@.take(i as int) == y@.take(i as int),
        decreases x@.len() - i,
    {
        if x[i] != y[i] {
            return false;
        }
        assert(x@.take(i + 1) == x@.take(i as int).push(x@[i as int]));
        assert(y@.take(i + 1) == y@.take(i as int).push(y@[i as int]));
        i += 1;
    }
    assert(x@.take(i as int) == x@);
    assert(y@.take(i as int) == y@);
    true
}

/// `needle` stands in `text` at position `at`.
pub open spec fn occurs_at(text: Seq<char>, needle: Seq<char>, at: int) -> bool {
    0 <= at && at + needle.len() <= text.len() && text.subrange(at, at + needle.len()) == needle
}

/// `needle` stands somewhere in `text`.
pub open spec fn occurs_in(text: Seq<char>, needle: Seq<char>) -> bool {
    exists|at: int| occurs_at(text, needle, at)
}

/// Whether `needle` stands somewhere in `text`; the empty needle always does.
pub fn contains_text(text: &str, needle: &str) -> (r: bool)
    ensures
        r == occurs_in(text@, needle@),
{
    let hay = chars_of(text);
    let pin = chars_of(needle);
    if pin.len() > hay.len() {
        return false;
    }
    let last: usize = hay.len() - pin.len();
    let mut at: usize = 0;
    loop
        invariant
            hay@ == text@,
            pin@ == needle@,
            at <= last,
            last == hay.len() - pin.len(),
            forall|k: int| 0 <= k < at ==> !occurs_at(text@, needle@, k),
        decreases last - at,
    {
        let mut n: usize = 0;
        while n < pin.len() && hay[at + n] == pin[n]
            invariant
                hay@ == text@,
                pin@ == needle@,
                at <= last,
                last == hay.len() - pin.len(),
                n <= pin@.len(),
                forall|k: int| 0 <= k < n ==> hay@[at + k] == pin@[k],
            decreases pin@.len() - n,
        {
            n += 1;
        }
        if n == pin.len() {
            assert(text@.subrange(at as int, at + needle@.len()) =~= needle@);
            assert(occurs_at(text@, needle@, at as int));
            return true;
        }
        assert(!occurs_at(text@, needle@, at as int)) by {
            if occurs_at(text@, needle@, at as int) {
                let stretch = text@.subrange(at as int, at + needle@.len());
                assert(stretch[n as int] == needle@[n as int]);
            }
        }
        if at == last {
            return false;
        }
        at += 1;
    }
}

/// The number that decimal digits stand for.
pub open spec fn number_of_digits(text: Seq<char>) -> nat
    decreases text.len(),
{
    if text.len() == 0 {
        0
    } else {
        number_of_digits(text.drop_last()) * 10 + (text.last() as nat - '0' as nat) as nat
    }
}

/// The decimal text of a number stands for that number.
proof fn decimals_stand_for_their_number(n: nat)
    ensures
        number_of_digits(decimal_text(n)) == n,
        decimal_text(n).len() > 0,
        n > 0 ==> decimal_text(n)[0] != '0',
        n == 0 ==> decimal_text(n) == seq!['0'],
        forall|i: int|
            0 <= i < decimal_text(n).len() ==> '0' <= #[trigger] decimal_text(n)[i] <= '9',
    decreases n,
{
    let text = decimal_text(n);
    if n < 10 {
        assert(text.drop_last() =~= Seq::empty());
        assert(number_of_digits(Seq::empty()) == 0);
        assert(text.last() == digit_char(n));
    } else {
        decimals_stand_for_their_number(n / 10);
        assert(text.drop_last() =~= decimal_text(n / 10));
        assert(text.last() == digit_char(n % 10));
        assert(text[0] == decimal_text(n / 10)[0]);
    }
}

/// A printed number is its decimal digits, without a leading zero.
pub proof fn numbers_are_printed_in_digits(n: u64, text: String)
    requires
        call_ensures(decimal, (n,), text),
    ensures
        text@ == decimal_text(n as nat),
        number_of_digits(text@) == n,
        text@.len() > 0,
        n > 0 ==> text@[0] != '0',
        n == 0 ==> text@ == seq!['0'],
        forall|i: int| 0 <= i < text@.len() ==> '0' <= #[trigger] text@[i] <= '9',
{
    decimals_stand_for_their_number(n as nat);
}

/// A text occurs in another exactly where it has something, perhaps nothing, around it.
pub proof fn occurring_is_having_around(text: Seq<char>, needle: Seq<char>)
    ensures
        occurs_in(text, needle) == exists|before: Seq<char>, after: Seq<char>|
            text == #[trigger] (before + needle + after),
{
    if occurs_in(text, needle) {
        let at = choose|at: int| occurs_at(text, needle, at);
        assert(occurs_at(text, needle, at));
        let before = text.take(at);
        let after = text.skip(at + needle.len());
        assert(text =~= before + text.subrange(at, at + needle.len()) + after);
        assert(text == before + needle + after);
    }
    if exists|before: Seq<char>, after: Seq<char>| text == #[trigger] (before + needle + after) {
        let (before, after) = choose|before: Seq<char>, after: Seq<char>|
            text == #[trigger] (before + needle + after);
        let at = before.len() as int;
        assert(text.subrange(at, at + needle.len()) =~= needle);
        assert(occurs_at(text, needle, at));
    }
}

/// A text contains another exactly where it is that other with something, perhaps nothing,
/// before and after it.
pub proof fn containing_is_having_around(text: &str, needle: &str, r: bool)
    requires
        call_ensures(contains_text, (text, needle), r),
    ensures
        r == exists|before: Seq<char>, after: Seq<char>|
            text@ == #[trigger] (before + needle@ + after),
{
    occurring_is_having_around(text@, needle@);
}

/// Texts are compared, taken apart and cut character by character.
pub proof fn characters_are_kept(
    a: &str,
    b: &str,
    same: bool,
    chars: Vec<char>,
    from: usize,
    to: usize,
    part: String,
)
    requires
        call_ensures(same_text, (a, b), same),
        call_ensures(chars_of, (a,), chars),
        from <= to <= a@.len(),
        call_ensures(text_of, (&chars, from, to), part),
    ensures
        same == (a@.len() == b@.len() && forall|i: int|
            0 <= i < a@.len() ==> #[trigger] a@[i] == b@[i]),
        chars@.len() == a@.len(),
        forall|i: int| 0 <= i < a@.len() ==> #[trigger] chars@[i] == a@[i],
        part@.len() == to - from,
        forall|i: int| 0 <= i < part@.len() ==> #[trigger] part@[i] == a@[from + i],
{
    if a@.len() == b@.len() && forall|i: int| 0 <= i < a@.len() ==> #[trigger] a@[i] == b@[i] {
        assert(a@ =~= b@);
    }
}

/// Where an option wants an owned string, every kind of text is taken whole.
pub proof fn texts_are_taken_whole(owned: String, borrowed: &str)
    ensures
        owned.text() == owned@,
        <&String as IntoText>::text(&&owned) == owned@,
        <&str as IntoText>::text(&borrowed) == borrowed@,
{
}

/// The model of a list of texts is the list of their models, and that of an optional text is
/// there where the text is.
pub proof fn text_models_are_faithful(texts: Seq<String>, text: Option<String>)
    ensures
        text_views(texts).len() == texts.len(),
        forall|i: int| 0 <= i < texts.len() ==> #[trigger] text_views(texts)[i] == texts[i]@,
        optional_text(text) is Some == text is Some,
        text is Some ==> optional_text(text)->0 == text->0@,
{
}

} // verus!
