//! The rules of the C interface: how arguments are checked, how results are handed over and
//! how failures are told.
//!
//! Pointers stay with the callers. They come here as options: a string is its bytes up to
//! the terminating NUL, a handle is a reference, and an output is whether there is a place
//! to write to. A null pointer is `None`, or `false` for an output.

use vstd::prelude::*;
use vstd::string::*;
use vstd::utf8::{decode_utf8, encode_utf8, valid_utf8};

verus! {

/// `core::str::from_utf8`: the text that the bytes encode, none where they are not UTF-8.
#[verifier::external_body]
fn utf8_text<'a>(bytes: &'a [u8]) -> (r: Option<&'a str>)
    ensures
        match r {
            Some(text) => valid_utf8(bytes@) && text@ == decode_utf8(bytes@),
            None => !valid_utf8(bytes@),
        },
{
    core::str::from_utf8(bytes).ok()
}

/// The text with each NUL written as a backslash and a zero.
pub open spec fn nul_escaped(text: Seq<char>) -> Seq<char>
    decreases text.len(),
{
    if text.len() == 0 {
        Seq::empty()
    } else if text.last() == '\0' {
        nul_escaped(text.drop_last()) + "\\0"@
    } else {
        nul_escaped(text.drop_last()).push(text.last())
    }
}

/// Writes each NUL as a backslash and a zero.
pub fn escape_nuls(text: &str) -> (r: String)
    ensures
        r@ == nul_escaped(text@),
{
    let mut out = String::new();
    assert(text@.take(0) =~= Seq::empty());
    for c in iter: text.chars()
        invariant
            iter.seq() == text@,
            out@ == nul_escaped(text@.take(iter.index())),
    {
        assert(text@.take(iter.index() + 1).drop_last() =~= text@.take(iter.index()));
        assert(text@.take(iter.index() + 1).last() == c);
        if c == '\0' {
            out.append("\\0");
        } else {
            out.push(c);
        }
    }
    assert(text@.take(text@.len() as int) =~= text@);
    out
}

/// An escaped text holds no NUL, so that it can be handed out as a C string; a text that
/// held none is unchanged.
pub proof fn escaped_texts_hold_no_nul(text: Seq<char>)
    ensures
        !nul_escaped(text).contains('\0'),
        !text.contains('\0') ==> nul_escaped(text) == text,
    decreases text.len(),
{
    if text.len() > 0 {
        let rest = text.drop_last();
        escaped_texts_hold_no_nul(rest);
        let before = nul_escaped(rest);
        let after = nul_escaped(text);
        reveal_strlit("\\0");
        assert forall|i: int| 0 <= i < after.len() implies after[i] != '\0' by {
            if i < before.len() {
                assert(before.contains(before[i]));
            }
        }
        if !text.contains('\0') {
            assert(text[text.len() - 1] != '\0');
            assert forall|i: int| 0 <= i < rest.len() implies rest[i] != '\0' by {
                assert(text.contains(text[i]));
            }
            assert(after =~= text);
        }
    }
}

/// Where a thread keeps the message of its last failed call.
#[derive(Debug)]
pub struct ErrorSlot {
    message: Option<String>,
}

impl View for ErrorSlot {
    type V = Option<Seq<char>>;

    closed spec fn view(&self) -> Option<Seq<char>> {
        match self.message {
            Some(message) => Some(message@),
            None => None,
        }
    }
}

impl ErrorSlot {
    /// A message that is kept holds no NUL.
    #[verifier::type_invariant]
    spec fn holds_no_nul(self) -> bool {
        self.message matches Some(message) ==> !message@.contains('\0')
    }

    /// A slot without a message.
    pub fn new() -> (r: Self)
        ensures
            r@ is None,
    {
        ErrorSlot { message: None }
    }

    /// Forgets the message.
    pub fn clear_error(&mut self)
        ensures
            final(self)@ is None,
    {
        *self = ErrorSlot { message: None };
    }

    /// Keeps a message, with its NULs escaped.
    pub fn set_error(&mut self, message: &str)
        ensures
            final(self)@ == Some(nul_escaped(message@)),
    {
        proof {
            escaped_texts_hold_no_nul(message@);
        }
        *self = ErrorSlot { message: Some(escape_nuls(message)) };
    }

    /// The message of the last failed call; it holds no NUL.
    pub fn last_error(&self) -> (r: Option<&str>)
        ensures
            match r {
                Some(message) => self@ == Some(message@) && !message@.contains('\0'),
                None => self@ is None,
            },
    {
        proof {
            use_type_invariant(self);
        }
        match &self.message {
            Some(message) => Some(message.as_str()),
            None => None,
        }
    }
}

/// How a call through the interface ended.
#[derive(Debug)]
pub enum CallOutcome<T> {
    /// With a value.
    Done(T),
    /// With an error.
    Failed(String),
    /// With a panic; the text is its payload, where that is one.
    Panicked(Option<String>),
}

/// What is told of a panic.
pub open spec fn panic_text(payload: Option<String>) -> Seq<char> {
    match payload {
        Some(text) => text@,
        None => "unknown panic payload"@,
    }
}

/// Finds what is told of a panic.
pub fn panic_message(payload: Option<String>) -> (r: String)
    ensures
        r@ == panic_text(payload),
{
    match payload {
        Some(text) => text,
        None => String::from_str("unknown panic payload"),
    }
}

/// The error that a call leaves behind, if any.
pub open spec fn error_left<T>(outcome: CallOutcome<T>) -> Option<Seq<char>> {
    match outcome {
        CallOutcome::Done(_) => None,
        CallOutcome::Failed(error) => Some(nul_escaped(error@)),
        CallOutcome::Panicked(payload) => Some(
            nul_escaped("panic at Rustwright C ABI boundary: "@ + panic_text(payload)),
        ),
    }
}

/// Ends a call that hands back a pointer: the value, or none where the call failed. The slot
/// then holds the error of this call, and of no earlier one.
pub fn ffi_pointer<T>(slot: &mut ErrorSlot, outcome: CallOutcome<T>) -> (r: Option<T>)
    ensures
        final(slot)@ == error_left(outcome),
        r == match outcome {
            CallOutcome::Done(value) => Some(value),
            _ => None,
        },
{
    match outcome {
        CallOutcome::Done(value) => {
            slot.clear_error();
            Some(value)
        },
        CallOutcome::Failed(error) => {
            slot.set_error(error.as_str());
            None
        },
        CallOutcome::Panicked(payload) => {
            let mut message = String::from_str("panic at Rustwright C ABI boundary: ");
            message.append(panic_message(payload).as_str());
            slot.set_error(message.as_str());
            None
        },
    }
}

/// Ends a call that hands back a status: 0 where it went well, 1 where it failed, 2 where it
/// panicked. The slot then holds the error of this call, and of no earlier one.
pub fn ffi_status(slot: &mut ErrorSlot, outcome: CallOutcome<()>) -> (r: i32)
    ensures
        final(slot)@ == error_left(outcome),
        r == match outcome {
            CallOutcome::Done(_) => 0i32,
            CallOutcome::Failed(_) => 1i32,
            CallOutcome::Panicked(_) => 2i32,
        },
{
    let status: i32 = match &outcome {
        CallOutcome::Done(_) => 0,
        CallOutcome::Failed(_) => 1,
        CallOutcome::Panicked(_) => 2,
    };
    let _ = ffi_pointer(slot, outcome);
    status
}

/// A call leaves an error behind exactly where its status is not zero, whatever was left
/// before.
pub proof fn errors_tell_failures(outcome: CallOutcome<()>)
    ensures
        error_left(outcome) is None == (outcome is Done),
        error_left(outcome) matches Some(message) ==> !message.contains('\0'),
{
    match outcome {
        CallOutcome::Done(_) => {},
        CallOutcome::Failed(error) => escaped_texts_hold_no_nul(error@),
        CallOutcome::Panicked(payload) => escaped_texts_hold_no_nul(
            "panic at Rustwright C ABI boundary: "@ + panic_text(payload),
        ),
    }
}

/// The first of two faults.
pub open spec fn earlier(first: Option<Seq<char>>, second: Option<Seq<char>>) -> Option<Seq<char>> {
    if first is Some {
        first
    } else {
        second
    }
}

/// A check that passes exactly where there is no fault, and tells the fault otherwise.
pub open spec fn refuses<T>(r: Result<T, String>, fault: Option<Seq<char>>) -> bool {
    match r {
        Ok(_) => fault is None,
        Err(message) => fault == Some(message@),
    }
}

/// What is wrong with a string that must be given, if anything.
pub open spec fn required_fault(value: Option<&[u8]>, name: Seq<char>) -> Option<Seq<char>> {
    match value {
        None => Some(name + " must not be NULL"@),
        Some(bytes) => if valid_utf8(bytes@) {
            None
        } else {
            Some(name + " must be valid UTF-8"@)
        },
    }
}

/// What is wrong with a string that may be left out, if anything.
pub open spec fn optional_fault(value: Option<&[u8]>, name: Seq<char>) -> Option<Seq<char>> {
    match value {
        None => None,
        Some(_) => required_fault(value, name),
    }
}

/// What is wrong with an output, if anything: there must be a place to write to.
pub open spec fn output_fault(given: bool, name: Seq<char>) -> Option<Seq<char>> {
    if given {
        None
    } else {
        Some(name + " must not be NULL"@)
    }
}

/// What is wrong with the handle of a browser, if anything.
pub open spec fn browser_fault<B>(browser: Option<&B>) -> Option<Seq<char>> {
    match browser {
        Some(_) => None,
        None => Some("browser handle must not be NULL"@),
    }
}

/// What is wrong with the handle of a page, if anything.
pub open spec fn page_fault<P>(page: Option<&P>) -> Option<Seq<char>> {
    match page {
        Some(_) => None,
        None => Some("page handle must not be NULL"@),
    }
}

/// The text that the bytes of a given string encode.
pub open spec fn required_text(value: Option<&[u8]>) -> Seq<char> {
    decode_utf8(value->0@)
}

/// `text` is what a string holds that may be left out.
pub open spec fn is_optional_text(text: Option<&str>, value: Option<&[u8]>) -> bool {
    match (text, value) {
        (Some(text), Some(bytes)) => text@ == decode_utf8(bytes@),
        (None, None) => true,
        _ => false,
    }
}

/// Reads a string that must be given.
pub fn required_str<'a>(value: Option<&'a [u8]>, name: &str) -> (r: Result<&'a str, String>)
    ensures
        refuses(r, required_fault(value, name@)),
        r matches Ok(text) ==> text@ == required_text(value),
{
    match value {
        None => {
            let mut message = name.to_owned();
            message.append(" must not be NULL");
            Err(message)
        },
        Some(bytes) => match utf8_text(bytes) {
            Some(text) => Ok(text),
            None => {
                let mut message = name.to_owned();
                message.append(" must be valid UTF-8");
                Err(message)
            },
        },
    }
}

/// Reads a string that may be left out.
pub fn optional_str<'a>(value: Option<&'a [u8]>, name: &str) -> (r: Result<
    Option<&'a str>,
    String,
>)
    ensures
        refuses(r, optional_fault(value, name@)),
        r matches Ok(text) ==> is_optional_text(text, value),
{
    match value {
        None => Ok(None),
        Some(_) => match required_str(value, name) {
            Ok(text) => Ok(Some(text)),
            Err(message) => Err(message),
        },
    }
}

/// Checks that there is a place to write an output to.
pub fn require_output(given: bool, name: &str) -> (r: Result<(), String>)
    ensures
        refuses(r, output_fault(given, name@)),
{
    if given {
        Ok(())
    } else {
        let mut message = name.to_owned();
        message.append(" must not be NULL");
        Err(message)
    }
}

/// The browser behind a handle.
pub fn browser_ref<'a, B>(browser: Option<&'a B>) -> (r: Result<&'a B, String>)
    ensures
        refuses(r, browser_fault(browser)),
        r matches Ok(found) ==> browser == Some(found),
{
    match browser {
        Some(found) => Ok(found),
        None => Err(String::from_str("browser handle must not be NULL")),
    }
}

/// The page behind a handle.
pub fn page_ref<'a, P>(page: Option<&'a P>) -> (r: Result<&'a P, String>)
    ensures
        refuses(r, page_fault(page)),
        r matches Ok(found) ==> page == Some(found),
{
    match page {
        Some(found) => Ok(found),
        None => Err(String::from_str("page handle must not be NULL")),
    }
}

/// Checks that a string can be handed out: a C string ends at its first NUL.
pub fn owned_string(value: String) -> (r: Result<String, String>)
    ensures
        refuses(
            r,
            if value@.contains('\0') {
                Some("Rustwright produced a string containing an interior NUL"@)
            } else {
                None
            },
        ),
        r matches Ok(text) ==> text == value,
{
    let ghost chars = value@;
    let mut clean = true;
    for c in iter: value.as_str().chars()
        invariant
            iter.seq() == chars,
            clean == !chars.take(iter.index()).contains('\0'),
    {
        let ghost before = chars.take(iter.index());
        let ghost after = chars.take(iter.index() + 1);
        proof {
            assert(after =~= before.push(c));
            assert(after[before.len() as int] == c);
            if before.contains('\0') {
                let k = before.index_of('\0');
                assert(after[k] == '\0');
            }
            if after.contains('\0') && c != '\0' {
                let k = after.index_of('\0');
                assert(before[k] == '\0');
            }
        }
        if c == '\0' {
            clean = false;
        }
    }
    assert(chars.take(chars.len() as int) =~= chars);
    if clean {
        Ok(value)
    } else {
        Err(String::from_str("Rustwright produced a string containing an interior NUL"))
    }
}

/// Escaping goes character by character.
proof fn escaping_distributes(first: Seq<char>, second: Seq<char>)
    ensures
        nul_escaped(first + second) == nul_escaped(first) + nul_escaped(second),
    decreases second.len(),
{
    let whole = first + second;
    if second.len() == 0 {
        assert(whole =~= first);
        assert(nul_escaped(first) + nul_escaped(second) =~= nul_escaped(first));
    } else {
        escaping_distributes(first, second.drop_last());
        assert(whole.drop_last() =~= first + second.drop_last());
        assert(whole.last() == second.last());
        assert(nul_escaped(whole) =~= nul_escaped(first) + nul_escaped(second));
    }
}

/// Escaping goes from left to right and changes NULs only: each becomes a backslash and a
/// zero.
pub proof fn only_nuls_are_escaped(
    before: &str,
    after: &str,
    whole: &str,
    escaped_before: String,
    escaped_after: String,
    escaped: String,
)
    requires
        whole@ == before@ + seq!['\0'] + after@,
        call_ensures(escape_nuls, (before,), escaped_before),
        call_ensures(escape_nuls, (after,), escaped_after),
        call_ensures(escape_nuls, (whole,), escaped),
    ensures
        escaped@ == escaped_before@ + seq!['\\', '0'] + escaped_after@,
        !before@.contains('\0') ==> escaped_before@ == before@,
        !escaped@.contains('\0'),
{
    let nul = seq!['\0'];
    reveal_strlit("\\0");
    assert(nul.drop_last() =~= Seq::empty());
    assert(nul_escaped(nul.drop_last()) =~= Seq::empty());
    assert(nul_escaped(nul) =~= seq!['\\', '0']);
    escaping_distributes(before@, nul);
    escaping_distributes(before@ + nul, after@);
    escaped_texts_hold_no_nul(before@);
    escaped_texts_hold_no_nul(whole@);
}

/// A call that went well leaves no error; one that failed leaves its own message, escaped;
/// and one that panicked leaves the words of the panic, or says that it had none.
pub proof fn errors_left_are_those_of_the_call<T>(
    outcome: CallOutcome<T>,
    told: &str,
    escaped: String,
)
    requires
        call_ensures(escape_nuls, (told,), escaped),
    ensures
        outcome is Done ==> error_left(outcome) is None,
        outcome matches CallOutcome::Failed(error) ==> error_left(outcome) is Some && (error@
            == told@ ==> error_left(outcome) == Some(escaped@)),
        outcome matches CallOutcome::Panicked(Some(payload)) ==> error_left(outcome) is Some && (
        told@ == "panic at Rustwright C ABI boundary: "@ + payload@ ==> error_left(outcome)
            == Some(escaped@)),
        outcome matches CallOutcome::Panicked(None) ==> error_left(outcome) is Some && (told@
            == "panic at Rustwright C ABI boundary: "@ + "unknown panic payload"@ ==> error_left(
            outcome,
        ) == Some(escaped@)),
{
}

/// What is told of a panic is its payload, or that it is unknown.
pub proof fn panics_are_told_by_their_payload(payload: Option<String>, told: String)
    requires
        call_ensures(panic_message, (payload,), told),
    ensures
        payload is Some ==> told@ == (payload->0)@,
        payload is None ==> told@ == "unknown panic payload"@,
{
}

/// A new slot is empty, and what is read from a slot is what it holds.
pub proof fn slots_are_read_as_they_are(slot: ErrorSlot, fresh: ErrorSlot, read: Option<&str>)
    requires
        call_ensures(ErrorSlot::new, (), fresh),
        call_ensures(ErrorSlot::last_error, (&slot,), read),
    ensures
        fresh@ is None,
        read is Some == slot@ is Some,
        read is Some ==> slot@ == Some(read->0@) && !read->0@.contains('\0'),
{
}

/// A required string is read exactly where it is given and is UTF-8, and what is read encodes
/// to the bytes that were given.
pub proof fn required_strings_are_read_whole(
    value: Option<&[u8]>,
    name: &str,
    r: Result<&str, String>,
)
    requires
        call_ensures(required_str, (value, name), r),
    ensures
        r is Ok == (value is Some && valid_utf8(value->0@)),
        r matches Ok(text) ==> encode_utf8(text@) == value->0@,
        value is None ==> r->Err_0@ == name@ + " must not be NULL"@,
        value is Some && !valid_utf8(value->0@) ==> r->Err_0@ == name@ + " must be valid UTF-8"@,
{
    if r is Ok {
        vstd::utf8::decode_utf8_encode_utf8(value->0@);
    }
}

/// An optional string is read where it is left out or is UTF-8, and what is read encodes to
/// the bytes that were given.
pub proof fn optional_strings_are_read_whole(
    value: Option<&[u8]>,
    name: &str,
    r: Result<Option<&str>, String>,
)
    requires
        call_ensures(optional_str, (value, name), r),
    ensures
        r is Ok == (value is None || valid_utf8(value->0@)),
        r matches Ok(text) ==> text is Some == value is Some,
        r is Ok && value is Some ==> encode_utf8(r->Ok_0->0@) == value->0@,
        r matches Err(message) ==> message@ == name@ + " must be valid UTF-8"@,
{
    if r is Ok && value is Some {
        vstd::utf8::decode_utf8_encode_utf8(value->0@);
    }
}

/// Outputs and handles must be given, and a handle that is given is the one that is used.
pub proof fn outputs_and_handles_must_be_given<B, P>(
    given: bool,
    name: &str,
    browser: Option<&B>,
    page: Option<&P>,
    output: Result<(), String>,
    found_browser: Result<&B, String>,
    found_page: Result<&P, String>,
)
    requires
        call_ensures(require_output, (given, name), output),
        call_ensures(browser_ref::<B>, (browser,), found_browser),
        call_ensures(page_ref::<P>, (page,), found_page),
    ensures
        output is Ok == given,
        !given ==> output->Err_0@ == name@ + " must not be NULL"@,
        found_browser is Ok == browser is Some,
        browser is Some ==> found_browser->Ok_0 == browser->0,
        browser is None ==> found_browser->Err_0@ == "browser handle must not be NULL"@,
        found_page is Ok == page is Some,
        page is Some ==> found_page->Ok_0 == page->0,
        page is None ==> found_page->Err_0@ == "page handle must not be NULL"@,
{
}

/// A string is handed out as it is, unless it holds a NUL.
pub proof fn strings_are_handed_out_whole(value: String, r: Result<String, String>)
    requires
        call_ensures(owned_string, (value,), r),
    ensures
        r is Ok == !(exists|i: int| 0 <= i < value@.len() && #[trigger] value@[i] == '\0'),
        r matches Ok(text) ==> text@ == value@,
        r matches Err(message) ==> message@
            == "Rustwright produced a string containing an interior NUL"@,
{
    if value@.contains('\0') {
        let k = value@.index_of('\0');
        assert(value@[k] == '\0');
    }
    if exists|i: int| 0 <= i < value@.len() && #[trigger] value@[i] == '\0' {
        let k = choose|i: int| 0 <= i < value@.len() && #[trigger] value@[i] == '\0';
        assert(value@.contains(value@[k]));
    }
}

/// A slot that is set holds the message, escaped, and no earlier one; a slot that is cleared
/// holds none.
pub proof fn slots_hold_the_last_message(
    slot: &mut ErrorSlot,
    cleared: &mut ErrorSlot,
    message: &str,
    escaped: String,
)
    requires
        call_ensures(ErrorSlot::set_error, (slot, message), ()),
        call_ensures(ErrorSlot::clear_error, (cleared,), ()),
        call_ensures(escape_nuls, (message,), escaped),
    ensures
        final(slot)@ == Some(escaped@),
        final(cleared)@ is None,
{
}

/// A call ends with status 0 and an empty slot where it went well, with status 1 where it
/// failed and with status 2 where it panicked; the slot then holds what is told of that.
pub proof fn statuses_and_slots_tell_the_same(
    slot: &mut ErrorSlot,
    outcome: CallOutcome<()>,
    told: &str,
    escaped: String,
    status: i32,
)
    requires
        call_ensures(ffi_status, (slot, outcome), status),
        call_ensures(escape_nuls, (told,), escaped),
    ensures
        outcome is Done == (status == 0),
        outcome is Failed == (status == 1),
        outcome is Panicked == (status == 2),
        final(slot)@ is None == (status == 0),
        outcome matches CallOutcome::Failed(error) ==> error@ == told@ ==> final(slot)@ == Some(
            escaped@,
        ),
        outcome matches CallOutcome::Panicked(Some(payload)) ==> told@
            == "panic at Rustwright C ABI boundary: "@ + payload@ ==> final(slot)@ == Some(
            escaped@,
        ),
        outcome matches CallOutcome::Panicked(None) ==> told@
            == "panic at Rustwright C ABI boundary: "@ + "unknown panic payload"@
            ==> final(slot)@ == Some(escaped@),
{
}

/// A call that hands back a pointer hands back its value exactly where it went well, and the
/// slot then tells the same as for a call that hands back a status.
pub proof fn pointers_and_slots_tell_the_same<T>(
    slot: &mut ErrorSlot,
    outcome: CallOutcome<T>,
    told: &str,
    escaped: String,
    handed: Option<T>,
)
    requires
        call_ensures(ffi_pointer::<T>, (slot, outcome), handed),
        call_ensures(escape_nuls, (told,), escaped),
    ensures
        handed is Some == outcome is Done,
        outcome matches CallOutcome::Done(value) ==> handed == Some(value),
        final(slot)@ is None == outcome is Done,
        outcome matches CallOutcome::Failed(error) ==> error@ == told@ ==> final(slot)@ == Some(
            escaped@,
        ),
        outcome matches CallOutcome::Panicked(Some(payload)) ==> told@
            == "panic at Rustwright C ABI boundary: "@ + payload@ ==> final(slot)@ == Some(
            escaped@,
        ),
        outcome matches CallOutcome::Panicked(None) ==> told@
            == "panic at Rustwright C ABI boundary: "@ + "unknown panic payload"@
            ==> final(slot)@ == Some(escaped@),
{
}

} // verus!
