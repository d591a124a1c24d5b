use rustwright::boundary::{
    browser_ref, escape_nuls, ffi_pointer, ffi_status, optional_str, owned_string, page_ref,
    panic_message, required_str, CallOutcome, ErrorSlot,
};
use rustwright::requests::{
    click_request, decode_wire_request, evaluate_request, executable_path_request, exported_bytes,
    fill_request, goto_request, launch_request, new_page_request, screenshot_options,
    screenshot_request, text_content_request, title_request,
};

fn message<T>(result: Result<T, String>) -> String {
    match result {
        Ok(_) => panic!("unexpected success"),
        Err(message) => message,
    }
}

#[test]
fn nuls_are_escaped() {
    assert_eq!(escape_nuls("plain"), "plain");
    assert_eq!(escape_nuls("a\0b\0"), "a\\0b\\0");
    assert_eq!(escape_nuls(""), "");
    assert!(!escape_nuls("\0\0").contains('\0'));
}

#[test]
fn error_slots_keep_the_last_error() {
    let mut slot = ErrorSlot::new();
    assert_eq!(slot.last_error(), None);
    slot.set_error("one");
    assert_eq!(slot.last_error(), Some("one"));
    slot.set_error("two\0");
    assert_eq!(slot.last_error(), Some("two\\0"));
    slot.clear_error();
    assert_eq!(slot.last_error(), None);
}

#[test]
fn statuses_tell_how_calls_end() {
    let mut slot = ErrorSlot::new();
    assert_eq!(ffi_status(&mut slot, CallOutcome::Failed("no page".to_string())), 1);
    assert_eq!(slot.last_error(), Some("no page"));
    assert_eq!(ffi_status(&mut slot, CallOutcome::Panicked(Some("boom".to_string()))), 2);
    assert_eq!(slot.last_error(), Some("panic at Rustwright C ABI boundary: boom"));
    assert_eq!(ffi_status(&mut slot, CallOutcome::Panicked(None)), 2);
    assert_eq!(
        slot.last_error(),
        Some("panic at Rustwright C ABI boundary: unknown panic payload")
    );
    assert_eq!(ffi_status(&mut slot, CallOutcome::Done(())), 0);
    assert_eq!(slot.last_error(), None);
}

#[test]
fn pointers_tell_how_calls_end() {
    let mut slot = ErrorSlot::new();
    assert_eq!(ffi_pointer::<u8>(&mut slot, CallOutcome::Failed("no".to_string())), None);
    assert_eq!(slot.last_error(), Some("no"));
    assert_eq!(ffi_pointer(&mut slot, CallOutcome::Done(9)), Some(9));
    assert_eq!(slot.last_error(), None);
    assert_eq!(ffi_pointer::<u8>(&mut slot, CallOutcome::Panicked(None)), None);
    assert!(slot.last_error().is_some());
}

#[test]
fn panics_are_told_in_words() {
    assert_eq!(panic_message(Some("index out of bounds".to_string())), "index out of bounds");
    assert_eq!(panic_message(None), "unknown panic payload");
}

#[test]
fn required_strings_must_be_given_in_utf8() {
    assert_eq!(required_str(Some("gr\u{fc}n \u{1f3ad}".as_bytes()), "url").unwrap(), "gr\u{fc}n \u{1f3ad}");
    assert_eq!(required_str(Some(b""), "url").unwrap(), "");
    assert_eq!(message(required_str(None, "url")), "url must not be NULL");
    assert_eq!(message(required_str(Some(&[0xff]), "url")), "url must be valid UTF-8");
    assert_eq!(message(required_str(Some(&[0xc0, 0x80]), "url")), "url must be valid UTF-8");
    assert_eq!(message(required_str(Some(&[0xed, 0xa0, 0x80]), "url")), "url must be valid UTF-8");
}

#[test]
fn optional_strings_may_be_left_out() {
    assert_eq!(optional_str(None, "referer").unwrap(), None);
    assert_eq!(optional_str(Some(b"x"), "referer").unwrap(), Some("x"));
    assert_eq!(message(optional_str(Some(&[0x80]), "referer")), "referer must be valid UTF-8");
}

#[test]
fn handles_must_be_given() {
    assert_eq!(browser_ref(Some(&1)), Ok(&1));
    assert_eq!(message(browser_ref::<u8>(None)), "browser handle must not be NULL");
    assert_eq!(page_ref(Some(&2)), Ok(&2));
    assert_eq!(message(page_ref::<u8>(None)), "page handle must not be NULL");
}

#[test]
fn strings_with_a_nul_are_not_handed_out() {
    assert_eq!(owned_string("ok".to_string()).unwrap(), "ok");
    assert_eq!(
        message(owned_string("a\0b".to_string())),
        "Rustwright produced a string containing an interior NUL"
    );
}

#[test]
fn outputs_are_checked_before_anything_else() {
    assert_eq!(message(decode_wire_request(false, None)), "out_json must not be NULL");
    assert_eq!(message(decode_wire_request(true, None)), "wire_json must not be NULL");
    assert_eq!(decode_wire_request(true, Some(b"[]")).unwrap(), "[]");
    assert_eq!(message(executable_path_request(false)), "out_path must not be NULL");
    assert!(executable_path_request(true).is_ok());
    assert_eq!(message(launch_request(false, None)), "out_browser must not be NULL");
    assert_eq!(message(launch_request(true, Some(&[0xfe]))), "options_json must be valid UTF-8");
    assert_eq!(launch_request(true, Some(b"{}")).unwrap(), "{}");
    assert_eq!(message(new_page_request::<u8>(false, None)), "out_page must not be NULL");
    assert_eq!(message(new_page_request::<u8>(true, None)), "browser handle must not be NULL");
    assert_eq!(new_page_request(true, Some(&5)).unwrap(), &5);
    assert_eq!(message(title_request::<u8>(false, None)), "out_title must not be NULL");
    assert_eq!(message(title_request::<u8>(true, None)), "page handle must not be NULL");
    assert_eq!(title_request(true, Some(&5)).unwrap(), &5);
}

#[test]
fn navigations_are_read_in_order() {
    assert_eq!(
        message(goto_request::<u8>(false, None, None, None, None)),
        "out_response_json must not be NULL"
    );
    assert_eq!(
        message(goto_request::<u8>(true, None, None, None, None)),
        "page handle must not be NULL"
    );
    assert_eq!(message(goto_request(true, Some(&1), None, None, None)), "url must not be NULL");
    assert_eq!(
        message(goto_request(true, Some(&1), Some(b"u"), Some(&[0xff]), Some(&[0xff]))),
        "wait_until must be valid UTF-8"
    );
    assert_eq!(
        message(goto_request(true, Some(&1), Some(b"u"), Some(b"load"), Some(&[0xff]))),
        "referer must be valid UTF-8"
    );
    let request = goto_request(true, Some(&1), Some(b"u"), Some(b"load"), None).unwrap_or_else(|error| panic!("{}", error));
    assert_eq!(request.page, &1);
    assert_eq!(request.url, "u");
    assert_eq!(request.wait_until, Some("load"));
    assert_eq!(request.referer, None);
}

#[test]
fn actions_are_read_in_order() {
    assert_eq!(message(click_request::<u8>(None, None)), "page handle must not be NULL");
    assert_eq!(message(click_request(Some(&1), None)), "selector must not be NULL");
    let click = click_request(Some(&1), Some(b"#a")).unwrap_or_else(|error| panic!("{}", error));
    assert_eq!((click.page, click.selector), (&1, "#a"));
    assert_eq!(message(fill_request(Some(&1), None, None)), "selector must not be NULL");
    assert_eq!(message(fill_request(Some(&1), Some(b"#a"), None)), "value must not be NULL");
    let fill = fill_request(Some(&1), Some(b"#a"), Some(b"v")).unwrap_or_else(|error| panic!("{}", error));
    assert_eq!((fill.page, fill.selector, fill.value), (&1, "#a", "v"));
}

#[test]
fn reads_are_read_in_order() {
    assert_eq!(message(text_content_request::<u8>(false, None, None)), "out_text must not be NULL");
    assert_eq!(
        message(text_content_request(true, Some(&1), None)),
        "selector must not be NULL"
    );
    let text = text_content_request(true, Some(&1), Some(b"p")).unwrap_or_else(|error| panic!("{}", error));
    assert_eq!((text.page, text.selector), (&1, "p"));
    assert_eq!(message(evaluate_request::<u8>(false, None, None, None)), "out_json must not be NULL");
    assert_eq!(
        message(evaluate_request(true, Some(&1), None, None)),
        "expression must not be NULL"
    );
    assert_eq!(
        message(evaluate_request(true, Some(&1), Some(b"1"), Some(&[0xff]))),
        "arg_json must be valid UTF-8"
    );
    let evaluate = evaluate_request(true, Some(&1), Some(b"1"), Some(b"2")).unwrap_or_else(|error| panic!("{}", error));
    assert_eq!((evaluate.page, evaluate.expression, evaluate.arg_json), (&1, "1", Some("2")));
}

#[test]
fn screenshots_are_read_in_order() {
    assert_eq!(
        message(screenshot_request::<u8>(false, false, None, None)),
        "out_buf must not be NULL"
    );
    assert_eq!(
        message(screenshot_request::<u8>(true, false, None, None)),
        "out_len must not be NULL"
    );
    assert_eq!(
        message(screenshot_request::<u8>(true, true, None, None)),
        "page handle must not be NULL"
    );
    assert_eq!(
        message(screenshot_request(true, true, Some(&1), Some(&[0xff]))),
        "options_json must be valid UTF-8"
    );
    let request = screenshot_request(true, true, Some(&1), Some(b"{}")).unwrap_or_else(|error| panic!("{}", error));
    assert_eq!((request.page, request.options_json), (&1, Some("{}")));
}

#[test]
fn blank_screenshot_options_are_none() {
    assert_eq!(screenshot_options(None), None);
    assert_eq!(screenshot_options(Some("")), None);
    assert_eq!(screenshot_options(Some(" \t\r\n\u{3000}")), None);
    assert_eq!(screenshot_options(Some(" {} ")), Some(" {} "));
}

#[test]
fn empty_buffers_are_not_handed_out() {
    assert_eq!(exported_bytes(Vec::new()), (None, 0));
    assert_eq!(exported_bytes(vec![1, 2, 3]), (Some(vec![1, 2, 3]), 3));
}
