//! What each call of the C interface asks for, read from its arguments.
//!
//! The arguments of a call are checked in a fixed order: outputs first, so that they can be
//! emptied before anything else may fail, then the handle, then the strings. The first fault
//! is the one that is told.

use crate::boundary::{
    browser_fault, browser_ref, earlier, is_optional_text, optional_fault, optional_str,
    output_fault, page_fault, page_ref, refuses, require_output, required_fault, required_str,
    required_text,
};
use crate::trim::{is_blank, is_blank_text, is_white_space};
use vstd::prelude::*;
use vstd::utf8::{decode_utf8, valid_utf8};

verus! {

/// The wire text that a caller wants decoded.
pub fn decode_wire_request<'a>(
    out_json: bool,
    wire_json: Option<&'a [u8]>,
) -> (r: Result<&'a str, String>)
    ensures
        refuses(
            r,
            earlier(output_fault(out_json, "out_json"@), required_fault(wire_json, "wire_json"@)),
        ),
        r matches Ok(found) ==> found@ == required_text(wire_json),
{
    if let Err(message) = require_output(out_json, "out_json") {
        return Err(message);
    }
    required_str(wire_json, "wire_json")
}

/// Checks that a caller can be given the path of the executable.
pub fn executable_path_request(out_path: bool) -> (r: Result<(), String>)
    ensures
        refuses(r, output_fault(out_path, "out_path"@)),
{
    require_output(out_path, "out_path")
}

/// The launch options that a caller gives.
pub fn launch_request<'a>(
    out_browser: bool,
    options_json: Option<&'a [u8]>,
) -> (r: Result<&'a str, String>)
    ensures
        refuses(
            r,
            earlier(
                output_fault(out_browser, "out_browser"@),
                required_fault(options_json, "options_json"@),
            ),
        ),
        r matches Ok(found) ==> found@ == required_text(options_json),
{
    if let Err(message) = require_output(out_browser, "out_browser") {
        return Err(message);
    }
    required_str(options_json, "options_json")
}

/// The browser that a caller wants a new page of.
pub fn new_page_request<'a, B>(
    out_page: bool,
    browser: Option<&'a B>,
) -> (r: Result<&'a B, String>)
    ensures
        refuses(r, earlier(output_fault(out_page, "out_page"@), browser_fault(browser))),
        r matches Ok(found) ==> browser == Some(found),
{
    if let Err(message) = require_output(out_page, "out_page") {
        return Err(message);
    }
    browser_ref(browser)
}

/// A navigation.
pub struct GotoRequest<'a, P> {
    pub page: &'a P,
    pub url: &'a str,
    pub wait_until: Option<&'a str>,
    pub referer: Option<&'a str>,
}

/// The navigation that a caller asks for.
pub fn goto_request<'a, P>(
    out_response_json: bool,
    page: Option<&'a P>,
    url: Option<&'a [u8]>,
    wait_until: Option<&'a [u8]>,
    referer: Option<&'a [u8]>,
) -> (r: Result<GotoRequest<'a, P>, String>)
    ensures
        refuses(
            r,
            earlier(
                output_fault(out_response_json, "out_response_json"@),
                earlier(
                    page_fault(page),
                    earlier(
                        required_fault(url, "url"@),
                        earlier(
                            optional_fault(wait_until, "wait_until"@),
                            optional_fault(referer, "referer"@),
                        ),
                    ),
                ),
            ),
        ),
        r matches Ok(request) ==> {
            &&& page == Some(request.page)
            &&& request.url@ == required_text(url)
            &&& is_optional_text(request.wait_until, wait_until)
            &&& is_optional_text(request.referer, referer)
        },
{
    if let Err(message) = require_output(out_response_json, "out_response_json") {
        return Err(message);
    }
    let page = match page_ref(page) {
        Ok(found) => found,
        Err(message) => return Err(message),
    };
    let url = match required_str(url, "url") {
        Ok(found) => found,
        Err(message) => return Err(message),
    };
    let wait_until = match optional_str(wait_until, "wait_until") {
        Ok(found) => found,
        Err(message) => return Err(message),
    };
    let referer = match optional_str(referer, "referer") {
        Ok(found) => found,
        Err(message) => return Err(message),
    };
    Ok(GotoRequest { page, url, wait_until, referer })
}

/// A click.
pub struct ClickRequest<'a, P> {
    pub page: &'a P,
    pub selector: &'a str,
}

/// The click that a caller asks for.
pub fn click_request<'a, P>(
    page: Option<&'a P>,
    selector: Option<&'a [u8]>,
) -> (r: Result<ClickRequest<'a, P>, String>)
    ensures
        refuses(r, earlier(page_fault(page), required_fault(selector, "selector"@))),
        r matches Ok(request) ==> {
            &&& page == Some(request.page)
            &&& request.selector@ == required_text(selector)
        },
{
    let page = match page_ref(page) {
        Ok(found) => found,
        Err(message) => return Err(message),
    };
    let selector = match required_str(selector, "selector") {
        Ok(found) => found,
        Err(message) => return Err(message),
    };
    Ok(ClickRequest { page, selector })
}

/// A field to fill.
pub struct FillRequest<'a, P> {
    pub page: &'a P,
    pub selector: &'a str,
    pub value: &'a str,
}

/// The field that a caller wants filled.
pub fn fill_request<'a, P>(
    page: Option<&'a P>,
    selector: Option<&'a [u8]>,
    value: Option<&'a [u8]>,
) -> (r: Result<FillRequest<'a, P>, String>)
    ensures
        refuses(
            r,
            earlier(
                page_fault(page),
                earlier(required_fault(selector, "selector"@), required_fault(value, "value"@)),
            ),
        ),
        r matches Ok(request) ==> {
            &&& page == Some(request.page)
            &&& request.selector@ == required_text(selector)
            &&& request.value@ == required_text(value)
        },
{
    let page = match page_ref(page) {
        Ok(found) => found,
        Err(message) => return Err(message),
    };
    let selector = match required_str(selector, "selector") {
        Ok(found) => found,
        Err(message) => return Err(message),
    };
    let value = match required_str(value, "value") {
        Ok(found) => found,
        Err(message) => return Err(message),
    };
    Ok(FillRequest { page, selector, value })
}

/// The page that a caller wants the title of.
pub fn title_request<'a, P>(out_title: bool, page: Option<&'a P>) -> (r: Result<&'a P, String>)
    ensures
        refuses(r, earlier(output_fault(out_title, "out_title"@), page_fault(page))),
        r matches Ok(found) ==> page == Some(found),
{
    if let Err(message) = require_output(out_title, "out_title") {
        return Err(message);
    }
    page_ref(page)
}

/// An element to read.
pub struct TextContentRequest<'a, P> {
    pub page: &'a P,
    pub selector: &'a str,
}

/// The element that a caller wants the text of.
pub fn text_content_request<'a, P>(
    out_text: bool,
    page: Option<&'a P>,
    selector: Option<&'a [u8]>,
) -> (r: Result<TextContentRequest<'a, P>, String>)
    ensures
        refuses(
            r,
            earlier(
                output_fault(out_text, "out_text"@),
                earlier(page_fault(page), required_fault(selector, "selector"@)),
            ),
        ),
        r matches Ok(request) ==> {
            &&& page == Some(request.page)
            &&& request.selector@ == required_text(selector)
        },
{
    if let Err(message) = require_output(out_text, "out_text") {
        return Err(message);
    }
    let page = match page_ref(page) {
        Ok(found) => found,
        Err(message) => return Err(message),
    };
    let selector = match required_str(selector, "selector") {
        Ok(found) => found,
        Err(message) => return Err(message),
    };
    Ok(TextContentRequest { page, selector })
}

/// An expression to evaluate.
pub struct EvaluateRequest<'a, P> {
    pub page: &'a P,
    pub expression: &'a str,
    pub arg_json: Option<&'a str>,
}

/// The expression that a caller wants evaluated.
pub fn evaluate_request<'a, P>(
    out_json: bool,
    page: Option<&'a P>,
    expression: Option<&'a [u8]>,
    arg_json: Option<&'a [u8]>,
) -> (r: Result<EvaluateRequest<'a, P>, String>)
    ensures
        refuses(
            r,
            earlier(
                output_fault(out_json, "out_json"@),
                earlier(
                    page_fault(page),
                    earlier(
                        required_fault(expression, "expression"@),
                        optional_fault(arg_json, "arg_json"@),
                    ),
                ),
            ),
        ),
        r matches Ok(request) ==> {
            &&& page == Some(request.page)
            &&& request.expression@ == required_text(expression)
            &&& is_optional_text(request.arg_json, arg_json)
        },
{
    if let Err(message) = require_output(out_json, "out_json") {
        return Err(message);
    }
    let page = match page_ref(page) {
        Ok(found) => found,
        Err(message) => return Err(message),
    };
    let expression = match required_str(expression, "expression") {
        Ok(found) => found,
        Err(message) => return Err(message),
    };
    let arg_json = match optional_str(arg_json, "arg_json") {
        Ok(found) => found,
        Err(message) => return Err(message),
    };
    Ok(EvaluateRequest { page, expression, arg_json })
}

/// A screenshot, with its options as they were given.
pub struct ScreenshotRequest<'a, P> {
    pub page: &'a P,
    pub options_json: Option<&'a str>,
}

/// The screenshot that a caller asks for.
pub fn screenshot_request<'a, P>(
    out_buffer: bool,
    out_len: bool,
    page: Option<&'a P>,
    options_json: Option<&'a [u8]>,
) -> (r: Result<ScreenshotRequest<'a, P>, String>)
    ensures
        refuses(
            r,
            earlier(
                output_fault(out_buffer, "out_buf"@),
                earlier(
                    output_fault(out_len, "out_len"@),
                    earlier(page_fault(page), optional_fault(options_json, "options_json"@)),
                ),
            ),
        ),
        r matches Ok(request) ==> {
            &&& page == Some(request.page)
            &&& is_optional_text(request.options_json, options_json)
        },
{
    if let Err(message) = require_output(out_buffer, "out_buf") {
        return Err(message);
    }
    if let Err(message) = require_output(out_len, "out_len") {
        return Err(message);
    }
    let page = match page_ref(page) {
        Ok(found) => found,
        Err(message) => return Err(message),
    };
    let options_json = match optional_str(options_json, "options_json") {
        Ok(found) => found,
        Err(message) => return Err(message),
    };
    Ok(ScreenshotRequest { page, options_json })
}

/// The options that a screenshot reads, none where it takes the defaults: a blank text counts
/// as none.
pub open spec fn given_options(options_json: Option<&str>) -> Option<&str> {
    match options_json {
        Some(text) => if is_blank_text(text@) {
            None
        } else {
            Some(text)
        },
        None => None,
    }
}

/// Finds the options that a screenshot reads.
pub fn screenshot_options<'a>(options_json: Option<&'a str>) -> (r: Option<&'a str>)
    ensures
        r == given_options(options_json),
{
    match options_json {
        Some(text) => if is_blank(text) {
            None
        } else {
            Some(text)
        },
        None => None,
    }
}

/// The buffer in which bytes are handed out, none where there are no bytes, and its length.
pub fn exported_bytes(bytes: Vec<u8>) -> (r: (Option<Vec<u8>>, usize))
    ensures
        r.1 == bytes@.len(),
        r.0 == if bytes@.len() == 0 {
            None
        } else {
            Some(bytes)
        },
{
    let len: usize = bytes.len();
    if len == 0 {
        (None, 0)
    } else {
        (Some(bytes), len)
    }
}

/// A text to decode is taken as given. The first
/// argument that is missing or is not UTF-8 is the one that is told, whatever comes after it.
pub proof fn decoding_needs_an_output_and_a_text(
    out_json: bool,
    wire_json: Option<&[u8]>,
    r: Result<&str, String>,
)
    requires
        call_ensures(decode_wire_request, (out_json, wire_json), r),
    ensures
        r is Ok == (out_json && wire_json is Some && valid_utf8(wire_json->0@)),
        !out_json ==> r->Err_0@ == "out_json"@ + " must not be NULL"@,
        out_json && wire_json is None ==> r->Err_0@ == "wire_json"@ + " must not be NULL"@,
        out_json && wire_json is Some && !valid_utf8(wire_json->0@)
            ==> r->Err_0@ == "wire_json"@ + " must be valid UTF-8"@,
        r is Ok ==> r->Ok_0@ == decode_utf8(wire_json->0@),
{
}

/// A path can be asked for exactly where there is a place to write it to.
pub proof fn paths_need_an_output(
    out_path: bool,
    r: Result<(), String>,
)
    requires
        call_ensures(executable_path_request, (out_path,), r),
    ensures
        r is Ok == (out_path),
        !out_path ==> r->Err_0@ == "out_path"@ + " must not be NULL"@,
{
}

/// Launch options are taken as given. The first
/// argument that is missing or is not UTF-8 is the one that is told, whatever comes after it.
pub proof fn launches_need_an_output_and_options(
    out_browser: bool,
    options_json: Option<&[u8]>,
    r: Result<&str, String>,
)
    requires
        call_ensures(launch_request, (out_browser, options_json), r),
    ensures
        r is Ok == (out_browser && options_json is Some && valid_utf8(options_json->0@)),
        !out_browser ==> r->Err_0@ == "out_browser"@ + " must not be NULL"@,
        out_browser && options_json is None
            ==> r->Err_0@ == "options_json"@ + " must not be NULL"@,
        out_browser && options_json is Some && !valid_utf8(options_json->0@)
            ==> r->Err_0@ == "options_json"@ + " must be valid UTF-8"@,
        r is Ok ==> r->Ok_0@ == decode_utf8(options_json->0@),
{
}

/// A page is opened in the browser that is given. The first
/// argument that is missing or is not UTF-8 is the one that is told, whatever comes after it.
pub proof fn new_pages_need_an_output_and_a_browser<B>(
    out_page: bool,
    browser: Option<&B>,
    r: Result<&B, String>,
)
    requires
        call_ensures(new_page_request::<B>, (out_page, browser), r),
    ensures
        r is Ok == (out_page && browser is Some),
        !out_page ==> r->Err_0@ == "out_page"@ + " must not be NULL"@,
        out_page && browser is None ==> r->Err_0@ == "browser handle must not be NULL"@,
        r is Ok ==> r->Ok_0 == browser->0,
{
}

/// A navigation goes by the page and the texts that are given. The first
/// argument that is missing or is not UTF-8 is the one that is told, whatever comes after it.
pub proof fn navigations_need_output_page_and_texts<P>(
    out_response_json: bool,
    page: Option<&P>,
    url: Option<&[u8]>,
    wait_until: Option<&[u8]>,
    referer: Option<&[u8]>,
    r: Result<GotoRequest<'_, P>, String>,
)
    requires
        call_ensures(goto_request::<P>, (out_response_json, page, url, wait_until, referer), r),
    ensures
        r is Ok == (out_response_json && page is Some && url is Some && valid_utf8(url->0@)
            && (wait_until is Some ==> valid_utf8(wait_until->0@)) && (referer is Some
            ==> valid_utf8(referer->0@))),
        !out_response_json ==> r->Err_0@ == "out_response_json"@ + " must not be NULL"@,
        out_response_json && page is None ==> r->Err_0@ == "page handle must not be NULL"@,
        out_response_json && page is Some && url is None
            ==> r->Err_0@ == "url"@ + " must not be NULL"@,
        out_response_json && page is Some && url is Some && !valid_utf8(url->0@)
            ==> r->Err_0@ == "url"@ + " must be valid UTF-8"@,
        out_response_json && page is Some && url is Some && valid_utf8(url->0@)
            && wait_until is Some && !valid_utf8(wait_until->0@)
            ==> r->Err_0@ == "wait_until"@ + " must be valid UTF-8"@,
        out_response_json && page is Some && url is Some && valid_utf8(url->0@)
            && (wait_until is Some ==> valid_utf8(wait_until->0@)) && referer is Some
            && !valid_utf8(referer->0@)
            ==> r->Err_0@ == "referer"@ + " must be valid UTF-8"@,
        r is Ok ==> r->Ok_0.page == page->0,
        r is Ok ==> r->Ok_0.url@ == decode_utf8(url->0@),
        r is Ok ==> r->Ok_0.wait_until is Some == wait_until is Some,
        r is Ok && wait_until is Some ==> r->Ok_0.wait_until->0@ == decode_utf8(wait_until->0@),
        r is Ok ==> r->Ok_0.referer is Some == referer is Some,
        r is Ok && referer is Some ==> r->Ok_0.referer->0@ == decode_utf8(referer->0@),
{
}

/// A click goes by the page and the selector that are given. The first
/// argument that is missing or is not UTF-8 is the one that is told, whatever comes after it.
pub proof fn clicks_need_page_and_selector<P>(
    page: Option<&P>,
    selector: Option<&[u8]>,
    r: Result<ClickRequest<'_, P>, String>,
)
    requires
        call_ensures(click_request::<P>, (page, selector), r),
    ensures
        r is Ok == (page is Some && selector is Some && valid_utf8(selector->0@)),
        page is None ==> r->Err_0@ == "page handle must not be NULL"@,
        page is Some && selector is None ==> r->Err_0@ == "selector"@ + " must not be NULL"@,
        page is Some && selector is Some && !valid_utf8(selector->0@)
            ==> r->Err_0@ == "selector"@ + " must be valid UTF-8"@,
        r is Ok ==> r->Ok_0.page == page->0,
        r is Ok ==> r->Ok_0.selector@ == decode_utf8(selector->0@),
{
}

/// A fill goes by the page, the selector and the value that are given. The first
/// argument that is missing or is not UTF-8 is the one that is told, whatever comes after it.
pub proof fn fills_need_page_selector_and_value<P>(
    page: Option<&P>,
    selector: Option<&[u8]>,
    value: Option<&[u8]>,
    r: Result<FillRequest<'_, P>, String>,
)
    requires
        call_ensures(fill_request::<P>, (page, selector, value), r),
    ensures
        r is Ok == (page is Some && selector is Some && valid_utf8(selector->0@)
            && value is Some && valid_utf8(value->0@)),
        page is None ==> r->Err_0@ == "page handle must not be NULL"@,
        page is Some && selector is None ==> r->Err_0@ == "selector"@ + " must not be NULL"@,
        page is Some && selector is Some && !valid_utf8(selector->0@)
            ==> r->Err_0@ == "selector"@ + " must be valid UTF-8"@,
        page is Some && selector is Some && valid_utf8(selector->0@) && value is None
            ==> r->Err_0@ == "value"@ + " must not be NULL"@,
        page is Some && selector is Some && valid_utf8(selector->0@) && value is Some
            && !valid_utf8(value->0@)
            ==> r->Err_0@ == "value"@ + " must be valid UTF-8"@,
        r is Ok ==> r->Ok_0.page == page->0,
        r is Ok ==> r->Ok_0.selector@ == decode_utf8(selector->0@),
        r is Ok ==> r->Ok_0.value@ == decode_utf8(value->0@),
{
}

/// A title is read from the page that is given. The first
/// argument that is missing or is not UTF-8 is the one that is told, whatever comes after it.
pub proof fn titles_need_output_and_page<P>(
    out_title: bool,
    page: Option<&P>,
    r: Result<&P, String>,
)
    requires
        call_ensures(title_request::<P>, (out_title, page), r),
    ensures
        r is Ok == (out_title && page is Some),
        !out_title ==> r->Err_0@ == "out_title"@ + " must not be NULL"@,
        out_title && page is None ==> r->Err_0@ == "page handle must not be NULL"@,
        r is Ok ==> r->Ok_0 == page->0,
{
}

/// A text is read by the page and the selector that are given. The first
/// argument that is missing or is not UTF-8 is the one that is told, whatever comes after it.
pub proof fn texts_need_output_page_and_selector<P>(
    out_text: bool,
    page: Option<&P>,
    selector: Option<&[u8]>,
    r: Result<TextContentRequest<'_, P>, String>,
)
    requires
        call_ensures(text_content_request::<P>, (out_text, page, selector), r),
    ensures
        r is Ok == (out_text && page is Some && selector is Some && valid_utf8(selector->0@)),
        !out_text ==> r->Err_0@ == "out_text"@ + " must not be NULL"@,
        out_text && page is None ==> r->Err_0@ == "page handle must not be NULL"@,
        out_text && page is Some && selector is None
            ==> r->Err_0@ == "selector"@ + " must not be NULL"@,
        out_text && page is Some && selector is Some && !valid_utf8(selector->0@)
            ==> r->Err_0@ == "selector"@ + " must be valid UTF-8"@,
        r is Ok ==> r->Ok_0.page == page->0,
        r is Ok ==> r->Ok_0.selector@ == decode_utf8(selector->0@),
{
}

/// An evaluation goes by the page, the expression and the argument that are given. The first
/// argument that is missing or is not UTF-8 is the one that is told, whatever comes after it.
pub proof fn evaluations_need_output_page_and_texts<P>(
    out_json: bool,
    page: Option<&P>,
    expression: Option<&[u8]>,
    arg_json: Option<&[u8]>,
    r: Result<EvaluateRequest<'_, P>, String>,
)
    requires
        call_ensures(evaluate_request::<P>, (out_json, page, expression, arg_json), r),
    ensures
        r is Ok == (out_json && page is Some && expression is Some && valid_utf8(expression->0@)
            && (arg_json is Some
            ==> valid_utf8(arg_json->0@))),
        !out_json ==> r->Err_0@ == "out_json"@ + " must not be NULL"@,
        out_json && page is None ==> r->Err_0@ == "page handle must not be NULL"@,
        out_json && page is Some && expression is None
            ==> r->Err_0@ == "expression"@ + " must not be NULL"@,
        out_json && page is Some && expression is Some && !valid_utf8(expression->0@)
            ==> r->Err_0@ == "expression"@ + " must be valid UTF-8"@,
        out_json && page is Some && expression is Some && valid_utf8(expression->0@)
            && arg_json is Some && !valid_utf8(arg_json->0@)
            ==> r->Err_0@ == "arg_json"@ + " must be valid UTF-8"@,
        r is Ok ==> r->Ok_0.page == page->0,
        r is Ok ==> r->Ok_0.expression@ == decode_utf8(expression->0@),
        r is Ok ==> r->Ok_0.arg_json is Some == arg_json is Some,
        r is Ok && arg_json is Some ==> r->Ok_0.arg_json->0@ == decode_utf8(arg_json->0@),
{
}

/// A screenshot goes by the page and the options that are given. The first
/// argument that is missing or is not UTF-8 is the one that is told, whatever comes after it.
pub proof fn screenshots_need_outputs_page_and_options<P>(
    out_buffer: bool,
    out_len: bool,
    page: Option<&P>,
    options_json: Option<&[u8]>,
    r: Result<ScreenshotRequest<'_, P>, String>,
)
    requires
        call_ensures(screenshot_request::<P>, (out_buffer, out_len, page, options_json), r),
    ensures
        r is Ok == (out_buffer && out_len && page is Some && (options_json is Some
            ==> valid_utf8(options_json->0@))),
        !out_buffer ==> r->Err_0@ == "out_buf"@ + " must not be NULL"@,
        out_buffer && !out_len ==> r->Err_0@ == "out_len"@ + " must not be NULL"@,
        out_buffer && out_len && page is None ==> r->Err_0@ == "page handle must not be NULL"@,
        out_buffer && out_len && page is Some && options_json is Some
            && !valid_utf8(options_json->0@)
            ==> r->Err_0@ == "options_json"@ + " must be valid UTF-8"@,
        r is Ok ==> r->Ok_0.page == page->0,
        r is Ok ==> r->Ok_0.options_json is Some == options_json is Some,
        r is Ok && options_json is Some
            ==> r->Ok_0.options_json->0@ == decode_utf8(options_json->0@),
{
}

/// Options that are given count exactly where they hold more than white space, and then as
/// they are.
pub proof fn blank_options_do_not_count(options_json: Option<&str>, counted: Option<&str>)
    requires
        call_ensures(screenshot_options, (options_json,), counted),
    ensures
        counted is Some == (options_json is Some && exists|i: int|
            0 <= i < options_json->0@.len() && !is_white_space(#[trigger] options_json->0@[i])),
        counted is Some ==> counted == options_json,
{
}

/// Bytes are handed out whole with their number, and no buffer where there are none.
pub proof fn buffers_hold_the_bytes(bytes: Vec<u8>, handed: (Option<Vec<u8>>, usize))
    requires
        call_ensures(exported_bytes, (bytes,), handed),
    ensures
        handed.0 is Some == (bytes@.len() > 0),
        handed.0 is Some ==> (handed.0->0)@ == bytes@,
        handed.1 == bytes@.len(),
{
}

} // verus!
