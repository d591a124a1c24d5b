//! The language-neutral manifest of test cases: its shape, its checks and its selection.

use crate::json::{
    array_view, entry_views, item_views, json_error_text, member, members_stand_under_their_key,
    object_view, parsed_json_bytes, stands_under, well_formed, Json, JsonView,
};
use crate::text::{decimal, decimal_text, quoted, quoted_text, same_text, text_views};
use vstd::prelude::*;
use vstd::string::*;

verus! {

/// A list of test cases.
#[derive(Debug)]
pub struct Manifest {
    pub version: u32,
    pub cases: Vec<Case>,
}

/// One test case: steps that run on a fresh page.
#[derive(Debug)]
pub struct Case {
    pub id: String,
    pub description: Option<String>,
    pub html: Option<String>,
    pub url: Option<String>,
    pub steps: Vec<Step>,
}

/// One step of a case.
#[derive(Debug)]
pub enum Step {
    Goto { url: Option<String>, use_case_html: Option<bool>, wait_until: Option<String> },
    Click { selector: String },
    Fill { selector: String, value: String },
    Title { capture: String },
    TextContent { selector: String, capture: String },
    Evaluate { expression: String, arg: Option<Json>, capture: String },
    Screenshot { capture: String },
    AssertTitle { equals: Option<String>, contains: Option<String> },
    AssertText { selector: String, equals: Option<String>, contains: Option<String> },
    AssertEval { expression: String, equals: Json },
}

/// The operations that a step can name.
#[derive(Clone, Copy, Debug)]
pub enum Op {
    Goto,
    Click,
    Fill,
    Title,
    TextContent,
    Evaluate,
    Screenshot,
    AssertTitle,
    AssertText,
    AssertEval,
}

/// The operation of a given name.
pub open spec fn op_of(name: Seq<char>) -> Option<Op> {
    if name == "goto"@ {
        Some(Op::Goto)
    } else if name == "click"@ {
        Some(Op::Click)
    } else if name == "fill"@ {
        Some(Op::Fill)
    } else if name == "title"@ {
        Some(Op::Title)
    } else if name == "textContent"@ {
        Some(Op::TextContent)
    } else if name == "evaluate"@ {
        Some(Op::Evaluate)
    } else if name == "screenshot"@ {
        Some(Op::Screenshot)
    } else if name == "assertTitle"@ {
        Some(Op::AssertTitle)
    } else if name == "assertText"@ {
        Some(Op::AssertText)
    } else if name == "assertEval"@ {
        Some(Op::AssertEval)
    } else {
        None
    }
}

/// The fields that a step of an operation may hold.
pub open spec fn may_hold(op: Op, key: Seq<char>) -> bool {
    key == "op"@ || match op {
        Op::Goto => key == "url"@ || key == "useCaseHtml"@ || key == "waitUntil"@,
        Op::Click => key == "selector"@,
        Op::Fill => key == "selector"@ || key == "value"@,
        Op::Title => key == "capture"@,
        Op::TextContent => key == "selector"@ || key == "capture"@,
        Op::Evaluate => key == "expression"@ || key == "arg"@ || key == "capture"@,
        Op::Screenshot => key == "capture"@,
        Op::AssertTitle => key == "equals"@ || key == "contains"@,
        Op::AssertText => key == "selector"@ || key == "equals"@ || key == "contains"@,
        Op::AssertEval => key == "expression"@ || key == "equals"@,
    }
}

/// Looks an operation up by its name.
fn find_op(name: &str) -> (r: Option<Op>)
    ensures
        r == op_of(name@),
{
    if same_text(name, "goto") {
        Some(Op::Goto)
    } else if same_text(name, "click") {
        Some(Op::Click)
    } else if same_text(name, "fill") {
        Some(Op::Fill)
    } else if same_text(name, "title") {
        Some(Op::Title)
    } else if same_text(name, "textContent") {
        Some(Op::TextContent)
    } else if same_text(name, "evaluate") {
        Some(Op::Evaluate)
    } else if same_text(name, "screenshot") {
        Some(Op::Screenshot)
    } else if same_text(name, "assertTitle") {
        Some(Op::AssertTitle)
    } else if same_text(name, "assertText") {
        Some(Op::AssertText)
    } else if same_text(name, "assertEval") {
        Some(Op::AssertEval)
    } else {
        None
    }
}

/// Whether a step of an operation may hold a field.
fn allows(op: Op, key: &str) -> (r: bool)
    ensures
        r == may_hold(op, key@),
{
    same_text(key, "op") || match op {
        Op::Goto => same_text(key, "url") || same_text(key, "useCaseHtml") || same_text(
            key,
            "waitUntil",
        ),
        Op::Click => same_text(key, "selector"),
        Op::Fill => same_text(key, "selector") || same_text(key, "value"),
        Op::Title => same_text(key, "capture"),
        Op::TextContent => same_text(key, "selector") || same_text(key, "capture"),
        Op::Evaluate => same_text(key, "expression") || same_text(key, "arg") || same_text(
            key,
            "capture",
        ),
        Op::Screenshot => same_text(key, "capture"),
        Op::AssertTitle => same_text(key, "equals") || same_text(key, "contains"),
        Op::AssertText => same_text(key, "selector") || same_text(key, "equals") || same_text(
            key,
            "contains",
        ),
        Op::AssertEval => same_text(key, "expression") || same_text(key, "equals"),
    }
}

/// How messages call a case: by its id where it has one, else by its place.
pub open spec fn case_label(case: JsonView, index: int) -> Seq<char> {
    match member(case, "id"@) {
        Some(JsonView::Text(id)) => "case "@ + quoted_text(id),
        _ => "cases["@ + decimal_text(index as nat) + "]"@,
    }
}

/// The first of the entries that a step of an operation may not hold.
pub open spec fn unknown_field(op: Op, entries: Seq<(Seq<char>, JsonView)>) -> Option<Seq<char>>
    decreases entries.len(),
{
    if entries.len() == 0 {
        None
    } else if !may_hold(op, entries[0].0) {
        Some(entries[0].0)
    } else {
        unknown_field(op, entries.drop_first())
    }
}

/// What is wrong with a step, if anything; `place` names the case and the step.
pub open spec fn step_fault(place: Seq<char>, step: JsonView) -> Option<Seq<char>> {
    match step {
        JsonView::Object(entries) => match member(step, "op"@) {
            Some(JsonView::Text(name)) => match op_of(name) {
                Some(op) => match unknown_field(op, entries) {
                    Some(key) => Some(
                        place + " (op "@ + quoted_text(name) + "): unknown field "@ + quoted_text(
                            key,
                        ),
                    ),
                    None => None,
                },
                None => Some(place + ": unknown op "@ + quoted_text(name)),
            },
            _ => Some(place + ": missing string \"op\""@),
        },
        _ => Some(place + ": not an object"@),
    }
}

/// How messages call a step of a case.
pub open spec fn step_place(label: Seq<char>, index: int) -> Seq<char> {
    label + " step "@ + decimal_text(index as nat)
}

/// The first fault of the steps from `from` on.
pub open spec fn steps_fault(label: Seq<char>, steps: Seq<JsonView>, from: int) -> Option<Seq<char>>
    decreases steps.len() - from,
{
    if from < 0 || from >= steps.len() {
        None
    } else {
        match step_fault(step_place(label, from), steps[from]) {
            Some(fault) => Some(fault),
            None => steps_fault(label, steps, from + 1),
        }
    }
}

/// The first fault of a case; one without a list of steps is left to the typed reading.
pub open spec fn case_fault(case: JsonView, index: int) -> Option<Seq<char>> {
    match member(case, "steps"@) {
        Some(JsonView::Array(steps)) => steps_fault(case_label(case, index), steps, 0),
        _ => None,
    }
}

/// The first fault of the cases from `from` on.
pub open spec fn cases_fault(cases: Seq<JsonView>, from: int) -> Option<Seq<char>>
    decreases cases.len() - from,
{
    if from < 0 || from >= cases.len() {
        None
    } else {
        match case_fault(cases[from], from) {
            Some(fault) => Some(fault),
            None => cases_fault(cases, from + 1),
        }
    }
}

/// The first step in a manifest that names no known operation or holds a field that its
/// operation does not know. A manifest without a list of cases is left to the typed reading.
pub open spec fn raw_fault(raw: JsonView) -> Option<Seq<char>> {
    match member(raw, "cases"@) {
        Some(JsonView::Array(cases)) => cases_fault(cases, 0),
        _ => None,
    }
}

/// A check's result says what a fault says.
pub open spec fn reports(r: Result<(), String>, fault: Option<Seq<char>>) -> bool {
    match r {
        Ok(()) => fault is None,
        Err(message) => fault == Some(message@),
    }
}

/// Checks that an operation knows the entries of its step.
fn check_fields(place: &str, name: &str, op: Op, entries: &Vec<(String, Json)>) -> (r: Result<
    (),
    String,
>)
    ensures
        match unknown_field(op, entry_views(entries@)) {
            Some(key) => r matches Err(message) && message@ == place@ + " (op "@ + quoted_text(
                name@,
            ) + "): unknown field "@ + quoted_text(key),
            None => r is Ok,
        },
{
    let ghost views = entry_views(entries@);
    let mut i: usize = 0;
    assert(views.skip(0) =~= views);
    while i < entries.len()
        invariant
            i <= entries@.len(),
            views == entry_views(entries@),
            unknown_field(op, views) == unknown_field(op, views.skip(i as int)),
        decreases entries@.len() - i,
    {
        let key = entries[i].0.as_str();
        assert(views.skip(i as int)[0].0 == key@);
        assert(views.skip(i as int).drop_first() =~= views.skip(i + 1));
        if !allows(op, key) {
            let mut message = place.to_owned();
            message.append(" (op ");
            message.append(quoted(name).as_str());
            message.append("): unknown field ");
            message.append(quoted(key).as_str());
            return Err(message);
        }
        i += 1;
    }
    Ok(())
}

/// Checks one step.
fn check_step(place: &str, step: &Json) -> (r: Result<(), String>)
    ensures
        reports(r, step_fault(place@, step@)),
{
    match step {
        Json::Object(entries) => {
            proof {
                object_view(*entries);
            }
            match step.get("op") {
                Some(Json::Text(name)) => match find_op(name.as_str()) {
                    Some(op) => check_fields(place, name.as_str(), op, entries),
                    None => {
                        let mut message = place.to_owned();
                        message.append(": unknown op ");
                        message.append(quoted(name.as_str()).as_str());
                        Err(message)
                    },
                },
                _ => {
                    let mut message = place.to_owned();
                    message.append(": missing string \"op\"");
                    Err(message)
                },
            }
        },
        _ => {
            let mut message = place.to_owned();
            message.append(": not an object");
            Err(message)
        },
    }
}

/// How messages call a case.
fn label_of(case: &Json, index: usize) -> (r: String)
    ensures
        r@ == case_label(case@, index as int),
{
    match case.get("id") {
        Some(Json::Text(id)) => {
            let mut label = String::from_str("case ");
            label.append(quoted(id.as_str()).as_str());
            label
        },
        _ => {
            let mut label = String::from_str("cases[");
            label.append(decimal(index as u64).as_str());
            label.append("]");
            label
        },
    }
}

/// Checks the steps of one case.
fn check_case(case: &Json, index: usize) -> (r: Result<(), String>)
    ensures
        reports(r, case_fault(case@, index as int)),
{
    let label = label_of(case, index);
    match case.get("steps") {
        Some(Json::Array(steps)) => {
            let ghost views = item_views(steps@);
            proof {
                array_view(*steps);
            }
            let mut i: usize = 0;
            while i < steps.len()
                invariant
                    i <= steps@.len(),
                    views == item_views(steps@),
                    case_fault(case@, index as int) == steps_fault(label@, views, i as int),
                decreases steps@.len() - i,
            {
                let mut place = label.clone();
                place.append(" step ");
                place.append(decimal(i as u64).as_str());
                match check_step(place.as_str(), &steps[i]) {
                    Ok(()) => {},
                    Err(message) => {
                        return Err(message);
                    },
                }
                i += 1;
            }
            Ok(())
        },
        _ => Ok(()),
    }
}

/// Checks the raw steps of a manifest against the fields that each operation knows, so that
/// a misspelt field is an error and not ignored.
pub fn validate_raw_step_fields(raw: &Json) -> (r: Result<(), String>)
    ensures
        reports(r, raw_fault(raw@)),
{
    match raw.get("cases") {
        Some(Json::Array(cases)) => {
            let ghost views = item_views(cases@);
            proof {
                array_view(*cases);
            }
            let mut i: usize = 0;
            while i < cases.len()
                invariant
                    i <= cases@.len(),
                    views == item_views(cases@),
                    raw_fault(raw@) == cases_fault(views, i as int),
                decreases cases@.len() - i,
            {
                match check_case(&cases[i], i) {
                    Ok(()) => {},
                    Err(message) => {
                        return Err(message);
                    },
                }
                i += 1;
            }
            Ok(())
        },
        _ => Ok(()),
    }
}

/// Reads the bytes of a manifest and checks its raw steps.
pub fn read_manifest_json(bytes: &[u8]) -> (r: Result<Json, String>)
    ensures
        match parsed_json_bytes(bytes@) {
            Ok(raw) => match raw_fault(raw) {
                Some(fault) => r matches Err(message) && message@ == fault,
                None => r matches Ok(json) && json@ == raw && well_formed(raw),
            },
            Err(error) => r matches Err(message) && message@ == "invalid manifest JSON: "@
                + json_error_text(error),
        },
{
    match Json::parse_bytes(bytes) {
        Ok(raw) => match validate_raw_step_fields(&raw) {
            Ok(()) => Ok(raw),
            Err(message) => Err(message),
        },
        Err(error) => {
            let mut message = String::from_str("invalid manifest JSON: ");
            message.append(error.as_str());
            Err(message)
        },
    }
}

/// A step that names a known operation and holds only fields that the operation knows.
pub open spec fn step_fits(step: JsonView) -> bool {
    match step {
        JsonView::Object(entries) => match member(step, "op"@) {
            Some(JsonView::Text(name)) => match op_of(name) {
                Some(op) => forall|i: int|
                    0 <= i < entries.len() ==> may_hold(op, (#[trigger] entries[i]).0),
                None => false,
            },
            _ => false,
        },
        _ => false,
    }
}

/// A case all of whose listed steps fit.
pub open spec fn case_fits(case: JsonView) -> bool {
    match member(case, "steps"@) {
        Some(JsonView::Array(steps)) => forall|i: int|
            0 <= i < steps.len() ==> step_fits(#[trigger] steps[i]),
        _ => true,
    }
}

/// A manifest all of whose listed steps fit.
pub open spec fn raw_fits(raw: JsonView) -> bool {
    match member(raw, "cases"@) {
        Some(JsonView::Array(cases)) => forall|i: int|
            0 <= i < cases.len() ==> case_fits(#[trigger] cases[i]),
        _ => true,
    }
}

/// No field is unknown exactly where each may be held.
proof fn fields_are_known(op: Op, entries: Seq<(Seq<char>, JsonView)>)
    ensures
        unknown_field(op, entries) is None == (forall|i: int|
            0 <= i < entries.len() ==> may_hold(op, (#[trigger] entries[i]).0)),
    decreases entries.len(),
{
    if entries.len() > 0 {
        let rest = entries.drop_first();
        fields_are_known(op, rest);
        if may_hold(op, entries[0].0) {
            if unknown_field(op, rest) is None {
                assert forall|i: int| 0 <= i < entries.len() implies may_hold(
                    op,
                    (#[trigger] entries[i]).0,
                ) by {
                    if i > 0 {
                        assert(may_hold(op, rest[i - 1].0));
                    }
                }
            } else {
                let bad = choose|i: int|
                    0 <= i < rest.len() && !may_hold(op, (#[trigger] rest[i]).0);
                assert(!may_hold(op, entries[bad + 1].0));
            }
        } else {
            assert(!may_hold(op, entries[0].0));
        }
    }
}

/// A step has no fault exactly where it fits.
proof fn step_faults_are_misfits(place: Seq<char>, step: JsonView)
    ensures
        step_fault(place, step) is None == step_fits(step),
{
    if let JsonView::Object(entries) = step {
        if let Some(JsonView::Text(name)) = member(step, "op"@) {
            if let Some(op) = op_of(name) {
                fields_are_known(op, entries);
            }
        }
    }
}

/// Steps have no fault exactly where each fits.
proof fn steps_faults_are_misfits(label: Seq<char>, steps: Seq<JsonView>, from: int)
    requires
        0 <= from <= steps.len(),
    ensures
        steps_fault(label, steps, from) is None == (forall|i: int|
            from <= i < steps.len() ==> step_fits(#[trigger] steps[i])),
    decreases steps.len() - from,
{
    if from < steps.len() {
        step_faults_are_misfits(step_place(label, from), steps[from]);
        steps_faults_are_misfits(label, steps, from + 1);
    }
}

/// Cases have no fault exactly where each fits.
proof fn cases_faults_are_misfits(cases: Seq<JsonView>, from: int)
    requires
        0 <= from <= cases.len(),
    ensures
        cases_fault(cases, from) is None == (forall|i: int|
            from <= i < cases.len() ==> case_fits(#[trigger] cases[i])),
    decreases cases.len() - from,
{
    if from < cases.len() {
        if let Some(JsonView::Array(steps)) = member(cases[from], "steps"@) {
            steps_faults_are_misfits(case_label(cases[from], from), steps, 0);
        }
        cases_faults_are_misfits(cases, from + 1);
    }
}

/// The raw check accepts a manifest exactly where every listed step names a known operation
/// and holds only fields that the operation knows: no misspelt field goes unnoticed.
pub proof fn raw_check_is_exact(raw: JsonView)
    ensures
        raw_fault(raw) is None == raw_fits(raw),
{
    if let Some(JsonView::Array(cases)) = member(raw, "cases"@) {
        cases_faults_are_misfits(cases, 0);
    }
}

/// What is wrong with the case at `at`, if anything, given the cases before it.
pub open spec fn case_problem(cases: Seq<Case>, at: int) -> Option<Seq<char>> {
    if cases[at].id@.len() == 0 {
        Some("case id must not be empty"@)
    } else if exists|i: int| 0 <= i < at && (#[trigger] cases[i]).id@ == cases[at].id@ {
        Some("duplicate case id "@ + quoted_text(cases[at].id@))
    } else if cases[at].steps@.len() == 0 {
        Some("case "@ + quoted_text(cases[at].id@) + " has no steps"@)
    } else {
        None
    }
}

/// The first problem of the cases from `from` on.
pub open spec fn first_problem(cases: Seq<Case>, from: int) -> Option<Seq<char>>
    decreases cases.len() - from,
{
    if from < 0 || from >= cases.len() {
        None
    } else {
        match case_problem(cases, from) {
            Some(problem) => Some(problem),
            None => first_problem(cases, from + 1),
        }
    }
}

/// What is wrong with the cases of a manifest, if anything.
pub open spec fn manifest_problem(cases: Seq<Case>) -> Option<Seq<char>> {
    if cases.len() == 0 {
        Some("manifest cases must not be empty"@)
    } else {
        first_problem(cases, 0)
    }
}

/// Whether a case before `at` has the id of the case at `at`.
fn repeats(cases: &Vec<Case>, at: usize) -> (r: bool)
    requires
        at < cases@.len(),
    ensures
        r == exists|i: int| 0 <= i < at && (#[trigger] cases@[i]).id@ == cases@[at as int].id@,
{
    let mut i: usize = 0;
    while i < at
        invariant
            i <= at < cases@.len(),
            forall|k: int| 0 <= k < i ==> (#[trigger] cases@[k]).id@ != cases@[at as int].id@,
        decreases at - i,
    {
        if same_text(cases[i].id.as_str(), cases[at].id.as_str()) {
            return true;
        }
        i += 1;
    }
    false
}

/// Checks that a manifest has cases, and that each has an id of its own and steps.
pub fn validate_manifest(manifest: &Manifest) -> (r: Result<(), String>)
    ensures
        reports(r, manifest_problem(manifest.cases@)),
{
    let cases = &manifest.cases;
    if cases.len() == 0 {
        return Err(String::from_str("manifest cases must not be empty"));
    }
    let mut i: usize = 0;
    while i < cases.len()
        invariant
            i <= cases@.len(),
            0 < cases@.len(),
            *cases == manifest.cases,
            first_problem(cases@, 0) == first_problem(cases@, i as int),
        decreases cases@.len() - i,
    {
        let id = cases[i].id.as_str();
        if id.is_empty() {
            return Err(String::from_str("case id must not be empty"));
        }
        if repeats(cases, i) {
            let mut message = String::from_str("duplicate case id ");
            message.append(quoted(id).as_str());
            return Err(message);
        }
        if cases[i].steps.len() == 0 {
            let mut message = String::from_str("case ");
            message.append(quoted(id).as_str());
            message.append(" has no steps");
            return Err(message);
        }
        i += 1;
    }
    Ok(())
}

/// Cases that can run: some, each with an id of its own and with steps.
pub open spec fn cases_are_valid(cases: Seq<Case>) -> bool {
    &&& cases.len() > 0
    &&& forall|i: int| 0 <= i < cases.len() ==> (#[trigger] cases[i]).id@.len() > 0
    &&& forall|i: int| 0 <= i < cases.len() ==> (#[trigger] cases[i]).steps@.len() > 0
    &&& forall|i: int, j: int|
        0 <= i < j < cases.len() ==> (#[trigger] cases[i]).id@ != (#[trigger] cases[j]).id@
}

/// The cases from `from` on have no problem exactly where none of them is at fault.
proof fn problems_from(cases: Seq<Case>, from: int)
    requires
        0 <= from <= cases.len(),
    ensures
        first_problem(cases, from) is None == (forall|i: int|
            from <= i < cases.len() ==> #[trigger] case_problem(cases, i) is None),
    decreases cases.len() - from,
{
    if from < cases.len() {
        problems_from(cases, from + 1);
    }
}

/// The check accepts a manifest exactly where it has cases, every id is given and differs
/// from the others, and every case has steps.
pub proof fn manifest_check_is_exact(cases: Seq<Case>)
    ensures
        manifest_problem(cases) is None == cases_are_valid(cases),
{
    if cases.len() > 0 {
        problems_from(cases, 0);
        if cases_are_valid(cases) {
            assert forall|i: int| 0 <= i < cases.len() implies #[trigger] case_problem(
                cases,
                i,
            ) is None by {
                assert(cases[i].id@.len() > 0);
                assert(cases[i].steps@.len() > 0);
            }
        }
        if manifest_problem(cases) is None {
            assert forall|i: int| 0 <= i < cases.len() implies (#[trigger] cases[i]).id@.len()
                > 0 by {
                assert(case_problem(cases, i) is None);
            }
            assert forall|i: int| 0 <= i < cases.len() implies (#[trigger] cases[i]).steps@.len()
                > 0 by {
                assert(case_problem(cases, i) is None);
            }
            assert forall|i: int, j: int| 0 <= i < j < cases.len() implies (#[trigger] cases[i]).id@
                != (#[trigger] cases[j]).id@ by {
                assert(case_problem(cases, j) is None);
            }
        }
    }
}

/// The requested ids that no case has, each once, in the order of the request.
pub open spec fn missing_ids(requested: Seq<Seq<char>>, cases: Seq<Case>) -> Seq<Seq<char>>
    decreases requested.len(),
{
    if requested.len() == 0 {
        Seq::empty()
    } else {
        let before = missing_ids(requested.drop_last(), cases);
        if has_case(cases, requested.last()) || before.contains(requested.last()) {
            before
        } else {
            before.push(requested.last())
        }
    }
}

/// Some case has the id.
pub open spec fn has_case(cases: Seq<Case>, id: Seq<char>) -> bool {
    exists|i: int| 0 <= i < cases.len() && (#[trigger] cases[i]).id@ == id
}

/// Texts joined by a comma and a space.
pub open spec fn joined(texts: Seq<Seq<char>>) -> Seq<char>
    decreases texts.len(),
{
    if texts.len() == 0 {
        Seq::empty()
    } else if texts.len() == 1 {
        texts[0]
    } else {
        joined(texts.drop_last()) + ", "@ + texts.last()
    }
}

/// The places of the first `n` cases whose ids are wanted, in the order of the manifest.
pub open spec fn wanted_places(cases: Seq<Case>, wanted: Seq<Seq<char>>, n: int) -> Seq<int>
    decreases n,
{
    if n <= 0 {
        Seq::empty()
    } else {
        let before = wanted_places(cases, wanted, n - 1);
        if wanted.contains(cases[n - 1].id@) {
            before.push(n - 1)
        } else {
            before
        }
    }
}

/// The places of the cases that a request selects; without a request, all.
pub open spec fn selected_places(cases: Seq<Case>, requested: Option<Seq<Seq<char>>>) -> Seq<int> {
    match requested {
        None => Seq::new(cases.len(), |i: int| i),
        Some(wanted) => wanted_places(cases, wanted, cases.len() as int),
    }
}

/// The cases that stand at the given places.
pub open spec fn cases_at(picked: Seq<&Case>, cases: Seq<Case>, places: Seq<int>) -> bool {
    &&& picked.len() == places.len()
    &&& forall|k: int|
        #![trigger picked[k]]
        #![trigger places[k]]
        0 <= k < places.len() ==> 0 <= places[k] < cases.len() && *picked[k] == cases[places[k]]
}

/// What a request asks for.
pub open spec fn requested_views(requested: Option<&Vec<String>>) -> Option<Seq<Seq<char>>> {
    match requested {
        None => None,
        Some(ids) => Some(text_views(ids@)),
    }
}

/// What is wrong with a request, if anything: it asks for cases that do not exist.
pub open spec fn selection_fault(cases: Seq<Case>, requested: Option<Seq<Seq<char>>>) -> Option<
    Seq<char>,
> {
    match requested {
        None => None,
        Some(wanted) => if missing_ids(wanted, cases).len() > 0 {
            Some("unknown case id(s): "@ + joined(missing_ids(wanted, cases)))
        } else {
            None
        },
    }
}

/// A selection is the cases at the requested places, unless there is a fault to tell.
pub open spec fn selects(
    r: Result<Vec<&Case>, String>,
    fault: Option<Seq<char>>,
    cases: Seq<Case>,
    requested: Option<Seq<Seq<char>>>,
) -> bool {
    match r {
        Ok(picked) => fault is None && cases_at(picked@, cases, selected_places(cases, requested)),
        Err(message) => fault == Some(message@),
    }
}

/// One more case at its place.
proof fn one_more_case(picked: Seq<&Case>, cases: Seq<Case>, places: Seq<int>, at: int)
    requires
        cases_at(picked, cases, places),
        0 <= at < cases.len(),
    ensures
        cases_at(picked.push(&cases[at]), cases, places.push(at)),
{
    let more = picked.push(&cases[at]);
    let spots = places.push(at);
    assert forall|k: int|
        #![trigger more[k]]
        #![trigger spots[k]]
        0 <= k < spots.len() implies 0 <= spots[k] < cases.len() && *more[k] == cases[spots[k]] by {
        if k < places.len() {
            assert(*picked[k] == cases[places[k]]);
        }
    }
}

/// Whether `texts` holds `text`.
fn listed(texts: &Vec<String>, text: &str) -> (r: bool)
    ensures
        r == text_views(texts@).contains(text@),
{
    let ghost views = text_views(texts@);
    let mut i: usize = 0;
    while i < texts.len()
        invariant
            i <= texts@.len(),
            views == text_views(texts@),
            forall|k: int| 0 <= k < i ==> (#[trigger] views[k]) != text@,
        decreases texts@.len() - i,
    {
        assert(views[i as int] == texts@[i as int]@);
        if same_text(texts[i].as_str(), text) {
            return true;
        }
        i += 1;
    }
    false
}

/// Whether some case has the id.
fn known(cases: &Vec<Case>, id: &str) -> (r: bool)
    ensures
        r == has_case(cases@, id@),
{
    let mut i: usize = 0;
    while i < cases.len()
        invariant
            i <= cases@.len(),
            forall|k: int| 0 <= k < i ==> (#[trigger] cases@[k]).id@ != id@,
        decreases cases@.len() - i,
    {
        if same_text(cases[i].id.as_str(), id) {
            return true;
        }
        i += 1;
    }
    false
}

/// The requested ids that no case has.
fn find_missing(cases: &Vec<Case>, requested: &Vec<String>) -> (r: Vec<String>)
    ensures
        text_views(r@) == missing_ids(text_views(requested@), cases@),
{
    let ghost views = text_views(requested@);
    let mut missing: Vec<String> = Vec::new();
    let mut i: usize = 0;
    proof {
        assert(views.take(0) =~= Seq::empty());
        assert(text_views(missing@) =~= Seq::empty());
    }
    while i < requested.len()
        invariant
            i <= requested@.len(),
            views == text_views(requested@),
            text_views(missing@) == missing_ids(views.take(i as int), cases@),
        decreases requested@.len() - i,
    {
        let id = requested[i].as_str();
        let ghost before = missing@;
        assert(views.take(i + 1).drop_last() =~= views.take(i as int));
        assert(views.take(i + 1).last() == id@);
        if !known(cases, id) && !listed(&missing, id) {
            missing.push(id.to_owned());
            assert(text_views(missing@) =~= text_views(before).push(id@));
        }
        i += 1;
    }
    assert(views.take(i as int) =~= views);
    missing
}

/// Joins texts by a comma and a space.
fn join(texts: &Vec<String>) -> (r: String)
    ensures
        r@ == joined(text_views(texts@)),
{
    let ghost views = text_views(texts@);
    let mut out = String::new();
    let mut i: usize = 0;
    assert(views.take(0) =~= Seq::empty());
    while i < texts.len()
        invariant
            i <= texts@.len(),
            views == text_views(texts@),
            out@ == joined(views.take(i as int)),
        decreases texts@.len() - i,
    {
        assert(views.take(i + 1).drop_last() =~= views.take(i as int));
        assert(views.take(i + 1).last() == texts@[i as int]@);
        if i > 0 {
            out.append(", ");
        } else {
            assert(Seq::<char>::empty() + texts@[0]@ =~= texts@[0]@);
        }
        out.append(texts[i].as_str());
        i += 1;
    }
    assert(views.take(i as int) =~= views);
    out
}

/// Selects the cases that a request names, in the order of the manifest.
pub fn select_cases<'a>(manifest: &'a Manifest, requested: Option<&Vec<String>>) -> (r: Result<
    Vec<&'a Case>,
    String,
>)
    ensures
        selects(
            r,
            selection_fault(manifest.cases@, requested_views(requested)),
            manifest.cases@,
            requested_views(requested),
        ),
{
    let cases = &manifest.cases;
    let mut picked: Vec<&'a Case> = Vec::new();
    match requested {
        None => {
            let mut i: usize = 0;
            while i < cases.len()
                invariant
                    i <= cases@.len(),
                    picked@.len() == i,
                    forall|k: int| 0 <= k < i ==> *(#[trigger] picked@[k]) == cases@[k],
                decreases cases@.len() - i,
            {
                picked.push(&cases[i]);
                i += 1;
            }
        },
        Some(ids) => {
            let ghost wanted = text_views(ids@);
            let missing = find_missing(cases, ids);
            assert(text_views(missing@).len() == missing@.len());
            if missing.len() > 0 {
                let mut message = String::from_str("unknown case id(s): ");
                message.append(join(&missing).as_str());
                return Err(message);
            }
            let mut i: usize = 0;
            while i < cases.len()
                invariant
                    i <= cases@.len(),
                    wanted == text_views(ids@),
                    cases_at(picked@, cases@, wanted_places(cases@, wanted, i as int)),
                decreases cases@.len() - i,
            {
                let ghost places = wanted_places(cases@, wanted, i as int);
                let ghost before = picked@;
                assert(wanted_places(cases@, wanted, i + 1) == if wanted.contains(
                    cases@[i as int].id@,
                ) {
                    places.push(i as int)
                } else {
                    places
                });
                if listed(ids, cases[i].id.as_str()) {
                    picked.push(&cases[i]);
                    proof {
                        one_more_case(before, cases@, places, i as int);
                    }
                }
                i += 1;
            }
        },
    }
    Ok(picked)
}

/// What keeps a manifest from being run, if anything: its version, its cases, then the request.
pub open spec fn preparation_fault(
    version: u32,
    cases: Seq<Case>,
    requested: Option<Seq<Seq<char>>>,
) -> Option<Seq<char>> {
    if version != 1 {
        Some("unsupported manifest version "@ + decimal_text(version as nat) + "; expected 1"@)
    } else if manifest_problem(cases) is Some {
        manifest_problem(cases)
    } else {
        selection_fault(cases, requested)
    }
}

/// Checks a manifest and selects the cases to run.
pub fn prepare<'a>(manifest: &'a Manifest, requested: Option<&Vec<String>>) -> (r: Result<
    Vec<&'a Case>,
    String,
>)
    ensures
        selects(
            r,
            preparation_fault(manifest.version, manifest.cases@, requested_views(requested)),
            manifest.cases@,
            requested_views(requested),
        ),
{
    if manifest.version != 1 {
        let mut message = String::from_str("unsupported manifest version ");
        message.append(decimal(manifest.version as u64).as_str());
        message.append("; expected 1");
        return Err(message);
    }
    match validate_manifest(manifest) {
        Ok(()) => select_cases(manifest, requested),
        Err(message) => Err(message),
    }
}

/// The places among the first `n` cases ascend, and are those of the wanted ids.
proof fn wanted_places_are_exact(cases: Seq<Case>, wanted: Seq<Seq<char>>, n: int)
    requires
        0 <= n <= cases.len(),
    ensures
        forall|k: int|
            0 <= k < wanted_places(cases, wanted, n).len() ==> 0 <= #[trigger] wanted_places(
                cases,
                wanted,
                n,
            )[k] < n,
        forall|j: int, k: int|
            0 <= j < k < wanted_places(cases, wanted, n).len() ==> #[trigger] wanted_places(
                cases,
                wanted,
                n,
            )[j] < #[trigger] wanted_places(cases, wanted, n)[k],
        forall|i: int|
            0 <= i < n ==> (#[trigger] wanted_places(cases, wanted, n).contains(i)
                == wanted.contains(cases[i].id@)),
    decreases n,
{
    if n > 0 {
        wanted_places_are_exact(cases, wanted, n - 1);
        let before = wanted_places(cases, wanted, n - 1);
        let after = wanted_places(cases, wanted, n);
        assert forall|i: int| 0 <= i < n implies (#[trigger] after.contains(i) == wanted.contains(
            cases[i].id@,
        )) by {
            if wanted.contains(cases[n - 1].id@) {
                assert(after[before.len() as int] == n - 1);
                if i < n - 1 {
                    if before.contains(i) {
                        let k = before.index_of(i);
                        assert(after[k] == i);
                    }
                    if after.contains(i) {
                        let k = after.index_of(i);
                        assert(before[k] == i);
                    }
                }
            } else if i == n - 1 && after.contains(i) {
                let k = after.index_of(i);
                assert(before[k] < n - 1);
            } else {
                assert(i < n - 1 ==> before.contains(i) == wanted.contains(cases[i].id@));
            }
        }
    }
}

/// A selection keeps the order of the manifest, takes no case twice, and takes exactly the
/// requested cases; without a request it takes all.
pub proof fn selection_is_exact(cases: Seq<Case>, requested: Option<Seq<Seq<char>>>)
    ensures
        forall|k: int|
            0 <= k < selected_places(cases, requested).len() ==> 0 <= #[trigger] selected_places(
                cases,
                requested,
            )[k] < cases.len(),
        forall|j: int, k: int|
            0 <= j < k < selected_places(cases, requested).len() ==> #[trigger] selected_places(
                cases,
                requested,
            )[j] < #[trigger] selected_places(cases, requested)[k],
        forall|i: int|
            0 <= i < cases.len() ==> (#[trigger] selected_places(cases, requested).contains(i)
                == match requested {
                None => true,
                Some(wanted) => wanted.contains(cases[i].id@),
            }),
{
    match requested {
        None => {
            let places = selected_places(cases, requested);
            assert forall|i: int| 0 <= i < cases.len() implies #[trigger] places.contains(i) by {
                assert(places[i] == i);
            }
        },
        Some(wanted) => wanted_places_are_exact(cases, wanted, cases.len() as int),
    }
}

/// The missing ids are those that are requested and that no case has, each once.
pub proof fn missing_ids_are_exact(requested: Seq<Seq<char>>, cases: Seq<Case>)
    ensures
        missing_ids(requested, cases).no_duplicates(),
        forall|id: Seq<char>| #[trigger]
            missing_ids(requested, cases).contains(id) == (requested.contains(id) && !has_case(
                cases,
                id,
            )),
    decreases requested.len(),
{
    if requested.len() > 0 {
        let rest = requested.drop_last();
        let before = missing_ids(rest, cases);
        let after = missing_ids(requested, cases);
        let last = requested.last();
        missing_ids_are_exact(rest, cases);
        assert forall|id: Seq<char>| #[trigger]
            after.contains(id) == (requested.contains(id) && !has_case(cases, id)) by {
            assert(requested =~= rest.push(last));
            assert(requested.contains(id) == (rest.contains(id) || id == last)) by {
                if requested.contains(id) && id != last {
                    let k = requested.index_of(id);
                    assert(rest[k] == id);
                }
                if rest.contains(id) {
                    let k = rest.index_of(id);
                    assert(requested[k] == id);
                }
                assert(requested[requested.len() - 1] == last);
            }
            assert(before.contains(id) == (rest.contains(id) && !has_case(cases, id)));
            if after.len() > before.len() {
                assert(after =~= before.push(last));
                if before.contains(id) {
                    let k = before.index_of(id);
                    assert(after[k] == id);
                }
                assert(after[before.len() as int] == last);
                if after.contains(id) && id != last {
                    let k = after.index_of(id);
                    assert(before[k] == id);
                }
            }
        }
    }
}

/// A request is refused exactly where it names an id that no case has.
pub proof fn selection_is_refused_for_unknown_ids(cases: Seq<Case>, wanted: Seq<Seq<char>>)
    ensures
        selection_fault(cases, Some(wanted)) is Some == exists|k: int|
            0 <= k < wanted.len() && !has_case(cases, #[trigger] wanted[k]),
{
    let missing = missing_ids(wanted, cases);
    missing_ids_are_exact(wanted, cases);
    if missing.len() > 0 {
        assert(missing.contains(missing[0]));
        let k = wanted.index_of(missing[0]);
        assert(!has_case(cases, wanted[k]));
    }
    if exists|k: int| 0 <= k < wanted.len() && !has_case(cases, #[trigger] wanted[k]) {
        let k = choose|k: int| 0 <= k < wanted.len() && !has_case(cases, #[trigger] wanted[k]);
        assert(missing.contains(wanted[k]));
    }
}

/// The fields of a step, by the name of its operation.
pub open spec fn schema(name: Seq<char>) -> Option<Seq<Seq<char>>> {
    if name == "goto"@ {
        Some(seq!["op"@, "url"@, "useCaseHtml"@, "waitUntil"@])
    } else if name == "click"@ {
        Some(seq!["op"@, "selector"@])
    } else if name == "fill"@ {
        Some(seq!["op"@, "selector"@, "value"@])
    } else if name == "title"@ {
        Some(seq!["op"@, "capture"@])
    } else if name == "textContent"@ {
        Some(seq!["op"@, "selector"@, "capture"@])
    } else if name == "evaluate"@ {
        Some(seq!["op"@, "expression"@, "arg"@, "capture"@])
    } else if name == "screenshot"@ {
        Some(seq!["op"@, "capture"@])
    } else if name == "assertTitle"@ {
        Some(seq!["op"@, "equals"@, "contains"@])
    } else if name == "assertText"@ {
        Some(seq!["op"@, "selector"@, "equals"@, "contains"@])
    } else if name == "assertEval"@ {
        Some(seq!["op"@, "expression"@, "equals"@])
    } else {
        None
    }
}

/// A list of two holds a text exactly where it is one of them.
proof fn two_are_listed(a: Seq<char>, b: Seq<char>, text: Seq<char>)
    ensures
        seq![a, b].contains(text) == (text == a || text == b),
{
    let list = seq![a, b];
    assert(list[0] == a && list[1] == b);
}

/// A list of three holds a text exactly where it is one of them.
proof fn three_are_listed(a: Seq<char>, b: Seq<char>, c: Seq<char>, text: Seq<char>)
    ensures
        seq![a, b, c].contains(text) == (text == a || text == b || text == c),
{
    let list = seq![a, b, c];
    assert(list[0] == a && list[1] == b && list[2] == c);
}

/// A list of four holds a text exactly where it is one of them.
proof fn four_are_listed(a: Seq<char>, b: Seq<char>, c: Seq<char>, d: Seq<char>, text: Seq<char>)
    ensures
        seq![a, b, c, d].contains(text) == (text == a || text == b || text == c || text == d),
{
    let list = seq![a, b, c, d];
    assert(list[0] == a && list[1] == b && list[2] == c && list[3] == d);
}

/// An operation is known exactly where it has a schema, and its steps may hold exactly the
/// fields of that schema.
proof fn operations_follow_the_schema(name: Seq<char>, key: Seq<char>)
    ensures
        op_of(name) is Some == schema(name) is Some,
        op_of(name) is Some ==> may_hold(op_of(name)->0, key) == (schema(name)->0).contains(key),
{
    if name == "goto"@ {
        four_are_listed("op"@, "url"@, "useCaseHtml"@, "waitUntil"@, key);
    } else if name == "click"@ {
        two_are_listed("op"@, "selector"@, key);
    } else if name == "fill"@ {
        three_are_listed("op"@, "selector"@, "value"@, key);
    } else if name == "title"@ {
        two_are_listed("op"@, "capture"@, key);
    } else if name == "textContent"@ {
        three_are_listed("op"@, "selector"@, "capture"@, key);
    } else if name == "evaluate"@ {
        four_are_listed("op"@, "expression"@, "arg"@, "capture"@, key);
    } else if name == "screenshot"@ {
        two_are_listed("op"@, "capture"@, key);
    } else if name == "assertTitle"@ {
        three_are_listed("op"@, "equals"@, "contains"@, key);
    } else if name == "assertText"@ {
        four_are_listed("op"@, "selector"@, "equals"@, "contains"@, key);
    } else if name == "assertEval"@ {
        three_are_listed("op"@, "expression"@, "equals"@, key);
    }
}

/// The step is an object whose operation has a schema, and each of its fields is a field of
/// that schema.
pub open spec fn follows_schema(step: JsonView) -> bool {
    &&& step is Object
    &&& exists|name: Seq<char>| #[trigger]
        stands_under(step, "op"@, JsonView::Text(name)) && schema(name) is Some && forall|i: int|
            0 <= i < step->Object_0.len() ==> (schema(name)->0).contains(
                (#[trigger] step->Object_0[i]).0,
            )
}

/// Every step that a manifest lists follows the schema of its operation.
pub open spec fn steps_follow_schema(raw: JsonView) -> bool {
    forall|cases: Seq<JsonView>, c: int, steps: Seq<JsonView>, s: int|
        #![trigger stands_under(raw, "cases"@, JsonView::Array(cases)), stands_under(cases[c], "steps"@, JsonView::Array(steps)), steps[s]]
        stands_under(raw, "cases"@, JsonView::Array(cases)) && 0 <= c < cases.len()
            && stands_under(cases[c], "steps"@, JsonView::Array(steps)) && 0 <= s < steps.len()
            ==> follows_schema(steps[s])
}

/// A step fits exactly where it follows the schema.
proof fn fitting_steps_follow_the_schema(step: JsonView)
    ensures
        step_fits(step) == follows_schema(step),
{
    members_stand_under_their_key(step, "op"@);
    if let JsonView::Object(entries) = step {
        if let Some(JsonView::Text(name)) = member(step, "op"@) {
            assert(stands_under(step, "op"@, JsonView::Text(name)));
            assert forall|key: Seq<char>| op_of(name) is Some implies #[trigger] may_hold(
                op_of(name)->0,
                key,
            ) == (schema(name)->0).contains(key) by {
                operations_follow_the_schema(name, key);
            }
            operations_follow_the_schema(name, "op"@);
            if step_fits(step) {
                assert forall|i: int| 0 <= i < entries.len() implies (schema(name)->0).contains(
                    (#[trigger] step->Object_0[i]).0,
                ) by {
                    assert(may_hold(op_of(name)->0, entries[i].0));
                }
            }
            if follows_schema(step) {
                let other = choose|other: Seq<char>| #[trigger]
                    stands_under(step, "op"@, JsonView::Text(other)) && schema(other) is Some
                        && forall|i: int|
                        0 <= i < step->Object_0.len() ==> (schema(other)->0).contains(
                            (#[trigger] step->Object_0[i]).0,
                        );
                assert(JsonView::Text(other) == JsonView::Text(name));
                assert forall|i: int| 0 <= i < entries.len() implies may_hold(
                    op_of(name)->0,
                    (#[trigger] entries[i]).0,
                ) by {
                    assert((schema(name)->0).contains(step->Object_0[i].0));
                }
            }
        }
    }
}

/// The raw check passes exactly the manifests whose every step follows the schema of its
/// operation: a field that the schema does not list is refused, and no other is.
pub proof fn raw_check_follows_the_schema(raw: Json, r: Result<(), String>)
    requires
        call_ensures(validate_raw_step_fields, (&raw,), r),
    ensures
        r is Ok == steps_follow_schema(raw@),
{
    raw_check_is_exact(raw@);
    members_stand_under_their_key(raw@, "cases"@);
    if raw_fits(raw@) {
        assert forall|cases: Seq<JsonView>, c: int, steps: Seq<JsonView>, s: int|
            #![trigger stands_under(raw@, "cases"@, JsonView::Array(cases)), stands_under(cases[c], "steps"@, JsonView::Array(steps)), steps[s]]
            stands_under(raw@, "cases"@, JsonView::Array(cases)) && 0 <= c < cases.len()
                && stands_under(cases[c], "steps"@, JsonView::Array(steps)) && 0 <= s < steps.len()
            implies follows_schema(steps[s]) by {
            assert(member(raw@, "cases"@) == Some(JsonView::Array(cases)));
            assert(case_fits(cases[c]));
            members_stand_under_their_key(cases[c], "steps"@);
            assert(member(cases[c], "steps"@) == Some(JsonView::Array(steps)));
            let same = member(cases[c], "steps"@)->0->Array_0;
            assert(forall|k: int| 0 <= k < same.len() ==> step_fits(#[trigger] same[k]));
            assert(same == steps);
            assert(step_fits(steps[s]));
            fitting_steps_follow_the_schema(steps[s]);
        }
    }
    if steps_follow_schema(raw@) {
        if let Some(JsonView::Array(cases)) = member(raw@, "cases"@) {
            assert(stands_under(raw@, "cases"@, JsonView::Array(cases)));
            assert forall|c: int| 0 <= c < cases.len() implies case_fits(#[trigger] cases[c]) by {
                members_stand_under_their_key(cases[c], "steps"@);
                if let Some(JsonView::Array(steps)) = member(cases[c], "steps"@) {
                    assert(stands_under(cases[c], "steps"@, JsonView::Array(steps)));
                    assert forall|s: int| 0 <= s < steps.len() implies step_fits(
                        #[trigger] steps[s],
                    ) by {
                        assert(follows_schema(steps[s]));
                        fitting_steps_follow_the_schema(steps[s]);
                    }
                }
            }
        }
    }
}

/// A step that holds a field outside its schema keeps its manifest from passing.
pub proof fn misspelt_fields_are_refused(
    raw: Json,
    cases: Seq<JsonView>,
    c: int,
    steps: Seq<JsonView>,
    s: int,
    name: Seq<char>,
    i: int,
    r: Result<(), String>,
)
    requires
        call_ensures(validate_raw_step_fields, (&raw,), r),
        stands_under(raw@, "cases"@, JsonView::Array(cases)),
        0 <= c < cases.len(),
        stands_under(cases[c], "steps"@, JsonView::Array(steps)),
        0 <= s < steps.len(),
        steps[s] is Object,
        stands_under(steps[s], "op"@, JsonView::Text(name)),
        0 <= i < steps[s]->Object_0.len(),
        schema(name) matches Some(fields) ==> !fields.contains(steps[s]->Object_0[i].0),
    ensures
        r is Err,
{
    raw_check_follows_the_schema(raw, r);
    if r is Ok {
        assert(follows_schema(steps[s]));
        members_stand_under_their_key(steps[s], "op"@);
        let other = choose|other: Seq<char>| #[trigger]
            stands_under(steps[s], "op"@, JsonView::Text(other)) && schema(other) is Some
                && forall|i: int|
                0 <= i < steps[s]->Object_0.len() ==> (schema(other)->0).contains(
                    (#[trigger] steps[s]->Object_0[i]).0,
                );
        assert(JsonView::Text(other) == JsonView::Text(name));
    }
}

/// How a message names a step: by the id of its case where that is a text, else by the place
/// of the case, and by its own place; places are counted from zero.
pub open spec fn names_step(place: Seq<char>, case: JsonView, c: int, s: int) -> bool {
    &&& forall|id: Seq<char>| #[trigger]
        stands_under(case, "id"@, JsonView::Text(id)) ==> place == "case "@ + quoted_text(id)
            + " step "@ + decimal_text(s as nat)
    &&& (forall|id: Seq<char>| !#[trigger] stands_under(case, "id"@, JsonView::Text(id))) ==> place
        == "cases["@ + decimal_text(c as nat) + "]"@ + " step "@ + decimal_text(s as nat)
}

/// Steps before a place that fit do not hide the fault at the place.
proof fn fault_comes_after_fitting_steps(
    label: Seq<char>,
    steps: Seq<JsonView>,
    from: int,
    at: int,
)
    requires
        0 <= from <= at < steps.len(),
        forall|k: int| from <= k < at ==> step_fits(#[trigger] steps[k]),
        !step_fits(steps[at]),
    ensures
        steps_fault(label, steps, from) == step_fault(step_place(label, at), steps[at]),
        steps_fault(label, steps, from) is Some,
    decreases at - from,
{
    step_faults_are_misfits(step_place(label, from), steps[from]);
    if from < at {
        fault_comes_after_fitting_steps(label, steps, from + 1, at);
    }
}

/// Cases before a place that fit do not hide the fault at the place.
proof fn fault_comes_after_fitting_cases(cases: Seq<JsonView>, from: int, at: int)
    requires
        0 <= from <= at < cases.len(),
        forall|k: int| from <= k < at ==> case_fits(#[trigger] cases[k]),
        case_fault(cases[at], at) is Some,
    ensures
        cases_fault(cases, from) == case_fault(cases[at], at),
    decreases at - from,
{
    if from < at {
        assert(case_fits(cases[from]));
        if let Some(JsonView::Array(steps)) = member(cases[from], "steps"@) {
            let same = member(cases[from], "steps"@)->0->Array_0;
            assert(forall|k: int| 0 <= k < same.len() ==> step_fits(#[trigger] same[k]));
            steps_faults_are_misfits(case_label(cases[from], from), steps, 0);
        }
        fault_comes_after_fitting_cases(cases, from + 1, at);
    }
}

/// The first unknown field is the first that is not in the schema.
proof fn first_unknown_field(
    op: Op,
    entries: Seq<(Seq<char>, JsonView)>,
    at: int,
)
    requires
        0 <= at < entries.len(),
        forall|k: int| 0 <= k < at ==> may_hold(op, (#[trigger] entries[k]).0),
        !may_hold(op, entries[at].0),
    ensures
        unknown_field(op, entries) == Some(entries[at].0),
    decreases at,
{
    if at > 0 {
        let rest = entries.drop_first();
        assert(may_hold(op, entries[0].0));
        assert forall|k: int| 0 <= k < at - 1 implies may_hold(op, (#[trigger] rest[k]).0) by {
            assert(rest[k] == entries[k + 1]);
        }
        first_unknown_field(op, rest, at - 1);
    }
}

/// The first step that does not follow its schema is the one that the raw check tells of,
/// with its place and with what is wrong: it is no object, it has no text for its operation,
/// its operation has no schema, or a field of it, the first such one, is not in the schema.
pub proof fn first_misfit_is_told(
    raw: Json,
    cases: Seq<JsonView>,
    c: int,
    steps: Seq<JsonView>,
    s: int,
    place: Seq<char>,
    r: Result<(), String>,
)
    requires
        call_ensures(validate_raw_step_fields, (&raw,), r),
        stands_under(raw@, "cases"@, JsonView::Array(cases)),
        0 <= c < cases.len(),
        stands_under(cases[c], "steps"@, JsonView::Array(steps)),
        0 <= s < steps.len(),
        forall|k: int, list: Seq<JsonView>, n: int|
            #![trigger stands_under(cases[k], "steps"@, JsonView::Array(list)), list[n]]
            0 <= k < c && stands_under(cases[k], "steps"@, JsonView::Array(list)) && 0 <= n
                < list.len() ==> follows_schema(list[n]),
        forall|n: int| 0 <= n < s ==> follows_schema(#[trigger] steps[n]),
        !follows_schema(steps[s]),
        names_step(place, cases[c], c, s),
    ensures
        r is Err,
        !(steps[s] is Object) ==> r->Err_0@ == place + ": not an object"@,
        steps[s] is Object && (forall|name: Seq<char>|
            !#[trigger] stands_under(steps[s], "op"@, JsonView::Text(name))) ==> r->Err_0@ == place
            + ": missing string \"op\""@,
        forall|name: Seq<char>| #[trigger]
            stands_under(steps[s], "op"@, JsonView::Text(name)) && schema(name) is None
                ==> r->Err_0@ == place + ": unknown op "@ + quoted_text(name),
        forall|name: Seq<char>, i: int|
            #![trigger stands_under(steps[s], "op"@, JsonView::Text(name)), steps[s]->Object_0[i]]
            stands_under(steps[s], "op"@, JsonView::Text(name)) && schema(name) is Some && 0 <= i
                < steps[s]->Object_0.len() && !(schema(name)->0).contains(
                steps[s]->Object_0[i].0,
            ) && (forall|k: int|
                0 <= k < i ==> (schema(name)->0).contains((#[trigger] steps[s]->Object_0[k]).0))
                ==> r->Err_0@ == place + " (op "@ + quoted_text(name) + "): unknown field "@
                + quoted_text(steps[s]->Object_0[i].0),
{
    members_stand_under_their_key(raw@, "cases"@);
    members_stand_under_their_key(cases[c], "steps"@);
    members_stand_under_their_key(cases[c], "id"@);
    members_stand_under_their_key(steps[s], "op"@);
    assert(member(raw@, "cases"@) == Some(JsonView::Array(cases)));
    assert(member(cases[c], "steps"@) == Some(JsonView::Array(steps)));
    assert forall|k: int| 0 <= k < c implies case_fits(#[trigger] cases[k]) by {
        members_stand_under_their_key(cases[k], "steps"@);
        if let Some(JsonView::Array(list)) = member(cases[k], "steps"@) {
            assert(stands_under(cases[k], "steps"@, JsonView::Array(list)));
            assert forall|n: int| 0 <= n < list.len() implies step_fits(#[trigger] list[n]) by {
                fitting_steps_follow_the_schema(list[n]);
            }
        }
    }
    assert forall|n: int| 0 <= n < s implies step_fits(#[trigger] steps[n]) by {
        fitting_steps_follow_the_schema(steps[n]);
    }
    fitting_steps_follow_the_schema(steps[s]);
    let label = case_label(cases[c], c);
    fault_comes_after_fitting_steps(label, steps, 0, s);
    fault_comes_after_fitting_cases(cases, 0, c);
    assert(place =~= step_place(label, s)) by {
        if let Some(JsonView::Text(id)) = member(cases[c], "id"@) {
            assert(stands_under(cases[c], "id"@, JsonView::Text(id)));
        } else {
            assert forall|id: Seq<char>| !#[trigger] stands_under(
                cases[c],
                "id"@,
                JsonView::Text(id),
            ) by {}
        }
    }
    assert forall|name: Seq<char>| #[trigger]
        stands_under(steps[s], "op"@, JsonView::Text(name)) && schema(name) is None implies r->Err_0@
        == place + ": unknown op "@ + quoted_text(name) by {
        operations_follow_the_schema(name, "op"@);
    }
    assert forall|name: Seq<char>, i: int|
        #![trigger stands_under(steps[s], "op"@, JsonView::Text(name)), steps[s]->Object_0[i]]
        stands_under(steps[s], "op"@, JsonView::Text(name)) && schema(name) is Some && 0 <= i
            < steps[s]->Object_0.len() && !(schema(name)->0).contains(steps[s]->Object_0[i].0) && (
        forall|k: int|
            0 <= k < i ==> (schema(name)->0).contains(
                (#[trigger] steps[s]->Object_0[k]).0,
            )) implies r->Err_0@ == place + " (op "@ + quoted_text(name) + "): unknown field "@
        + quoted_text(steps[s]->Object_0[i].0) by {
        let entries = steps[s]->Object_0;
        operations_follow_the_schema(name, entries[i].0);
        assert forall|k: int| 0 <= k < i implies may_hold(
            op_of(name)->0,
            (#[trigger] entries[k]).0,
        ) by {
            operations_follow_the_schema(name, entries[k].0);
            assert((schema(name)->0).contains(steps[s]->Object_0[k].0));
        }
        first_unknown_field(op_of(name)->0, entries, i);
    }
    if steps[s] is Object && (forall|name: Seq<char>|
        !#[trigger] stands_under(steps[s], "op"@, JsonView::Text(name))) {
        if let Some(JsonView::Text(name)) = member(steps[s], "op"@) {
            assert(stands_under(steps[s], "op"@, JsonView::Text(name)));
        }
    }
}

/// Reading a manifest is parsing its bytes and checking its raw steps.
pub proof fn manifests_are_parsed_and_checked(
    bytes: &[u8],
    parsed: Result<Json, String>,
    raw: Json,
    checked: Result<(), String>,
    r: Result<Json, String>,
)
    requires
        call_ensures(Json::parse_bytes, (bytes,), parsed),
        call_ensures(validate_raw_step_fields, (&raw,), checked),
        call_ensures(read_manifest_json, (bytes,), r),
    ensures
        parsed matches Err(message) ==> r is Err && r->Err_0@ == "invalid manifest JSON: "@
            + message@,
        parsed is Ok && parsed->Ok_0@ == raw@ ==> {
            &&& checked is Ok ==> r is Ok && r->Ok_0@ == raw@
            &&& checked matches Err(message) ==> r is Err && r->Err_0@ == message@
        },
{
}

/// The case at `at` is the first that keeps its manifest from being run: the ones before it
/// have ids and steps, and no two of them have one id.
pub open spec fn is_first_at_fault(cases: Seq<Case>, at: int) -> bool {
    &&& 0 <= at < cases.len()
    &&& forall|i: int|
        0 <= i < at ==> (#[trigger] cases[i]).id@.len() > 0 && cases[i].steps@.len() > 0
    &&& forall|i: int, j: int|
        0 <= i < j < at ==> (#[trigger] cases[i]).id@ != (#[trigger] cases[j]).id@
}

/// A manifest passes exactly where it has cases, every case has an id and steps, and no two
/// have one id; otherwise the first case at fault is told, with what is wrong.
pub proof fn manifests_need_cases_ids_and_steps(
    manifest: Manifest,
    at: int,
    r: Result<(), String>,
)
    requires
        call_ensures(validate_manifest, (&manifest,), r),
    ensures
        r is Ok == (manifest.cases@.len() > 0 && (forall|i: int|
            0 <= i < manifest.cases@.len() ==> (#[trigger] manifest.cases@[i]).id@.len() > 0
                && manifest.cases@[i].steps@.len() > 0) && (forall|i: int, j: int|
            0 <= i < j < manifest.cases@.len() ==> (#[trigger] manifest.cases@[i]).id@ != (
            #[trigger] manifest.cases@[j]).id@)),
        manifest.cases@.len() == 0 ==> r->Err_0@ == "manifest cases must not be empty"@,
        is_first_at_fault(manifest.cases@, at) ==> {
            let case = manifest.cases@[at];
            let twice = exists|i: int|
                0 <= i < at && (#[trigger] manifest.cases@[i]).id@ == case.id@;
            &&& case.id@.len() == 0 ==> r is Err && r->Err_0@ == "case id must not be empty"@
            &&& case.id@.len() > 0 && twice ==> r is Err && r->Err_0@ == "duplicate case id "@
                + quoted_text(case.id@)
            &&& case.id@.len() > 0 && !twice && case.steps@.len() == 0 ==> r is Err && r->Err_0@
                == "case "@ + quoted_text(case.id@) + " has no steps"@
        },
{
    let cases = manifest.cases@;
    manifest_check_is_exact(cases);
    if cases_are_valid(cases) {
        assert forall|i: int| 0 <= i < cases.len() implies (#[trigger] cases[i]).id@.len() > 0
            && cases[i].steps@.len() > 0 by {}
    }
    if is_first_at_fault(cases, at) {
        assert forall|i: int| 0 <= i < at implies #[trigger] case_problem(cases, i) is None by {
            assert(cases[i].id@.len() > 0 && cases[i].steps@.len() > 0);
        }
        if case_problem(cases, at) is Some {
            problems_start_at(cases, 0, at);
        }
    }
}

/// Cases without a problem do not hide the problem of a later one.
proof fn problems_start_at(cases: Seq<Case>, from: int, at: int)
    requires
        0 <= from <= at < cases.len(),
        forall|i: int| from <= i < at ==> #[trigger] case_problem(cases, i) is None,
        case_problem(cases, at) is Some,
    ensures
        first_problem(cases, from) == case_problem(cases, at),
    decreases at - from,
{
    if from < at {
        problems_start_at(cases, from + 1, at);
    }
}

/// `picked` is the cases at `places`, which ascend, and those are the cases that are wanted.
pub open spec fn is_selection(
    picked: Seq<&Case>,
    cases: Seq<Case>,
    requested: Option<&Vec<String>>,
    places: Seq<int>,
) -> bool {
    &&& picked.len() == places.len()
    &&& forall|k: int|
        0 <= k < places.len() ==> 0 <= #[trigger] places[k] < cases.len() && *picked[k]
            == cases[places[k]]
    &&& forall|j: int, k: int|
        0 <= j < k < places.len() ==> #[trigger] places[j] < #[trigger] places[k]
    &&& forall|i: int|
        0 <= i < cases.len() ==> (#[trigger] places.contains(i) == match requested {
            None => true,
            Some(ids) => exists|n: int|
                0 <= n < ids@.len() && (#[trigger] ids@[n])@ == cases[i].id@,
        })
}

/// A selection succeeds exactly where every requested id is the id of a case, and then takes
/// the requested cases in the order of the manifest, each once; without a request it takes
/// all.
pub proof fn selections_take_what_is_requested(
    manifest: Manifest,
    requested: Option<&Vec<String>>,
    r: Result<Vec<&Case>, String>,
)
    requires
        call_ensures(select_cases, (&manifest, requested), r),
    ensures
        r is Ok == (requested matches Some(ids) ==> forall|n: int|
            0 <= n < ids@.len() ==> exists|i: int|
                0 <= i < manifest.cases@.len() && (#[trigger] manifest.cases@[i]).id@ == (
                #[trigger] ids@[n])@),
        r matches Ok(picked) ==> exists|places: Seq<int>| #[trigger]
            is_selection(picked@, manifest.cases@, requested, places),
{
    let cases = manifest.cases@;
    let views = requested_views(requested);
    selection_is_exact(cases, views);
    if let Some(ids) = requested {
        let wanted = text_views(ids@);
        selection_is_refused_for_unknown_ids(cases, wanted);
        assert forall|n: int| 0 <= n < ids@.len() implies (exists|i: int|
            0 <= i < cases.len() && (#[trigger] cases[i]).id@ == (#[trigger] ids@[n])@) == has_case(
            cases,
            wanted[n],
        ) by {
            assert(wanted[n] == ids@[n]@);
        }
        assert forall|i: int| 0 <= i < cases.len() implies wanted.contains(
            (#[trigger] cases[i]).id@,
        ) == (exists|n: int| 0 <= n < ids@.len() && (#[trigger] ids@[n])@ == cases[i].id@) by {
            if wanted.contains(cases[i].id@) {
                let n = wanted.index_of(cases[i].id@);
                assert(ids@[n]@ == wanted[n]);
            }
            if exists|n: int| 0 <= n < ids@.len() && (#[trigger] ids@[n])@ == cases[i].id@ {
                let n = choose|n: int|
                    0 <= n < ids@.len() && (#[trigger] ids@[n])@ == cases[i].id@;
                assert(wanted[n] == cases[i].id@);
            }
        }
        if r is Ok {
            assert forall|n: int| 0 <= n < ids@.len() implies exists|i: int|
                0 <= i < cases.len() && (#[trigger] cases[i]).id@ == (#[trigger] ids@[n])@ by {
                assert(has_case(cases, wanted[n]));
            }
        } else {
            let n = choose|n: int| 0 <= n < wanted.len() && !has_case(cases, #[trigger] wanted[n]);
            assert(wanted[n] == ids@[n]@);
            assert(!(exists|i: int|
                0 <= i < cases.len() && (#[trigger] cases[i]).id@ == ids@[n]@));
        }
    }
    if let Ok(picked) = r {
        let places = selected_places(cases, views);
        assert forall|i: int| 0 <= i < cases.len() implies (#[trigger] places.contains(i)
            == match requested {
            None => true,
            Some(ids) => exists|n: int|
                0 <= n < ids@.len() && (#[trigger] ids@[n])@ == cases[i].id@,
        }) by {
            assert(cases[i].id@ == cases[i].id@);
        }
        assert(is_selection(picked@, cases, requested, places));
    }
}

/// A refused selection tells the unknown ids: each of them once, none that is known, parted
/// by a comma and a space.
pub proof fn refused_selections_tell_the_unknown_ids(
    manifest: Manifest,
    ids: &Vec<String>,
    r: Result<Vec<&Case>, String>,
)
    requires
        call_ensures(select_cases, (&manifest, Some(ids)), r),
        r is Err,
    ensures
        exists|unknown: Seq<Seq<char>>|
            {
                &&& unknown.no_duplicates()
                &&& unknown.len() > 0
                &&& forall|id: Seq<char>| #[trigger]
                    unknown.contains(id) == ((exists|n: int|
                        0 <= n < ids@.len() && (#[trigger] ids@[n])@ == id) && !(exists|i: int|
                        0 <= i < manifest.cases@.len() && (#[trigger] manifest.cases@[i]).id@
                            == id))
                &&& r->Err_0@ == "unknown case id(s): "@ + #[trigger] joined(unknown)
            },
{
    let cases = manifest.cases@;
    let wanted = text_views(ids@);
    let unknown = missing_ids(wanted, cases);
    missing_ids_are_exact(wanted, cases);
    assert forall|id: Seq<char>| #[trigger] unknown.contains(id) == ((exists|n: int|
        0 <= n < ids@.len() && (#[trigger] ids@[n])@ == id) && !(exists|i: int|
        0 <= i < cases.len() && (#[trigger] cases[i]).id@ == id)) by {
        assert(wanted.contains(id) == exists|n: int|
            0 <= n < ids@.len() && (#[trigger] ids@[n])@ == id) by {
            if wanted.contains(id) {
                let n = wanted.index_of(id);
                assert(ids@[n]@ == id);
            }
            if exists|n: int| 0 <= n < ids@.len() && (#[trigger] ids@[n])@ == id {
                let n = choose|n: int| 0 <= n < ids@.len() && (#[trigger] ids@[n])@ == id;
                assert(wanted[n] == id);
            }
        }
    }
    assert(r->Err_0@ == "unknown case id(s): "@ + joined(unknown));
}

/// Joining puts a comma and a space between neighbours and nowhere else.
pub proof fn joining_parts_neighbours(first: Seq<Seq<char>>, second: Seq<Seq<char>>)
    requires
        first.len() > 0,
        second.len() > 0,
    ensures
        joined(first + second) == joined(first) + ", "@ + joined(second),
        first.len() == 1 ==> joined(first) == first[0],
    decreases second.len(),
{
    let both = first + second;
    assert(both.last() == second.last());
    if second.len() == 1 {
        assert(both.drop_last() =~= first);
    } else {
        joining_parts_neighbours(first, second.drop_last());
        assert(both.drop_last() =~= first + second.drop_last());
        assert(joined(first) + ", "@ + (joined(second.drop_last()) + ", "@ + second.last())
            =~= joined(first) + ", "@ + joined(second.drop_last()) + ", "@ + second.last());
    }
}

/// Preparing a manifest is checking its version, then its cases, then selecting.
pub proof fn preparation_is_checking_and_selecting(
    manifest: Manifest,
    requested: Option<&Vec<String>>,
    checked: Result<(), String>,
    selected: Result<Vec<&Case>, String>,
    r: Result<Vec<&Case>, String>,
)
    requires
        call_ensures(validate_manifest, (&manifest,), checked),
        call_ensures(select_cases, (&manifest, requested), selected),
        call_ensures(prepare, (&manifest, requested), r),
    ensures
        r is Ok == (manifest.version == 1 && checked is Ok && selected is Ok),
        r is Ok ==> r->Ok_0@ == selected->Ok_0@,
        manifest.version != 1 ==> r->Err_0@ == "unsupported manifest version "@ + decimal_text(
            manifest.version as nat,
        ) + "; expected 1"@,
        manifest.version == 1 && checked is Err ==> r->Err_0@ == checked->Err_0@,
        manifest.version == 1 && checked is Ok && selected is Err ==> r->Err_0@
            == selected->Err_0@,
{
    if r is Ok {
        let places = selected_places(manifest.cases@, requested_views(requested));
        assert forall|k: int| 0 <= k < places.len() implies r->Ok_0@[k] == selected->Ok_0@[k] by {
            assert(0 <= places[k] < manifest.cases@.len());
        }
        assert(r->Ok_0@ =~= selected->Ok_0@);
    }
}

} // verus!
