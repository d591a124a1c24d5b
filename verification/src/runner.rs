//! Running the steps of a test case: what each step asks of the browser, what its reply
//! means, and how a case and a whole run end.

use crate::json::{
    agreement_is_sameness, json_text, json_view, values_agree, well_formed, zeros_unsigned, Json,
    JsonView, NumberView,
};
use crate::manifest::{Case, Step};
use crate::percent::{data_url, data_url_text};
use crate::text::{
    contains_text, decimal, decimal_text, occurring_is_having_around, occurs_in, optional_text,
    quoted, quoted_text, same_text,
};
use vstd::prelude::*;
use vstd::string::*;

verus! {

/// `serde_json::Map`, the captures of a case.
#[verifier::external_type_specification]
#[verifier::external_body]
#[verifier::reject_recursive_types(K)]
#[verifier::reject_recursive_types(V)]
pub struct ExJsonMap<K, V>(serde_json::Map<K, V>);

/// What a `serde_json::Map` holds.
pub uninterp spec fn map_view(map: serde_json::Map<String, serde_json::Value>) -> Map<
    Seq<char>,
    JsonView,
>;

/// No captures at all.
pub open spec fn no_captures() -> Map<Seq<char>, JsonView> {
    Map::empty()
}

/// `serde_json::Map::new`: the map is empty.
pub assume_specification[ serde_json::Map::<String, serde_json::Value>::new ]() -> (empty: serde_json::Map<
    String,
    serde_json::Value,
>)
    ensures
        map_view(empty) == no_captures(),
;

/// `serde_json::Map::insert`: the key stands for the new value; the value that it stood for
/// before, if any, is handed back.
pub assume_specification[ serde_json::Map::<String, serde_json::Value>::insert ](
    map: &mut serde_json::Map<String, serde_json::Value>,
    k: String,
    v: serde_json::Value,
) -> (before: Option<serde_json::Value>)
    ensures
        map_view(*final(map)) == map_view(*old(map)).insert(k@, json_view(v)),
        match before {
            Some(value) => map_view(*old(map)).dom().contains(k@) && map_view(*old(map))[k@]
                == json_view(value),
            None => !map_view(*old(map)).dom().contains(k@),
        },
;

/// The captures after a step, and what is wrong, if anything.
pub struct StepEnd {
    pub captures: Map<Seq<char>, JsonView>,
    pub error: Option<Seq<char>>,
}

/// A capture: the name stands for the value, and it is an error if it stood for one before.
pub open spec fn captured(
    captures: Map<Seq<char>, JsonView>,
    name: Seq<char>,
    value: JsonView,
) -> StepEnd {
    StepEnd {
        captures: captures.insert(name, value),
        error: if captures.dom().contains(name) {
            Some("duplicate capture name "@ + quoted_text(name))
        } else {
            None
        },
    }
}

/// A result reports an error exactly where there is one.
pub open spec fn tells(r: Result<(), String>, error: Option<Seq<char>>) -> bool {
    match r {
        Ok(()) => error is None,
        Err(message) => error == Some(message@),
    }
}

/// Records a capture. The value is recorded also where the name was taken.
pub fn insert_capture(
    captures: &mut serde_json::Map<String, serde_json::Value>,
    name: &str,
    value: serde_json::Value,
) -> (r: Result<(), String>)
    ensures
        map_view(*final(captures)) == captured(
            map_view(*old(captures)),
            name@,
            json_view(value),
        ).captures,
        tells(r, captured(map_view(*old(captures)), name@, json_view(value)).error),
{
    if captures.insert(name.to_owned(), value).is_some() {
        let mut message = String::from_str("duplicate capture name ");
        message.append(quoted(name).as_str());
        Err(message)
    } else {
        Ok(())
    }
}

/// What is wrong with a text that must equal one text or contain another, if anything.
pub open spec fn text_verdict(
    label: Seq<char>,
    actual: Seq<char>,
    equals: Option<Seq<char>>,
    contains: Option<Seq<char>>,
) -> Option<Seq<char>> {
    match (equals, contains) {
        (Some(expected), None) => if actual == expected {
            None
        } else {
            Some(
                label + " mismatch: expected "@ + quoted_text(expected) + ", got "@ + quoted_text(
                    actual,
                ),
            )
        },
        (None, Some(expected)) => if occurs_in(actual, expected) {
            None
        } else {
            Some(
                label + " did not contain "@ + quoted_text(expected) + "; got "@ + quoted_text(
                    actual,
                ),
            )
        },
        _ => Some("assertion requires exactly one of equals or contains"@),
    }
}

/// Checks a text that must equal one text or contain another.
pub fn assert_string(
    label: &str,
    actual: &str,
    equals: &Option<String>,
    contains: &Option<String>,
) -> (r: Result<(), String>)
    ensures
        tells(
            r,
            text_verdict(label@, actual@, optional_text(*equals), optional_text(*contains)),
        ),
{
    match (equals, contains) {
        (Some(expected), None) => {
            if same_text(actual, expected.as_str()) {
                Ok(())
            } else {
                let mut message = label.to_owned();
                message.append(" mismatch: expected ");
                message.append(quoted(expected.as_str()).as_str());
                message.append(", got ");
                message.append(quoted(actual).as_str());
                Err(message)
            }
        },
        (None, Some(expected)) => {
            if contains_text(actual, expected.as_str()) {
                Ok(())
            } else {
                let mut message = label.to_owned();
                message.append(" did not contain ");
                message.append(quoted(expected.as_str()).as_str());
                message.append("; got ");
                message.append(quoted(actual).as_str());
                Err(message)
            }
        },
        _ => Err(String::from_str("assertion requires exactly one of equals or contains")),
    }
}

/// What a step asks of the page.
#[derive(Debug)]
pub enum Action<'a> {
    Goto { target: String, wait_until: &'a Option<String> },
    Click { selector: &'a String },
    Fill { selector: &'a String, value: &'a String },
    Title,
    TextContent { selector: &'a String },
    Evaluate { expression: &'a String, arg: Option<&'a Json> },
    Screenshot,
}

/// The model of an action.
pub enum ActionView {
    Goto { target: Seq<char>, wait_until: Option<Seq<char>> },
    Click { selector: Seq<char> },
    Fill { selector: Seq<char>, value: Seq<char> },
    Title,
    TextContent { selector: Seq<char> },
    Evaluate { expression: Seq<char>, arg: Option<JsonView> },
    Screenshot,
}

impl<'a> View for Action<'a> {
    type V = ActionView;

    open spec fn view(&self) -> ActionView {
        match *self {
            Action::Goto { target, wait_until } => ActionView::Goto {
                target: target@,
                wait_until: optional_text(*wait_until),
            },
            Action::Click { selector } => ActionView::Click { selector: selector@ },
            Action::Fill { selector, value } => ActionView::Fill {
                selector: selector@,
                value: value@,
            },
            Action::Title => ActionView::Title,
            Action::TextContent { selector } => ActionView::TextContent { selector: selector@ },
            Action::Evaluate { expression, arg } => ActionView::Evaluate {
                expression: expression@,
                arg: match arg {
                    Some(json) => Some(json@),
                    None => None,
                },
            },
            Action::Screenshot => ActionView::Screenshot,
        }
    }
}

/// Where a navigation goes: to the given address, or to the document of the case.
pub open spec fn goto_target(
    html: Option<Seq<char>>,
    url: Option<Seq<char>>,
    use_case_html: Option<bool>,
) -> Result<Seq<char>, Seq<char>> {
    match (url, use_case_html == Some(true)) {
        (Some(url), false) => Ok(url),
        (None, true) => match html {
            Some(html) => Ok(data_url_text(html)),
            None => Err("goto.useCaseHtml requires the case to define html"@),
        },
        _ => Err("goto requires exactly one of url or useCaseHtml:true"@),
    }
}

/// What a step asks of the page, or why it cannot be asked.
pub open spec fn planned(case: Case, step: Step) -> Result<ActionView, Seq<char>> {
    match step {
        Step::Goto { url, use_case_html, wait_until } => match goto_target(
            optional_text(case.html),
            optional_text(url),
            use_case_html,
        ) {
            Ok(target) => Ok(ActionView::Goto { target, wait_until: optional_text(wait_until) }),
            Err(error) => Err(error),
        },
        Step::Click { selector } => Ok(ActionView::Click { selector: selector@ }),
        Step::Fill { selector, value } => Ok(
            ActionView::Fill { selector: selector@, value: value@ },
        ),
        Step::Title { .. } => Ok(ActionView::Title),
        Step::TextContent { selector, .. } => Ok(ActionView::TextContent { selector: selector@ }),
        Step::Evaluate { expression, arg, .. } => Ok(
            ActionView::Evaluate {
                expression: expression@,
                arg: match arg {
                    Some(json) => Some(json@),
                    None => None,
                },
            },
        ),
        Step::Screenshot { .. } => Ok(ActionView::Screenshot),
        Step::AssertTitle { .. } => Ok(ActionView::Title),
        Step::AssertText { selector, .. } => Ok(ActionView::TextContent { selector: selector@ }),
        Step::AssertEval { expression, .. } => Ok(
            ActionView::Evaluate { expression: expression@, arg: None },
        ),
    }
}

/// Finds what a step asks of the page.
pub fn plan_step<'a>(case: &'a Case, step: &'a Step) -> (r: Result<Action<'a>, String>)
    ensures
        match r {
            Ok(action) => planned(*case, *step) == Ok::<ActionView, Seq<char>>(action@),
            Err(message) => planned(*case, *step) == Err::<ActionView, Seq<char>>(message@),
        },
{
    match step {
        Step::Goto { url, use_case_html, wait_until } => {
            let own_html = match use_case_html {
                Some(flag) => *flag,
                None => false,
            };
            match (url, own_html) {
                (Some(url), false) => Ok(Action::Goto { target: url.clone(), wait_until }),
                (None, true) => match &case.html {
                    Some(html) => Ok(
                        Action::Goto { target: data_url(html.as_str()), wait_until },
                    ),
                    None => Err(
                        String::from_str("goto.useCaseHtml requires the case to define html"),
                    ),
                },
                _ => Err(
                    String::from_str("goto requires exactly one of url or useCaseHtml:true"),
                ),
            }
        },
        Step::Click { selector } => Ok(Action::Click { selector }),
        Step::Fill { selector, value } => Ok(Action::Fill { selector, value }),
        Step::Title { .. } => Ok(Action::Title),
        Step::TextContent { selector, .. } => Ok(Action::TextContent { selector }),
        Step::Evaluate { expression, arg, .. } => Ok(
            Action::Evaluate {
                expression,
                arg: match arg {
                    Some(json) => Some(json),
                    None => None,
                },
            },
        ),
        Step::Screenshot { .. } => Ok(Action::Screenshot),
        Step::AssertTitle { .. } => Ok(Action::Title),
        Step::AssertText { selector, .. } => Ok(Action::TextContent { selector }),
        Step::AssertEval { expression, .. } => Ok(Action::Evaluate { expression, arg: None }),
    }
}

/// What a page replies to an action.
#[derive(Debug)]
pub enum Reply {
    /// The action failed, with this message.
    Failed(String),
    /// A navigation, a click or a filled field is done.
    Done,
    /// The title of the document.
    Title(String),
    /// The text of an element, none for a JavaScript null.
    Content(Option<String>),
    /// The value of an expression.
    Value(Json),
    /// The image of the page.
    Image(Vec<u8>),
}

/// The model of a reply.
pub enum ReplyView {
    Failed(Seq<char>),
    Done,
    Title(Seq<char>),
    Content(Option<Seq<char>>),
    Value(JsonView),
    Image(Seq<u8>),
}

impl View for Reply {
    type V = ReplyView;

    open spec fn view(&self) -> ReplyView {
        match *self {
            Reply::Failed(message) => ReplyView::Failed(message@),
            Reply::Done => ReplyView::Done,
            Reply::Title(title) => ReplyView::Title(title@),
            Reply::Content(text) => ReplyView::Content(optional_text(text)),
            Reply::Value(json) => ReplyView::Value(json@),
            Reply::Image(bytes) => ReplyView::Image(bytes@),
        }
    }
}

/// A reply of the kind that a step can get.
pub open spec fn answers(reply: ReplyView, step: Step) -> bool {
    reply is Failed || match step {
        Step::Goto { .. } | Step::Click { .. } | Step::Fill { .. } => reply is Done,
        Step::Title { .. } | Step::AssertTitle { .. } => reply is Title,
        Step::TextContent { .. } | Step::AssertText { .. } => reply is Content,
        Step::Evaluate { .. } | Step::AssertEval { .. } => reply matches ReplyView::Value(value)
            && well_formed(value),
        Step::Screenshot { .. } => reply is Image,
    }
}

/// The JSON values that a step holds are well formed.
pub open spec fn step_is_valid(step: Step) -> bool {
    match step {
        Step::AssertEval { equals, .. } => well_formed(equals@),
        _ => true,
    }
}

/// A text as JSON; null stands for none.
pub open spec fn content_json(text: Option<Seq<char>>) -> JsonView {
    match text {
        Some(text) => JsonView::Text(text),
        None => JsonView::Null,
    }
}

/// What is wrong with a text that an element had, if anything.
pub open spec fn content_verdict(
    selector: Seq<char>,
    text: Option<Seq<char>>,
    equals: Option<Seq<char>>,
    contains: Option<Seq<char>>,
) -> Option<Seq<char>> {
    match text {
        Some(actual) => text_verdict(
            "textContent for "@ + quoted_text(selector),
            actual,
            equals,
            contains,
        ),
        None => Some("textContent for "@ + quoted_text(selector) + " was null"@),
    }
}

/// What is wrong with a value that must equal another, if anything.
pub open spec fn value_verdict(actual: JsonView, equals: JsonView) -> Option<Seq<char>> {
    if values_agree(actual, equals) {
        None
    } else {
        Some(
            "evaluate mismatch: expected "@ + json_text(equals) + ", got "@ + json_text(actual),
        )
    }
}

/// How a step ends on a reply.
pub open spec fn step_end(
    step: Step,
    reply: ReplyView,
    captures: Map<Seq<char>, JsonView>,
) -> StepEnd {
    match (step, reply) {
        (_, ReplyView::Failed(message)) => StepEnd { captures, error: Some(message) },
        (Step::Title { capture }, ReplyView::Title(title)) => captured(
            captures,
            capture@,
            JsonView::Text(title),
        ),
        (Step::TextContent { capture, .. }, ReplyView::Content(text)) => captured(
            captures,
            capture@,
            content_json(text),
        ),
        (Step::Evaluate { capture, .. }, ReplyView::Value(value)) => captured(
            captures,
            capture@,
            value,
        ),
        (Step::Screenshot { capture }, ReplyView::Image(bytes)) => captured(
            captures,
            capture@,
            JsonView::Number(NumberView::PosInt(bytes.len() as u64)),
        ),
        (Step::AssertTitle { equals, contains }, ReplyView::Title(title)) => StepEnd {
            captures,
            error: text_verdict("title"@, title, optional_text(equals), optional_text(contains)),
        },
        (Step::AssertText { selector, equals, contains }, ReplyView::Content(text)) => StepEnd {
            captures,
            error: content_verdict(
                selector@,
                text,
                optional_text(equals),
                optional_text(contains),
            ),
        },
        (Step::AssertEval { equals, .. }, ReplyView::Value(actual)) => StepEnd {
            captures,
            error: value_verdict(actual, equals@),
        },
        _ => StepEnd { captures, error: None },
    }
}

/// Ends a step on a reply to what it asked.
pub fn finish_step(
    step: &Step,
    reply: Reply,
    captures: &mut serde_json::Map<String, serde_json::Value>,
) -> (r: Result<(), String>)
    requires
        step_is_valid(*step),
        answers(reply@, *step),
    ensures
        map_view(*final(captures)) == step_end(*step, reply@, map_view(*old(captures))).captures,
        tells(r, step_end(*step, reply@, map_view(*old(captures))).error),
{
    match (step, reply) {
        (_, Reply::Failed(message)) => Err(message),
        (Step::Title { capture }, Reply::Title(title)) => {
            let json = Json::Text(title);
            insert_capture(captures, capture.as_str(), json.to_value())
        },
        (Step::TextContent { capture, .. }, Reply::Content(text)) => {
            let json = match text {
                Some(text) => Json::Text(text),
                None => Json::Null,
            };
            insert_capture(captures, capture.as_str(), json.to_value())
        },
        (Step::Evaluate { capture, .. }, Reply::Value(json)) => insert_capture(
            captures,
            capture.as_str(),
            json.to_value(),
        ),
        (Step::Screenshot { capture }, Reply::Image(bytes)) => {
            let json = Json::number(bytes.len() as u64);
            insert_capture(captures, capture.as_str(), json.to_value())
        },
        (Step::AssertTitle { equals, contains }, Reply::Title(title)) => assert_string(
            "title",
            title.as_str(),
            equals,
            contains,
        ),
        (Step::AssertText { selector, equals, contains }, Reply::Content(text)) => {
            let mut label = String::from_str("textContent for ");
            label.append(quoted(selector.as_str()).as_str());
            match text {
                Some(actual) => assert_string(label.as_str(), actual.as_str(), equals, contains),
                None => {
                    label.append(" was null");
                    Err(label)
                },
            }
        },
        (Step::AssertEval { equals, .. }, Reply::Value(actual)) => {
            if actual.agrees_with(equals) {
                Ok(())
            } else {
                let mut message = String::from_str("evaluate mismatch: expected ");
                message.append(equals.print().as_str());
                message.append(", got ");
                message.append(actual.print().as_str());
                Err(message)
            }
        },
        _ => Ok(()),
    }
}

/// Where the run of a case stands.
#[derive(Debug)]
pub enum Phase<'a> {
    /// A page is being opened.
    Opening,
    /// The page has been asked for the step at `index`.
    Awaiting { index: usize, action: Action<'a> },
    /// The page is being closed; the steps ended with this error, if any.
    Closing { error: Option<String> },
    /// The run is over, with this error, if any.
    Finished { error: Option<String> },
}

/// The model of a phase.
pub enum PhaseView {
    Opening,
    Awaiting { index: int, action: ActionView },
    Closing { error: Option<Seq<char>> },
    Finished { error: Option<Seq<char>> },
}

impl<'a> View for Phase<'a> {
    type V = PhaseView;

    open spec fn view(&self) -> PhaseView {
        match *self {
            Phase::Opening => PhaseView::Opening,
            Phase::Awaiting { index, action } => PhaseView::Awaiting {
                index: index as int,
                action: action@,
            },
            Phase::Closing { error } => PhaseView::Closing { error: optional_text(error) },
            Phase::Finished { error } => PhaseView::Finished { error: optional_text(error) },
        }
    }
}

/// The model of a run: its phase and the captures so far.
pub struct RunView {
    pub phase: PhaseView,
    pub captures: Map<Seq<char>, JsonView>,
}

/// The run of one case on a page of its own.
pub struct CaseRun<'a> {
    pub case: &'a Case,
    pub phase: Phase<'a>,
    pub captures: serde_json::Map<String, serde_json::Value>,
}

impl<'a> View for CaseRun<'a> {
    type V = RunView;

    open spec fn view(&self) -> RunView {
        RunView { phase: self.phase@, captures: map_view(self.captures) }
    }
}

/// The JSON values that the steps of a case hold are well formed.
pub open spec fn case_is_valid(case: Case) -> bool {
    forall|i: int| 0 <= i < case.steps@.len() ==> step_is_valid(#[trigger] case.steps@[i])
}

/// How an error names its step; steps are counted from one.
pub open spec fn step_message(index: int, error: Seq<char>) -> Seq<char> {
    "step "@ + decimal_text((index + 1) as nat) + ": "@ + error
}

/// What comes before the step at `index`: asking for it, or closing the page where it cannot
/// be asked or no step is left.
pub open spec fn before_step(case: Case, index: int) -> PhaseView {
    if index >= case.steps@.len() {
        PhaseView::Closing { error: None }
    } else {
        match planned(case, case.steps@[index]) {
            Ok(action) => PhaseView::Awaiting { index, action },
            Err(error) => PhaseView::Closing { error: Some(step_message(index, error)) },
        }
    }
}

/// What comes after an attempt to open a page; `error` tells why it failed, if it did.
pub open spec fn after_open(case: Case, run: RunView, error: Option<Seq<char>>) -> RunView {
    RunView {
        phase: match error {
            None => before_step(case, 0),
            Some(error) => PhaseView::Finished { error: Some("new page failed: "@ + error) },
        },
        captures: run.captures,
    }
}

/// What comes after the reply to a step: the next step, unless this one failed.
pub open spec fn after_reply(case: Case, run: RunView, reply: ReplyView) -> RunView {
    let index = run.phase->index;
    let end = step_end(case.steps@[index], reply, run.captures);
    RunView {
        phase: match end.error {
            None => before_step(case, index + 1),
            Some(error) => PhaseView::Closing { error: Some(step_message(index, error)) },
        },
        captures: end.captures,
    }
}

/// What comes after an attempt to close the page; `error` tells why it failed, if it did. An
/// error of the steps is kept in any case.
pub open spec fn after_close(run: RunView, error: Option<Seq<char>>) -> RunView {
    let ended = run.phase->Closing_error;
    RunView {
        phase: PhaseView::Finished {
            error: match (ended, error) {
                (None, Some(error)) => Some("page close failed: "@ + error),
                _ => ended,
            },
        },
        captures: run.captures,
    }
}

/// What a browser call reports: nothing, or why it failed.
pub open spec fn call_error(result: Result<(), String>) -> Option<Seq<char>> {
    match result {
        Ok(()) => None,
        Err(message) => Some(message@),
    }
}

impl<'a> CaseRun<'a> {
    /// The run is at a place that it can reach.
    pub open spec fn wf(&self) -> bool {
        &&& case_is_valid(*self.case)
        &&& self.phase matches Phase::Awaiting { index, action } ==> {
            &&& index < self.case.steps@.len()
            &&& planned(*self.case, self.case.steps@[index as int]) == Ok::<ActionView, Seq<char>>(
                action@,
            )
        }
    }

    /// A run that is about to open its page.
    pub fn new(case: &'a Case) -> (r: Self)
        requires
            case_is_valid(*case),
        ensures
            r.wf(),
            r.case == case,
            r@ == (RunView { phase: PhaseView::Opening, captures: no_captures() }),
    {
        CaseRun { case, phase: Phase::Opening, captures: serde_json::Map::new() }
    }

    /// Comes to the step at `index`.
    fn come_to(case: &'a Case, index: usize) -> (r: Phase<'a>)
        requires
            index <= case.steps@.len(),
        ensures
            r@ == before_step(*case, index as int),
            r matches Phase::Awaiting { index: at, .. } ==> at == index < case.steps@.len(),
    {
        if index >= case.steps.len() {
            Phase::Closing { error: None }
        } else {
            match plan_step(case, &case.steps[index]) {
                Ok(action) => Phase::Awaiting { index, action },
                Err(error) => Phase::Closing { error: Some(name_step(index, error.as_str())) },
            }
        }
    }

    /// Goes on after the attempt to open a page.
    pub fn opened(self, result: Result<(), String>) -> (r: Self)
        requires
            self.wf(),
            self.phase is Opening,
        ensures
            r.wf(),
            r.case == self.case,
            r@ == after_open(*self.case, self@, call_error(result)),
    {
        let phase = match result {
            Ok(()) => CaseRun::come_to(self.case, 0),
            Err(error) => {
                let mut message = String::from_str("new page failed: ");
                message.append(error.as_str());
                Phase::Finished { error: Some(message) }
            },
        };
        CaseRun { case: self.case, phase, captures: self.captures }
    }

    /// Goes on after the reply to the step that the run awaits.
    pub fn replied(self, reply: Reply) -> (r: Self)
        requires
            self.wf(),
            self.phase matches Phase::Awaiting { index, .. } && answers(
                reply@,
                self.case.steps@[index as int],
            ),
        ensures
            r.wf(),
            r.case == self.case,
            r@ == after_reply(*self.case, self@, reply@),
    {
        let case = self.case;
        let mut captures = self.captures;
        match self.phase {
            Phase::Awaiting { index, .. } => {
                assert(index < case.steps.len() <= usize::MAX);
                let phase = match finish_step(&case.steps[index], reply, &mut captures) {
                    Ok(()) => CaseRun::come_to(case, index + 1),
                    Err(error) => Phase::Closing { error: Some(name_step(index, error.as_str())) },
                };
                CaseRun { case, phase, captures }
            },
            phase => CaseRun { case, phase, captures },
        }
    }

    /// Goes on after the attempt to close the page.
    pub fn closed(self, result: Result<(), String>) -> (r: Self)
        requires
            self.wf(),
            self.phase is Closing,
        ensures
            r.wf(),
            r.case == self.case,
            r@ == after_close(self@, call_error(result)),
    {
        let error = match self.phase {
            Phase::Closing { error } => error,
            _ => None,
        };
        let error = match (error, result) {
            (None, Err(failure)) => {
                let mut message = String::from_str("page close failed: ");
                message.append(failure.as_str());
                Some(message)
            },
            (error, _) => error,
        };
        CaseRun { case: self.case, phase: Phase::Finished { error }, captures: self.captures }
    }
}

/// Names the step of an error.
fn name_step(index: usize, error: &str) -> (r: String)
    requires
        index < usize::MAX,
    ensures
        r@ == step_message(index as int, error@),
{
    let mut message = String::from_str("step ");
    message.append(decimal((index + 1) as u64).as_str());
    message.append(": ");
    message.append(error);
    message
}

/// The result of a case, as the results file tells it.
#[derive(Debug)]
pub struct CaseResult<T> {
    pub id: String,
    pub ok: bool,
    pub captures: serde_json::Map<String, serde_json::Value>,
    pub ms: T,
    pub error: Option<String>,
}

impl<'a> CaseRun<'a> {
    /// The result of a run that is over and took `ms` milliseconds.
    pub fn finish<T>(self, ms: T) -> (r: CaseResult<T>)
        requires
            self.wf(),
            self.phase is Finished,
        ensures
            r.id@ == self.case.id@,
            r.ok == (self@.phase->Finished_error is None),
            map_view(r.captures) == self@.captures,
            r.ms == ms,
            optional_text(r.error) == self@.phase->Finished_error,
    {
        let error = match self.phase {
            Phase::Finished { error } => error,
            _ => None,
        };
        CaseResult {
            id: self.case.id.clone(),
            ok: error.is_none(),
            captures: self.captures,
            ms,
            error,
        }
    }
}

/// The result of a case that no browser could be launched for.
pub open spec fn is_unlaunched<T>(
    result: CaseResult<T>,
    case: Case,
    error: Seq<char>,
    ms: T,
) -> bool {
    &&& result.id@ == case.id@
    &&& !result.ok
    &&& map_view(result.captures) == no_captures()
    &&& result.ms == ms
    &&& optional_text(result.error) == Some("browser launch failed: "@ + error)
}

/// The results where no browser could be launched: every case fails, with no time spent.
pub fn launch_failed<T: Copy>(cases: &Vec<&Case>, error: &str, ms: T) -> (r: Vec<CaseResult<T>>)
    ensures
        r@.len() == cases@.len(),
        forall|i: int|
            0 <= i < r@.len() ==> is_unlaunched(#[trigger] r@[i], *cases@[i], error@, ms),
{
    let mut results: Vec<CaseResult<T>> = Vec::new();
    let mut i: usize = 0;
    while i < cases.len()
        invariant
            i <= cases@.len(),
            results@.len() == i,
            forall|k: int|
                0 <= k < i ==> is_unlaunched(#[trigger] results@[k], *cases@[k], error@, ms),
        decreases cases@.len() - i,
    {
        let mut message = String::from_str("browser launch failed: ");
        message.append(error);
        results.push(
            CaseResult {
                id: cases[i].id.clone(),
                ok: false,
                captures: serde_json::Map::new(),
                ms,
                error: Some(message),
            },
        );
        i += 1;
    }
    results
}

/// The result `after` is `before`, blamed for an error unless it had failed anyway.
pub open spec fn blamed<T>(before: CaseResult<T>, after: CaseResult<T>, error: Seq<char>) -> bool {
    if before.ok {
        &&& after.id == before.id
        &&& !after.ok
        &&& after.captures == before.captures
        &&& after.ms == before.ms
        &&& optional_text(after.error) == Some(error)
    } else {
        after == before
    }
}

/// Accounts for the attempt to close the browser: a failure is blamed on the last case; where
/// there is none, the message is handed back.
pub fn browser_closed<T>(
    results: &mut Vec<CaseResult<T>>,
    result: Result<(), String>,
) -> (r: Option<String>)
    ensures
        match call_error(result) {
            None => r is None && final(results)@ == old(results)@,
            Some(error) => if old(results)@.len() == 0 {
                optional_text(r) == Some("browser close failed: "@ + error) && final(results)@
                    == old(results)@
            } else {
                &&& r is None
                &&& final(results)@.len() == old(results)@.len()
                &&& final(results)@.drop_last() == old(results)@.drop_last()
                &&& blamed(
                    old(results)@.last(),
                    final(results)@.last(),
                    "browser close failed: "@ + error,
                )
            },
        },
{
    match result {
        Ok(()) => None,
        Err(error) => {
            let mut message = String::from_str("browser close failed: ");
            message.append(error.as_str());
            match results.pop() {
                Some(last) => {
                    let last = if last.ok {
                        CaseResult {
                            id: last.id,
                            ok: false,
                            captures: last.captures,
                            ms: last.ms,
                            error: Some(message),
                        }
                    } else {
                        last
                    };
                    results.push(last);
                    assert(results@.drop_last() =~= old(results)@.drop_last());
                    None
                },
                None => Some(message),
            }
        },
    }
}

/// Whether every case passed.
pub fn all_ok<T>(results: &Vec<CaseResult<T>>) -> (r: bool)
    ensures
        r == forall|i: int| 0 <= i < results@.len() ==> (#[trigger] results@[i]).ok,
{
    let mut i: usize = 0;
    while i < results.len()
        invariant
            i <= results@.len(),
            forall|k: int| 0 <= k < i ==> (#[trigger] results@[k]).ok,
        decreases results@.len() - i,
    {
        if !results[i].ok {
            return false;
        }
        i += 1;
    }
    true
}

/// The exit status of the runner: 0 where every case passed, 1 where some failed, 2 where it
/// could not run them.
pub fn exit_status(outcome: &Result<bool, String>) -> (r: u8)
    ensures
        r == match outcome {
            Ok(true) => 0u8,
            Ok(false) => 1u8,
            Err(_) => 2u8,
        },
{
    match outcome {
        Ok(passed) => if *passed {
            0
        } else {
            1
        },
        Err(_) => 2,
    }
}

/// How far a run is from its end, counted in what the browser is still asked for.
pub open spec fn distance(case: Case, run: RunView) -> int {
    match run.phase {
        PhaseView::Opening => case.steps@.len() as int + 2,
        PhaseView::Awaiting { index, .. } => case.steps@.len() - index + 1,
        PhaseView::Closing { .. } => 1,
        PhaseView::Finished { .. } => 0,
    }
}

/// A run that awaits a step of its case.
pub open spec fn awaits(case: Case, run: RunView) -> bool {
    run.phase matches PhaseView::Awaiting { index, .. } && 0 <= index < case.steps@.len()
}

/// Every answer of the browser brings a run nearer to its end.
pub proof fn runs_end(
    case: Case,
    run: RunView,
    open_error: Option<Seq<char>>,
    reply: ReplyView,
    close_error: Option<Seq<char>>,
)
    ensures
        run.phase is Opening ==> 0 <= distance(case, after_open(case, run, open_error)) < distance(
            case,
            run,
        ),
        awaits(case, run) ==> 0 <= distance(case, after_reply(case, run, reply)) < distance(
            case,
            run,
        ),
        run.phase is Closing ==> 0 <= distance(case, after_close(run, close_error)) < distance(
            case,
            run,
        ),
{
}

/// A page that was opened is closed: no run is over before the attempt to close it, and every
/// run is over after it.
pub proof fn opened_pages_are_closed(
    case: Case,
    run: RunView,
    reply: ReplyView,
    close_error: Option<Seq<char>>,
)
    ensures
        run.phase is Opening ==> awaits(case, after_open(case, run, None)) || after_open(
            case,
            run,
            None,
        ).phase is Closing,
        awaits(case, run) ==> awaits(case, after_reply(case, run, reply)) || after_reply(
            case,
            run,
            reply,
        ).phase is Closing,
        after_close(run, close_error).phase is Finished,
{
}

/// A step that fails is the last one, and its error is the error of the case, whether or not
/// the page can be closed.
pub proof fn failed_steps_end_the_case(
    case: Case,
    run: RunView,
    reply: ReplyView,
    close_error: Option<Seq<char>>,
)
    requires
        awaits(case, run),
        step_end(case.steps@[run.phase->index], reply, run.captures).error is Some,
    ensures
        ({
            let error = step_end(
                case.steps@[run.phase->index],
                reply,
                run.captures,
            ).error->0;
            let message = Some(step_message(run.phase->index, error));
            &&& after_reply(case, run, reply).phase == PhaseView::Closing { error: message }
            &&& after_close(after_reply(case, run, reply), close_error).phase
                == PhaseView::Finished { error: message }
        }),
{
}

/// No capture is lost, and as long as no step fails none is replaced.
pub proof fn captures_are_kept(case: Case, run: RunView, reply: ReplyView, name: Seq<char>)
    requires
        awaits(case, run),
        run.captures.dom().contains(name),
    ensures
        after_reply(case, run, reply).captures.dom().contains(name),
        step_end(case.steps@[run.phase->index], reply, run.captures).error is None ==> after_reply(
            case,
            run,
            reply,
        ).captures[name] == run.captures[name],
{
}

/// How the steps from `index` on end on these replies, taken in order; none where the replies
/// do not suffice.
pub open spec fn steps_end(
    case: Case,
    index: int,
    replies: Seq<ReplyView>,
    captures: Map<Seq<char>, JsonView>,
) -> Option<StepEnd>
    decreases case.steps@.len() - index,
{
    if index < 0 || index >= case.steps@.len() {
        Some(StepEnd { captures, error: None })
    } else {
        match planned(case, case.steps@[index]) {
            Err(error) => Some(StepEnd { captures, error: Some(step_message(index, error)) }),
            Ok(_) => if replies.len() == 0 {
                None
            } else {
                let end = step_end(case.steps@[index], replies[0], captures);
                match end.error {
                    Some(error) => Some(
                        StepEnd {
                            captures: end.captures,
                            error: Some(step_message(index, error)),
                        },
                    ),
                    None => steps_end(case, index + 1, replies.drop_first(), end.captures),
                }
            },
        }
    }
}

/// A run that is given replies for as long as it awaits any.
pub open spec fn fed(case: Case, run: RunView, replies: Seq<ReplyView>) -> RunView
    decreases replies.len(),
{
    if replies.len() == 0 || !(run.phase is Awaiting) {
        run
    } else {
        fed(case, after_reply(case, run, replies[0]), replies.drop_first())
    }
}

/// A run executes the steps in order, each once, up to the first that fails.
pub proof fn runs_execute_the_steps(
    case: Case,
    index: int,
    replies: Seq<ReplyView>,
    captures: Map<Seq<char>, JsonView>,
)
    requires
        0 <= index <= case.steps@.len(),
    ensures
        ({
            let start = RunView { phase: before_step(case, index), captures };
            match steps_end(case, index, replies, captures) {
                Some(end) => fed(case, start, replies) == (RunView {
                    phase: PhaseView::Closing { error: end.error },
                    captures: end.captures,
                }),
                None => fed(case, start, replies).phase is Awaiting,
            }
        }),
    decreases case.steps@.len() - index,
{
    if index < case.steps@.len() && planned(case, case.steps@[index]) is Ok && replies.len() > 0 {
        let end = step_end(case.steps@[index], replies[0], captures);
        let start = RunView { phase: before_step(case, index), captures };
        let next = after_reply(case, start, replies[0]);
        assert(fed(case, start, replies) == fed(case, next, replies.drop_first()));
        if end.error is None {
            runs_execute_the_steps(case, index + 1, replies.drop_first(), end.captures);
        } else {
            assert(fed(case, next, replies.drop_first()) == next);
        }
    }
}

/// A case passes exactly where its page opens, every step passes and the page closes.
pub proof fn cases_pass_only_as_a_whole(
    case: Case,
    run: RunView,
    open_error: Option<Seq<char>>,
    replies: Seq<ReplyView>,
    close_error: Option<Seq<char>>,
)
    requires
        run.phase is Opening,
        fed(case, after_open(case, run, None), replies).phase is Closing,
    ensures
        ({
            let last = match open_error {
                Some(_) => after_open(case, run, open_error),
                None => after_close(
                    fed(case, after_open(case, run, open_error), replies),
                    close_error,
                ),
            };
            let steps = steps_end(case, 0, replies, run.captures);
            &&& last.phase is Finished
            &&& (last.phase->Finished_error is None) == (open_error is None && close_error is None
                && steps is Some && (steps->0).error is None)
        }),
{
    runs_execute_the_steps(case, 0, replies, run.captures);
}

/// The selector that a step names.
pub open spec fn selector_of(step: Step) -> Option<Seq<char>> {
    match step {
        Step::Click { selector } => Some(selector@),
        Step::Fill { selector, .. } => Some(selector@),
        Step::TextContent { selector, .. } => Some(selector@),
        Step::AssertText { selector, .. } => Some(selector@),
        _ => None,
    }
}

/// The name under which a step captures the reply.
pub open spec fn capture_of(step: Step) -> Option<Seq<char>> {
    match step {
        Step::Title { capture } => Some(capture@),
        Step::TextContent { capture, .. } => Some(capture@),
        Step::Evaluate { capture, .. } => Some(capture@),
        Step::Screenshot { capture } => Some(capture@),
        _ => None,
    }
}

/// The step with another name to capture under.
pub open spec fn capturing_as(step: Step, name: String) -> Step {
    match step {
        Step::Title { .. } => Step::Title { capture: name },
        Step::TextContent { selector, .. } => Step::TextContent { selector, capture: name },
        Step::Evaluate { expression, arg, .. } => Step::Evaluate {
            expression,
            arg,
            capture: name,
        },
        Step::Screenshot { .. } => Step::Screenshot { capture: name },
        _ => step,
    }
}

/// The selector that an action names.
pub open spec fn selector_asked(action: Action) -> Option<Seq<char>> {
    match action {
        Action::Click { selector } => Some(selector@),
        Action::Fill { selector, .. } => Some(selector@),
        Action::TextContent { selector } => Some(selector@),
        _ => None,
    }
}

/// An action names an element exactly where its step does, and names the same one.
pub proof fn actions_name_the_selector_of_their_step(
    case: Case,
    step: Step,
    asked: Result<Action, String>,
)
    requires
        call_ensures(plan_step, (&case, &step), asked),
    ensures
        asked matches Ok(action) ==> selector_asked(action) == selector_of(step),
        selector_of(step) is Some ==> asked is Ok,
{
}

/// What a step asks for does not depend on the name under which the reply is captured, nor
/// on anything of the case but its document.
pub proof fn asking_does_not_depend_on_names(
    case: Case,
    other: Case,
    step: Step,
    name: String,
    asked: Result<Action, String>,
    asked_otherwise: Result<Action, String>,
)
    requires
        other.html == case.html,
        call_ensures(plan_step, (&case, &step), asked),
        call_ensures(plan_step, (&other, &capturing_as(step, name)), asked_otherwise),
    ensures
        asked is Ok == asked_otherwise is Ok,
        asked is Ok ==> asked->Ok_0@ == asked_otherwise->Ok_0@,
        asked is Err ==> asked->Err_0@ == asked_otherwise->Err_0@,
{
}

/// Each step asks for the action of its kind, with its own fields: clicks and fills act,
/// captures and assertions of one thing ask for that thing.
pub proof fn steps_ask_with_their_own_fields(
    case: Case,
    step: Step,
    asked: Result<Action, String>,
)
    requires
        call_ensures(plan_step, (&case, &step), asked),
    ensures
        !(step is Goto) ==> asked is Ok,
        step is Click ==> asked->Ok_0 is Click,
        step matches Step::Fill { value, .. } ==> asked->Ok_0 is Fill && asked->Ok_0->Fill_value@
            == value@,
        step is Title || step is AssertTitle ==> asked->Ok_0 is Title,
        step is TextContent || step is AssertText ==> asked->Ok_0 is TextContent,
        step is Screenshot ==> asked->Ok_0 is Screenshot,
        step matches Step::Evaluate { expression, arg, .. } ==> {
            &&& asked->Ok_0 is Evaluate
            &&& asked->Ok_0->expression@ == expression@
            &&& asked->Ok_0->arg is Some == arg is Some
            &&& arg is Some ==> asked->Ok_0->arg->0@ == arg->0@
        },
        step matches Step::AssertEval { expression, .. } ==> {
            &&& asked->Ok_0 is Evaluate
            &&& asked->Ok_0->expression@ == expression@
            &&& asked->Ok_0->arg is None
        },
{
}

/// A navigation goes to the address of its step, or to the document of its case: to exactly
/// one of them, and it fails where it names both, neither, or a document that the case lacks.
pub proof fn navigations_name_one_target(
    case: Case,
    step: Step,
    url: Seq<char>,
    html: &str,
    own: String,
    asked: Result<Action, String>,
)
    requires
        step is Goto,
        call_ensures(plan_step, (&case, &step), asked),
        call_ensures(data_url, (html,), own),
    ensures
        ({
            let named = step->Goto_url is Some;
            let chosen = step->use_case_html == Some(true);
            &&& asked is Ok == ((named && !chosen) || (!named && chosen && case.html is Some))
            &&& asked is Ok ==> asked->Ok_0 is Goto && optional_text(*asked->Ok_0->wait_until)
                == optional_text(step->Goto_wait_until)
            &&& asked is Ok && optional_text(step->Goto_url) == Some(url) ==> asked->Ok_0->target@
                == url
            &&& asked is Ok && !named && optional_text(case.html) == Some(html@)
                ==> asked->Ok_0->target@ == own@
            &&& !named && chosen && case.html is None ==> asked->Err_0@
                == "goto.useCaseHtml requires the case to define html"@
            &&& named == chosen ==> asked->Err_0@
                == "goto requires exactly one of url or useCaseHtml:true"@
        }),
{
}

/// Actions with one model hold the same.
pub proof fn action_models_are_faithful(a: Action, b: Action)
    requires
        a@ == b@,
    ensures
        selector_asked(a) == selector_asked(b),
        a is Click == b is Click,
        a is Title == b is Title,
        a is TextContent == b is TextContent,
        a is Screenshot == b is Screenshot,
        a is Fill == b is Fill,
        a is Fill ==> a->Fill_value@ == b->Fill_value@,
        a is Goto == b is Goto,
        a is Goto ==> a->target@ == b->target@ && optional_text(*a->wait_until) == optional_text(
            *b->wait_until,
        ),
        a is Evaluate == b is Evaluate,
        a is Evaluate ==> a->expression@ == b->expression@ && a->arg is Some == b->arg is Some && (
        a->arg is Some ==> a->arg->0@ == b->arg->0@),
{
}

/// A reply as JSON: titles and texts as texts, a null text as null, values as they are, and
/// an image as the number of its bytes.
pub open spec fn reply_json(reply: Reply) -> Option<JsonView> {
    match reply {
        Reply::Title(title) => Some(JsonView::Text(title@)),
        Reply::Content(Some(text)) => Some(JsonView::Text(text@)),
        Reply::Content(None) => Some(JsonView::Null),
        Reply::Value(value) => Some(value@),
        Reply::Image(bytes) => Some(JsonView::Number(NumberView::PosInt(bytes@.len() as u64))),
        _ => None,
    }
}

/// The reply is of the kind that the step asks for.
pub open spec fn is_kind_asked(step: Step, reply: Reply) -> bool {
    match reply {
        Reply::Failed(_) => false,
        Reply::Done => step is Goto || step is Click || step is Fill,
        Reply::Title(_) => step is Title || step is AssertTitle,
        Reply::Content(_) => step is TextContent || step is AssertText,
        Reply::Value(_) => step is Evaluate || step is AssertEval,
        Reply::Image(_) => step is Screenshot,
    }
}

/// A step takes every failure and every reply of the kind that it asks for, as long as values
/// are well formed; a case is fit to run as long as the values that it expects are.
pub proof fn steps_take_what_they_ask_for(step: Step, reply: Reply, case: Case)
    ensures
        answers(reply@, step) == (reply is Failed || (is_kind_asked(step, reply) && (
        reply matches Reply::Value(value) ==> well_formed(value@)))),
        step_is_valid(step) == (step is AssertEval ==> well_formed(step->AssertEval_equals@)),
        case_is_valid(case) == forall|i: int|
            0 <= i < case.steps@.len() && (#[trigger] case.steps@[i]) is AssertEval ==> well_formed(
                case.steps@[i]->AssertEval_equals@,
            ),
{
    if case_is_valid(case) {
        assert forall|i: int|
            0 <= i < case.steps@.len() && (#[trigger] case.steps@[i]) is AssertEval implies
            well_formed(case.steps@[i]->AssertEval_equals@) by {
            assert(step_is_valid(case.steps@[i]));
        }
    }
}

/// A run is sound exactly where its case is fit to run and, while it awaits a step, that is a
/// step of the case and what is asked is what that step asks for.
pub proof fn sound_runs_await_their_own_steps(run: CaseRun, asked: Result<Action, String>)
    requires
        call_ensures(
            plan_step,
            (run.case, &run.case.steps@[run.phase->index as int]),
            asked,
        ),
    ensures
        run.wf() == (case_is_valid(*run.case) && (run.phase is Awaiting ==> run.phase->index
            < run.case.steps@.len() && asked is Ok && asked->Ok_0@
            == run.phase->Awaiting_action@)),
{
}

/// The run is about to close its page because the step at `index` failed with this message;
/// steps are counted from one.
pub open spec fn fails_at(run: CaseRun, index: int, message: Seq<char>) -> bool {
    &&& run.phase is Closing
    &&& run.phase->Closing_error is Some
    &&& (run.phase->Closing_error->0)@ == "step "@ + decimal_text((index + 1) as nat) + ": "@
        + message
}

/// The run has come to the step at `index`: it awaits it, or it cannot ask for it, or there
/// is none and it is about to close its page without an error. `asked` is what that step asks
/// for, where there is one.
pub open spec fn comes_to(run: CaseRun, index: int, asked: Result<Action, String>) -> bool {
    if index >= run.case.steps@.len() {
        run.phase is Closing && run.phase->Closing_error is None
    } else {
        match asked {
            Ok(action) => run.phase is Awaiting && run.phase->index == index
                && run.phase->Awaiting_action@ == action@,
            Err(message) => fails_at(run, index, message@),
        }
    }
}

/// The run goes on from the step at `index`: it comes to the one after it.
pub open spec fn goes_on(run: CaseRun, index: int, next_asked: Result<Action, String>) -> bool {
    comes_to(run, index + 1, next_asked)
}

/// A failed action fails its step, with the message of the failure, and captures nothing.
pub proof fn failed_actions_fail_their_step(
    run: CaseRun,
    message: String,
    next: CaseRun,
)
    requires
        run.phase is Awaiting,
        call_ensures(CaseRun::replied, (run, Reply::Failed(message)), next),
    ensures
        fails_at(next, run.phase->index as int, message@),
        map_view(next.captures) == map_view(run.captures),
        next.case == run.case,
{
}

/// Navigations, clicks and fills that are done let the run go on and capture nothing.
pub proof fn done_actions_let_the_run_go_on(
    run: CaseRun,
    next_asked: Result<Action, String>,
    next: CaseRun,
)
    requires
        run.phase is Awaiting,
        run.case.steps@[run.phase->index as int] is Goto
            || run.case.steps@[run.phase->index as int] is Click
            || run.case.steps@[run.phase->index as int] is Fill,
        call_ensures(CaseRun::replied, (run, Reply::Done), next),
        call_ensures(
            plan_step,
            (run.case, &run.case.steps@[run.phase->index as int + 1]),
            next_asked,
        ),
    ensures
        goes_on(next, run.phase->index as int, next_asked),
        map_view(next.captures) == map_view(run.captures),
        next.case == run.case,
{
}

/// A step that captures records the reply under its name and touches no other name; the run
/// goes on unless the name was taken.
pub proof fn replies_are_captured_under_their_name(
    run: CaseRun,
    reply: Reply,
    name: Seq<char>,
    next_asked: Result<Action, String>,
    next: CaseRun,
)
    requires
        run.phase is Awaiting,
        capture_of(run.case.steps@[run.phase->index as int]) == Some(name),
        is_kind_asked(run.case.steps@[run.phase->index as int], reply),
        call_ensures(CaseRun::replied, (run, reply), next),
        call_ensures(
            plan_step,
            (run.case, &run.case.steps@[run.phase->index as int + 1]),
            next_asked,
        ),
    ensures
        map_view(next.captures).dom().contains(name),
        Some(map_view(next.captures)[name]) == reply_json(reply),
        forall|other: Seq<char>| #[trigger]
            map_view(next.captures).dom().contains(other) == (other == name || map_view(
                run.captures,
            ).dom().contains(other)),
        forall|other: Seq<char>|
            other != name && map_view(run.captures).dom().contains(other) ==> #[trigger] map_view(
                next.captures,
            )[other] == map_view(run.captures)[other],
        !map_view(run.captures).dom().contains(name) ==> goes_on(
            next,
            run.phase->index as int,
            next_asked,
        ),
        map_view(run.captures).dom().contains(name) ==> fails_at(
            next,
            run.phase->index as int,
            "duplicate capture name "@ + quoted_text(name),
        ),
        next.case == run.case,
{
}

/// What an assertion about a text comes to: it passes where the text equals or contains what
/// it must, whichever of the two the step gives, and a step that gives both or none fails.
pub open spec fn text_is_asserted(
    next: CaseRun,
    index: int,
    next_asked: Result<Action, String>,
    label: Seq<char>,
    actual: Seq<char>,
    equals: Option<String>,
    contains: Option<String>,
) -> bool {
    match (equals, contains) {
        (Some(expected), None) => {
            &&& actual == expected@ ==> goes_on(next, index, next_asked)
            &&& actual != expected@ ==> fails_at(
                next,
                index,
                label + " mismatch: expected "@ + quoted_text(expected@) + ", got "@
                    + quoted_text(actual),
            )
        },
        (None, Some(expected)) => {
            let contained = exists|before: Seq<char>, after: Seq<char>|
                actual == #[trigger] (before + expected@ + after);
            &&& contained ==> goes_on(next, index, next_asked)
            &&& !contained ==> fails_at(
                next,
                index,
                label + " did not contain "@ + quoted_text(expected@) + "; got "@ + quoted_text(
                    actual,
                ),
            )
        },
        _ => fails_at(next, index, "assertion requires exactly one of equals or contains"@),
    }
}

/// Assertions about titles and texts pass exactly where they hold, and capture nothing; a
/// text that is null fails them.
pub proof fn text_assertions_pass_where_they_hold(
    run: CaseRun,
    reply: Reply,
    next_asked: Result<Action, String>,
    next: CaseRun,
)
    requires
        run.phase is Awaiting,
        call_ensures(CaseRun::replied, (run, reply), next),
        call_ensures(
            plan_step,
            (run.case, &run.case.steps@[run.phase->index as int + 1]),
            next_asked,
        ),
    ensures
        ({
            let index = run.phase->index as int;
            let step = run.case.steps@[index];
            &&& step is AssertTitle && reply is Title ==> text_is_asserted(
                next,
                index,
                next_asked,
                "title"@,
                reply->Title_0@,
                step->AssertTitle_equals,
                step->AssertTitle_contains,
            )
            &&& step is AssertText && reply is Content && reply->Content_0 is Some
                ==> text_is_asserted(
                next,
                index,
                next_asked,
                "textContent for "@ + quoted_text(step->AssertText_selector@),
                (reply->Content_0->0)@,
                step->AssertText_equals,
                step->AssertText_contains,
            )
            &&& step is AssertText && reply is Content && reply->Content_0 is None ==> fails_at(
                next,
                index,
                "textContent for "@ + quoted_text(step->AssertText_selector@) + " was null"@,
            )
            &&& step is AssertTitle || step is AssertText ==> map_view(next.captures) == map_view(
                run.captures,
            )
        }),
{
    let index = run.phase->index as int;
    let step = run.case.steps@[index];
    if let Step::AssertTitle { equals, contains } = step {
        if let Reply::Title(title) = reply {
            if let Some(needle) = contains {
                occurring_is_having_around(title@, needle@);
            }
        }
    }
    if let Step::AssertText { selector, equals, contains } = step {
        if let Reply::Content(Some(text)) = reply {
            if let Some(needle) = contains {
                occurring_is_having_around(text@, needle@);
            }
        }
    }
}

/// An assertion about a value passes exactly where the value is the expected one, up to the
/// signs of zeros, and captures nothing.
pub proof fn value_assertions_pass_where_they_hold(
    run: CaseRun,
    actual: Json,
    next_asked: Result<Action, String>,
    next: CaseRun,
)
    requires
        run.phase is Awaiting,
        run.case.steps@[run.phase->index as int] is AssertEval,
        call_ensures(CaseRun::replied, (run, Reply::Value(actual)), next),
        call_ensures(
            plan_step,
            (run.case, &run.case.steps@[run.phase->index as int + 1]),
            next_asked,
        ),
    ensures
        ({
            let index = run.phase->index as int;
            let equals = run.case.steps@[index]->AssertEval_equals;
            &&& zeros_unsigned(actual@) == zeros_unsigned(equals@) ==> goes_on(
                next,
                index,
                next_asked,
            )
            &&& zeros_unsigned(actual@) != zeros_unsigned(equals@) ==> fails_at(
                next,
                index,
                "evaluate mismatch: expected "@ + json_text(equals@) + ", got "@ + json_text(
                    actual@,
                ),
            )
        }),
        map_view(next.captures) == map_view(run.captures),
{
    let equals = run.case.steps@[run.phase->index as int]->AssertEval_equals;
    agreement_is_sameness(actual@, equals@);
}

/// A run starts by opening a page, with no captures; an opened page brings it to its first
/// step, and a page that cannot be opened ends it.
pub proof fn runs_start_with_a_page(
    case: &Case,
    start: CaseRun,
    first_asked: Result<Action, String>,
    message: String,
    opened: CaseRun,
    refused: CaseRun,
)
    requires
        call_ensures(CaseRun::new, (case,), start),
        call_ensures(plan_step, (case, &case.steps@[0]), first_asked),
        call_ensures(CaseRun::opened, (start, Ok(())), opened),
        call_ensures(CaseRun::opened, (start, Err(message)), refused),
    ensures
        start.case == case,
        start.phase is Opening,
        map_view(start.captures).dom() == Set::<Seq<char>>::empty(),
        comes_to(opened, 0, first_asked),
        map_view(opened.captures) == map_view(start.captures),
        opened.case == case,
        refused.phase is Finished,
        refused.phase->Finished_error is Some,
        (refused.phase->Finished_error->0)@ == "new page failed: "@ + message@,
        map_view(refused.captures) == map_view(start.captures),
        refused.case == case,
{
}

/// Closing the page ends a run: with the error of its steps where they had one, whether or
/// not the page could be closed, and else with the error of closing, if any.
pub proof fn runs_end_with_closing(
    run: CaseRun,
    message: String,
    closed: CaseRun,
    stuck: CaseRun,
)
    requires
        run.phase is Closing,
        call_ensures(CaseRun::closed, (run, Ok(())), closed),
        call_ensures(CaseRun::closed, (run, Err(message)), stuck),
    ensures
        closed.phase is Finished,
        optional_text(closed.phase->Finished_error) == optional_text(run.phase->Closing_error),
        stuck.phase is Finished,
        run.phase->Closing_error is Some ==> optional_text(stuck.phase->Finished_error)
            == optional_text(run.phase->Closing_error),
        run.phase->Closing_error is None ==> stuck.phase->Finished_error is Some && (
        stuck.phase->Finished_error->0)@ == "page close failed: "@ + message@,
        map_view(closed.captures) == map_view(run.captures),
        map_view(stuck.captures) == map_view(run.captures),
        closed.case == run.case,
        stuck.case == run.case,
{
}

/// The result of a run tells its case, its captures, its time and its error, and passes
/// exactly where there is no error.
pub proof fn results_tell_the_run<T>(run: CaseRun, ms: T, result: CaseResult<T>)
    requires
        run.phase is Finished,
        call_ensures(CaseRun::finish::<T>, (run, ms), result),
    ensures
        result.id@ == run.case.id@,
        result.ok == (run.phase->Finished_error is None),
        optional_text(result.error) == optional_text(run.phase->Finished_error),
        result.ok == (result.error is None),
        map_view(result.captures) == map_view(run.captures),
        result.ms == ms,
{
}

/// Where no browser can be launched, every case fails with that error, in the order of the
/// cases, without captures and with the time that is given.
pub proof fn failed_launches_fail_all_cases<T: Copy>(
    cases: &Vec<&Case>,
    error: &str,
    ms: T,
    results: Vec<CaseResult<T>>,
    i: int,
)
    requires
        call_ensures(launch_failed::<T>, (cases, error, ms), results),
        0 <= i < cases@.len(),
    ensures
        results@.len() == cases@.len(),
        results@[i].id@ == cases@[i].id@,
        !results@[i].ok,
        results@[i].ms == ms,
        map_view(results@[i].captures).dom() == Set::<Seq<char>>::empty(),
        results@[i].error is Some,
        (results@[i].error->0)@ == "browser launch failed: "@ + error@,
{
    assert(is_unlaunched(results@[i], *cases@[i], error@, ms));
}

/// A case that is blamed keeps its id, captures and time; it fails if it had passed, with the
/// error that it is blamed for, and is unchanged if it had failed.
pub proof fn blame_changes_the_verdict_only<T>(
    before: CaseResult<T>,
    after: CaseResult<T>,
    error: Seq<char>,
)
    requires
        blamed(before, after, error),
    ensures
        after.id == before.id,
        after.captures == before.captures,
        after.ms == before.ms,
        !after.ok,
        before.ok ==> after.error is Some && (after.error->0)@ == error,
        !before.ok ==> after.error == before.error,
{
}

/// All cases passed exactly where none failed, and the runner then exits with zero; it exits
/// with one where some case failed and with two where it could not run.
pub proof fn statuses_tell_the_outcome<T>(
    results: Vec<CaseResult<T>>,
    passed: bool,
    outcome: Result<bool, String>,
    status: u8,
)
    requires
        call_ensures(all_ok::<T>, (&results,), passed),
        call_ensures(exit_status, (&outcome,), status),
    ensures
        passed == !(exists|i: int| 0 <= i < results@.len() && !(#[trigger] results@[i]).ok),
        outcome is Err ==> status == 2,
        outcome == Ok::<bool, String>(passed) ==> (status == 0) == passed && (status == 1)
            == !passed,
{
}

/// A result tells an error exactly where there is one, and tells that one.
pub proof fn results_tell_exactly_the_error(
    r: Result<(), String>,
    error: Option<Seq<char>>,
)
    ensures
        tells(r, error) == (r is Ok == error is None && (r is Err && error is Some ==> r->Err_0@
            == error->0)),
        call_error(r) is None == r is Ok,
        r matches Err(message) ==> call_error(r) == Some(message@),
{
}

/// Capturing records the value under the name, touches no other name, and is an error exactly
/// where the name was taken.
pub proof fn captures_touch_one_name(
    captures: Map<Seq<char>, JsonView>,
    name: Seq<char>,
    value: JsonView,
    other: Seq<char>,
)
    ensures
        captured(captures, name, value).captures.dom().contains(name),
        captured(captures, name, value).captures[name] == value,
        other != name ==> captured(captures, name, value).captures.dom().contains(other)
            == captures.dom().contains(other),
        other != name && captures.dom().contains(other) ==> captured(
            captures,
            name,
            value,
        ).captures[other] == captures[other],
        captured(captures, name, value).error is Some == captures.dom().contains(name),
        captures.dom().contains(name) ==> captured(captures, name, value).error
            == Some("duplicate capture name "@ + quoted_text(name)),
{
}

/// A text check passes exactly where the text equals, or contains, what it must, and a check
/// that is given both or none fails.
pub proof fn text_checks_pass_where_they_hold(
    label: &str,
    actual: &str,
    equals: Option<String>,
    contains: Option<String>,
    r: Result<(), String>,
)
    requires
        call_ensures(assert_string, (label, actual, &equals, &contains), r),
    ensures
        equals is Some && contains is None ==> (r is Ok) == (actual@ == (equals->0)@),
        equals is None && contains is Some ==> (r is Ok) == exists|
            before: Seq<char>,
            after: Seq<char>,
        |
            actual@ == #[trigger] (before + (contains->0)@ + after),
        equals is Some == contains is Some ==> r is Err && r->Err_0@
            == "assertion requires exactly one of equals or contains"@,
        equals is Some && contains is None && r is Err ==> r->Err_0@ == label@
            + " mismatch: expected "@ + quoted_text((equals->0)@) + ", got "@ + quoted_text(
            actual@,
        ),
        equals is None && contains is Some && r is Err ==> r->Err_0@ == label@
            + " did not contain "@ + quoted_text((contains->0)@) + "; got "@ + quoted_text(
            actual@,
        ),
{
    if let Some(needle) = contains {
        occurring_is_having_around(actual@, needle@);
    }
}

/// Inserting a capture records the value under the name, also where the name was taken,
/// touches no other name, and is an error exactly where the name was taken.
pub proof fn insertions_touch_one_name(
    captures: &mut serde_json::Map<String, serde_json::Value>,
    name: &str,
    value: serde_json::Value,
    other: Seq<char>,
    r: Result<(), String>,
)
    requires
        call_ensures(insert_capture, (captures, name, value), r),
    ensures
        map_view(*final(captures)).dom().contains(name@),
        map_view(*final(captures))[name@] == json_view(value),
        other != name@ ==> map_view(*final(captures)).dom().contains(other) == map_view(
            *old(captures),
        ).dom().contains(other),
        other != name@ && map_view(*old(captures)).dom().contains(other) ==> map_view(
            *final(captures),
        )[other] == map_view(*old(captures))[other],
        r is Err == map_view(*old(captures)).dom().contains(name@),
        r matches Err(message) ==> message@ == "duplicate capture name "@ + quoted_text(name@),
{
}

/// A step ends on its reply alone: a failure is its error, a reply to a capturing step is
/// recorded under its name and nowhere else, and every other step leaves the captures alone.
pub proof fn steps_end_on_their_reply(
    step: Step,
    reply: Reply,
    captures: &mut serde_json::Map<String, serde_json::Value>,
    other: Seq<char>,
    r: Result<(), String>,
)
    requires
        reply is Failed || is_kind_asked(step, reply),
        call_ensures(finish_step, (&step, reply, captures), r),
    ensures
        reply matches Reply::Failed(message) ==> r is Err && r->Err_0@ == message@,
        reply is Failed || capture_of(step) is None ==> map_view(*final(captures)) == map_view(
            *old(captures),
        ),
        !(reply is Failed) && capture_of(step) is Some ==> {
            let name = capture_of(step)->0;
            let before = map_view(*old(captures));
            let after = map_view(*final(captures));
            &&& after.dom().contains(name)
            &&& Some(after[name]) == reply_json(reply)
            &&& other != name ==> after.dom().contains(other) == before.dom().contains(other)
            &&& other != name && before.dom().contains(other) ==> after[other] == before[other]
            &&& r is Err == before.dom().contains(name)
        },
        !(reply is Failed) && (step is Goto || step is Click || step is Fill) ==> r is Ok,
{
}

/// A browser that closes changes no result. One that does not is told on its own where there
/// is no result, and otherwise fails the last result if that had passed; no result before the
/// last is changed.
pub proof fn browsers_that_stay_open_fail_the_last_case<T>(
    results: &mut Vec<CaseResult<T>>,
    result: Result<(), String>,
    i: int,
    told: Option<String>,
)
    requires
        call_ensures(browser_closed::<T>, (results, result), told),
    ensures
        final(results)@.len() == old(results)@.len(),
        result is Ok ==> told is None && final(results)@ == old(results)@,
        told is Some == (result is Err && old(results)@.len() == 0),
        told is Some ==> (told->0)@ == "browser close failed: "@ + result->Err_0@,
        0 <= i < old(results)@.len() - 1 ==> final(results)@[i] == old(results)@[i],
        result is Err && old(results)@.len() > 0 ==> {
            let before = old(results)@[old(results)@.len() - 1];
            let after = final(results)@[old(results)@.len() - 1];
            &&& after.id == before.id
            &&& after.captures == before.captures
            &&& after.ms == before.ms
            &&& !after.ok
            &&& before.ok ==> after.error is Some && (after.error->0)@ == "browser close failed: "@
                + result->Err_0@
            &&& !before.ok ==> after.error == before.error
        },
{
    if result is Err && old(results)@.len() > 0 && 0 <= i < old(results)@.len() - 1 {
        assert(final(results)@.drop_last()[i] == old(results)@.drop_last()[i]);
    }
}

} // verus!
