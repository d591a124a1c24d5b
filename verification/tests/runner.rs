use rustwright::json::Json;
use rustwright::manifest::{Case, Step};
use rustwright::runner::{
    all_ok, assert_string, browser_closed, exit_status, finish_step, insert_capture, launch_failed,
    plan_step, Action, CaseResult, CaseRun, Phase, Reply,
};

fn text(value: &str) -> String {
    value.to_string()
}

fn some(value: &str) -> Option<String> {
    Some(value.to_string())
}

fn case(html: Option<String>, steps: Vec<Step>) -> Case {
    Case { id: text("c"), description: None, html, url: None, steps }
}

fn goto(url: Option<String>, use_case_html: Option<bool>) -> Step {
    Step::Goto { url, use_case_html, wait_until: some("load") }
}

fn target(case: &Case, step: &Step) -> Result<String, String> {
    match plan_step(case, step) {
        Ok(Action::Goto { target, wait_until }) => {
            assert_eq!(wait_until.as_deref(), Some("load"));
            Ok(target)
        }
        Ok(other) => panic!("{:?}", other),
        Err(error) => Err(error),
    }
}

#[test]
fn navigations_go_to_one_place() {
    let own = case(some("<b>"), Vec::new());
    let bare = case(None, Vec::new());
    assert_eq!(target(&own, &goto(some("http://x"), None)), Ok(text("http://x")));
    assert_eq!(target(&own, &goto(some("http://x"), Some(false))), Ok(text("http://x")));
    assert_eq!(
        target(&own, &goto(None, Some(true))),
        Ok(text("data:text/html;charset=utf-8,%3Cb%3E"))
    );
    assert_eq!(
        target(&bare, &goto(None, Some(true))),
        Err(text("goto.useCaseHtml requires the case to define html"))
    );
    let both = Err(text("goto requires exactly one of url or useCaseHtml:true"));
    assert_eq!(target(&own, &goto(some("http://x"), Some(true))), both);
    assert_eq!(target(&own, &goto(None, Some(false))), both);
    assert_eq!(target(&own, &goto(None, None)), both);
}

#[test]
fn steps_ask_for_what_they_need() {
    let any = case(None, Vec::new());
    let click = Step::Click { selector: text("#a") };
    assert!(matches!(plan_step(&any, &click), Ok(Action::Click { selector }) if selector == "#a"));
    let fill = Step::Fill { selector: text("#a"), value: text("v") };
    assert!(matches!(
        plan_step(&any, &fill),
        Ok(Action::Fill { selector, value }) if selector == "#a" && value == "v"
    ));
    let check = Step::AssertTitle { equals: None, contains: None };
    assert!(matches!(plan_step(&any, &check), Ok(Action::Title)));
    let read = Step::AssertText { selector: text("p"), equals: None, contains: None };
    assert!(matches!(
        plan_step(&any, &read),
        Ok(Action::TextContent { selector }) if selector == "p"
    ));
    let evaluate = Step::Evaluate { expression: text("e"), arg: Some(Json::Null), capture: text("c") };
    assert!(matches!(
        plan_step(&any, &evaluate),
        Ok(Action::Evaluate { expression, arg: Some(Json::Null) }) if expression == "e"
    ));
    let compare = Step::AssertEval { expression: text("e"), equals: Json::Null };
    assert!(matches!(plan_step(&any, &compare), Ok(Action::Evaluate { arg: None, .. })));
    let image = Step::Screenshot { capture: text("c") };
    assert!(matches!(plan_step(&any, &image), Ok(Action::Screenshot)));
}

#[test]
fn captures_are_inserted_even_where_the_name_is_taken() {
    let mut captures = serde_json::Map::new();
    assert_eq!(insert_capture(&mut captures, "a", serde_json::Value::from(1)), Ok(()));
    assert_eq!(
        insert_capture(&mut captures, "a", serde_json::Value::from(2)),
        Err(text("duplicate capture name \"a\""))
    );
    assert_eq!(captures.get("a"), Some(&serde_json::Value::from(2)));
    assert_eq!(insert_capture(&mut captures, "b", serde_json::Value::Null), Ok(()));
    assert_eq!(captures.len(), 2);
}

#[test]
fn texts_must_equal_or_contain() {
    assert_eq!(assert_string("title", "Home", &some("Home"), &None), Ok(()));
    assert_eq!(
        assert_string("title", "Home", &some("home"), &None),
        Err(text("title mismatch: expected \"home\", got \"Home\""))
    );
    assert_eq!(assert_string("title", "Home", &None, &some("om")), Ok(()));
    assert_eq!(
        assert_string("title", "Home", &None, &some("x\n")),
        Err(text("title did not contain \"x\\n\"; got \"Home\""))
    );
    let both = Err(text("assertion requires exactly one of equals or contains"));
    assert_eq!(assert_string("title", "Home", &None, &None), both);
    assert_eq!(assert_string("title", "Home", &some("Home"), &some("Home")), both);
}

#[test]
fn replies_are_captured() {
    let mut captures = serde_json::Map::new();
    let title = Step::Title { capture: text("title") };
    assert_eq!(finish_step(&title, Reply::Title(text("T")), &mut captures), Ok(()));
    let content = Step::TextContent { selector: text("p"), capture: text("text") };
    assert_eq!(finish_step(&content, Reply::Content(some("x")), &mut captures), Ok(()));
    let missing = Step::TextContent { selector: text("p"), capture: text("none") };
    assert_eq!(finish_step(&missing, Reply::Content(None), &mut captures), Ok(()));
    let evaluate = Step::Evaluate { expression: text("e"), arg: None, capture: text("value") };
    let value = Json::parse("{\"n\":[1.5]}").unwrap();
    assert_eq!(finish_step(&evaluate, Reply::Value(value), &mut captures), Ok(()));
    let image = Step::Screenshot { capture: text("size") };
    assert_eq!(finish_step(&image, Reply::Image(vec![0; 70_000]), &mut captures), Ok(()));
    assert_eq!(
        serde_json::Value::Object(captures).to_string(),
        "{\"none\":null,\"size\":70000,\"text\":\"x\",\"title\":\"T\",\"value\":{\"n\":[1.5]}}"
    );
}

#[test]
fn replies_are_checked() {
    let mut captures = serde_json::Map::new();
    let title = Step::AssertTitle { equals: some("T"), contains: None };
    assert_eq!(finish_step(&title, Reply::Title(text("T")), &mut captures), Ok(()));
    assert_eq!(
        finish_step(&title, Reply::Title(text("U")), &mut captures),
        Err(text("title mismatch: expected \"T\", got \"U\""))
    );
    let content = Step::AssertText { selector: text("p"), equals: None, contains: some("a") };
    assert_eq!(finish_step(&content, Reply::Content(some("bab")), &mut captures), Ok(()));
    assert_eq!(
        finish_step(&content, Reply::Content(some("b")), &mut captures),
        Err(text("textContent for \"p\" did not contain \"a\"; got \"b\""))
    );
    assert_eq!(
        finish_step(&content, Reply::Content(None), &mut captures),
        Err(text("textContent for \"p\" was null"))
    );
    let eval = Step::AssertEval { expression: text("e"), equals: Json::parse("{\"a\":[1]}").unwrap() };
    assert_eq!(
        finish_step(&eval, Reply::Value(Json::parse("{\"a\":[1]}").unwrap()), &mut captures),
        Ok(())
    );
    assert_eq!(
        finish_step(&eval, Reply::Value(Json::parse("{\"a\":[1.0]}").unwrap()), &mut captures),
        Err(text("evaluate mismatch: expected {\"a\":[1]}, got {\"a\":[1.0]}"))
    );
    let click = Step::Click { selector: text("p") };
    assert_eq!(finish_step(&click, Reply::Done, &mut captures), Ok(()));
    assert_eq!(
        finish_step(&click, Reply::Failed(text("no such element")), &mut captures),
        Err(text("no such element"))
    );
    assert!(captures.is_empty());
}

#[test]
fn cases_pass_step_by_step() {
    let steps = vec![
        goto(some("http://x"), None),
        Step::Title { capture: text("t") },
        Step::AssertTitle { equals: some("X"), contains: None },
    ];
    let whole = case(None, steps);
    let run = CaseRun::new(&whole);
    assert!(matches!(run.phase, Phase::Opening));
    let run = run.opened(Ok(()));
    assert!(matches!(run.phase, Phase::Awaiting { index: 0, action: Action::Goto { .. } }));
    let run = run.replied(Reply::Done);
    assert!(matches!(run.phase, Phase::Awaiting { index: 1, action: Action::Title }));
    let run = run.replied(Reply::Title(text("X")));
    assert!(matches!(run.phase, Phase::Awaiting { index: 2, action: Action::Title }));
    let run = run.replied(Reply::Title(text("X")));
    assert!(matches!(run.phase, Phase::Closing { error: None }));
    let run = run.closed(Ok(()));
    assert!(matches!(run.phase, Phase::Finished { error: None }));
    let result = run.finish(12.5);
    assert_eq!(result.id, "c");
    assert!(result.ok);
    assert_eq!(result.ms, 12.5);
    assert_eq!(result.error, None);
    assert_eq!(serde_json::Value::Object(result.captures).to_string(), "{\"t\":\"X\"}");
}

#[test]
fn cases_stop_at_the_first_failing_step() {
    let steps = vec![
        Step::Title { capture: text("t") },
        Step::Title { capture: text("t") },
        Step::Click { selector: text("never") },
    ];
    let whole = case(None, steps);
    let run = CaseRun::new(&whole)
        .opened(Ok(()))
        .replied(Reply::Title(text("1")))
        .replied(Reply::Title(text("2")));
    assert!(matches!(run.phase, Phase::Closing { .. }));
    let result = run.closed(Err(text("gone"))).finish(0);
    assert!(!result.ok);
    assert_eq!(result.error.as_deref(), Some("step 2: duplicate capture name \"t\""));
    assert_eq!(serde_json::Value::Object(result.captures).to_string(), "{\"t\":\"2\"}");
}

#[test]
fn cases_fail_where_a_step_cannot_be_asked() {
    let whole = case(None, vec![goto(None, Some(true))]);
    let run = CaseRun::new(&whole).opened(Ok(()));
    assert!(matches!(run.phase, Phase::Closing { .. }));
    let result = run.closed(Ok(())).finish(0);
    assert_eq!(
        result.error.as_deref(),
        Some("step 1: goto.useCaseHtml requires the case to define html")
    );
}

#[test]
fn cases_fail_where_pages_do_not_open_or_close() {
    let whole = case(None, vec![Step::Click { selector: text("a") }]);
    let result = CaseRun::new(&whole).opened(Err(text("no context"))).finish(0);
    assert!(!result.ok);
    assert_eq!(result.error.as_deref(), Some("new page failed: no context"));
    let result = CaseRun::new(&whole)
        .opened(Ok(()))
        .replied(Reply::Done)
        .closed(Err(text("gone")))
        .finish(0);
    assert!(!result.ok);
    assert_eq!(result.error.as_deref(), Some("page close failed: gone"));
}

#[test]
fn failed_launches_fail_every_case() {
    let a = case(None, Vec::new());
    let b = case(None, Vec::new());
    let results = launch_failed(&vec![&a, &b], "no executable", 0.0);
    assert_eq!(results.len(), 2);
    for result in &results {
        assert!(!result.ok);
        assert_eq!(result.id, "c");
        assert_eq!(result.ms, 0.0);
        assert!(result.captures.is_empty());
        assert_eq!(result.error.as_deref(), Some("browser launch failed: no executable"));
    }
    assert!(!all_ok(&results));
}

fn result(ok: bool) -> CaseResult<u8> {
    let error = if ok { None } else { some("step 1: x") };
    CaseResult { id: text("c"), ok, captures: serde_json::Map::new(), ms: 0, error }
}

#[test]
fn browsers_that_do_not_close_fail_the_last_case() {
    let mut results = vec![result(true), result(true)];
    assert_eq!(browser_closed(&mut results, Ok(())), None);
    assert!(all_ok(&results));
    assert_eq!(browser_closed(&mut results, Err(text("stuck"))), None);
    assert!(results[0].ok);
    assert!(!results[1].ok);
    assert_eq!(results[1].error.as_deref(), Some("browser close failed: stuck"));
    let mut failed = vec![result(false)];
    assert_eq!(browser_closed(&mut failed, Err(text("stuck"))), None);
    assert_eq!(failed[0].error.as_deref(), Some("step 1: x"));
    let mut none: Vec<CaseResult<u8>> = Vec::new();
    assert_eq!(
        browser_closed(&mut none, Err(text("stuck"))),
        some("browser close failed: stuck")
    );
    assert!(none.is_empty());
}

#[test]
fn runs_tell_their_outcome_by_status() {
    assert!(all_ok::<u8>(&Vec::new()));
    assert!(!all_ok(&vec![result(true), result(false)]));
    assert_eq!(exit_status(&Ok(true)), 0);
    assert_eq!(exit_status(&Ok(false)), 1);
    assert_eq!(exit_status(&Err(text("cannot read"))), 2);
}
