use rustwright::json::Json;
use rustwright::options::{duration_from_timeout_ms, optional_json, TimeoutMs};
use rustwright::{
    chromium, ActionOptions, CloseOptions, ConnectOptions, DialogKind, GotoOptions, LaunchOptions,
    PageEvent, ProxyOptions, ScreenshotOptions,
};
use std::time::Duration;

#[test]
fn connect_options_start_with_the_default_timeout() {
    let options = ConnectOptions::new("ws://127.0.0.1:9222");
    assert_eq!(options.endpoint, "ws://127.0.0.1:9222");
    assert!(options.headers.is_empty());
    assert_eq!(options.timeout, Duration::from_secs(60));
}

#[test]
fn connect_options_collect_headers_in_order() {
    let name = String::from("x-second");
    let options = ConnectOptions::new(String::from("http://localhost"))
        .header("x-first", "1")
        .header(&name, String::from("2"))
        .timeout(Duration::from_millis(500));
    assert_eq!(
        options.headers,
        vec![
            ("x-first".to_string(), "1".to_string()),
            ("x-second".to_string(), "2".to_string()),
        ]
    );
    assert_eq!(options.timeout, Duration::from_millis(500));
    let copy = options.clone();
    assert_eq!(copy.endpoint, options.endpoint);
    assert_eq!(copy.headers, options.headers);
    assert_eq!(copy.timeout, options.timeout);
}

#[test]
fn proxy_options_start_with_a_server_only() {
    let proxy = ProxyOptions::new("http://proxy:3128");
    assert_eq!(proxy.server, "http://proxy:3128");
    assert_eq!(proxy.bypass, None);
    assert_eq!(proxy.username, None);
    assert_eq!(proxy.password, None);
}

#[test]
fn launch_options_default_to_headless() {
    let options: LaunchOptions<f64> = LaunchOptions::default();
    assert!(options.headless);
    assert_eq!(options.executable_path, None);
    assert_eq!(options.channel, None);
    assert!(options.args.is_empty());
    assert!(!options.ignore_all_default_args);
    assert!(options.ignore_default_args.is_empty());
    assert_eq!(options.timeout, Some(30_000.0));
    assert_eq!(options.user_data_dir, None);
    assert!(options.env.is_empty());
    assert!(!options.chromium_sandbox);
    assert!(options.proxy.is_none());
}

#[test]
fn launch_options_are_built_step_by_step() {
    let options: LaunchOptions<f64> = LaunchOptions::default()
        .headless(false)
        .executable_path("/usr/bin/chromium")
        .timeout(None)
        .arg("--remote-debugging-port=0")
        .arg(String::from("--mute-audio"));
    assert!(!options.headless);
    assert_eq!(options.executable_path.as_deref(), Some("/usr/bin/chromium"));
    assert_eq!(options.timeout, None);
    assert_eq!(options.args, vec!["--remote-debugging-port=0", "--mute-audio"]);
    assert!(!options.chromium_sandbox);
}

#[test]
fn goto_options_are_built_step_by_step() {
    let options = GotoOptions::default()
        .wait_until("networkidle")
        .timeout(1500.5)
        .referer("https://example.com/");
    assert_eq!(options.wait_until.as_deref(), Some("networkidle"));
    assert_eq!(options.timeout, Some(1500.5));
    assert_eq!(options.referer.as_deref(), Some("https://example.com/"));
    let plain: GotoOptions<f64> = GotoOptions::default();
    assert_eq!(plain.wait_until, None);
    assert_eq!(plain.timeout, None);
    assert_eq!(plain.referer, None);
}

#[test]
fn action_and_close_options_default_to_nothing() {
    assert_eq!(ActionOptions::timeout(2.5).timeout, Some(2.5));
    let action: ActionOptions<f64> = ActionOptions::default();
    assert_eq!(action.timeout, None);
    let close: CloseOptions<f64> = CloseOptions::default();
    assert_eq!(close.timeout, None);
    assert!(!close.run_before_unload);
}

#[test]
fn screenshot_options_print_their_clip() {
    let mut options: ScreenshotOptions<f64> = ScreenshotOptions::default().path("a.png").full_page(true);
    assert_eq!(options.path.as_deref(), Some("a.png"));
    assert_eq!(options.full_page, Some(true));
    assert_eq!(options.clip_json(), None);
    options.clip = Some(Json::parse("{ \"y\": 2, \"x\": 1 }").unwrap());
    assert_eq!(options.clip_json().as_deref(), Some("{\"x\":1,\"y\":2}"));
}

#[test]
fn optional_values_become_texts() {
    assert_eq!(optional_json(None), None);
    assert_eq!(optional_json(Some(&Json::Null)).as_deref(), Some("null"));
}

#[test]
fn timeouts_become_durations() {
    assert_eq!(duration_from_timeout_ms(TimeoutMs::Unset), Duration::from_secs(30));
    assert_eq!(
        duration_from_timeout_ms(TimeoutMs::Disabled),
        Duration::from_secs(24 * 60 * 60)
    );
    assert_eq!(duration_from_timeout_ms(TimeoutMs::Millis(0)), Duration::from_millis(1));
    assert_eq!(duration_from_timeout_ms(TimeoutMs::Millis(1)), Duration::from_millis(1));
    assert_eq!(duration_from_timeout_ms(TimeoutMs::Millis(2500)), Duration::from_millis(2500));
}

#[test]
fn chromium_is_a_plain_value() {
    let launcher = chromium();
    let copy = launcher;
    assert_eq!(format!("{:?} {:?}", launcher, copy), "Chromium Chromium");
}

#[test]
fn dialog_kinds_compare_by_content() {
    assert_eq!(DialogKind::Alert, DialogKind::Alert);
    assert_ne!(DialogKind::Confirm, DialogKind::Prompt);
    assert_eq!(DialogKind::Other("x".to_string()), DialogKind::Other("x".to_string()));
    let event = PageEvent::Dialog { kind: DialogKind::BeforeUnload, message: "bye".to_string(), dialog: 7 };
    assert!(matches!(
        event,
        PageEvent::Dialog { kind: DialogKind::BeforeUnload, dialog: 7, .. }
    ));
}
