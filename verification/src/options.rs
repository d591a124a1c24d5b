//! Options for launching, attaching and acting.
//!
//! Timeouts that callers give in milliseconds may have a fraction. Their type is a parameter
//! of the options, which only carry them.

use crate::json::{json_text, well_formed, Json};
use crate::text::{text_views, IntoText};
use std::collections::HashMap;
use std::time::Duration;
use vstd::prelude::*;

verus! {

/// What `Duration::from_millis` makes of a number of milliseconds.
pub uninterp spec fn duration_of_millis(millis: u64) -> std::time::Duration;

/// `Duration::from_millis` of the standard library. The contract only gives the duration a
/// name, `duration_of_millis`: the library carries durations and does not look into them.
pub assume_specification[ std::time::Duration::from_millis ](millis: u64) -> (r:
    std::time::Duration)
    ensures
        r == duration_of_millis(millis),
;

/// Obtain the Chromium browser type.
pub fn chromium() -> (r: Chromium)
    ensures
        r == Chromium,
{
    Chromium
}

/// Chromium launcher and executable discovery.
#[derive(Clone, Copy, Debug, Default)]
pub struct Chromium;

/// Options for attaching to an existing browser over CDP.
#[derive(Debug)]
pub struct ConnectOptions {
    pub endpoint: String,
    pub headers: Vec<(String, String)>,
    pub timeout: Duration,
}

/// The characters of a list of headers.
pub open spec fn header_views(headers: Seq<(String, String)>) -> Seq<(Seq<char>, Seq<char>)> {
    headers.map_values(|header: (String, String)| (header.0@, header.1@))
}

impl ConnectOptions {
    /// Create options with the default 60-second attach timeout.
    pub fn new<S: IntoText>(endpoint: S) -> (r: Self)
        ensures
            r.endpoint@ == endpoint.text(),
            header_views(r.headers@) == Seq::<(Seq<char>, Seq<char>)>::empty(),
            r.timeout == duration_of_millis(60_000),
    {
        let headers: Vec<(String, String)> = Vec::new();
        assert(header_views(headers@) =~= Seq::empty());
        ConnectOptions {
            endpoint: endpoint.into_text(),
            headers,
            timeout: Duration::from_millis(60_000),
        }
    }

    /// Add an HTTP/WebSocket header used while resolving and attaching.
    pub fn header<N: IntoText, V: IntoText>(self, name: N, value: V) -> (r: Self)
        ensures
            r.endpoint == self.endpoint,
            r.timeout == self.timeout,
            header_views(r.headers@) == header_views(self.headers@).push(
                (name.text(), value.text()),
            ),
    {
        let mut options = self;
        options.headers.push((name.into_text(), value.into_text()));
        assert(header_views(options.headers@) =~= header_views(self.headers@).push(
            (name.text(), value.text()),
        ));
        options
    }

    /// Set the total attach timeout.
    pub fn timeout(self, timeout: Duration) -> (r: Self)
        ensures
            r == (ConnectOptions { timeout, ..self }),
    {
        let mut options = self;
        options.timeout = timeout;
        options
    }
}

impl Clone for ConnectOptions {
    fn clone(&self) -> (r: Self)
        ensures
            r.endpoint@ == self.endpoint@,
            header_views(r.headers@) == header_views(self.headers@),
            r.timeout == self.timeout,
    {
        let mut headers: Vec<(String, String)> = Vec::new();
        let mut i: usize = 0;
        while i < self.headers.len()
            invariant
                i <= self.headers@.len(),
                headers@ == self.headers@.take(i as int),
            decreases self.headers@.len() - i,
        {
            let header = &self.headers[i];
            headers.push((header.0.clone(), header.1.clone()));
            i += 1;
        }
        assert(headers@ =~= self.headers@);
        ConnectOptions { endpoint: self.endpoint.clone(), headers, timeout: self.timeout }
    }
}

/// Optional proxy configuration for Chromium.
#[derive(Clone, Debug)]
pub struct ProxyOptions {
    pub server: String,
    pub bypass: Option<String>,
    pub username: Option<String>,
    pub password: Option<String>,
}

impl ProxyOptions {
    /// Create proxy options for a proxy server URL.
    pub fn new<S: IntoText>(server: S) -> (r: Self)
        ensures
            r.server@ == server.text(),
            r.bypass is None,
            r.username is None,
            r.password is None,
    {
        ProxyOptions { server: server.into_text(), bypass: None, username: None, password: None }
    }
}

/// The launch timeout of the default [`LaunchOptions`], in milliseconds.
pub const DEFAULT_LAUNCH_TIMEOUT_MS: u32 = 30_000;

/// Chromium process launch options.
#[derive(Clone, Debug)]
pub struct LaunchOptions<T> {
    pub headless: bool,
    pub executable_path: Option<String>,
    pub channel: Option<String>,
    pub args: Vec<String>,
    pub ignore_all_default_args: bool,
    pub ignore_default_args: Vec<String>,
    pub timeout: Option<T>,
    pub user_data_dir: Option<String>,
    pub env: HashMap<String, String>,
    pub chromium_sandbox: bool,
    pub proxy: Option<ProxyOptions>,
}

impl<T: From<u32>> Default for LaunchOptions<T> {
    fn default() -> (r: Self)
        ensures
            r.headless,
            r.executable_path is None,
            r.channel is None,
            text_views(r.args@) == Seq::<Seq<char>>::empty(),
            !r.ignore_all_default_args,
            text_views(r.ignore_default_args@) == Seq::<Seq<char>>::empty(),
            r.timeout matches Some(timeout) && call_ensures(
                <T as From<u32>>::from,
                (DEFAULT_LAUNCH_TIMEOUT_MS,),
                timeout,
            ),
            r.user_data_dir is None,
            r.env@ == vstd::map::Map::<String, String>::empty(),
            !r.chromium_sandbox,
            r.proxy is None,
    {
        let args: Vec<String> = Vec::new();
        let ignore_default_args: Vec<String> = Vec::new();
        assert(text_views(args@) =~= Seq::empty());
        assert(text_views(ignore_default_args@) =~= Seq::empty());
        LaunchOptions {
            headless: true,
            executable_path: None,
            channel: None,
            args,
            ignore_all_default_args: false,
            ignore_default_args,
            timeout: Some(T::from(DEFAULT_LAUNCH_TIMEOUT_MS)),
            user_data_dir: None,
            env: HashMap::new(),
            chromium_sandbox: false,
            proxy: None,
        }
    }
}

impl<T> LaunchOptions<T> {
    /// Set whether Chromium launches headlessly.
    pub fn headless(self, headless: bool) -> (r: Self)
        ensures
            r == (LaunchOptions { headless, ..self }),
    {
        let mut options = self;
        options.headless = headless;
        options
    }

    /// Override the Chromium executable path.
    pub fn executable_path<S: IntoText>(self, path: S) -> (r: Self)
        ensures
            r.executable_path matches Some(text) && text@ == path.text(),
            r == (LaunchOptions { executable_path: r.executable_path, ..self }),
    {
        let mut options = self;
        options.executable_path = Some(path.into_text());
        options
    }

    /// Override the launch timeout in milliseconds; `None` uses the core default.
    pub fn timeout(self, timeout_ms: Option<T>) -> (r: Self)
        ensures
            r == (LaunchOptions { timeout: timeout_ms, ..self }),
    {
        let mut options = self;
        options.timeout = timeout_ms;
        options
    }

    /// Append one Chromium command-line argument.
    pub fn arg<S: IntoText>(self, arg: S) -> (r: Self)
        ensures
            text_views(r.args@) == text_views(self.args@).push(arg.text()),
            r == (LaunchOptions { args: r.args, ..self }),
    {
        let mut options = self;
        options.args.push(arg.into_text());
        assert(text_views(options.args@) =~= text_views(self.args@).push(arg.text()));
        options
    }
}

/// Options for navigation.
#[derive(Clone, Debug)]
pub struct GotoOptions<T> {
    pub wait_until: Option<String>,
    pub timeout: Option<T>,
    pub referer: Option<String>,
}

impl<T> Default for GotoOptions<T> {
    fn default() -> (r: Self)
        ensures
            r == (GotoOptions::<T> { wait_until: None, timeout: None, referer: None }),
    {
        GotoOptions { wait_until: None, timeout: None, referer: None }
    }
}

impl<T> GotoOptions<T> {
    /// Wait for one of `load`, `domcontentloaded`, `networkidle`, or `commit`.
    pub fn wait_until<S: IntoText>(self, state: S) -> (r: Self)
        ensures
            r.wait_until matches Some(text) && text@ == state.text(),
            r == (GotoOptions { wait_until: r.wait_until, ..self }),
    {
        let mut options = self;
        options.wait_until = Some(state.into_text());
        options
    }

    /// Set the navigation timeout in milliseconds.
    pub fn timeout(self, timeout_ms: T) -> (r: Self)
        ensures
            r == (GotoOptions { timeout: Some(timeout_ms), ..self }),
    {
        let mut options = self;
        options.timeout = Some(timeout_ms);
        options
    }

    /// Set the HTTP Referer header for this navigation.
    pub fn referer<S: IntoText>(self, referer: S) -> (r: Self)
        ensures
            r.referer matches Some(text) && text@ == referer.text(),
            r == (GotoOptions { referer: r.referer, ..self }),
    {
        let mut options = self;
        options.referer = Some(referer.into_text());
        options
    }
}

/// Timeout options shared by element actions and reads.
#[derive(Clone, Copy, Debug)]
pub struct ActionOptions<T> {
    pub timeout: Option<T>,
}

impl<T> Default for ActionOptions<T> {
    fn default() -> (r: Self)
        ensures
            r == (ActionOptions::<T> { timeout: None }),
    {
        ActionOptions { timeout: None }
    }
}

impl<T> ActionOptions<T> {
    /// Set the operation timeout in milliseconds.
    pub fn timeout(timeout_ms: T) -> (r: Self)
        ensures
            r == (ActionOptions { timeout: Some(timeout_ms) }),
    {
        ActionOptions { timeout: Some(timeout_ms) }
    }
}

/// Screenshot options.
#[derive(Debug)]
pub struct ScreenshotOptions<T> {
    pub path: Option<String>,
    pub full_page: Option<bool>,
    pub clip: Option<Json>,
    pub timeout: Option<T>,
    pub image_type: Option<String>,
    pub quality: Option<u32>,
    pub omit_background: Option<bool>,
}

impl<T> Default for ScreenshotOptions<T> {
    fn default() -> (r: Self)
        ensures
            r == (ScreenshotOptions::<T> {
                path: None,
                full_page: None,
                clip: None,
                timeout: None,
                image_type: None,
                quality: None,
                omit_background: None,
            }),
    {
        ScreenshotOptions {
            path: None,
            full_page: None,
            clip: None,
            timeout: None,
            image_type: None,
            quality: None,
            omit_background: None,
        }
    }
}

impl<T> ScreenshotOptions<T> {
    /// Also write the screenshot to this path.
    pub fn path<S: IntoText>(self, path: S) -> (r: Self)
        ensures
            r.path matches Some(text) && text@ == path.text(),
            r == (ScreenshotOptions { path: r.path, ..self }),
    {
        let mut options = self;
        options.path = Some(path.into_text());
        options
    }

    /// Capture the entire scrollable page.
    pub fn full_page(self, full_page: bool) -> (r: Self)
        ensures
            r == (ScreenshotOptions { full_page: Some(full_page), ..self }),
    {
        let mut options = self;
        options.full_page = Some(full_page);
        options
    }

    /// The clip rectangle as the JSON text that the engine takes.
    pub fn clip_json(&self) -> (r: Option<String>)
        ensures
            match (self.clip, r) {
                (Some(clip), Some(text)) => well_formed(clip@) ==> text@ == json_text(clip@),
                (None, None) => true,
                _ => false,
            },
    {
        match &self.clip {
            Some(clip) => optional_json(Some(clip)),
            None => optional_json(None),
        }
    }
}

/// An optional JSON value as the JSON text that the engine takes.
pub fn optional_json(value: Option<&Json>) -> (r: Option<String>)
    ensures
        match (value, r) {
            (Some(json), Some(text)) => well_formed(json@) ==> text@ == json_text(json@),
            (None, None) => true,
            _ => false,
        },
{
    match value {
        Some(json) => Some(json.print()),
        None => None,
    }
}

/// Options for closing a page.
#[derive(Clone, Copy, Debug)]
pub struct CloseOptions<T> {
    pub timeout: Option<T>,
    pub run_before_unload: bool,
}

impl<T> Default for CloseOptions<T> {
    fn default() -> (r: Self)
        ensures
            r == (CloseOptions::<T> { timeout: None, run_before_unload: false }),
    {
        CloseOptions { timeout: None, run_before_unload: false }
    }
}

/// A timeout in milliseconds, as a navigation reads it.
#[derive(Clone, Copy, Debug)]
pub enum TimeoutMs {
    /// The caller set none.
    Unset,
    /// The caller set zero or less: wait as good as forever.
    Disabled,
    /// The caller set so many whole milliseconds; less than one counts as zero here.
    Millis(u64),
}

/// How many milliseconds a navigation waits: half a minute unless told otherwise, a day
/// where the timeout is disabled, and never less than one.
pub open spec fn effective_millis(timeout: TimeoutMs) -> u64 {
    match timeout {
        TimeoutMs::Unset => 30_000,
        TimeoutMs::Disabled => 86_400_000,
        TimeoutMs::Millis(millis) => if millis == 0 { 1 } else { millis },
    }
}

/// How long a navigation waits.
pub fn duration_from_timeout_ms(timeout: TimeoutMs) -> (r: Duration)
    ensures
        r == duration_of_millis(effective_millis(timeout)),
{
    match timeout {
        TimeoutMs::Unset => Duration::from_millis(30_000),
        TimeoutMs::Disabled => Duration::from_millis(86_400_000),
        TimeoutMs::Millis(millis) => Duration::from_millis(if millis == 0 { 1 } else { millis }),
    }
}

/// A navigation waits for as long as it is told to, at least a millisecond; half a minute
/// where it is told nothing, and a day where its timeout is disabled.
pub proof fn navigations_wait_as_told(
    millis: u64,
    told: Duration,
    unset: Duration,
    disabled: Duration,
)
    requires
        call_ensures(duration_from_timeout_ms, (TimeoutMs::Millis(millis),), told),
        call_ensures(duration_from_timeout_ms, (TimeoutMs::Unset,), unset),
        call_ensures(duration_from_timeout_ms, (TimeoutMs::Disabled,), disabled),
    ensures
        millis > 0 ==> told == duration_of_millis(millis),
        millis == 0 ==> told == duration_of_millis(1),
        unset == duration_of_millis(30_000),
        disabled == duration_of_millis(86_400_000),
{
}

/// Headers are kept in the order in which they were added, each with its name and its value
/// as given.
pub proof fn headers_are_kept_as_given(
    options: ConnectOptions,
    name: &str,
    value: &str,
    more: ConnectOptions,
)
    requires
        call_ensures(ConnectOptions::header::<&str, &str>, (options, name, value), more),
    ensures
        more.endpoint == options.endpoint,
        more.timeout == options.timeout,
        more.headers@.len() == options.headers@.len() + 1,
        more.headers@.last().0@ == name@,
        more.headers@.last().1@ == value@,
        forall|i: int|
            0 <= i < options.headers@.len() ==> (#[trigger] more.headers@[i]).0@
                == options.headers@[i].0@ && more.headers@[i].1@ == options.headers@[i].1@,
{
    let before = header_views(options.headers@);
    let after = header_views(more.headers@);
    assert(after.len() == before.len() + 1);
    assert(after[before.len() as int] == (name@, value@));
    assert(more.headers@.last() == more.headers@[before.len() as int]);
    assert forall|i: int| 0 <= i < options.headers@.len() implies (#[trigger] more.headers@[i]).0@
        == options.headers@[i].0@ && more.headers@[i].1@ == options.headers@[i].1@ by {
        assert(after[i] == before[i]);
    }
}

/// Options to attach start with the endpoint as given, no headers and a minute of time.
pub proof fn attaching_starts_with_the_endpoint(endpoint: &str, options: ConnectOptions)
    requires
        call_ensures(ConnectOptions::new::<&str>, (endpoint,), options),
    ensures
        options.endpoint@ == endpoint@,
        options.headers@.len() == 0,
        options.timeout == duration_of_millis(60_000),
{
    assert(header_views(options.headers@).len() == options.headers@.len());
}

/// A proxy starts with its server as given and nothing else.
pub proof fn proxies_start_with_the_server(server: &str, proxy: ProxyOptions)
    requires
        call_ensures(ProxyOptions::new::<&str>, (server,), proxy),
    ensures
        proxy.server@ == server@,
        proxy.bypass is None && proxy.username is None && proxy.password is None,
{
}

/// The setters of launch options set what they are named for, as given, and nothing else.
pub proof fn launch_setters_set_one_thing<T>(
    options: LaunchOptions<T>,
    headless: bool,
    path: &str,
    timeout: Option<T>,
    arg: &str,
    quiet: LaunchOptions<T>,
    located: LaunchOptions<T>,
    timed: LaunchOptions<T>,
    longer: LaunchOptions<T>,
)
    requires
        call_ensures(LaunchOptions::<T>::headless, (options, headless), quiet),
        call_ensures(LaunchOptions::<T>::executable_path::<&str>, (options, path), located),
        call_ensures(LaunchOptions::<T>::timeout, (options, timeout), timed),
        call_ensures(LaunchOptions::<T>::arg::<&str>, (options, arg), longer),
    ensures
        quiet == (LaunchOptions { headless, ..options }),
        located.executable_path is Some && (located.executable_path->0)@ == path@,
        located == (LaunchOptions { executable_path: located.executable_path, ..options }),
        timed == (LaunchOptions { timeout, ..options }),
        longer == (LaunchOptions { args: longer.args, ..options }),
        longer.args@.len() == options.args@.len() + 1,
        longer.args@.last()@ == arg@,
        forall|i: int|
            0 <= i < options.args@.len() ==> (#[trigger] longer.args@[i])@ == options.args@[i]@,
{
    let before = text_views(options.args@);
    let after = text_views(longer.args@);
    assert(after.len() == before.len() + 1);
    assert(after[before.len() as int] == arg@);
    assert(longer.args@.last() == longer.args@[before.len() as int]);
    assert forall|i: int| 0 <= i < options.args@.len() implies (#[trigger] longer.args@[i])@
        == options.args@[i]@ by {
        assert(after[i] == before[i]);
    }
}

/// The setters of navigation options set what they are named for, as given, and nothing else.
pub proof fn goto_setters_set_one_thing<T>(
    options: GotoOptions<T>,
    state: &str,
    timeout: T,
    referer: &str,
    waiting: GotoOptions<T>,
    timed: GotoOptions<T>,
    referred: GotoOptions<T>,
)
    requires
        call_ensures(GotoOptions::<T>::wait_until::<&str>, (options, state), waiting),
        call_ensures(GotoOptions::<T>::timeout, (options, timeout), timed),
        call_ensures(GotoOptions::<T>::referer::<&str>, (options, referer), referred),
    ensures
        waiting.wait_until is Some && (waiting.wait_until->0)@ == state@,
        waiting == (GotoOptions { wait_until: waiting.wait_until, ..options }),
        timed == (GotoOptions { timeout: Some(timeout), ..options }),
        referred.referer is Some && (referred.referer->0)@ == referer@,
        referred == (GotoOptions { referer: referred.referer, ..options }),
{
}

/// The setters of screenshot options set what they are named for, as given, and nothing else;
/// the clip is handed on as the JSON text of its value, and only where there is one.
pub proof fn screenshot_setters_set_one_thing<T>(
    options: ScreenshotOptions<T>,
    path: &str,
    full_page: bool,
    placed: ScreenshotOptions<T>,
    full: ScreenshotOptions<T>,
    clip: Option<String>,
)
    requires
        call_ensures(ScreenshotOptions::<T>::path::<&str>, (options, path), placed),
        call_ensures(ScreenshotOptions::<T>::full_page, (options, full_page), full),
        call_ensures(ScreenshotOptions::<T>::clip_json, (&options,), clip),
    ensures
        placed.path is Some && (placed.path->0)@ == path@,
        placed == (ScreenshotOptions { path: placed.path, ..options }),
        full == (ScreenshotOptions { full_page: Some(full_page), ..options }),
        clip is Some == options.clip is Some,
        clip is Some && well_formed((options.clip->0)@) ==> (clip->0)@ == json_text(
            (options.clip->0)@,
        ),
{
}

/// An action's timeout is the one that is given.
pub proof fn action_timeouts_are_kept<T>(timeout: T, options: ActionOptions<T>)
    requires
        call_ensures(ActionOptions::<T>::timeout, (timeout,), options),
    ensures
        options.timeout == Some(timeout),
{
}

/// A timeout for attaching replaces the one before and nothing else, and a copy of the options
/// holds what they hold.
pub proof fn attaching_is_timed_and_copied(
    options: ConnectOptions,
    timeout: Duration,
    timed: ConnectOptions,
    copy: ConnectOptions,
    i: int,
)
    requires
        call_ensures(ConnectOptions::timeout, (options, timeout), timed),
        call_ensures(<ConnectOptions as Clone>::clone, (&options,), copy),
    ensures
        timed.timeout == timeout,
        timed.endpoint == options.endpoint,
        timed.headers == options.headers,
        copy.endpoint@ == options.endpoint@,
        copy.timeout == options.timeout,
        copy.headers@.len() == options.headers@.len(),
        0 <= i < options.headers@.len() ==> copy.headers@[i].0@ == options.headers@[i].0@
            && copy.headers@[i].1@ == options.headers@[i].1@,
{
    let before = header_views(options.headers@);
    let after = header_views(copy.headers@);
    assert(after.len() == copy.headers@.len() && before.len() == options.headers@.len());
    if 0 <= i < options.headers@.len() {
        assert(after[i] == before[i]);
    }
}

/// Chromium is launched headless, with its own arguments only and half a minute of time,
/// unless told otherwise.
pub proof fn launches_are_headless_by_default<T: From<u32>>(options: LaunchOptions<T>)
    requires
        call_ensures(<LaunchOptions<T> as Default>::default, (), options),
    ensures
        options.headless && !options.ignore_all_default_args && !options.chromium_sandbox,
        options.executable_path is None && options.channel is None && options.user_data_dir is None
            && options.proxy is None,
        options.args@.len() == 0 && options.ignore_default_args@.len() == 0,
        options.timeout is Some && call_ensures(
            <T as From<u32>>::from,
            (30_000u32,),
            options.timeout->0,
        ),
{
    assert(text_views(options.args@).len() == options.args@.len());
    assert(text_views(options.ignore_default_args@).len() == options.ignore_default_args@.len());
}

/// Every other option is unset by default.
pub proof fn other_options_are_unset_by_default<T>(
    goto: GotoOptions<T>,
    action: ActionOptions<T>,
    screenshot: ScreenshotOptions<T>,
    close: CloseOptions<T>,
)
    requires
        call_ensures(<GotoOptions<T> as Default>::default, (), goto),
        call_ensures(<ActionOptions<T> as Default>::default, (), action),
        call_ensures(<ScreenshotOptions<T> as Default>::default, (), screenshot),
        call_ensures(<CloseOptions<T> as Default>::default, (), close),
    ensures
        goto.wait_until is None && goto.timeout is None && goto.referer is None,
        action.timeout is None,
        screenshot.path is None && screenshot.full_page is None && screenshot.clip is None
            && screenshot.timeout is None && screenshot.image_type is None
            && screenshot.quality is None && screenshot.omit_background is None,
        close.timeout is None && !close.run_before_unload,
{
}

/// A value that is given is handed on as its JSON text, and none is handed on where none is
/// given.
pub proof fn given_values_become_texts(value: Option<&Json>, text: Option<String>)
    requires
        call_ensures(optional_json, (value,), text),
    ensures
        text is Some == value is Some,
        value is Some && well_formed(value->0@) ==> (text->0)@ == json_text(value->0@),
{
}

} // verus!
