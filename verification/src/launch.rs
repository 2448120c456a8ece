//! Building browser invocations and pacing a restore run.
//!
//! A restore resolves a collection's configuration once, then turns every
//! site into one platform-appropriate command: the browser executable (or
//! macOS `open` shim), the window-mode flag the browser family understands,
//! and the shell-quoted address as the sole positional argument.  The
//! surrounding application spawns the commands; the stepper here decides
//! what to launch next, and provably ignores how the previous launch fared.

use vstd::prelude::*;
use vstd::string::StringExecFns;
use crate::models::{
    clone_opt_string, opt_string_view, Browser, BrowserMode, BrowserView, CollectionConfig,
    SiteEntry,
};

verus! {

/// A fully resolved configuration: which browser, which mode, and an
/// optional explicit executable path.
#[derive(Debug)]
pub struct ResolvedBrowserConfig {
    pub browser: Browser,
    pub mode: BrowserMode,
    pub custom_path: Option<String>,
}

/// Mathematical model of a [`ResolvedBrowserConfig`].
#[verifier::ext_equal]
pub ghost struct ResolvedView {
    pub browser: BrowserView,
    pub mode: BrowserMode,
    pub custom_path: Option<Seq<char>>,
}

impl View for ResolvedBrowserConfig {
    type V = ResolvedView;

    open spec fn view(&self) -> ResolvedView {
        ResolvedView {
            browser: self.browser@,
            mode: self.mode,
            custom_path: opt_string_view(self.custom_path),
        }
    }
}

impl Clone for ResolvedBrowserConfig {
    fn clone(&self) -> (r: Self)
        ensures
            r@ == self@,
    {
        ResolvedBrowserConfig {
            browser: self.browser.clone(),
            mode: self.mode,
            custom_path: clone_opt_string(&self.custom_path),
        }
    }
}

/// The host platform a command is built for.
#[derive(Debug, Clone, Copy, PartialEq, Eq, Structural)]
pub enum Platform {
    MacOs,
    Windows,
    Linux,
}

/// One external command: a program and its arguments, in order.
#[derive(Debug)]
pub struct LaunchCommand {
    pub program: String,
    pub args: Vec<String>,
}

/// Mathematical model of a [`LaunchCommand`].
#[verifier::ext_equal]
pub ghost struct LaunchCommandView {
    pub program: Seq<char>,
    pub args: Seq<Seq<char>>,
}

impl View for LaunchCommand {
    type V = LaunchCommandView;

    open spec fn view(&self) -> LaunchCommandView {
        LaunchCommandView {
            program: self.program@,
            args: self.args@.map_values(|a: String| a@),
        }
    }
}

/// What `shlex::try_quote` returns for characters that hold no nul.
pub uninterp spec fn shell_quoted(s: Seq<char>) -> Seq<char>;

/// Relies on shlex::try_quote: the quoting depends on the characters alone,
/// and fails exactly on a string holding a nul character, in which case the
/// input is kept as it stands.
#[verifier::external_body]
fn quote_for_shell(s: &str) -> (r: String)
    ensures
        r@ == if s@.contains('\0') {
            s@
        } else {
            shell_quoted(s@)
        },
{
    match shlex::try_quote(s) {
        Ok(quoted) => quoted.into_owned(),
        Err(_) => s.to_string(),
    }
}

/// The address as it is handed to the command line: shell-quoted, or as it
/// stands when it holds a nul character and cannot be quoted.
pub open spec fn quoted_arg(s: Seq<char>) -> Seq<char> {
    if s.contains('\0') {
        s
    } else {
        shell_quoted(s)
    }
}

/// The program a platform launches for a browser.  On macOS every launch
/// goes through `open`; elsewhere a family with no configured executable
/// falls back to the Chrome one.
pub open spec fn program_spec(platform: Platform, browser: BrowserView) -> Seq<char> {
    match platform {
        Platform::MacOs => "open"@,
        Platform::Windows => match browser {
            BrowserView::Chrome => "chrome.exe"@,
            BrowserView::Firefox => "firefox.exe"@,
            BrowserView::Edge => "msedge.exe"@,
            BrowserView::Custom(path) => path,
            BrowserView::Safari => "chrome.exe"@,
        },
        Platform::Linux => match browser {
            BrowserView::Chrome => "/opt/google/chrome/chrome"@,
            BrowserView::Firefox => "firefox"@,
            BrowserView::Custom(path) => path,
            BrowserView::Safari => "/opt/google/chrome/chrome"@,
            BrowserView::Edge => "/opt/google/chrome/chrome"@,
        },
    }
}

/// The application name the macOS `open` shim is given.
pub open spec fn mac_app_name_spec(browser: BrowserView) -> Seq<char> {
    match browser {
        BrowserView::Chrome => "Google Chrome"@,
        BrowserView::Firefox => "Firefox"@,
        BrowserView::Safari => "Safari"@,
        BrowserView::Edge => "Microsoft Edge"@,
        BrowserView::Custom(name) => name,
    }
}

/// The window-mode flags a browser family understands on a platform.  A
/// mode with no equivalent flag for the family is treated as `Normal`.
pub open spec fn mode_args_spec(platform: Platform, browser: BrowserView, mode: BrowserMode) -> Seq<
    Seq<char>,
> {
    match mode {
        BrowserMode::Incognito => match platform {
            Platform::MacOs | Platform::Linux => match browser {
                BrowserView::Chrome => seq!["--incognito"@],
                BrowserView::Firefox => seq!["--private-window"@],
                _ => Seq::empty(),
            },
            Platform::Windows => match browser {
                BrowserView::Chrome | BrowserView::Edge => seq!["--incognito"@],
                BrowserView::Firefox => seq!["--private-window"@],
                _ => Seq::empty(),
            },
        },
        BrowserMode::Private => match platform {
            Platform::MacOs => match browser {
                BrowserView::Safari => seq!["--private"@],
                BrowserView::Firefox => seq!["--private-window"@],
                _ => Seq::empty(),
            },
            Platform::Windows | Platform::Linux => match browser {
                BrowserView::Firefox => seq!["--private-window"@],
                _ => Seq::empty(),
            },
        },
        BrowserMode::Normal => Seq::empty(),
    }
}

/// The whole command for one site: on macOS `open -na <app> --args <mode
/// flags> <quoted url>`, elsewhere `<program> <mode flags> <quoted url>`.
pub open spec fn launch_command_spec(
    platform: Platform,
    config: ResolvedView,
    url: Seq<char>,
) -> LaunchCommandView {
    LaunchCommandView {
        program: program_spec(platform, config.browser),
        args: (match platform {
            Platform::MacOs => seq!["-na"@, mac_app_name_spec(config.browser), "--args"@],
            Platform::Windows | Platform::Linux => Seq::empty(),
        }) + mode_args_spec(platform, config.browser, config.mode) + seq![quoted_arg(url)],
    }
}

/// The program for the platform and browser.
fn build_program(platform: Platform, config: &ResolvedBrowserConfig) -> (r: String)
    ensures
        r@ == program_spec(platform, config@.browser),
{
    match platform {
        Platform::MacOs => String::from_str("open"),
        Platform::Windows => match &config.browser {
            Browser::Chrome => String::from_str("chrome.exe"),
            Browser::Firefox => String::from_str("firefox.exe"),
            Browser::Edge => String::from_str("msedge.exe"),
            Browser::Custom(path) => path.clone(),
            Browser::Safari => String::from_str("chrome.exe"),
        },
        Platform::Linux => match &config.browser {
            Browser::Chrome => String::from_str("/opt/google/chrome/chrome"),
            Browser::Firefox => String::from_str("firefox"),
            Browser::Custom(path) => path.clone(),
            Browser::Safari => String::from_str("/opt/google/chrome/chrome"),
            Browser::Edge => String::from_str("/opt/google/chrome/chrome"),
        },
    }
}

/// The application name for the macOS `open` shim.
fn build_mac_app_name(config: &ResolvedBrowserConfig) -> (r: String)
    ensures
        r@ == mac_app_name_spec(config@.browser),
{
    match &config.browser {
        Browser::Chrome => String::from_str("Google Chrome"),
        Browser::Firefox => String::from_str("Firefox"),
        Browser::Safari => String::from_str("Safari"),
        Browser::Edge => String::from_str("Microsoft Edge"),
        Browser::Custom(name) => name.clone(),
    }
}

/// Appends the window-mode flags for the platform and browser family.
fn push_mode_args(platform: Platform, config: &ResolvedBrowserConfig, args: &mut Vec<String>)
    ensures
        final(args)@.map_values(|a: String| a@) == old(args)@.map_values(|a: String| a@)
            + mode_args_spec(platform, config@.browser, config.mode),
{
    let ghost before = args@.map_values(|a: String| a@);
    match config.mode {
        BrowserMode::Incognito => {
            match platform {
                Platform::MacOs | Platform::Linux => match &config.browser {
                    Browser::Chrome => args.push(String::from_str("--incognito")),
                    Browser::Firefox => args.push(String::from_str("--private-window")),
                    _ => (),
                },
                Platform::Windows => match &config.browser {
                    Browser::Chrome | Browser::Edge => args.push(String::from_str("--incognito")),
                    Browser::Firefox => args.push(String::from_str("--private-window")),
                    _ => (),
                },
            }
        },
        BrowserMode::Private => {
            match platform {
                Platform::MacOs => match &config.browser {
                    Browser::Safari => args.push(String::from_str("--private")),
                    Browser::Firefox => args.push(String::from_str("--private-window")),
                    _ => (),
                },
                Platform::Windows | Platform::Linux => match &config.browser {
                    Browser::Firefox => args.push(String::from_str("--private-window")),
                    _ => (),
                },
            }
        },
        BrowserMode::Normal => (),
    }
    proof {
        assert(final(args)@.map_values(|a: String| a@) =~= before + mode_args_spec(
            platform,
            config@.browser,
            config.mode,
        ));
    }
}

/// The command that launches the resolved browser on the given address.
pub fn build_launch_command(platform: Platform, config: &ResolvedBrowserConfig, url: &str) -> (r:
    LaunchCommand)
    ensures
        r@ == launch_command_spec(platform, config@, url@),
{
    let program = build_program(platform, config);
    let mut args: Vec<String> = Vec::new();
    match platform {
        Platform::MacOs => {
            args.push(String::from_str("-na"));
            args.push(build_mac_app_name(config));
            args.push(String::from_str("--args"));
        },
        Platform::Windows | Platform::Linux => (),
    }
    proof {
        assert(args@.map_values(|a: String| a@) =~= (match platform {
            Platform::MacOs => seq!["-na"@, mac_app_name_spec(config@.browser), "--args"@],
            Platform::Windows | Platform::Linux => Seq::<Seq<char>>::empty(),
        }));
    }
    push_mode_args(platform, config, &mut args);
    args.push(quote_for_shell(url));
    let r = LaunchCommand { program, args };
    proof {
        assert(r@.args =~= launch_command_spec(platform, config@, url@).args);
        assert(r@ =~= launch_command_spec(platform, config@, url@));
    }
    r
}

impl Clone for LaunchCommand {
    fn clone(&self) -> (r: Self)
        ensures
            r@ == self@,
    {
        let mut args: Vec<String> = Vec::new();
        let mut i: usize = 0;
        while i < self.args.len()
            invariant
                i <= self.args.len(),
                args@.len() == i,
                forall|j: int| 0 <= j < i ==> args@[j]@ == self.args@[j]@,
            decreases self.args.len() - i,
        {
            args.push(self.args[i].clone());
            i += 1;
        }
        let r = LaunchCommand { program: self.program.clone(), args };
        proof {
            assert(r@.args =~= self@.args);
            assert(r@ =~= self@);
        }
        r
    }
}

/// The fixed pause between consecutive launches, in milliseconds: pacing,
/// not retry or backoff.
pub const LAUNCH_DELAY_MS: u64 = 500;

/// A restore run planned in full: one command per site, in stored order,
/// and the pause to insert between launches.
#[derive(Debug)]
pub struct RestorePlan {
    pub commands: Vec<LaunchCommand>,
    pub delay_ms: u64,
}

impl RestorePlan {
    /// The planned commands, as their models.
    pub open spec fn commands_view(&self) -> Seq<LaunchCommandView> {
        self.commands@.map_values(|c: LaunchCommand| c@)
    }
}

/// Builds the full plan for a resolved configuration: exactly one command
/// per site, in order, each from the single resolution.
pub fn plan_restore(platform: Platform, config: &ResolvedBrowserConfig, sites: &Vec<SiteEntry>)
    -> (r: RestorePlan)
    ensures
        r.delay_ms == LAUNCH_DELAY_MS,
        r.commands_view().len() == sites@.len(),
        forall|i: int|
            0 <= i < sites@.len() ==> r.commands_view()[i] == launch_command_spec(
                platform,
                config@,
                sites@[i]@.url,
            ),
{
    let mut commands: Vec<LaunchCommand> = Vec::new();
    let mut i: usize = 0;
    while i < sites.len()
        invariant
            i <= sites.len(),
            commands@.len() == i,
            forall|j: int|
                0 <= j < i ==> commands@[j]@ == launch_command_spec(
                    platform,
                    config@,
                    sites@[j]@.url,
                ),
        decreases sites.len() - i,
    {
        commands.push(build_launch_command(platform, config, sites[i].url.as_str()));
        i += 1;
    }
    RestorePlan { commands, delay_ms: LAUNCH_DELAY_MS }
}

/// What the stepper decides next: the position to launch, or nothing when
/// every site has been attempted.  The outcome of the previous launch is an
/// argument — and provably never consulted.
pub open spec fn restore_decision(total: int, next: int, previous_failed: bool) -> Option<int> {
    if next < total {
        Some(next)
    } else {
        None
    }
}

/// A launch failure never aborts the run: the decision is the same whatever
/// the previous outcome was.
pub proof fn lemma_failure_does_not_abort(total: int, next: int)
    ensures
        forall|f1: bool, f2: bool|
            restore_decision(total, next, f1) == restore_decision(total, next, f2),
{
}

/// How far a restore run has come: the position of the next site to try.
#[derive(Debug, Clone, Copy, PartialEq, Eq, Structural)]
pub struct RestoreProgress {
    pub next_site: usize,
}

/// The start of a restore run.
pub fn restore_start() -> (r: RestoreProgress)
    ensures
        r.next_site == 0,
{
    RestoreProgress { next_site: 0 }
}

/// One step of a restore run: hands out the next command to spawn, or
/// `None` when all sites have been attempted.  The caller reports whether
/// the previous launch failed; per-site failures are isolated, so the step
/// ignores it and moves on either way.
pub fn restore_next(plan: &RestorePlan, progress: RestoreProgress, previous_failed: bool) -> (r: (
    Option<LaunchCommand>,
    RestoreProgress,
))
    ensures
        match restore_decision(
            plan.commands_view().len() as int,
            progress.next_site as int,
            previous_failed,
        ) {
            Some(k) => {
                &&& r.0 matches Some(cmd) && cmd@ == plan.commands_view()[k]
                &&& r.1.next_site == k + 1
            },
            None => r.0 is None && r.1 == progress,
        },
{
    if progress.next_site < plan.commands.len() {
        let cmd = plan.commands[progress.next_site].clone();
        (Some(cmd), RestoreProgress { next_site: progress.next_site + 1 })
    } else {
        (None, progress)
    }
}

} // verus!
