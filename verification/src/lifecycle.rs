use vstd::prelude::*;
use crate::errors::Error;
use crate::html::{some_html_name, has_html_files};
use crate::paths::{PathMapping, resolve, resolve_spec, opt_bytes};
use crate::text::deep;

verus! {

/// The caller's intent, as the invocation flags give it.
#[derive(Clone, Copy, Debug, PartialEq, Eq, Structural)]
pub struct Flags {
    /// Quit any running server on the range and exit.
    pub exit_server: bool,
    /// Present the interactive menus instead of the default choices.
    pub menu: bool,
    /// Run a newly started server in the foreground.
    pub foreground: bool,
    /// Ask before opening the browser.
    pub prompt: bool,
}

/// One invocation's fixed context: the flags, and the free port the
/// initial ascending scan of the range selected.
#[derive(Clone, Copy, Debug, PartialEq, Eq, Structural)]
pub struct Config {
    pub flags: Flags,
    pub free_port: u16,
}

/// The identity of a discovered running instance: a reference to external
/// OS state, discovered by probing, never owned or cached.
#[derive(Clone, Copy, Debug, PartialEq, Eq, Structural)]
pub struct ServerHandle {
    pub pid: u32,
    pub port: u16,
}

/// The choices offered when a server is already running.
#[derive(Clone, Copy, Debug, PartialEq, Eq, Structural)]
pub enum ExistingChoice {
    OpenBrowser,
    QuitServer,
    QuitAndRestart,
    Cancel,
}

/// The choices offered when no server runs and the menu was asked for.
#[derive(Clone, Copy, Debug, PartialEq, Eq, Structural)]
pub enum StartupChoice {
    StartBackground,
    StartForeground,
    Cancel,
}

/// How one invocation ended.
#[derive(Clone, Copy, Debug, PartialEq, Eq, Structural)]
pub enum Outcome {
    Reused,
    Stopped,
    NothingToStop,
    Cancelled,
    Started,
    Failed(Error),
}

/// Where the lifecycle stands between two interactions with the outside.
#[derive(Clone, Copy, Debug, PartialEq, Eq, Structural)]
pub enum Phase {
    /// The port range is being probed for an existing server.
    Probing,
    /// A server was found and the existing-server menu is on the terminal.
    AwaitExistingChoice(ServerHandle),
    /// No server was found and the startup menu is on the terminal.
    AwaitStartupChoice,
    /// The found server was told to quit; the port is settling and the
    /// serving context is being validated again.
    Restarting(ServerHandle),
    /// A launch was ordered (foreground when true) and its success is
    /// being verified.
    Starting(bool),
    /// The invocation is over.
    Done(Outcome),
}

/// What the outside world reports back to the machine.
#[derive(Clone, Copy, Debug, PartialEq, Eq, Structural)]
pub enum Event {
    /// The probe of the range ended: the first owned port, if any.
    Probed(Option<ServerHandle>),
    ChoseExisting(ExistingChoice),
    ChoseStartup(StartupChoice),
    /// After a quit-and-restart: whether the directory still holds HTML
    /// pages, and a fresh free port if one was found.
    RestartChecked { has_html: bool, free_port: Option<u16> },
    /// The launch finished: for a background launch, whether the port was
    /// bound after the settle delay; for a foreground one, that the serve
    /// loop returned after its interrupt.
    StartFinished(bool),
}

/// What the machine asks the outside world to do next.
#[derive(Clone, Copy, Debug, PartialEq, Eq, Structural)]
pub enum Action {
    /// Open the browser at the URL built for this handle's port.
    OpenBrowser(ServerHandle),
    /// Terminate this process and report how that went.
    Terminate(u32),
    /// Terminate, wait the settle delay, validate the serving context
    /// again, and answer with `RestartChecked`.
    TerminateAndSettle(u32),
    /// Put the existing-server menu on the terminal.
    AskExistingMenu(ServerHandle),
    /// Put the startup menu on the terminal.
    AskStartupMenu,
    /// Launch the server on this port, then answer with `StartFinished`.
    Launch { port: u16, foreground: bool },
    /// Report the outcome; nothing further happens.
    Report(Outcome),
    /// Nothing: the event did not belong to the phase.
    Ignore,
}

/// The transition relation of the lifecycle.
///
/// From `Probing`: with the exit flag, a found server is terminated and
/// the invocation ends (`Stopped`), and a missing one only reported
/// (`NothingToStop`); without the exit flag a found server is reused —
/// browser only — unless the menu flag asks for the existing-server menu,
/// and an absent one leads to a launch on the scanned free port, or to the
/// startup menu. Menu answers map to the same reuse, quit, quit-and-restart
/// and cancel behaviours; a quit-and-restart validates the directory and
/// picks a fresh port before launching. A finished launch ends in
/// `Started` or `Failed(StartupFailed)`. `Done` phases absorb every event.
pub open spec fn next(cfg: Config, p: Phase, e: Event) -> (Phase, Action) {
    match (p, e) {
        (Phase::Probing, Event::Probed(found)) => match found {
            Option::Some(h) => if cfg.flags.exit_server {
                (Phase::Done(Outcome::Stopped), Action::Terminate(h.pid))
            } else if !cfg.flags.menu {
                (Phase::Done(Outcome::Reused), Action::OpenBrowser(h))
            } else {
                (Phase::AwaitExistingChoice(h), Action::AskExistingMenu(h))
            },
            Option::None => if cfg.flags.exit_server {
                (Phase::Done(Outcome::NothingToStop), Action::Report(Outcome::NothingToStop))
            } else if !cfg.flags.menu {
                (
                    Phase::Starting(cfg.flags.foreground),
                    Action::Launch { port: cfg.free_port, foreground: cfg.flags.foreground },
                )
            } else {
                (Phase::AwaitStartupChoice, Action::AskStartupMenu)
            },
        },
        (Phase::AwaitExistingChoice(h), Event::ChoseExisting(c)) => match c {
            ExistingChoice::OpenBrowser => (Phase::Done(Outcome::Reused), Action::OpenBrowser(h)),
            ExistingChoice::QuitServer => (Phase::Done(Outcome::Stopped), Action::Terminate(h.pid)),
            ExistingChoice::QuitAndRestart => (
                Phase::Restarting(h),
                Action::TerminateAndSettle(h.pid),
            ),
            ExistingChoice::Cancel => (
                Phase::Done(Outcome::Cancelled),
                Action::Report(Outcome::Cancelled),
            ),
        },
        (Phase::Restarting(_), Event::RestartChecked { has_html, free_port }) => if !has_html {
            (
                Phase::Done(Outcome::Failed(Error::NoHtmlFiles)),
                Action::Report(Outcome::Failed(Error::NoHtmlFiles)),
            )
        } else {
            match free_port {
                Option::Some(fp) => (
                    Phase::Starting(cfg.flags.foreground),
                    Action::Launch { port: fp, foreground: cfg.flags.foreground },
                ),
                Option::None => (
                    Phase::Done(Outcome::Failed(Error::NoPortAvailable)),
                    Action::Report(Outcome::Failed(Error::NoPortAvailable)),
                ),
            }
        },
        (Phase::AwaitStartupChoice, Event::ChoseStartup(c)) => match c {
            StartupChoice::StartBackground => (
                Phase::Starting(false),
                Action::Launch { port: cfg.free_port, foreground: false },
            ),
            StartupChoice::StartForeground => (
                Phase::Starting(true),
                Action::Launch { port: cfg.free_port, foreground: true },
            ),
            StartupChoice::Cancel => (
                Phase::Done(Outcome::Cancelled),
                Action::Report(Outcome::Cancelled),
            ),
        },
        (Phase::Starting(_), Event::StartFinished(ok)) => if ok {
            (Phase::Done(Outcome::Started), Action::Report(Outcome::Started))
        } else {
            (
                Phase::Done(Outcome::Failed(Error::StartupFailed)),
                Action::Report(Outcome::Failed(Error::StartupFailed)),
            )
        },
        _ => (p, Action::Ignore),
    }
}

/// Advances the lifecycle by one step: the next phase, and the action the
/// caller must perform before handing back the following event.
pub fn step(cfg: &Config, p: Phase, e: Event) -> (r: (Phase, Action))
    ensures
        r == next(*cfg, p, e),
{
    match (p, e) {
        (Phase::Probing, Event::Probed(found)) => match found {
            Option::Some(h) => if cfg.flags.exit_server {
                (Phase::Done(Outcome::Stopped), Action::Terminate(h.pid))
            } else if !cfg.flags.menu {
                (Phase::Done(Outcome::Reused), Action::OpenBrowser(h))
            } else {
                (Phase::AwaitExistingChoice(h), Action::AskExistingMenu(h))
            },
            Option::None => if cfg.flags.exit_server {
                (Phase::Done(Outcome::NothingToStop), Action::Report(Outcome::NothingToStop))
            } else if !cfg.flags.menu {
                (
                    Phase::Starting(cfg.flags.foreground),
                    Action::Launch { port: cfg.free_port, foreground: cfg.flags.foreground },
                )
            } else {
                (Phase::AwaitStartupChoice, Action::AskStartupMenu)
            },
        },
        (Phase::AwaitExistingChoice(h), Event::ChoseExisting(c)) => match c {
            ExistingChoice::OpenBrowser => (Phase::Done(Outcome::Reused), Action::OpenBrowser(h)),
            ExistingChoice::QuitServer => (Phase::Done(Outcome::Stopped), Action::Terminate(h.pid)),
            ExistingChoice::QuitAndRestart => (
                Phase::Restarting(h),
                Action::TerminateAndSettle(h.pid),
            ),
            ExistingChoice::Cancel => (
                Phase::Done(Outcome::Cancelled),
                Action::Report(Outcome::Cancelled),
            ),
        },
        (Phase::Restarting(_), Event::RestartChecked { has_html, free_port }) => if !has_html {
            (
                Phase::Done(Outcome::Failed(Error::NoHtmlFiles)),
                Action::Report(Outcome::Failed(Error::NoHtmlFiles)),
            )
        } else {
            match free_port {
                Option::Some(fp) => (
                    Phase::Starting(cfg.flags.foreground),
                    Action::Launch { port: fp, foreground: cfg.flags.foreground },
                ),
                Option::None => (
                    Phase::Done(Outcome::Failed(Error::NoPortAvailable)),
                    Action::Report(Outcome::Failed(Error::NoPortAvailable)),
                ),
            }
        },
        (Phase::AwaitStartupChoice, Event::ChoseStartup(c)) => match c {
            StartupChoice::StartBackground => (
                Phase::Starting(false),
                Action::Launch { port: cfg.free_port, foreground: false },
            ),
            StartupChoice::StartForeground => (
                Phase::Starting(true),
                Action::Launch { port: cfg.free_port, foreground: true },
            ),
            StartupChoice::Cancel => (
                Phase::Done(Outcome::Cancelled),
                Action::Report(Outcome::Cancelled),
            ),
        },
        (Phase::Starting(_), Event::StartFinished(ok)) => if ok {
            (Phase::Done(Outcome::Started), Action::Report(Outcome::Started))
        } else {
            (
                Phase::Done(Outcome::Failed(Error::StartupFailed)),
                Action::Report(Outcome::Failed(Error::StartupFailed)),
            )
        },
        _ => (p, Action::Ignore),
    }
}

pub open spec fn is_launch(a: Action) -> bool {
    a is Launch
}

/// Every `Done` phase is terminal: no later event moves the machine or
/// makes it order anything.
pub proof fn lemma_done_is_terminal(cfg: Config, o: Outcome, e: Event)
    ensures
        next(cfg, Phase::Done(o), e) == (Phase::Done(o), Action::Ignore),
{
}

/// Reuse never spawns. With neither the exit nor the menu flag set, an
/// invocation that finds a running server orders exactly one browser-open
/// against it and is done; from that terminal phase no event can ever make
/// it order a launch. Run the lifecycle twice while a server stays up: the
/// second run only opens a browser and never starts a second server.
pub proof fn lemma_reuse_never_launches(cfg: Config, h: ServerHandle, e: Event)
    requires
        !cfg.flags.exit_server,
        !cfg.flags.menu,
    ensures
        next(cfg, Phase::Probing, Event::Probed(Option::Some(h))).1 == Action::OpenBrowser(h),
        next(cfg, Phase::Probing, Event::Probed(Option::Some(h))).0 == Phase::Done(Outcome::Reused),
        !is_launch(next(cfg, next(cfg, Phase::Probing, Event::Probed(Option::Some(h))).0, e).1),
{
}

/// The actions a whole run emits: starting from `p`, feed the events in
/// order and collect each step's action.
pub open spec fn run_actions(cfg: Config, p: Phase, events: Seq<Event>) -> Seq<Action>
    decreases events.len(),
{
    if events.len() == 0 {
        Seq::empty()
    } else {
        seq![next(cfg, p, events[0]).1] + run_actions(cfg, next(cfg, p, events[0]).0, events.skip(1))
    }
}

proof fn lemma_done_run_never_launches(cfg: Config, o: Outcome, events: Seq<Event>)
    ensures
        forall|k: int|
            0 <= k < run_actions(cfg, Phase::Done(o), events).len() ==> !is_launch(
                #[trigger] run_actions(cfg, Phase::Done(o), events)[k],
            ),
    decreases events.len(),
{
    if events.len() > 0 {
        lemma_done_run_never_launches(cfg, o, events.skip(1));
        assert(next(cfg, Phase::Done(o), events[0]) == (Phase::Done(o), Action::Ignore));
        let acts = run_actions(cfg, Phase::Done(o), events);
        let tail = run_actions(cfg, Phase::Done(o), events.skip(1));
        assert(acts =~= seq![Action::Ignore] + tail);
        assert forall|k: int| 0 <= k < acts.len() implies !is_launch(#[trigger] acts[k]) by {
            if k > 0 {
                assert(acts[k] == tail[k - 1]);
            } else {
                assert(acts[0] == Action::Ignore);
            }
        }
    }
}

/// Idempotence against a running server. With neither the exit nor the
/// menu flag set, a run that finds a server emits the browser-open against
/// it as its first and only meaningful action, and — however the dialogue
/// goes on — never emits a launch: a second invocation while a server is
/// up can only open a browser, never spawn a second server.
pub proof fn lemma_reuse_run_never_launches(cfg: Config, h: ServerHandle, events: Seq<Event>)
    requires
        !cfg.flags.exit_server,
        !cfg.flags.menu,
    ensures
        ({
            let acts = run_actions(
                cfg,
                Phase::Probing,
                seq![Event::Probed(Option::Some(h))] + events,
            );
            &&& acts[0] == Action::OpenBrowser(h)
            &&& forall|k: int| 0 <= k < acts.len() ==> !is_launch(#[trigger] acts[k])
        }),
{
    let all = seq![Event::Probed(Option::Some(h))] + events;
    assert(all[0] == Event::Probed(Option::Some(h)));
    assert(all.skip(1) =~= events);
    assert(next(cfg, Phase::Probing, all[0]) == (
        Phase::Done(Outcome::Reused),
        Action::OpenBrowser(h),
    ));
    lemma_done_run_never_launches(cfg, Outcome::Reused, events);
    let acts = run_actions(cfg, Phase::Probing, all);
    let tail = run_actions(cfg, Phase::Done(Outcome::Reused), events);
    assert(acts =~= seq![Action::OpenBrowser(h)] + tail);
    assert forall|k: int| 0 <= k < acts.len() implies !is_launch(#[trigger] acts[k]) by {
        if k > 0 {
            assert(acts[k] == tail[k - 1]);
        }
    }
}

/// The eager validation an invocation performs before it touches any OS
/// resource: the path mapping first, then the requirement that the
/// current directory hold at least one HTML page. On an error nothing has
/// been acquired — no port was scanned and no process spawned.
pub fn prevalidate(
    root: Option<&Vec<u8>>,
    cur: &Vec<u8>,
    file: Option<&Vec<u8>>,
    names: &Vec<Vec<u8>>,
) -> (r: Result<PathMapping, Error>)
    ensures
        ({
            let s = resolve_spec(opt_bytes(root), cur@, opt_bytes(file));
            match r {
                Result::Ok(m) => s == Result::Ok::<_, Error>(
                    (deep(m.served_dir@), deep(m.url_path@)),
                ) && some_html_name(names@),
                Result::Err(e) => if e == Error::NoHtmlFiles {
                    s is Ok && !some_html_name(names@)
                } else {
                    s == Result::Err::<(Seq<Seq<u8>>, Seq<Seq<u8>>), _>(e)
                },
            }
        }),
{
    match resolve(root, cur, file) {
        Result::Err(e) => Result::Err(e),
        Result::Ok(m) => {
            if has_html_files(names) {
                Result::Ok(m)
            } else {
                Result::Err(Error::NoHtmlFiles)
            }
        },
    }
}

} // verus!
