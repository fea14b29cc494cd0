use hopen::errors::Error;
use hopen::html::has_html_files;
use hopen::lifecycle::{
    prevalidate, step, Action, Config, Event, ExistingChoice, Flags, Outcome, Phase, ServerHandle,
    StartupChoice,
};

fn bv(s: &str) -> Vec<u8> {
    s.as_bytes().to_vec()
}

fn cfg(exit_server: bool, menu: bool, foreground: bool) -> Config {
    Config {
        flags: Flags { exit_server, menu, foreground, prompt: false },
        free_port: 8000,
    }
}

const H: ServerHandle = ServerHandle { pid: 4242, port: 8000 };

#[test]
fn reuse_only_opens_browser() {
    // a running server, no flags: reuse it; nothing is spawned
    let c = cfg(false, false, false);
    let (p, a) = step(&c, Phase::Probing, Event::Probed(Some(H)));
    assert_eq!(a, Action::OpenBrowser(H));
    assert_eq!(p, Phase::Done(Outcome::Reused));
    // a second run over the same live server does the same again
    let (p2, a2) = step(&c, Phase::Probing, Event::Probed(Some(H)));
    assert_eq!(a2, Action::OpenBrowser(H));
    assert_eq!(p2, Phase::Done(Outcome::Reused));
    // and the finished run absorbs every further event without an action
    let (p3, a3) = step(&c, p, Event::StartFinished(true));
    assert_eq!(p3, Phase::Done(Outcome::Reused));
    assert_eq!(a3, Action::Ignore);
}

#[test]
fn exit_flag_stops_found_server() {
    let c = cfg(true, false, false);
    let (p, a) = step(&c, Phase::Probing, Event::Probed(Some(H)));
    assert_eq!(a, Action::Terminate(4242));
    assert_eq!(p, Phase::Done(Outcome::Stopped));
}

#[test]
fn exit_flag_with_no_server_reports_and_spawns_nothing() {
    // exit flag set, no server in the range: done, nothing launched
    let c = cfg(true, false, false);
    let (p, a) = step(&c, Phase::Probing, Event::Probed(None));
    assert_eq!(p, Phase::Done(Outcome::NothingToStop));
    assert_eq!(a, Action::Report(Outcome::NothingToStop));
}

#[test]
fn no_server_launches_on_scanned_port() {
    let c = cfg(false, false, true);
    let (p, a) = step(&c, Phase::Probing, Event::Probed(None));
    assert_eq!(a, Action::Launch { port: 8000, foreground: true });
    assert_eq!(p, Phase::Starting(true));
    let (p2, a2) = step(&c, p, Event::StartFinished(true));
    assert_eq!(p2, Phase::Done(Outcome::Started));
    assert_eq!(a2, Action::Report(Outcome::Started));
}

#[test]
fn failed_launch_is_reported() {
    let c = cfg(false, false, false);
    let (p, _) = step(&c, Phase::Probing, Event::Probed(None));
    let (p2, a2) = step(&c, p, Event::StartFinished(false));
    assert_eq!(p2, Phase::Done(Outcome::Failed(Error::StartupFailed)));
    assert_eq!(a2, Action::Report(Outcome::Failed(Error::StartupFailed)));
}

#[test]
fn existing_menu_paths() {
    let c = cfg(false, true, false);
    let (p, a) = step(&c, Phase::Probing, Event::Probed(Some(H)));
    assert_eq!(p, Phase::AwaitExistingChoice(H));
    assert_eq!(a, Action::AskExistingMenu(H));

    let (p1, a1) = step(&c, p, Event::ChoseExisting(ExistingChoice::OpenBrowser));
    assert_eq!((p1, a1), (Phase::Done(Outcome::Reused), Action::OpenBrowser(H)));

    let (p2, a2) = step(&c, p, Event::ChoseExisting(ExistingChoice::QuitServer));
    assert_eq!((p2, a2), (Phase::Done(Outcome::Stopped), Action::Terminate(4242)));

    let (p3, a3) = step(&c, p, Event::ChoseExisting(ExistingChoice::Cancel));
    assert_eq!((p3, a3), (Phase::Done(Outcome::Cancelled), Action::Report(Outcome::Cancelled)));
}

#[test]
fn quit_and_restart_revalidates_then_launches() {
    let c = cfg(false, true, false);
    let (p, _) = step(&c, Phase::Probing, Event::Probed(Some(H)));
    let (p1, a1) = step(&c, p, Event::ChoseExisting(ExistingChoice::QuitAndRestart));
    assert_eq!(p1, Phase::Restarting(H));
    assert_eq!(a1, Action::TerminateAndSettle(4242));

    // the directory still qualifies and a fresh port is free: launch there
    let (p2, a2) = step(&c, p1, Event::RestartChecked { has_html: true, free_port: Some(8001) });
    assert_eq!(a2, Action::Launch { port: 8001, foreground: false });
    assert_eq!(p2, Phase::Starting(false));

    // the directory lost its HTML pages: a hard stop
    let (p3, a3) = step(&c, p1, Event::RestartChecked { has_html: false, free_port: Some(8001) });
    assert_eq!(p3, Phase::Done(Outcome::Failed(Error::NoHtmlFiles)));
    assert_eq!(a3, Action::Report(Outcome::Failed(Error::NoHtmlFiles)));

    // no port left after the settle delay
    let (p4, a4) = step(&c, p1, Event::RestartChecked { has_html: true, free_port: None });
    assert_eq!(p4, Phase::Done(Outcome::Failed(Error::NoPortAvailable)));
    assert_eq!(a4, Action::Report(Outcome::Failed(Error::NoPortAvailable)));
}

#[test]
fn startup_menu_paths() {
    let c = cfg(false, true, false);
    let (p, a) = step(&c, Phase::Probing, Event::Probed(None));
    assert_eq!(p, Phase::AwaitStartupChoice);
    assert_eq!(a, Action::AskStartupMenu);

    let (p1, a1) = step(&c, p, Event::ChoseStartup(StartupChoice::StartBackground));
    assert_eq!(a1, Action::Launch { port: 8000, foreground: false });
    assert_eq!(p1, Phase::Starting(false));

    let (p2, a2) = step(&c, p, Event::ChoseStartup(StartupChoice::StartForeground));
    assert_eq!(a2, Action::Launch { port: 8000, foreground: true });
    assert_eq!(p2, Phase::Starting(true));

    let (p3, a3) = step(&c, p, Event::ChoseStartup(StartupChoice::Cancel));
    assert_eq!((p3, a3), (Phase::Done(Outcome::Cancelled), Action::Report(Outcome::Cancelled)));
}

#[test]
fn no_html_files_stops_before_any_resource() {
    // a directory with zero .html/.htm files: the eager validation fails
    let names = vec![bv("notes.txt"), bv("image.png")];
    let r = prevalidate(None, &bv("/tmp/x"), None, &names);
    assert_eq!(r.unwrap_err(), Error::NoHtmlFiles);
    assert!(!has_html_files(&names));
}

#[test]
fn prevalidate_passes_with_html_present() {
    let names = vec![bv("index.html")];
    let m = prevalidate(None, &bv("/tmp/x"), None, &names).unwrap();
    assert!(m.url_path.is_empty());
}

#[test]
fn prevalidate_path_errors_come_first() {
    // resolution errors surface even when the listing has no HTML either
    let names = vec![bv("notes.txt")];
    let r = prevalidate(Some(&bv("/site")), &bv("/other"), None, &names);
    assert_eq!(r.unwrap_err(), Error::NotUnderSiteRoot);
}
