use wg_waybar::error::SignalError;
use wg_waybar::utils::{
    choose_state_base, delivery_outcome, find_waybar_pid, get_state_home, home_dir_user, notify_step, rt_signal,
    send_signal_to_waybar, HomeDirNotFoundError, Notifier, NotifierAction, NotifierEvent,
    ProcessInfo,
};

fn process(pid: i32, comm: &str) -> ProcessInfo {
    ProcessInfo { pid, comm: comm.to_string() }
}

#[test]
fn returns_xdg_state_home_when_set() {
    let app_name = "myapp";
    let result =
        get_state_home(app_name, Some("/custom/state"), Ok("/home/user".to_string())).unwrap();
    assert_eq!(result, "/custom/state/myapp");
}

#[test]
fn falls_back_to_default_when_xdg_state_home_not_set() {
    let app_name = "myapp";
    let result = get_state_home(app_name, None, Ok("/home/user".to_string())).unwrap();
    assert_eq!(result, "/home/user/.local/state/myapp");
}

#[test]
fn returns_error_when_home_dir_not_found() {
    let app_name = "myapp";
    let result = get_state_home(app_name, None, Err(HomeDirNotFoundError {}));
    assert!(result.is_err());
}

#[test]
fn relative_xdg_state_home_is_ignored() {
    let result = get_state_home("myapp", Some("state"), Ok("/home/user".to_string())).unwrap();
    assert_eq!(result, "/home/user/.local/state/myapp");
}

#[test]
fn unknown_home_fails_even_with_xdg_state_home() {
    let result = get_state_home("myapp", Some("/custom/state"), Err(HomeDirNotFoundError {}));
    assert_eq!(result, Err(HomeDirNotFoundError {}));
    assert_eq!(HomeDirNotFoundError {}.to_string(), "HomeDirNotFound");
}

#[test]
fn sudo_user_comes_before_the_current_user() {
    assert_eq!(
        home_dir_user(Some("alice".to_string()), Some("root".to_string())),
        Some("alice".to_string())
    );
    assert_eq!(home_dir_user(None, Some("bob".to_string())), Some("bob".to_string()));
    assert_eq!(home_dir_user::<String>(None, None), None);
}

#[test]
fn first_process_named_like_the_bar_is_found() {
    let processes = vec![
        process(1, "systemd"),
        process(812, ".waybar-wrapped"),
        process(900, "waybar"),
    ];
    assert_eq!(find_waybar_pid(&processes), Some(812));
    assert_eq!(find_waybar_pid(&vec![process(1, "systemd"), process(7, "wayba")]), None);
    assert_eq!(find_waybar_pid(&vec![]), None);
}

#[test]
fn signal_at_the_upper_end_of_the_window_is_routed() {
    assert_eq!(rt_signal(30, 34, 64), Ok(64));
    assert_eq!(rt_signal(0, 34, 64), Ok(34));
    assert_eq!(rt_signal(9, 34, 64), Ok(43));
}

#[test]
fn signal_above_the_window_is_out_of_range() {
    match rt_signal(31, 34, 64) {
        Err(SignalError::OutOfRange(e)) => assert_eq!(
            e.to_string(),
            "Signal out of allowed range: Invalid signal number: must be between 0 and SIGRTMAX - SIGRTMIN"
        ),
        other => panic!("unexpected {:?}", other),
    }
}

#[test]
fn negative_signal_is_out_of_range() {
    assert!(matches!(rt_signal(-1, 34, 64), Err(SignalError::OutOfRange(_))));
    assert!(matches!(rt_signal(i32::MIN, i32::MIN, i32::MAX), Err(SignalError::OutOfRange(_))));
}

#[test]
fn signal_window_at_the_limits_of_the_integers() {
    assert_eq!(rt_signal(i32::MAX, 0, i32::MAX), Ok(i32::MAX));
    assert_eq!(rt_signal(i32::MAX, i32::MIN, i32::MAX), Ok(-1));
    assert!(matches!(rt_signal(0, 64, 34), Err(SignalError::OutOfRange(_))));
}

#[test]
fn delivery_is_classified_by_error_number() {
    assert_eq!(delivery_outcome(0, None, 3, 1), Ok(()));
    assert_eq!(delivery_outcome(0, Some(3), 3, 1), Ok(()));
    assert_eq!(
        delivery_outcome(-1, Some(3), 3, 1),
        Err(SignalError::OS("Process does not exist".to_string()))
    );
    assert_eq!(
        delivery_outcome(-1, Some(1), 3, 1),
        Err(SignalError::OS("Permission denied".to_string()))
    );
    assert_eq!(
        delivery_outcome(-1, Some(22), 3, 1),
        Err(SignalError::OS("other error".to_string()))
    );
    assert_eq!(delivery_outcome(-1, None, 3, 1), Err(SignalError::OS("other error".to_string())));
    assert_eq!(
        SignalError::OS("Permission denied".to_string()).to_string(),
        "OS error: Permission denied"
    );
}

#[test]
fn notifier_checks_the_range_before_it_looks_for_the_bar() {
    let (state, action) = notify_step(Notifier::Idle, NotifierEvent::Start { signal_num: 31 }, 34, 64);
    assert_eq!(state, Notifier::Done);
    assert!(matches!(action, NotifierAction::Finish(Err(SignalError::OutOfRange(_)))));
}

#[test]
fn notifier_sends_the_signal_to_the_bar() {
    let (state, action) = notify_step(Notifier::Idle, NotifierEvent::Start { signal_num: 9 }, 34, 64);
    assert_eq!(state, Notifier::Scanning { signal: 43 });
    assert_eq!(action, NotifierAction::ScanProcesses);
    let processes = vec![process(5, "bash"), process(77, "waybar")];
    let (state, action) = notify_step(state, NotifierEvent::Scanned(processes), 34, 64);
    assert_eq!(state, Notifier::Sending);
    assert_eq!(action, NotifierAction::Kill { pid: 77, signal: 43 });
    let killed = NotifierEvent::Killed { result: 0, errno: None, no_such_process: 3, not_permitted: 1 };
    let (state, action) = notify_step(state, killed, 34, 64);
    assert_eq!(state, Notifier::Done);
    assert_eq!(action, NotifierAction::Finish(Ok(())));
}

#[test]
fn notifier_reports_a_missing_bar() {
    let scanned = NotifierEvent::Scanned(vec![process(5, "bash")]);
    let (state, action) = notify_step(Notifier::Scanning { signal: 43 }, scanned, 34, 64);
    assert_eq!(state, Notifier::Done);
    match action {
        NotifierAction::Finish(Err(e)) => {
            assert_eq!(e.to_string(), "Process not found: Could not find Waybar process")
        }
        other => panic!("unexpected {:?}", other),
    }
}

#[test]
fn notifier_reports_a_bar_that_went_away() {
    let killed = NotifierEvent::Killed { result: -1, errno: Some(3), no_such_process: 3, not_permitted: 1 };
    let (_, action) = notify_step(Notifier::Sending, killed, 34, 64);
    assert_eq!(
        action,
        NotifierAction::Finish(Err(SignalError::OS("Process does not exist".to_string())))
    );
}

#[test]
fn notifier_ends_on_an_event_out_of_turn() {
    let (state, action) = notify_step(Notifier::Idle, NotifierEvent::Scanned(vec![]), 34, 64);
    assert_eq!(state, Notifier::Done);
    assert_eq!(
        action,
        NotifierAction::Finish(Err(SignalError::OS("unexpected event".to_string())))
    );
    let (state, _) = notify_step(Notifier::Done, NotifierEvent::Start { signal_num: 1 }, 34, 64);
    assert_eq!(state, Notifier::Done);
}

#[test]
fn notifier_in_the_window_of_this_process() {
    let (state, action) = send_signal_to_waybar(Notifier::Idle, NotifierEvent::Start { signal_num: -1 });
    assert_eq!(state, Notifier::Done);
    assert!(matches!(action, NotifierAction::Finish(Err(SignalError::OutOfRange(_)))));
    let (state, action) = send_signal_to_waybar(Notifier::Idle, NotifierEvent::Start { signal_num: 0 });
    assert!(matches!(state, Notifier::Scanning { .. }));
    assert_eq!(action, NotifierAction::ScanProcesses);
}

#[test]
fn absolute_xdg_state_home_is_chosen() {
    assert_eq!(choose_state_base(Some("/custom"), "/fallback".to_string()), "/custom");
    assert_eq!(choose_state_base(Some("/"), "/fallback".to_string()), "/");
    assert_eq!(choose_state_base(Some("custom"), "/fallback".to_string()), "/fallback");
    assert_eq!(choose_state_base(Some(""), "/fallback".to_string()), "/fallback");
    assert_eq!(choose_state_base(None, "/fallback".to_string()), "/fallback");
}

#[test]
fn app_name_is_adjoined_as_a_path() {
    let home = || Ok("/home/user".to_string());
    assert_eq!(get_state_home("a/b", Some("/x/"), home()), Ok("/x/a/b".to_string()));
    assert_eq!(get_state_home("/abs", Some("/x"), home()), Ok("/abs".to_string()));
    assert_eq!(get_state_home("app", None, Ok("/".to_string())), Ok("/.local/state/app".to_string()));
}

#[test]
fn paths_are_adjoined_with_one_separator() {
    let state = |app: &str, xdg: Option<&str>, home: &str| {
        get_state_home(app, xdg, Ok(home.to_string())).unwrap()
    };
    assert_eq!(state("app", Some("/x"), "/h"), "/x/app");
    assert_eq!(state("app", Some("/x/"), "/h"), "/x/app");
    assert_eq!(state("", Some("/x"), "/h"), "/x/");
    assert_eq!(state("", Some("/x/"), "/h"), "/x/");
    assert_eq!(state("app", Some("/"), "/h"), "/app");
    assert_eq!(state("app", None, ""), ".local/state/app");
    assert_eq!(state("app", None, "/h/"), "/h/.local/state/app");
    assert_eq!(state("app", None, "h"), "h/.local/state/app");
    assert_eq!(state("/app", None, "/h"), "/app");
    assert_eq!(state("a//b/", Some("/x//"), "/h"), "/x//a//b/");
    assert_eq!(state("./app", Some("/x/."), "/h"), "/x/././app");
    assert_eq!(state("../app", None, "/h"), "/h/.local/state/../app");
}
