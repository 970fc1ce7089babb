//! Where the state directory lies, and how the status bar is told: which
//! process is signalled, with which signal, and what came of it.

use crate::error::{ProcessNotFoundError, SignalError, SignalErrorView, SignalOutOfRangeError};
use crate::text::{chars_of, contains, contains_text};
use vstd::prelude::*;
use vstd::string::*;

verus! {

/// The home directory of the invoking user could not be determined.
#[derive(Clone, Debug, PartialEq, Eq)]
pub struct HomeDirNotFoundError {}

impl HomeDirNotFoundError {
    pub fn to_string(&self) -> (s: String)
        ensures
            s@ == "HomeDirNotFound"@,
    {
        String::from_str("HomeDirNotFound")
    }
}

/// The name of the user whose home directory holds the state: the user who
/// called `sudo`, where there is one, else the user who runs the process.
pub fn home_dir_user<T>(sudo_user: Option<T>, current_user: Option<T>) -> (r: Option<T>)
    ensures
        r == (match sudo_user {
            Some(_) => sudo_user,
            None => current_user,
        }),
{
    match sudo_user {
        Some(name) => Some(name),
        None => current_user,
    }
}

/// Whether the path written `text` is absolute: it begins at the root.
pub open spec fn absolute_path(text: Seq<char>) -> bool {
    text.len() > 0 && text[0] == '/'
}

/// The text of the path that results when the path `rel` is adjoined to the
/// path `base`: `rel` itself where it is absolute, else `base`, a `/` unless
/// `base` is empty or ends in one, and `rel`.
pub open spec fn joined_path(base: Seq<char>, rel: Seq<char>) -> Seq<char> {
    if absolute_path(rel) {
        rel
    } else if base.len() == 0 || base.last() == '/' {
        base + rel
    } else {
        base + seq!['/'] + rel
    }
}

/// `Path::is_absolute` of the standard library, on the path that `text`
/// writes. On Unix, which this library is for, a path is absolute exactly
/// when it begins with `/`.
#[verifier::external_body]
fn path_is_absolute(text: &str) -> (b: bool)
    ensures
        b == absolute_path(text@),
{
    std::path::Path::new(text).is_absolute()
}

/// `Path::join` of the standard library: adjoins `rel` to `base`. Both paths
/// are given and the result is returned as text. On Unix, which this library
/// is for, an absolute `rel` replaces `base`; any other `rel` is put behind
/// `base`, with a `/` between them where `base` is not empty and does not
/// end in one.
#[verifier::external_body]
fn path_join(base: &str, rel: &str) -> (r: String)
    ensures
        r@ == joined_path(base@, rel@),
{
    std::path::Path::new(base).join(rel).to_string_lossy().into_owned()
}

/// The directory that holds the state directories: an absolute
/// `XDG_STATE_HOME` where there is one, else `fallback`.
pub open spec fn state_base(xdg_state_home: Option<Seq<char>>, fallback: Seq<char>) -> Seq<char> {
    match xdg_state_home {
        Some(x) if absolute_path(x) => x,
        _ => fallback,
    }
}

/// The directory below which the state of `app_name` is kept, given the value
/// of `XDG_STATE_HOME` (if set) and the user's home directory: `app_name`
/// adjoined to an absolute `XDG_STATE_HOME` where there is one, else to
/// `.local/state` under the home directory.
pub open spec fn state_home(app_name: Seq<char>, xdg_state_home: Option<Seq<char>>, home: Seq<
    char,
>) -> Seq<char> {
    joined_path(state_base(xdg_state_home, joined_path(home, ".local/state"@)), app_name)
}

/// Chooses the directory that holds the state directories, given the value
/// of `XDG_STATE_HOME` and the directory to fall back on.
pub fn choose_state_base(xdg_state_home: Option<&str>, fallback: String) -> (r: String)
    ensures
        r@ == state_base(
            match xdg_state_home {
                Some(x) => Some(x@),
                None => None,
            },
            fallback@,
        ),
{
    match xdg_state_home {
        Some(x) => {
            if path_is_absolute(x) {
                String::from_str(x)
            } else {
                fallback
            }
        },
        None => fallback,
    }
}

/// Computes the state directory of `app_name` from the value of
/// `XDG_STATE_HOME` and the outcome of the home directory lookup. Fails
/// exactly when the home directory is unknown, whatever `XDG_STATE_HOME` holds.
pub fn get_state_home(
    app_name: &str,
    xdg_state_home: Option<&str>,
    home_dir: Result<String, HomeDirNotFoundError>,
) -> (r: Result<String, HomeDirNotFoundError>)
    ensures
        home_dir is Err <==> r is Err,
        home_dir matches Ok(home) ==> r matches Ok(path) && path@ == state_home(
            app_name@,
            match xdg_state_home {
                Some(x) => Some(x@),
                None => None,
            },
            home@,
        ),
{
    let home = match home_dir {
        Ok(home) => home,
        Err(e) => {
            return Err(e);
        },
    };
    let default_share_folder = path_join(home.as_str(), ".local/state");
    let state_home = choose_state_base(xdg_state_home, default_share_folder);
    Ok(path_join(state_home.as_str(), app_name))
}

/// A running process: its id and the name of its command.
#[derive(Clone, Debug, PartialEq, Eq)]
pub struct ProcessInfo {
    pub pid: i32,
    pub comm: String,
}

impl View for ProcessInfo {
    type V = (i32, Seq<char>);

    open spec fn view(&self) -> (i32, Seq<char>) {
        (self.pid, self.comm@)
    }
}

/// The mathematical values of `processes`: for each its id and the name of its command.
pub open spec fn process_views(processes: Seq<ProcessInfo>) -> Seq<(i32, Seq<char>)> {
    Seq::new(processes.len(), |i: int| processes[i]@)
}

/// The id of the status bar among `processes`, each given by its id and the
/// name of its command: the first whose name contains `waybar`.
pub open spec fn first_waybar(processes: Seq<(i32, Seq<char>)>) -> Option<i32>
    decreases processes.len(),
{
    if processes.len() == 0 {
        None
    } else if contains_text(processes[0].1, "waybar"@) {
        Some(processes[0].0)
    } else {
        first_waybar(processes.drop_first())
    }
}

/// The id of the first of `processes` whose command name contains `waybar`.
pub fn find_waybar_pid(processes: &Vec<ProcessInfo>) -> (r: Option<i32>)
    ensures
        r == first_waybar(process_views(processes@)),
{
    let ghost all = process_views(processes@);
    let needle = chars_of("waybar");
    let mut i: usize = 0;
    assert(all.skip(0) == all);
    while i < processes.len()
        invariant
            i <= processes@.len(),
            needle@ == "waybar"@,
            all == process_views(processes@),
            first_waybar(all) == first_waybar(all.skip(i as int)),
        decreases processes@.len() - i,
    {
        let comm = chars_of(processes[i].comm.as_str());
        proof {
            assert(all.skip(i as int)[0] == processes@[i as int]@);
            assert(all.skip(i as int).drop_first() == all.skip(i + 1));
        }
        if contains(&comm, &needle) {
            return Some(processes[i].pid);
        }
        i = i + 1;
    }
    None
}

/// The real-time signal at offset `signal_num` in the window from
/// `sigrtmin` to `sigrtmax`: `sigrtmin + signal_num`, where the offset is not
/// negative and the signal does not lie above `sigrtmax`.
pub open spec fn rt_signal_of(signal_num: int, sigrtmin: int, sigrtmax: int) -> Result<
    int,
    SignalErrorView,
> {
    if 0 <= signal_num <= sigrtmax - sigrtmin {
        Ok(sigrtmin + signal_num)
    } else {
        Err(
            SignalErrorView::OutOfRange(
                "Invalid signal number: must be between 0 and SIGRTMAX - SIGRTMIN"@,
            ),
        )
    }
}

/// The outcome with its signal as a mathematical integer.
pub open spec fn rt_outcome(r: Result<i32, SignalError>) -> Result<int, SignalErrorView> {
    match r {
        Ok(s) => Ok(s as int),
        Err(e) => Err(e@),
    }
}

/// The real-time signal at offset `signal_num` in the given window.
pub fn rt_signal(signal_num: i32, sigrtmin: i32, sigrtmax: i32) -> (r: Result<i32, SignalError>)
    ensures
        rt_outcome(r) == rt_signal_of(signal_num as int, sigrtmin as int, sigrtmax as int),
{
    let span: i64 = sigrtmax as i64 - sigrtmin as i64;
    if signal_num < 0 || signal_num as i64 > span {
        return Err(
            SignalError::OutOfRange(
                SignalOutOfRangeError(
                    String::from_str(
                        "Invalid signal number: must be between 0 and SIGRTMAX - SIGRTMIN",
                    ),
                ),
            ),
        );
    }
    Ok((sigrtmin as i64 + signal_num as i64) as i32)
}

/// In a window that is not empty, the offset of its upper end is accepted
/// and gives that end; the offset one above it is refused as out of range,
/// and so is every negative offset.
pub proof fn lemma_signal_window_boundary(sigrtmin: int, sigrtmax: int, negative: int)
    requires
        sigrtmin <= sigrtmax,
        negative < 0,
    ensures
        rt_signal_of(sigrtmax - sigrtmin, sigrtmin, sigrtmax) == Ok::<int, SignalErrorView>(
            sigrtmax,
        ),
        rt_signal_of(sigrtmax - sigrtmin + 1, sigrtmin, sigrtmax) matches Err(
            SignalErrorView::OutOfRange(_),
        ),
        rt_signal_of(negative, sigrtmin, sigrtmax) matches Err(SignalErrorView::OutOfRange(_)),
{
}

/// `libc::SIGRTMIN`: the lowest real-time signal that this process may use.
#[verifier::external_body]
fn sigrtmin() -> i32 {
    libc::SIGRTMIN()
}

/// `libc::SIGRTMAX`: the highest real-time signal that this process may use.
#[verifier::external_body]
fn sigrtmax() -> i32 {
    libc::SIGRTMAX()
}

/// What the delivery of a signal came to, given what `kill` returned, the
/// error number that the system reported, and the error numbers that stand
/// for a process that does not exist and for a refused permission.
pub open spec fn delivery_of(
    result: int,
    errno: Option<i32>,
    no_such_process: i32,
    not_permitted: i32,
) -> Result<(), SignalErrorView> {
    if result == 0 {
        Ok(())
    } else if errno == Some(no_such_process) {
        Err(SignalErrorView::OS("Process does not exist"@))
    } else if errno == Some(not_permitted) {
        Err(SignalErrorView::OS("Permission denied"@))
    } else {
        Err(SignalErrorView::OS("other error"@))
    }
}

/// The outcome of the notifier.
pub open spec fn signal_outcome(r: Result<(), SignalError>) -> Result<(), SignalErrorView> {
    match r {
        Ok(_) => Ok(()),
        Err(e) => Err(e@),
    }
}

/// Classifies what the delivery of a signal came to.
pub fn delivery_outcome(result: i32, errno: Option<i32>, no_such_process: i32, not_permitted: i32) -> (r:
    Result<(), SignalError>)
    ensures
        signal_outcome(r) == delivery_of(result as int, errno, no_such_process, not_permitted),
{
    if result == 0 {
        return Ok(());
    }
    let reason = match errno {
        Some(code) => {
            if code == no_such_process {
                "Process does not exist"
            } else if code == not_permitted {
                "Permission denied"
            } else {
                "other error"
            }
        },
        None => "other error",
    };
    Err(SignalError::OS(String::from_str(reason)))
}

/// What the notifier is waiting for.
#[derive(Clone, Copy, Debug, PartialEq, Eq, Structural)]
pub enum Notifier {
    /// Nothing has been asked yet.
    Idle,
    /// The list of the running processes; `signal` is what will be sent.
    Scanning { signal: i32 },
    /// The delivery of the signal.
    Sending,
    /// Nothing: the notifier is done.
    Done,
}

/// What happened.
#[derive(Clone, Debug, PartialEq, Eq)]
pub enum NotifierEvent {
    /// The status bar is to be sent the real-time signal at this offset.
    Start { signal_num: i32 },
    /// The running processes were listed.
    Scanned(Vec<ProcessInfo>),
    /// `kill` returned `result`, with the error number `errno`. The other two
    /// are the error numbers that the system uses for a process that does
    /// not exist and for a refused permission.
    Killed { result: i32, errno: Option<i32>, no_such_process: i32, not_permitted: i32 },
}

/// What is to be done next.
#[derive(Debug, PartialEq, Eq)]
pub enum NotifierAction {
    /// List the running processes.
    ScanProcesses,
    /// Send the process `pid` the signal `signal`.
    Kill { pid: i32, signal: i32 },
    /// Nothing: the notifier is done, with this result.
    Finish(Result<(), SignalError>),
}

/// Mathematical value of a [`NotifierEvent`].
pub enum NotifierEventView {
    Start { signal_num: i32 },
    Scanned(Seq<(i32, Seq<char>)>),
    Killed { result: i32, errno: Option<i32>, no_such_process: i32, not_permitted: i32 },
}

/// Mathematical value of a [`NotifierAction`].
pub enum NotifierActionView {
    ScanProcesses,
    Kill { pid: i32, signal: i32 },
    Finish(Result<(), SignalErrorView>),
}

impl View for NotifierEvent {
    type V = NotifierEventView;

    open spec fn view(&self) -> NotifierEventView {
        match self {
            NotifierEvent::Start { signal_num } => NotifierEventView::Start {
                signal_num: *signal_num,
            },
            NotifierEvent::Scanned(processes) => NotifierEventView::Scanned(
                process_views(processes@),
            ),
            NotifierEvent::Killed {
                result,
                errno,
                no_such_process,
                not_permitted,
            } => NotifierEventView::Killed {
                result: *result,
                errno: *errno,
                no_such_process: *no_such_process,
                not_permitted: *not_permitted,
            },
        }
    }
}

impl View for NotifierAction {
    type V = NotifierActionView;

    open spec fn view(&self) -> NotifierActionView {
        match self {
            NotifierAction::ScanProcesses => NotifierActionView::ScanProcesses,
            NotifierAction::Kill { pid, signal } => NotifierActionView::Kill {
                pid: *pid,
                signal: *signal,
            },
            NotifierAction::Finish(r) => NotifierActionView::Finish(signal_outcome(*r)),
        }
    }
}

/// What the notifier does when `event` happens in `state`, where the
/// real-time signals of the process reach from `sigrtmin` to `sigrtmax`.
///
/// The offset is checked against the window before any process is looked
/// for. Then the processes are listed and the status bar is looked for among
/// them. Then the signal is sent, and what came of it is the result.
pub open spec fn notifier_step(
    state: Notifier,
    event: NotifierEventView,
    sigrtmin: int,
    sigrtmax: int,
) -> (Notifier, NotifierActionView) {
    match (state, event) {
        (Notifier::Idle, NotifierEventView::Start { signal_num }) => match rt_signal_of(
            signal_num as int,
            sigrtmin,
            sigrtmax,
        ) {
            Err(e) => (Notifier::Done, NotifierActionView::Finish(Err(e))),
            Ok(signal) => (
                Notifier::Scanning { signal: signal as i32 },
                NotifierActionView::ScanProcesses,
            ),
        },
        (Notifier::Scanning { signal }, NotifierEventView::Scanned(processes)) => match first_waybar(
            processes,
        ) {
            None => (
                Notifier::Done,
                NotifierActionView::Finish(
                    Err(SignalErrorView::ProcessNotFound("Could not find Waybar process"@)),
                ),
            ),
            Some(pid) => (Notifier::Sending, NotifierActionView::Kill { pid, signal }),
        },
        (
            Notifier::Sending,
            NotifierEventView::Killed { result, errno, no_such_process, not_permitted },
        ) => (
            Notifier::Done,
            NotifierActionView::Finish(
                delivery_of(result as int, errno, no_such_process, not_permitted),
            ),
        ),
        _ => (
            Notifier::Done,
            NotifierActionView::Finish(Err(SignalErrorView::OS("unexpected event"@))),
        ),
    }
}

/// Takes the notifier one step further, given the window of real-time signals.
pub fn notify_step(state: Notifier, event: NotifierEvent, sigrtmin: i32, sigrtmax: i32) -> (r: (
    Notifier,
    NotifierAction,
))
    ensures
        (r.0, r.1@) == notifier_step(state, event@, sigrtmin as int, sigrtmax as int),
{
    match state {
        Notifier::Idle => match event {
            NotifierEvent::Start { signal_num } => match rt_signal(signal_num, sigrtmin, sigrtmax) {
                Err(e) => (Notifier::Done, NotifierAction::Finish(Err(e))),
                Ok(signal) => (Notifier::Scanning { signal }, NotifierAction::ScanProcesses),
            },
            _ => stray(),
        },
        Notifier::Scanning { signal } => match event {
            NotifierEvent::Scanned(processes) => match find_waybar_pid(&processes) {
                None => (
                    Notifier::Done,
                    NotifierAction::Finish(
                        Err(
                            SignalError::ProcessNotFound(
                                ProcessNotFoundError(
                                    String::from_str("Could not find Waybar process"),
                                ),
                            ),
                        ),
                    ),
                ),
                Some(pid) => (Notifier::Sending, NotifierAction::Kill { pid, signal }),
            },
            _ => stray(),
        },
        Notifier::Sending => match event {
            NotifierEvent::Killed { result, errno, no_such_process, not_permitted } => (
                Notifier::Done,
                NotifierAction::Finish(
                    delivery_outcome(result, errno, no_such_process, not_permitted),
                ),
            ),
            _ => stray(),
        },
        Notifier::Done => stray(),
    }
}

fn stray() -> (r: (Notifier, NotifierAction))
    ensures
        r.0 == Notifier::Done,
        r.1@ == NotifierActionView::Finish(Err(SignalErrorView::OS("unexpected event"@))),
{
    (
        Notifier::Done,
        NotifierAction::Finish(Err(SignalError::OS(String::from_str("unexpected event")))),
    )
}

/// Takes the notifier one step further: tells it what happened and learns
/// what is to be done next. The window of real-time signals is that of this
/// process, whatever it is.
pub fn send_signal_to_waybar(state: Notifier, event: NotifierEvent) -> (r: (
    Notifier,
    NotifierAction,
))
    ensures
        exists|low: i32, high: i32|
            (r.0, r.1@) == notifier_step(state, event@, low as int, high as int),
{
    let low = sigrtmin();
    let high = sigrtmax();
    notify_step(state, event, low, high)
}

} // verus!
