//! The toggle: bring the tunnel down where it is up and up where it is down,
//! record how that went, and tell the status bar.
//!
//! The toggle does none of the work itself. It is a state machine: it is
//! told what happened (an [`Event`]) and answers with what is to be done next
//! (an [`Action`]). Whoever drives it performs the action and reports back,
//! until the action is [`Action::Finish`].

use crate::config::{
    address_masks_of, bring_up_step, config_of_text, configure_wireguard, dns_servers_of,
    parse_wg_config, peer_step, ManagerAction, ManagerActionView, Stage, WireGuardConfig,
    WireGuardConfigView,
};
use crate::error::{
    prefixed, Error, ErrorView, SignalError, SignalErrorView, UnCaughtError,
};
use crate::status::{state_record, write_state_record};
use vstd::prelude::*;
use vstd::string::*;

verus! {

/// What the toggle is waiting for.
#[derive(PartialEq, Eq)]
pub enum Phase {
    /// Nothing has been asked yet.
    Idle,
    /// Whether the interface exists.
    Querying,
    /// The removal of the interface that was found.
    TearingDown,
    /// The text of the configuration.
    Loading,
    /// The reply to a request of the bringing up; `next` is what follows it.
    BringingUp { config: WireGuardConfig, next: Stage },
    /// The removal of the interface after the interface manager reported
    /// the failure `cause` while the tunnel was brought up.
    CleaningUp { cause: String },
    /// The writing of the state file.
    Recording { outcome: Result<(), Error> },
    /// The signalling of the status bar.
    Notifying { outcome: Result<(), Error> },
    /// Nothing: the toggle is over.
    Finished,
}

/// A toggle of the interface `interface_name`.
#[derive(PartialEq, Eq)]
pub struct Toggle {
    pub interface_name: String,
    /// The offset of the real-time signal for the status bar.
    pub signal: i32,
    /// The port to listen on where the configuration names none.
    pub port: u32,
    pub phase: Phase,
}

/// What happened.
#[derive(Debug, PartialEq, Eq)]
pub enum Event {
    /// The toggle was asked for.
    Start,
    /// The interface was looked for: whether it exists, or why no handle on
    /// the interface manager could be made.
    Queried(Result<bool, String>),
    /// The interface manager has answered a request, with its description
    /// of the failure where it failed.
    Manager(Result<(), String>),
    /// A request was not put to the interface manager, because a value of it
    /// could not be handed over; holds the failure.
    Refused(Error),
    /// The configuration was read: its text, or why it could not be read.
    ConfigRead(Result<String, Error>),
    /// The state file was written, or why it could not be.
    Written(Result<(), Error>),
    /// The status bar was signalled, or why it could not be.
    Notified(Result<(), SignalError>),
}

/// What is to be done next.
#[derive(PartialEq, Eq)]
pub enum Action {
    /// Find out whether the interface exists.
    QueryInterface,
    /// Read the text of the configuration.
    ReadConfig,
    /// Ask this of the interface manager.
    Manager(ManagerAction),
    /// Replace the content of the state file.
    WriteState { content: String },
    /// Send the status bar the real-time signal at this offset.
    Notify { signal: i32 },
    /// Nothing: the toggle is over, with this result.
    Finish(Result<(), Error>),
}

/// Mathematical value of a [`Phase`].
pub enum PhaseView {
    Idle,
    Querying,
    TearingDown,
    Loading,
    BringingUp { config: WireGuardConfigView, next: Stage },
    CleaningUp { cause: Seq<char> },
    Recording { outcome: Result<(), ErrorView> },
    Notifying { outcome: Result<(), ErrorView> },
    Finished,
}

/// Mathematical value of a [`Toggle`].
pub struct ToggleView {
    pub interface_name: Seq<char>,
    pub signal: i32,
    pub port: u32,
    pub phase: PhaseView,
}

/// Mathematical value of an [`Event`].
pub enum EventView {
    Start,
    Queried(Result<bool, Seq<char>>),
    Manager(Result<(), Seq<char>>),
    Refused(ErrorView),
    ConfigRead(Result<Seq<char>, ErrorView>),
    Written(Result<(), ErrorView>),
    Notified(Result<(), SignalErrorView>),
}

/// Mathematical value of an [`Action`].
pub enum ActionView {
    QueryInterface,
    ReadConfig,
    Manager(ManagerActionView),
    WriteState { content: Seq<char> },
    Notify { signal: i32 },
    Finish(Result<(), ErrorView>),
}

/// The mathematical value of the outcome of the work on the interface.
pub open spec fn unit_outcome(r: Result<(), Error>) -> Result<(), ErrorView> {
    match r {
        Ok(_) => Ok(()),
        Err(e) => Err(e@),
    }
}

/// The mathematical value of a reply of the interface manager.
pub open spec fn reply_view(r: Result<(), String>) -> Result<(), Seq<char>> {
    match r {
        Ok(_) => Ok(()),
        Err(m) => Err(m@),
    }
}

impl View for Phase {
    type V = PhaseView;

    open spec fn view(&self) -> PhaseView {
        match self {
            Phase::Idle => PhaseView::Idle,
            Phase::Querying => PhaseView::Querying,
            Phase::TearingDown => PhaseView::TearingDown,
            Phase::Loading => PhaseView::Loading,
            Phase::BringingUp { config, next } => PhaseView::BringingUp {
                config: config@,
                next: *next,
            },
            Phase::CleaningUp { cause } => PhaseView::CleaningUp { cause: cause@ },
            Phase::Recording { outcome } => PhaseView::Recording {
                outcome: unit_outcome(*outcome),
            },
            Phase::Notifying { outcome } => PhaseView::Notifying {
                outcome: unit_outcome(*outcome),
            },
            Phase::Finished => PhaseView::Finished,
        }
    }
}

impl View for Toggle {
    type V = ToggleView;

    open spec fn view(&self) -> ToggleView {
        ToggleView {
            interface_name: self.interface_name@,
            signal: self.signal,
            port: self.port,
            phase: self.phase@,
        }
    }
}

impl View for Event {
    type V = EventView;

    open spec fn view(&self) -> EventView {
        match self {
            Event::Start => EventView::Start,
            Event::Queried(r) => EventView::Queried(
                match r {
                    Ok(up) => Ok(*up),
                    Err(m) => Err(m@),
                },
            ),
            Event::Manager(r) => EventView::Manager(reply_view(*r)),
            Event::Refused(e) => EventView::Refused(e@),
            Event::ConfigRead(r) => EventView::ConfigRead(
                match r {
                    Ok(text) => Ok(text@),
                    Err(e) => Err(e@),
                },
            ),
            Event::Written(r) => EventView::Written(unit_outcome(*r)),
            Event::Notified(r) => EventView::Notified(
                match r {
                    Ok(_) => Ok(()),
                    Err(e) => Err(e@),
                },
            ),
        }
    }
}

impl View for Action {
    type V = ActionView;

    open spec fn view(&self) -> ActionView {
        match self {
            Action::QueryInterface => ActionView::QueryInterface,
            Action::ReadConfig => ActionView::ReadConfig,
            Action::Manager(a) => ActionView::Manager(a@),
            Action::WriteState { content } => ActionView::WriteState { content: content@ },
            Action::Notify { signal } => ActionView::Notify { signal: *signal },
            Action::Finish(r) => ActionView::Finish(unit_outcome(*r)),
        }
    }
}

impl ToggleView {
    /// The same toggle, waiting for something else.
    pub open spec fn in_phase(self, phase: PhaseView) -> ToggleView {
        ToggleView { phase, ..self }
    }

    /// The work on the interface is over with `outcome`: the state file is
    /// to be written next. Where its content cannot be put into JSON, the
    /// toggle is over at once, with that failure.
    pub open spec fn record(self, outcome: Result<(), ErrorView>) -> (ToggleView, ActionView) {
        match state_record(self.interface_name, outcome) {
            Ok(content) => (
                self.in_phase(PhaseView::Recording { outcome }),
                ActionView::WriteState { content },
            ),
            Err(reason) => (
                self.in_phase(PhaseView::Finished),
                ActionView::Finish(Err(ErrorView::Serde(reason))),
            ),
        }
    }

    /// The next request of the bringing up of `config` is due, at `stage`.
    pub open spec fn advance(self, config: WireGuardConfigView, stage: Stage) -> (
        ToggleView,
        ActionView,
    ) {
        match bring_up_step(config, self.interface_name, self.port, stage) {
            Err(e) => self.record(Err(e)),
            Ok(None) => self.record(Ok(())),
            Ok(Some((request, next))) => (
                self.in_phase(PhaseView::BringingUp { config, next }),
                ActionView::Manager(request),
            ),
        }
    }

    /// An event came that the toggle was not waiting for: the toggle is over.
    pub open spec fn stray(self) -> (ToggleView, ActionView) {
        (
            self.in_phase(PhaseView::Finished),
            ActionView::Finish(Err(ErrorView::UnCaught("unexpected event"@))),
        )
    }
}

/// What the toggle does when `event` happens in state `t`: the state that
/// follows and the action that is due.
///
/// An interface that exists is removed. One that does not exist is brought
/// up from the configuration. When the interface manager reports a failure
/// while the tunnel is brought up, the interface is removed again, and the
/// failure of that removal, where it fails, takes the place of the first
/// one; a configuration that cannot be read or holds a value that cannot be
/// read or handed over removes nothing. Whatever the outcome, it is written to the state
/// file and then the status bar is signalled. A state file that cannot be
/// written ends the toggle at once.
pub open spec fn toggle_step(t: ToggleView, event: EventView) -> (ToggleView, ActionView) {
    match (t.phase, event) {
        (PhaseView::Idle, EventView::Start) => (
            t.in_phase(PhaseView::Querying),
            ActionView::QueryInterface,
        ),
        (PhaseView::Querying, EventView::Queried(Err(reason))) => t.record(
            Err(ErrorView::WireGuardApi(reason)),
        ),
        (PhaseView::Querying, EventView::Queried(Ok(true))) => (
            t.in_phase(PhaseView::TearingDown),
            ActionView::Manager(ManagerActionView::RemoveInterface),
        ),
        (PhaseView::Querying, EventView::Queried(Ok(false))) => (
            t.in_phase(PhaseView::Loading),
            ActionView::ReadConfig,
        ),
        (PhaseView::TearingDown, EventView::Manager(Ok(_))) => t.record(Ok(())),
        (PhaseView::TearingDown, EventView::Manager(Err(reason))) => t.record(
            Err(ErrorView::WireGuardApi(reason)),
        ),
        (PhaseView::Loading, EventView::ConfigRead(Err(e))) => t.record(Err(e)),
        (PhaseView::Loading, EventView::ConfigRead(Ok(text))) => match config_of_text(text) {
            Err(e) => t.record(Err(e)),
            Ok(config) => t.advance(config, Stage::Create),
        },
        (PhaseView::BringingUp { config, next }, EventView::Manager(Ok(_))) => t.advance(
            config,
            next,
        ),
        (PhaseView::BringingUp { config, next }, EventView::Manager(Err(reason))) => (
            t.in_phase(PhaseView::CleaningUp { cause: reason }),
            ActionView::Manager(ManagerActionView::RemoveInterface),
        ),
        (PhaseView::BringingUp { config, next }, EventView::Refused(e)) => t.record(Err(e)),
        (PhaseView::CleaningUp { cause }, EventView::Manager(Ok(_))) => t.record(
            Err(ErrorView::WireGuardApi(ErrorView::WireGuardApi(cause).message())),
        ),
        (PhaseView::CleaningUp { cause }, EventView::Manager(Err(reason))) => t.record(
            Err(ErrorView::WireGuardApi(reason)),
        ),
        (PhaseView::Recording { outcome }, EventView::Written(Ok(_))) => (
            t.in_phase(PhaseView::Notifying { outcome }),
            ActionView::Notify { signal: t.signal },
        ),
        (PhaseView::Recording { outcome }, EventView::Written(Err(e))) => (
            t.in_phase(PhaseView::Finished),
            ActionView::Finish(Err(e)),
        ),
        (PhaseView::Notifying { outcome }, EventView::Notified(Ok(_))) => (
            t.in_phase(PhaseView::Finished),
            ActionView::Finish(outcome),
        ),
        (PhaseView::Notifying { outcome }, EventView::Notified(Err(e))) => (
            t.in_phase(PhaseView::Finished),
            ActionView::Finish(Err(ErrorView::Signal(e))),
        ),
        _ => t.stray(),
    }
}

impl Toggle {
    /// A toggle of `interface_name` that has not begun.
    pub fn new(interface_name: String, signal: i32, port: u32) -> (t: Toggle)
        ensures
            t@ == (ToggleView {
                interface_name: interface_name@,
                signal,
                port,
                phase: PhaseView::Idle,
            }),
    {
        Toggle { interface_name, signal, port, phase: Phase::Idle }
    }

    /// Whether the toggle is over.
    pub fn is_finished(&self) -> (b: bool)
        ensures
            b == (self@.phase is Finished),
    {
        match &self.phase {
            Phase::Finished => true,
            _ => false,
        }
    }

    fn in_phase(self, phase: Phase) -> (t: Toggle)
        ensures
            t@ == self@.in_phase(phase@),
    {
        Toggle {
            interface_name: self.interface_name,
            signal: self.signal,
            port: self.port,
            phase,
        }
    }

    fn record(self, outcome: Result<(), Error>) -> (r: (Toggle, Action))
        ensures
            (r.0@, r.1@) == self@.record(unit_outcome(outcome)),
    {
        match write_state_record(self.interface_name.as_str(), &outcome) {
            Ok(content) => (
                self.in_phase(Phase::Recording { outcome }),
                Action::WriteState { content },
            ),
            Err(reason) => (self.in_phase(Phase::Finished), Action::Finish(Err(Error::Serde(reason)))),
        }
    }

    fn advance(self, config: WireGuardConfig, stage: Stage) -> (r: (Toggle, Action))
        ensures
            (r.0@, r.1@) == self@.advance(config@, stage),
    {
        match configure_wireguard(&config, self.interface_name.as_str(), self.port, stage) {
            Err(e) => self.record(Err(e)),
            Ok(None) => self.record(Ok(())),
            Ok(Some((request, next))) => (
                self.in_phase(Phase::BringingUp { config, next }),
                Action::Manager(request),
            ),
        }
    }

    fn stray(self) -> (r: (Toggle, Action))
        ensures
            (r.0@, r.1@) == self@.stray(),
    {
        (
            self.in_phase(Phase::Finished),
            Action::Finish(
                Err(Error::UnCaught(UnCaughtError(String::from_str("unexpected event")))),
            ),
        )
    }
}

/// Takes the toggle one step further: tells it what happened and learns what
/// is to be done next.
pub fn toggle(state: Toggle, event: Event) -> (r: (Toggle, Action))
    ensures
        (r.0@, r.1@) == toggle_step(state@, event@),
{
    let Toggle { interface_name, signal, port, phase } = state;
    let t = Toggle { interface_name, signal, port, phase: Phase::Idle };
    let ghost before = state@;
    assert(t@ == before.in_phase(PhaseView::Idle));
    assert(forall|p: PhaseView| #[trigger] t@.in_phase(p) == before.in_phase(p));
    match phase {
        Phase::Idle => match event {
            Event::Start => (t.in_phase(Phase::Querying), Action::QueryInterface),
            _ => t.stray(),
        },
        Phase::Querying => match event {
            Event::Queried(Err(reason)) => t.record(Err(Error::WireGuardApi(reason))),
            Event::Queried(Ok(true)) => (
                t.in_phase(Phase::TearingDown),
                Action::Manager(ManagerAction::RemoveInterface),
            ),
            Event::Queried(Ok(false)) => (t.in_phase(Phase::Loading), Action::ReadConfig),
            _ => t.stray(),
        },
        Phase::TearingDown => match event {
            Event::Manager(Ok(_)) => t.record(Ok(())),
            Event::Manager(Err(reason)) => t.record(Err(Error::WireGuardApi(reason))),
            _ => t.stray(),
        },
        Phase::Loading => match event {
            Event::ConfigRead(Err(e)) => t.record(Err(e)),
            Event::ConfigRead(Ok(text)) => match parse_wg_config(text.as_str()) {
                Err(e) => t.record(Err(e)),
                Ok(config) => t.advance(config, Stage::Create),
            },
            _ => t.stray(),
        },
        Phase::BringingUp { config, next } => match event {
            Event::Manager(Ok(_)) => t.advance(config, next),
            Event::Manager(Err(reason)) => (
                t.in_phase(Phase::CleaningUp { cause: reason }),
                Action::Manager(ManagerAction::RemoveInterface),
            ),
            Event::Refused(e) => t.record(Err(e)),
            _ => t.stray(),
        },
        Phase::CleaningUp { cause } => match event {
            Event::Manager(Ok(_)) => {
                let shown = prefixed("WireGuard API error: ", cause.as_str());
                t.record(Err(Error::WireGuardApi(shown)))
            },
            Event::Manager(Err(reason)) => t.record(Err(Error::WireGuardApi(reason))),
            _ => t.stray(),
        },
        Phase::Recording { outcome } => match event {
            Event::Written(Ok(_)) => (
                t.in_phase(Phase::Notifying { outcome }),
                Action::Notify { signal },
            ),
            Event::Written(Err(e)) => (t.in_phase(Phase::Finished), Action::Finish(Err(e))),
            _ => t.stray(),
        },
        Phase::Notifying { outcome } => match event {
            Event::Notified(Ok(_)) => (t.in_phase(Phase::Finished), Action::Finish(outcome)),
            Event::Notified(Err(e)) => (
                t.in_phase(Phase::Finished),
                Action::Finish(Err(Error::Signal(e))),
            ),
            _ => t.stray(),
        },
        Phase::Finished => t.stray(),
    }
}

/// The state and the actions that come of feeding a toggle `events`, one
/// after another, from the state `t` on.
pub open spec fn run(t: ToggleView, events: Seq<EventView>) -> (ToggleView, Seq<ActionView>)
    decreases events.len(),
{
    if events.len() == 0 {
        (t, seq![])
    } else {
        let (before, actions) = run(t, events.drop_last());
        let (after, action) = toggle_step(before, events.last());
        (after, actions.push(action))
    }
}

/// How many of `actions` signal the status bar.
pub open spec fn notifications(actions: Seq<ActionView>) -> nat
    decreases actions.len(),
{
    if actions.len() == 0 {
        0
    } else if actions.last() is Notify {
        notifications(actions.drop_last()) + 1
    } else {
        notifications(actions.drop_last())
    }
}

/// What the last of `actions` that writes the state file writes.
pub open spec fn last_written(actions: Seq<ActionView>) -> Option<Seq<char>>
    decreases actions.len(),
{
    if actions.len() == 0 {
        None
    } else {
        match actions.last() {
            ActionView::WriteState { content } => Some(content),
            _ => last_written(actions.drop_last()),
        }
    }
}

/// What holds of a toggle after any events whatever.
///
/// The status bar is signalled at most once, and exactly once by the time
/// the toggle waits for the signal to be delivered. While the toggle waits
/// for the state file to be written or for the status bar to be signalled,
/// the state file was last asked to hold the record of the outcome. A
/// toggle that ends in success has had the empty record written last and
/// has signalled the status bar once.
pub proof fn lemma_toggle_invariants(t: ToggleView, events: Seq<EventView>)
    requires
        t.phase is Idle,
    ensures
        ({
            let (after, actions) = run(t, events);
            &&& after.interface_name == t.interface_name
            &&& notifications(actions) <= 1
            &&& (after.phase is Notifying ==> notifications(actions) == 1)
            &&& (after.phase is Idle || after.phase is Querying || after.phase is TearingDown
                || after.phase is Loading || after.phase is BringingUp
                || after.phase is CleaningUp || after.phase is Recording ==> notifications(actions)
                == 0)
            &&& (after.phase matches PhaseView::Recording { outcome } ==> state_record(
                t.interface_name,
                outcome,
            ) == Ok::<Seq<char>, Seq<char>>(last_written(actions).unwrap()) && last_written(
                actions,
            ) is Some)
            &&& (after.phase matches PhaseView::Notifying { outcome } ==> state_record(
                t.interface_name,
                outcome,
            ) == Ok::<Seq<char>, Seq<char>>(last_written(actions).unwrap()) && last_written(
                actions,
            ) is Some)
            &&& (actions.len() > 0 && actions.last() == ActionView::Finish(Ok(()))
                ==> last_written(actions) == Some("{}"@) && notifications(actions) == 1)
        }),
    decreases events.len(),
{
    if events.len() > 0 {
        lemma_toggle_invariants(t, events.drop_last());
        let (before, earlier) = run(t, events.drop_last());
        let (after, action) = toggle_step(before, events.last());
        let actions = earlier.push(action);
        assert(actions.drop_last() == earlier);
        assert(actions.last() == action);
    }
}

/// The part of the world that a toggle works on.
pub struct World {
    /// Whether the interface exists.
    pub up: bool,
    /// The text of the configuration file.
    pub config_text: Seq<char>,
    /// The content of the state file.
    pub state_file: Seq<char>,
    /// How often the status bar was signalled.
    pub signals: nat,
}

/// What becomes of a world in which nothing fails and nobody else touches
/// the interface when `action` is carried out, and what is reported back.
/// (Nothing is carried out for [`ActionView::Finish`]: a toggle that is over
/// is not driven on.)
pub open spec fn carry_out(w: World, action: ActionView) -> (World, EventView) {
    match action {
        ActionView::QueryInterface => (w, EventView::Queried(Ok(w.up))),
        ActionView::ReadConfig => (w, EventView::ConfigRead(Ok(w.config_text))),
        ActionView::Manager(ManagerActionView::CreateInterface) => (
            World { up: true, ..w },
            EventView::Manager(Ok(())),
        ),
        ActionView::Manager(ManagerActionView::RemoveInterface) => (
            World { up: false, ..w },
            EventView::Manager(Ok(())),
        ),
        ActionView::Manager(_) => (w, EventView::Manager(Ok(()))),
        ActionView::WriteState { content } => (
            World { state_file: content, ..w },
            EventView::Written(Ok(())),
        ),
        ActionView::Notify { signal } => (
            World { signals: w.signals + 1, ..w },
            EventView::Notified(Ok(())),
        ),
        ActionView::Finish(_) => (w, EventView::Start),
    }
}

/// Drives a toggle through such a world, beginning with `event`, until it
/// is over: the world that is left, and the result. `None` where `fuel`
/// actions did not suffice.
pub open spec fn drive(t: ToggleView, w: World, event: EventView, fuel: nat) -> (
    World,
    Option<Result<(), ErrorView>>,
)
    decreases fuel,
{
    let (next, action) = toggle_step(t, event);
    match action {
        ActionView::Finish(result) => (w, Some(result)),
        _ => if fuel == 0 {
            (w, None)
        } else {
            let (changed, reply) = carry_out(w, action);
            drive(next, changed, reply, (fuel - 1) as nat)
        },
    }
}

/// A whole toggle of `interface_name` in such a world.
pub open spec fn toggled(interface_name: Seq<char>, signal: i32, port: u32, w: World, fuel: nat) -> (
    World,
    Option<Result<(), ErrorView>>,
) {
    drive(
        ToggleView { interface_name, signal, port, phase: PhaseView::Idle },
        w,
        EventView::Start,
        fuel,
    )
}

/// Every value of `config` that is read while the tunnel is brought up can
/// be read: the addresses of the interface and the networks of each peer
/// are written as `ip/prefix` with a prefix of at most 255, and the name
/// servers are IP addresses.
pub open spec fn can_be_brought_up(config: WireGuardConfigView) -> bool {
    &&& address_masks_of(config.interface.addresses) is Ok
    &&& (config.interface.dns matches Some(names) ==> dns_servers_of(names) is Ok)
    &&& forall|i: int|
        0 <= i < config.peers.len() ==> address_masks_of(
            (#[trigger] config.peers[i]).allowed_ips,
        ) is Ok
    &&& config.peers.len() < usize::MAX
}

/// The world after a toggle that went well.
pub open spec fn after_success(w: World, up: bool) -> World {
    World { up, state_file: "{}"@, signals: w.signals + 1, ..w }
}

proof fn lemma_record_success(t: ToggleView, w: World, fuel: nat)
    requires
        fuel >= 2,
    ensures
        ({
            let (next, action) = t.record(Ok(()));
            let (changed, reply) = carry_out(w, action);
            drive(next, changed, reply, fuel) == (after_success(w, w.up), Some(Ok::<(), ErrorView>(())))
        }),
{
    reveal_with_fuel(drive, 3);
}

proof fn lemma_peers_brought_up(
    t: ToggleView,
    w: World,
    config: WireGuardConfigView,
    i: int,
    fuel: nat,
)
    requires
        can_be_brought_up(config),
        0 <= i <= config.peers.len(),
        t.phase == (PhaseView::BringingUp { config, next: Stage::Peer(i as usize) }),
        fuel >= config.peers.len() - i + 3,
    ensures
        drive(t, w, EventView::Manager(Ok(())), fuel) == (
            after_success(w, w.up),
            Some(Ok::<(), ErrorView>(())),
        ),
    decreases config.peers.len() - i,
{
    reveal_with_fuel(drive, 2);
    assert(toggle_step(t, EventView::Manager(Ok(()))) == t.advance(config, Stage::Peer(i as usize)));
    assert(bring_up_step(config, t.interface_name, t.port, Stage::Peer(i as usize)) == peer_step(
        config,
        i,
    ));
    if i < config.peers.len() {
        assert(address_masks_of(config.peers[i].allowed_ips) is Ok);
        let (next, action) = toggle_step(t, EventView::Manager(Ok(())));
        assert(next.phase == (PhaseView::BringingUp { config, next: Stage::Peer((i + 1) as usize) }));
        assert(action is Manager);
        assert(carry_out(w, action) == (w, EventView::Manager(Ok(()))));
        lemma_peers_brought_up(next, w, config, i + 1, (fuel - 1) as nat);
    } else {
        lemma_record_success(t, w, (fuel - 1) as nat);
    }
}

proof fn lemma_dns_brought_up(t: ToggleView, w: World, config: WireGuardConfigView, fuel: nat)
    requires
        can_be_brought_up(config),
        t.phase == (PhaseView::BringingUp { config, next: Stage::Dns }),
        fuel >= config.peers.len() + 4,
    ensures
        drive(t, w, EventView::Manager(Ok(())), fuel) == (
            after_success(w, w.up),
            Some(Ok::<(), ErrorView>(())),
        ),
{
    reveal_with_fuel(drive, 2);
    assert(toggle_step(t, EventView::Manager(Ok(()))) == t.advance(config, Stage::Dns));
    match config.interface.dns {
        Some(names) => {
            let (next, action) = toggle_step(t, EventView::Manager(Ok(())));
            assert(next.phase == (PhaseView::BringingUp { config, next: Stage::Peer(0) }));
            assert(carry_out(w, action) == (w, EventView::Manager(Ok(()))));
            lemma_peers_brought_up(next, w, config, 0, (fuel - 1) as nat);
        },
        None => {
            let stand_in = t.in_phase(PhaseView::BringingUp { config, next: Stage::Peer(0) });
            assert(toggle_step(stand_in, EventView::Manager(Ok(()))) == toggle_step(
                t,
                EventView::Manager(Ok(())),
            ));
            lemma_peers_brought_up(stand_in, w, config, 0, fuel);
        },
    }
}

/// A toggle where the interface exists, in a world where nothing fails,
/// removes the interface, leaves the empty record in the state file and
/// signals the status bar once.
pub proof fn lemma_toggle_down(interface_name: Seq<char>, signal: i32, port: u32, w: World, fuel: nat)
    requires
        w.up,
        fuel >= 4,
    ensures
        toggled(interface_name, signal, port, w, fuel) == (
            after_success(w, false),
            Some(Ok::<(), ErrorView>(())),
        ),
{
    reveal_with_fuel(drive, 5);
}

/// A toggle where the interface does not exist, in a world where nothing
/// fails and the configuration can be read and brought up, creates the
/// interface, leaves the empty record in the state file and signals the
/// status bar once.
pub proof fn lemma_toggle_up(interface_name: Seq<char>, signal: i32, port: u32, w: World, fuel: nat)
    requires
        !w.up,
        config_of_text(w.config_text) matches Ok(config) && can_be_brought_up(config)
            && fuel >= config.peers.len() + 8,
    ensures
        toggled(interface_name, signal, port, w, fuel) == (
            after_success(w, true),
            Some(Ok::<(), ErrorView>(())),
        ),
{
    reveal_with_fuel(drive, 5);
    let config = config_of_text(w.config_text)->Ok_0;
    let t0 = ToggleView { interface_name, signal, port, phase: PhaseView::Idle };
    let (t1, a1) = toggle_step(t0, EventView::Start);
    let (t2, a2) = toggle_step(t1, EventView::Queried(Ok(false)));
    let (t3, a3) = toggle_step(t2, EventView::ConfigRead(Ok(w.config_text)));
    assert(a3 == ActionView::Manager(ManagerActionView::CreateInterface));
    let created = World { up: true, ..w };
    let (t4, a4) = toggle_step(t3, EventView::Manager(Ok(())));
    assert(t4.phase == (PhaseView::BringingUp { config, next: Stage::Dns }));
    assert(carry_out(created, a4) == (created, EventView::Manager(Ok(()))));
    lemma_dns_brought_up(t4, created, config, (fuel - 4) as nat);
    assert(after_success(created, true) == after_success(w, true));
}

/// Toggling twice in a row, in a world where nothing fails, nobody else
/// touches the interface and the configuration can be read and brought up,
/// takes the interface to the other state and back. After each of the two
/// toggles the state file holds the empty record, and the status bar has
/// been signalled once more.
pub proof fn lemma_toggle_alternates(
    interface_name: Seq<char>,
    signal: i32,
    port: u32,
    w: World,
    fuel: nat,
)
    requires
        config_of_text(w.config_text) matches Ok(config) && can_be_brought_up(config)
            && fuel >= config.peers.len() + 8,
    ensures
        ({
            let (once, first) = toggled(interface_name, signal, port, w, fuel);
            let (twice, second) = toggled(interface_name, signal, port, once, fuel);
            &&& first == Some(Ok::<(), ErrorView>(()))
            &&& second == Some(Ok::<(), ErrorView>(()))
            &&& once == after_success(w, !w.up)
            &&& twice == after_success(once, w.up)
        }),
{
    if w.up {
        lemma_toggle_down(interface_name, signal, port, w, fuel);
        lemma_toggle_up(interface_name, signal, port, after_success(w, false), fuel);
    } else {
        lemma_toggle_up(interface_name, signal, port, w, fuel);
        lemma_toggle_down(interface_name, signal, port, after_success(w, true), fuel);
    }
}

} // verus!
