//! What is shown to the status bar, and what is remembered between runs.
//!
//! A status line is a JSON object with the members `text`, `class`,
//! `tooltip` and `percentage`. The state that is kept between runs maps an
//! interface name to the description of its last failed toggle.

use crate::error::{prefixed, Error, ErrorView};
use vstd::prelude::*;
use vstd::string::*;

verus! {

/// Connection state shown to the status bar.
#[derive(Clone, Copy, Debug, PartialEq, Eq, Structural)]
pub enum Status {
    Connected,
    Disconnected,
    Error,
}

impl Status {
    /// The label of the state: the `class` of a status line.
    pub open spec fn label(self) -> Seq<char> {
        match self {
            Status::Connected => "connected"@,
            Status::Disconnected => "disconnected"@,
            Status::Error => "error"@,
        }
    }

    /// The number that hints at the state: the `percentage` of a status line.
    pub open spec fn level(self) -> u8 {
        match self {
            Status::Connected => 0,
            Status::Disconnected => 50,
            Status::Error => 100,
        }
    }

    pub fn as_str(&self) -> (s: &'static str)
        ensures
            s@ == self.label(),
    {
        match self {
            Status::Connected => "connected",
            Status::Disconnected => "disconnected",
            Status::Error => "error",
        }
    }

    pub fn percentage(&self) -> (p: u8)
        ensures
            p == self.level(),
    {
        match self {
            Status::Connected => 0,
            Status::Disconnected => 50,
            Status::Error => 100,
        }
    }
}

/// One status line, before it is written as JSON.
#[derive(Clone, Debug, PartialEq, Eq)]
pub struct StatusOutput {
    pub text: String,
    pub status: Status,
    pub tooltip: String,
}

/// Mathematical value of a [`StatusOutput`].
pub struct StatusOutputView {
    pub text: Seq<char>,
    pub status: Status,
    pub tooltip: Seq<char>,
}

impl View for StatusOutput {
    type V = StatusOutputView;

    open spec fn view(&self) -> StatusOutputView {
        StatusOutputView { text: self.text@, status: self.status, tooltip: self.tooltip@ }
    }
}

/// The compact JSON text of an object with three members that are strings
/// and a fourth that is a number: each key with its value.
pub uninterp spec fn json_object_text(
    key1: Seq<char>,
    value1: Seq<char>,
    key2: Seq<char>,
    value2: Seq<char>,
    key3: Seq<char>,
    value3: Seq<char>,
    key4: Seq<char>,
    value4: u8,
) -> Seq<char>;

/// The JSON text of an object whose only member `outer` is an object whose
/// only member `inner` is the string `value`; or the description of why it
/// could not be written.
pub uninterp spec fn json_nested_text(outer: Seq<char>, inner: Seq<char>, value: Seq<char>) -> Result<
    Seq<char>,
    Seq<char>,
>;

/// `Display` of `serde_json::Value`, on an object that is built from the
/// given keys and values: its compact JSON text.
#[verifier::external_body]
fn json_object(
    key1: &str,
    value1: &str,
    key2: &str,
    value2: &str,
    key3: &str,
    value3: &str,
    key4: &str,
    value4: u8,
) -> (r: String)
    ensures
        r@ == json_object_text(key1@, value1@, key2@, value2@, key3@, value3@, key4@, value4),
{
    let mut object = serde_json::Map::new();
    object.insert(String::from(key1), serde_json::Value::from(value1));
    object.insert(String::from(key2), serde_json::Value::from(value2));
    object.insert(String::from(key3), serde_json::Value::from(value3));
    object.insert(String::from(key4), serde_json::Value::from(value4));
    serde_json::Value::Object(object).to_string()
}

/// `serde_json::to_string`, on an object with the single member `outer`,
/// which is an object with the single member `inner`, a string. The
/// description of a failure is the one that the serializer's error displays.
#[verifier::external_body]
fn json_nested(outer: &str, inner: &str, value: &str) -> (r: Result<String, String>)
    ensures
        match r {
            Ok(text) => json_nested_text(outer@, inner@, value@) == Ok::<Seq<char>, Seq<char>>(
                text@,
            ),
            Err(reason) => json_nested_text(outer@, inner@, value@) == Err::<Seq<char>, Seq<char>>(
                reason@,
            ),
        },
{
    let mut entry = serde_json::Map::new();
    entry.insert(String::from(inner), serde_json::Value::from(value));
    let mut object = serde_json::Map::new();
    object.insert(String::from(outer), serde_json::Value::Object(entry));
    match serde_json::to_string(&serde_json::Value::Object(object)) {
        Ok(text) => Ok(text),
        Err(e) => Err(format!("{}", e)),
    }
}

impl StatusOutputView {
    /// The line as JSON text.
    pub open spec fn json(self) -> Seq<char> {
        json_object_text(
            "text"@,
            self.text,
            "class"@,
            self.status.label(),
            "tooltip"@,
            self.tooltip,
            "percentage"@,
            self.status.level(),
        )
    }
}

impl StatusOutput {
    /// Writes the line as a JSON object.
    pub fn to_json(&self) -> (r: String)
        ensures
            r@ == self@.json(),
    {
        json_object(
            "text",
            self.text.as_str(),
            "class",
            self.status.as_str(),
            "tooltip",
            self.tooltip.as_str(),
            "percentage",
            self.status.percentage(),
        )
    }
}

/// The content of the state file after a toggle with the given outcome: an
/// empty object after a success; after a failure an object whose member
/// `error` maps the interface name to the description of the failure.
pub open spec fn state_record(interface_name: Seq<char>, outcome: Result<(), ErrorView>) -> Result<
    Seq<char>,
    Seq<char>,
> {
    match outcome {
        Ok(_) => Ok("{}"@),
        Err(e) => json_nested_text("error"@, interface_name, e.message()),
    }
}

/// Writes the content of the state file for the outcome of a toggle. Fails
/// only where the JSON writer does, with its description.
pub fn write_state_record(interface_name: &str, outcome: &Result<(), Error>) -> (r: Result<
    String,
    String,
>)
    ensures
        match r {
            Ok(text) => state_record(
                interface_name@,
                match outcome {
                    Ok(_) => Ok(()),
                    Err(e) => Err(e@),
                },
            ) == Ok::<Seq<char>, Seq<char>>(text@),
            Err(reason) => state_record(
                interface_name@,
                match outcome {
                    Ok(_) => Ok(()),
                    Err(e) => Err(e@),
                },
            ) == Err::<Seq<char>, Seq<char>>(reason@),
        },
{
    match outcome {
        Ok(_) => Ok(String::from_str("{}")),
        Err(e) => {
            let message = e.to_string();
            json_nested("error", interface_name, message.as_str())
        },
    }
}

/// What the state file holds: a mapping from the names of some interfaces to
/// the description of the failure of their last toggle. It is kept as a list
/// of pairs; in a state that is well formed no name occurs twice.
#[derive(Clone, Debug, PartialEq, Eq)]
pub struct PersistedState {
    pub error: Option<Vec<(String, String)>>,
}

/// No name occurs twice among the records.
pub open spec fn distinct_names(state: Seq<(Seq<char>, Seq<char>)>) -> bool {
    forall|i: int, j: int|
        0 <= i < j < state.len() ==> (#[trigger] state[i]).0 != (#[trigger] state[j]).0
}

impl PersistedState {
    /// The state is a mapping: no interface is named twice.
    pub open spec fn wf(&self) -> bool {
        distinct_names(self@)
    }
}

/// The recorded failures as pairs of interface name and description.
pub open spec fn records(entries: Seq<(String, String)>) -> Seq<(Seq<char>, Seq<char>)> {
    Seq::new(entries.len(), |i: int| (entries[i].0@, entries[i].1@))
}

impl View for PersistedState {
    type V = Seq<(Seq<char>, Seq<char>)>;

    open spec fn view(&self) -> Seq<(Seq<char>, Seq<char>)> {
        match self.error {
            Some(entries) => records(entries@),
            None => seq![],
        }
    }
}

/// What a live query of the interface found.
#[derive(Clone, Debug, PartialEq, Eq)]
pub enum Probe {
    /// The interface exists and its data could be read.
    Up,
    /// The interface's data could not be read.
    Down,
    /// No handle on the interface manager could be made; holds its description.
    Unavailable(String),
}

/// Mathematical value of a [`Probe`].
pub enum ProbeView {
    Up,
    Down,
    Unavailable(Seq<char>),
}

impl View for Probe {
    type V = ProbeView;

    open spec fn view(&self) -> ProbeView {
        match self {
            Probe::Up => ProbeView::Up,
            Probe::Down => ProbeView::Down,
            Probe::Unavailable(m) => ProbeView::Unavailable(m@),
        }
    }
}

/// The mathematical values of `lines`.
pub open spec fn outputs(lines: Seq<StatusOutput>) -> Seq<StatusOutputView> {
    Seq::new(lines.len(), |i: int| lines[i]@)
}

/// The line that reports a recorded failure.
pub open spec fn failure_line(description: Seq<char>) -> StatusOutputView {
    StatusOutputView {
        text: "VPN: Error"@,
        status: Status::Error,
        tooltip: "Toggle failed: "@ + description,
    }
}

/// The lines for the failures that `state` records for `interface_name`, in
/// the order of the records.
pub open spec fn recorded_lines(
    interface_name: Seq<char>,
    state: Seq<(Seq<char>, Seq<char>)>,
) -> Seq<StatusOutputView>
    decreases state.len(),
{
    if state.len() == 0 {
        seq![]
    } else {
        let earlier = recorded_lines(interface_name, state.drop_last());
        if state.last().0 == interface_name {
            earlier.push(failure_line(state.last().1))
        } else {
            earlier
        }
    }
}

/// The line that reports what a live query found.
pub open spec fn live_line(interface_name: Seq<char>, probe: ProbeView) -> StatusOutputView {
    match probe {
        ProbeView::Up => StatusOutputView {
            text: "VPN: "@ + interface_name,
            status: Status::Connected,
            tooltip: "VPN is "@ + Status::Connected.label(),
        },
        ProbeView::Down => StatusOutputView {
            text: "VPN: "@ + interface_name,
            status: Status::Disconnected,
            tooltip: "VPN is "@ + Status::Disconnected.label(),
        },
        ProbeView::Unavailable(m) => StatusOutputView {
            text: "VPN: Error"@,
            status: Status::Error,
            tooltip: "Failed to check VPN status: "@ + ErrorView::WireGuardApi(m).message(),
        },
    }
}

/// All the lines of a status report: those for recorded failures, then the
/// one for the live query. A recorded failure does not keep the live query
/// from being reported.
pub open spec fn report(
    interface_name: Seq<char>,
    state: Seq<(Seq<char>, Seq<char>)>,
    probe: ProbeView,
) -> Seq<StatusOutputView> {
    recorded_lines(interface_name, state).push(live_line(interface_name, probe))
}

/// A state that does not name the interface records no line for it.
proof fn lemma_unnamed_records_nothing(interface_name: Seq<char>, state: Seq<(Seq<char>, Seq<char>)>)
    requires
        forall|i: int| 0 <= i < state.len() ==> (#[trigger] state[i]).0 != interface_name,
    ensures
        recorded_lines(interface_name, state) == Seq::<StatusOutputView>::empty(),
    decreases state.len(),
{
    if state.len() > 0 {
        let earlier = state.drop_last();
        assert forall|i: int| 0 <= i < earlier.len() implies (#[trigger] earlier[i]).0
            != interface_name by {
            assert(earlier[i] == state[i]);
        }
        lemma_unnamed_records_nothing(interface_name, earlier);
        assert(state.last() == state[state.len() - 1]);
    }
}

/// A state in which no name occurs twice records at most one line for an
/// interface: none where it does not name the interface, else the line for
/// the one failure that it records.
pub proof fn lemma_at_most_one_recorded_line(
    interface_name: Seq<char>,
    state: Seq<(Seq<char>, Seq<char>)>,
)
    requires
        distinct_names(state),
    ensures
        recorded_lines(interface_name, state).len() <= 1,
        forall|i: int|
            0 <= i < state.len() && (#[trigger] state[i]).0 == interface_name ==> recorded_lines(
                interface_name,
                state,
            ) == seq![failure_line(state[i].1)],
        (forall|i: int| 0 <= i < state.len() ==> (#[trigger] state[i]).0 != interface_name)
            ==> recorded_lines(interface_name, state).len() == 0,
    decreases state.len(),
{
    if state.len() > 0 {
        let earlier = state.drop_last();
        let last = state.len() - 1;
        assert(state.last() == state[last]);
        assert forall|i: int, j: int| 0 <= i < j < earlier.len() implies (#[trigger] earlier[i]).0
            != (#[trigger] earlier[j]).0 by {
            assert(earlier[i] == state[i]);
            assert(earlier[j] == state[j]);
        }
        lemma_at_most_one_recorded_line(interface_name, earlier);
        if state[last].0 == interface_name {
            assert forall|i: int| 0 <= i < earlier.len() implies (#[trigger] earlier[i]).0
                != interface_name by {
                assert(earlier[i] == state[i]);
            }
            lemma_unnamed_records_nothing(interface_name, earlier);
            assert(recorded_lines(interface_name, state) == seq![failure_line(state[last].1)]);
            assert forall|i: int|
                0 <= i < state.len() && (#[trigger] state[i]).0
                    == interface_name implies recorded_lines(interface_name, state)
                == seq![failure_line(state[i].1)] by {
                if i < last {
                    assert(state[i].0 != state[last].0);
                }
            }
        } else {
            assert forall|i: int|
                0 <= i < state.len() && (#[trigger] state[i]).0
                    == interface_name implies recorded_lines(interface_name, state)
                == seq![failure_line(state[i].1)] by {
                assert(earlier[i] == state[i]);
            }
            if forall|i: int| 0 <= i < state.len() ==> (#[trigger] state[i]).0 != interface_name {
                assert forall|i: int| 0 <= i < earlier.len() implies (#[trigger] earlier[i]).0
                    != interface_name by {
                    assert(earlier[i] == state[i]);
                }
            }
        }
    }
}

/// The lines for the failures that `state` records for `interface_name`: at
/// most one where the state is well formed.
pub fn recorded_status(interface_name: &str, state: &PersistedState) -> (lines: Vec<StatusOutput>)
    ensures
        outputs(lines@) == recorded_lines(interface_name@, state@),
        state.wf() ==> lines@.len() <= 1,
{
    proof {
        if state.wf() {
            lemma_at_most_one_recorded_line(interface_name@, state@);
        }
    }
    let mut lines: Vec<StatusOutput> = Vec::new();
    let entries = match &state.error {
        Some(entries) => entries,
        None => {
            assert(outputs(lines@) =~= recorded_lines(interface_name@, state@));
            return lines;
        },
    };
    let name = String::from_str(interface_name);
    let mut i: usize = 0;
    assert(state@.take(0) =~= seq![]);
    assert(outputs(lines@) =~= seq![]);
    while i < entries.len()
        invariant
            i <= entries@.len(),
            state@ == records(entries@),
            name@ == interface_name@,
            outputs(lines@) == recorded_lines(interface_name@, state@.take(i as int)),
        decreases entries@.len() - i,
    {
        let ghost before = outputs(lines@);
        proof {
            assert(state@.take(i + 1).drop_last() == state@.take(i as int));
            assert(state@.take(i + 1).last() == (entries@[i as int].0@, entries@[i as int].1@));
        }
        if entries[i].0 == name {
            lines.push(
                StatusOutput {
                    text: String::from_str("VPN: Error"),
                    status: Status::Error,
                    tooltip: prefixed("Toggle failed: ", entries[i].1.as_str()),
                },
            );
            assert(outputs(lines@) =~= before.push(failure_line(entries@[i as int].1@)));
        }
        i = i + 1;
    }
    assert(state@.take(i as int) == state@);
    lines
}

/// The line that reports what a live query found.
pub fn live_status(interface_name: &str, probe: &Probe) -> (line: StatusOutput)
    ensures
        line@ == live_line(interface_name@, probe@),
{
    match probe {
        Probe::Up => StatusOutput {
            text: prefixed("VPN: ", interface_name),
            status: Status::Connected,
            tooltip: prefixed("VPN is ", Status::Connected.as_str()),
        },
        Probe::Down => StatusOutput {
            text: prefixed("VPN: ", interface_name),
            status: Status::Disconnected,
            tooltip: prefixed("VPN is ", Status::Disconnected.as_str()),
        },
        Probe::Unavailable(m) => {
            let shown = prefixed("WireGuard API error: ", m.as_str());
            StatusOutput {
                text: String::from_str("VPN: Error"),
                status: Status::Error,
                tooltip: prefixed("Failed to check VPN status: ", shown.as_str()),
            }
        },
    }
}

/// The lines of a status report, in the order in which they are to be
/// shown: at most two where the state is well formed.
pub fn status(interface_name: &str, state: &PersistedState, probe: &Probe) -> (lines: Vec<
    StatusOutput,
>)
    ensures
        outputs(lines@) == report(interface_name@, state@, probe@),
        state.wf() ==> 1 <= lines@.len() <= 2,
{
    let mut lines = recorded_status(interface_name, state);
    let ghost before = outputs(lines@);
    let line = live_status(interface_name, probe);
    lines.push(line);
    assert(outputs(lines@) =~= before.push(live_line(interface_name@, probe@)));
    lines
}

} // verus!
