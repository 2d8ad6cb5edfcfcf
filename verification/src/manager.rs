//! Frontend manager: the decision logic of the worker that seeds the
//! downstream channel with the hardware already present at startup and then
//! turns each inbound hotplug notification into the messages to forward.
//!
//! The surrounding application owns the channels, the worker thread, the
//! settle delay and the filesystem probes; it hands the probe results in as
//! plain values and sends the returned messages downstream unchanged.

use vstd::prelude::*;
use crate::enumerator::{add_frontends, spec_frontend_events};
use crate::messages::{FileStatus, HotplugEvent, Message};

verus! {

/// The two states of the manager's event loop.
#[derive(Clone, Copy, Debug, Eq, PartialEq, Structural)]
pub enum ManagerState {
    Running,
    Terminated,
}

/// The action the manager takes on the outcome of one blocking receive from
/// the inbound channel (`None` means the channel is closed: every sender has
/// been dropped).
#[derive(Clone, Debug, Eq, PartialEq, Structural)]
pub enum Step {
    /// Wait out the settle delay, probe the adapter's frontend paths in
    /// index order, and forward the enumeration's messages downstream.
    SettleAndProbe { id: u16 },
    /// Forward this one message downstream, with no filesystem access.
    Forward { msg: Message },
    /// The watcher's sender is gone: log termination and leave the loop.
    Terminate,
}

pub open spec fn spec_dispatch(recv: Option<HotplugEvent>) -> Step {
    match recv {
        Option::None => Step::Terminate,
        Option::Some(HotplugEvent::AdapterAppeared { id }) => Step::SettleAndProbe { id },
        Option::Some(HotplugEvent::AdapterDisappeared { id }) => Step::Forward {
            msg: Message::AdapterDisappeared { id },
        },
    }
}

/// Decide what one receive outcome asks of the manager: re-enumerate a newly
/// appeared adapter after the settle delay, forward a disappearance
/// unchanged, or terminate when the inbound channel has closed.
pub fn dispatch(recv: &Option<HotplugEvent>) -> (step: Step)
    ensures
        step == spec_dispatch(*recv),
{
    match recv {
        Option::None => Step::Terminate,
        Option::Some(HotplugEvent::AdapterAppeared { id }) => Step::SettleAndProbe { id: *id },
        Option::Some(HotplugEvent::AdapterDisappeared { id }) => Step::Forward {
            msg: Message::AdapterDisappeared { id: *id },
        },
    }
}

pub open spec fn spec_next_state(state: ManagerState, recv: Option<HotplugEvent>) -> ManagerState {
    if state is Terminated || recv is None {
        ManagerState::Terminated
    } else {
        ManagerState::Running
    }
}

/// The manager's state transition: it leaves `Running` exactly when the
/// inbound channel closes, and `Terminated` is final.
pub fn next_state(state: &ManagerState, recv: &Option<HotplugEvent>) -> (s: ManagerState)
    ensures
        s == spec_next_state(*state, *recv),
        (s is Terminated) <==> (*state is Terminated || recv is None),
{
    match state {
        ManagerState::Terminated => ManagerState::Terminated,
        ManagerState::Running => match recv {
            Option::None => ManagerState::Terminated,
            Option::Some(_) => ManagerState::Running,
        },
    }
}

/// One inbound event together with what the manager observed of the
/// filesystem while handling it: for a newly appeared adapter, the status
/// probed for each contiguous frontend index after the settle delay; a
/// disappearance carries no probe, since none is performed for it.
pub enum ManagerInput {
    Appeared { id: u16, statuses: Vec<FileStatus> },
    Disappeared { id: u16 },
}

pub open spec fn input_ok(input: ManagerInput) -> bool {
    input matches ManagerInput::Appeared { id, statuses } ==> statuses@.len() <= 0x10000
}

/// The messages the manager forwards downstream for one handled input: the
/// enumeration results for an appeared adapter, and exactly one
/// `AdapterDisappeared` for a disappeared one.
pub open spec fn spec_handle_input(input: ManagerInput) -> Seq<Message> {
    match input {
        ManagerInput::Appeared { id, statuses } => spec_frontend_events(id, statuses@),
        ManagerInput::Disappeared { id } => seq![Message::AdapterDisappeared { id }],
    }
}

/// Handle one inbound event, given the probe results gathered for it.
pub fn handle_input(input: &ManagerInput) -> (out: Vec<Message>)
    requires
        input_ok(*input),
    ensures
        out@ == spec_handle_input(*input),
{
    match input {
        ManagerInput::Appeared { id, statuses } => add_frontends(*id, statuses),
        ManagerInput::Disappeared { id } => {
            let mut out: Vec<Message> = Vec::new();
            out.push(Message::AdapterDisappeared { id: *id });
            proof {
                assert(out@ =~= spec_handle_input(*input));
            }
            out
        },
    }
}

/// The inner views of a sequence of probed status vectors.
pub open spec fn statuses_view(adapters: Seq<Vec<FileStatus>>) -> Seq<Seq<FileStatus>> {
    adapters.map_values(|v: Vec<FileStatus>| v@)
}

pub open spec fn spec_startup_scan(adapters: Seq<Seq<FileStatus>>, n: nat) -> Seq<Message>
    decreases adapters.len(),
{
    if adapters.len() == 0 {
        seq![]
    } else {
        spec_frontend_events(n as u16, adapters[0]) + spec_startup_scan(
            adapters.drop_first(),
            n + 1,
        )
    }
}

/// The messages the startup scan emits: nothing when the DVB base directory
/// is absent; otherwise the enumeration results for adapters 0, 1, ... in
/// order, one entry of `adapters` per present adapter index.
pub open spec fn spec_startup_events(base_present: bool, adapters: Seq<Seq<FileStatus>>) -> Seq<
    Message,
> {
    if base_present {
        spec_startup_scan(adapters, 0)
    } else {
        seq![]
    }
}

/// Search for any adapters already installed on start of the application:
/// given whether the base directory exists and, per present adapter index,
/// the probed status of each of its contiguous frontend indices, compute the
/// discovery messages to seed the downstream channel with.
pub fn search_and_add_adaptors(base_present: bool, adapters: &Vec<Vec<FileStatus>>) -> (out: Vec<
    Message,
>)
    requires
        adapters@.len() <= 0x10000,
        forall|j: int| 0 <= j < adapters@.len() ==> adapters@[j]@.len() <= 0x10000,
    ensures
        out@ == spec_startup_events(base_present, statuses_view(adapters@)),
{
    let ghost all = statuses_view(adapters@);
    let mut out: Vec<Message> = Vec::new();
    if !base_present {
        proof {
            assert(out@ =~= spec_startup_events(false, all));
        }
        return out;
    }
    let mut n: usize = 0;
    proof {
        assert(all.skip(0) =~= all);
        assert(out@ + spec_startup_scan(all, 0) =~= spec_startup_scan(all, 0));
    }
    while n < adapters.len()
        invariant
            n <= adapters@.len() <= 0x10000,
            forall|j: int| 0 <= j < adapters@.len() ==> adapters@[j]@.len() <= 0x10000,
            all == statuses_view(adapters@),
            out@ + spec_startup_scan(all.skip(n as int), n as nat) == spec_startup_events(
                true,
                all,
            ),
        decreases adapters@.len() - n,
    {
        let ghost pre = out@;
        let mut events = add_frontends(n as u16, &adapters[n]);
        out.append(&mut events);
        n = n + 1;
        proof {
            assert(all.skip(n as int - 1)[0] == all[n as int - 1]);
            assert(all.skip(n as int - 1).drop_first() =~= all.skip(n as int));
            assert(out@ + spec_startup_scan(all.skip(n as int), n as nat) =~= pre
                + spec_startup_scan(all.skip(n as int - 1), (n - 1) as nat));
        }
    }
    proof {
        assert(all.skip(n as int) =~= Seq::<Seq<FileStatus>>::empty());
        assert(out@ + spec_startup_scan(all.skip(n as int), n as nat) =~= out@);
    }
    out
}

/// The messages forwarded for a sequence of handled inputs, in order.
pub open spec fn spec_loop_events(inputs: Seq<ManagerInput>) -> Seq<Message>
    decreases inputs.len(),
{
    if inputs.len() == 0 {
        seq![]
    } else {
        spec_handle_input(inputs[0]) + spec_loop_events(inputs.drop_first())
    }
}

/// The frontend manager's whole output: the messages it forwards downstream
/// for a run that scanned `adapters` at startup and then received exactly
/// the inbound events of `inputs`, in order, before the channel closed.
/// Every startup discovery precedes every hotplug-derived message.
pub fn run(
    base_present: bool,
    adapters: &Vec<Vec<FileStatus>>,
    inputs: &Vec<ManagerInput>,
) -> (out: Vec<Message>)
    requires
        adapters@.len() <= 0x10000,
        forall|j: int| 0 <= j < adapters@.len() ==> adapters@[j]@.len() <= 0x10000,
        forall|j: int| 0 <= j < inputs@.len() ==> input_ok(inputs@[j]),
    ensures
        out@ == spec_startup_events(base_present, statuses_view(adapters@)) + spec_loop_events(
            inputs@,
        ),
{
    let ghost startup = spec_startup_events(base_present, statuses_view(adapters@));
    let mut out = search_and_add_adaptors(base_present, adapters);
    let mut n: usize = 0;
    proof {
        assert(inputs@.skip(0) =~= inputs@);
    }
    while n < inputs.len()
        invariant
            n <= inputs@.len(),
            forall|j: int| 0 <= j < inputs@.len() ==> input_ok(inputs@[j]),
            out@ + spec_loop_events(inputs@.skip(n as int)) == startup + spec_loop_events(
                inputs@,
            ),
        decreases inputs@.len() - n,
    {
        let ghost pre = out@;
        let mut events = handle_input(&inputs[n]);
        out.append(&mut events);
        n = n + 1;
        proof {
            assert(inputs@.skip(n as int - 1)[0] == inputs@[n as int - 1]);
            assert(inputs@.skip(n as int - 1).drop_first() =~= inputs@.skip(n as int));
            assert(out@ + spec_loop_events(inputs@.skip(n as int)) =~= pre + spec_loop_events(
                inputs@.skip(n as int - 1),
            ));
        }
    }
    proof {
        assert(inputs@.skip(n as int) =~= Seq::<ManagerInput>::empty());
        assert(out@ + spec_loop_events(inputs@.skip(n as int)) =~= out@);
    }
    out
}

} // verus!
