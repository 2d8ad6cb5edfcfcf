use me_tv::ids::FrontendId;
use me_tv::manager::{
    dispatch, handle_input, next_state, run, search_and_add_adaptors, ManagerInput, ManagerState,
    Step,
};
use me_tv::messages::{FileStatus, HotplugEvent, Message};

fn appeared(adapter: u16, frontend: u16) -> Message {
    Message::FrontendAppeared { fei: FrontendId { adapter, frontend } }
}

#[test]
fn appeared_adapter_dispatches_to_settle_and_probe() {
    let step = dispatch(&Some(HotplugEvent::AdapterAppeared { id: 2 }));
    assert_eq!(step, Step::SettleAndProbe { id: 2 });
}

#[test]
fn appeared_adapter_with_two_frontends_emits_two_events() {
    let statuses = vec![FileStatus::CharDevice, FileStatus::CharDevice, FileStatus::Absent];
    let out = handle_input(&ManagerInput::Appeared { id: 2, statuses });
    assert_eq!(out, vec![appeared(2, 0), appeared(2, 1)]);
}

#[test]
fn disappeared_adapter_forwards_exactly_one_event() {
    let step = dispatch(&Some(HotplugEvent::AdapterDisappeared { id: 3 }));
    assert_eq!(step, Step::Forward { msg: Message::AdapterDisappeared { id: 3 } });
    let out = handle_input(&ManagerInput::Disappeared { id: 3 });
    assert_eq!(out, vec![Message::AdapterDisappeared { id: 3 }]);
}

#[test]
fn closed_channel_terminates_the_loop() {
    assert_eq!(dispatch(&None), Step::Terminate);
    assert_eq!(next_state(&ManagerState::Running, &None), ManagerState::Terminated);
    assert_eq!(next_state(&ManagerState::Terminated, &None), ManagerState::Terminated);
}

#[test]
fn running_state_persists_while_events_arrive() {
    let recv = Some(HotplugEvent::AdapterAppeared { id: 0 });
    assert_eq!(next_state(&ManagerState::Running, &recv), ManagerState::Running);
}

#[test]
fn startup_scan_reports_present_adapters_in_order() {
    let adapters = vec![
        vec![FileStatus::CharDevice, FileStatus::Absent],
        vec![FileStatus::CharDevice, FileStatus::CharDevice, FileStatus::Absent],
    ];
    let out = search_and_add_adaptors(true, &adapters);
    assert_eq!(out, vec![appeared(0, 0), appeared(1, 0), appeared(1, 1)]);
}

#[test]
fn startup_scan_without_base_directory_reports_nothing() {
    let adapters = vec![vec![FileStatus::CharDevice, FileStatus::Absent]];
    assert_eq!(search_and_add_adaptors(false, &adapters), vec![]);
}

#[test]
fn startup_events_precede_hotplug_events() {
    let adapters = vec![
        vec![FileStatus::CharDevice, FileStatus::Absent],
        vec![FileStatus::CharDevice, FileStatus::Absent],
    ];
    let inputs = vec![
        ManagerInput::Appeared {
            id: 2,
            statuses: vec![FileStatus::CharDevice, FileStatus::Absent],
        },
        ManagerInput::Disappeared { id: 1 },
    ];
    let out = run(true, &adapters, &inputs);
    assert_eq!(
        out,
        vec![
            appeared(0, 0),
            appeared(1, 0),
            appeared(2, 0),
            Message::AdapterDisappeared { id: 1 },
        ]
    );
}

#[test]
fn run_with_no_inputs_reports_only_the_startup_scan() {
    let adapters = vec![vec![FileStatus::CharDevice, FileStatus::Absent]];
    let out = run(true, &adapters, &vec![]);
    assert_eq!(out, vec![appeared(0, 0)]);
}
