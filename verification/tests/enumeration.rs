use me_tv::enumerator::add_frontends;
use me_tv::ids::FrontendId;
use me_tv::messages::{FileStatus, Message};

fn appeared(adapter: u16, frontend: u16) -> Message {
    Message::FrontendAppeared { fei: FrontendId { adapter, frontend } }
}

#[test]
fn no_frontends_no_events() {
    assert_eq!(add_frontends(0, &vec![]), vec![]);
    assert_eq!(add_frontends(0, &vec![FileStatus::Absent]), vec![]);
}

#[test]
fn contiguous_frontends_all_reported_in_order() {
    let statuses = vec![
        FileStatus::CharDevice,
        FileStatus::CharDevice,
        FileStatus::CharDevice,
        FileStatus::Absent,
    ];
    assert_eq!(add_frontends(4, &statuses), vec![appeared(4, 0), appeared(4, 1), appeared(4, 2)]);
}

#[test]
fn scan_stops_at_first_absent_index() {
    let statuses = vec![
        FileStatus::CharDevice,
        FileStatus::Absent,
        FileStatus::CharDevice,
        FileStatus::CharDevice,
    ];
    assert_eq!(add_frontends(1, &statuses), vec![appeared(1, 0)]);
}

#[test]
fn wrong_file_type_is_skipped_without_halting() {
    let statuses = vec![
        FileStatus::CharDevice,
        FileStatus::OtherType,
        FileStatus::CharDevice,
        FileStatus::Absent,
    ];
    assert_eq!(add_frontends(3, &statuses), vec![appeared(3, 0), appeared(3, 2)]);
}

#[test]
fn wrong_file_type_first_still_scans_rest() {
    let statuses = vec![FileStatus::OtherType, FileStatus::CharDevice, FileStatus::Absent];
    assert_eq!(add_frontends(0, &statuses), vec![appeared(0, 1)]);
}
