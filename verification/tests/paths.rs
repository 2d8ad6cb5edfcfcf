use me_tv::ids::{FrontendId, TuningId};
use me_tv::paths::{adapter_path, demux_path, dvb_base_path, dvr_path, frontend_path};

#[test]
fn base_path_value() {
    assert_eq!(dvb_base_path(), "/dev/dvb");
}

#[test]
fn adapter_path_zero() {
    assert_eq!(adapter_path(0), "/dev/dvb/adapter0");
}

#[test]
fn adapter_path_single_digit() {
    assert_eq!(adapter_path(7), "/dev/dvb/adapter7");
}

#[test]
fn adapter_path_multi_digit() {
    assert_eq!(adapter_path(17), "/dev/dvb/adapter17");
    assert_eq!(adapter_path(305), "/dev/dvb/adapter305");
}

#[test]
fn adapter_path_largest_id() {
    assert_eq!(adapter_path(65535), "/dev/dvb/adapter65535");
}

#[test]
fn frontend_path_is_correct() {
    let fei = FrontendId { adapter: 2, frontend: 3 };
    assert_eq!(frontend_path(&fei), "/dev/dvb/adapter2/frontend3");
}

#[test]
fn frontend_path_largest_ids() {
    let fei = FrontendId { adapter: 65535, frontend: 65535 };
    assert_eq!(frontend_path(&fei), "/dev/dvb/adapter65535/frontend65535");
}

#[test]
fn demux_path_is_correct() {
    let fei = FrontendId { adapter: 0, frontend: 10 };
    assert_eq!(demux_path(&fei), "/dev/dvb/adapter0/demux10");
}

#[test]
fn dvr_path_is_correct() {
    let fei = FrontendId { adapter: 41, frontend: 0 };
    assert_eq!(dvr_path(&fei), "/dev/dvb/adapter41/dvr0");
}

#[test]
fn id_types_have_value_semantics() {
    let fei = FrontendId { adapter: 1, frontend: 0 };
    assert_eq!(fei.clone(), fei);
    let t1 = TuningId { frontend: fei.clone(), channel: String::from("BBC ONE") };
    let t2 = t1.clone();
    assert_eq!(t1, t2);
    let t3 = TuningId { frontend: fei, channel: String::from("BBC TWO") };
    assert_ne!(t1, t3);
}

#[test]
fn paths_of_distinct_ids_differ() {
    let a = FrontendId { adapter: 1, frontend: 12 };
    let b = FrontendId { adapter: 11, frontend: 2 };
    assert_ne!(frontend_path(&a), frontend_path(&b));
    assert_ne!(demux_path(&a), demux_path(&b));
    assert_ne!(dvr_path(&a), dvr_path(&b));
}
