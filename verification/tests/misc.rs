use spark_core::commands::{drain_check, CMD_QUEUE_CAP};
use spark_core::coords::{Axis, CoordSys};
use spark_core::interactive::echo;
use spark_core::motor::axis_to_motor;
use spark_core::signal::{parse, QuerySignal, Signal};
use spark_core::signals::{pos_prefix, queue_line, sys_name};

#[test]
fn signal_parse() {
    assert_eq!(parse(b"!"), Signal::Cancel);
    assert_eq!(parse(b"?queue"), Signal::Query(QuerySignal::Queue));
    assert_eq!(parse(b"?pos"), Signal::Query(QuerySignal::Pos));
    assert_eq!(parse(b"?edm"), Signal::Query(QuerySignal::Edm));
    assert_eq!(parse(b"?pos "), Signal::Query(QuerySignal::Unknown));
}

#[test]
fn signals_names_and_queue_line() {
    assert_eq!(sys_name(CoordSys::Machine), "machine");
    assert_eq!(sys_name(CoordSys::Work), "work");
    assert_eq!(pos_prefix(CoordSys::Grinder), "g");
    assert_eq!(queue_line(3).as_bytes(), format!("queue cap:{} num:3", CMD_QUEUE_CAP).as_bytes());
}

#[test]
fn echo_rules() {
    assert_eq!(echo(b'\n', 0, true), b"\r\n".to_vec());
    assert_eq!(echo(0x08, 3, true), b" \x08".to_vec());
    assert_eq!(echo(0x7f, 0, true), Vec::<u8>::new());
    assert_eq!(echo(b'a', 1, true), Vec::<u8>::new());
    assert_eq!(echo(b'\n', 0, false), Vec::<u8>::new());
}

#[test]
fn motor_indices() {
    assert_eq!(axis_to_motor(Axis::X), 0);
    assert_eq!(axis_to_motor(Axis::Y), 1);
    assert_eq!(axis_to_motor(Axis::Z), 2);
}

#[test]
fn drain_poll() {
    assert!(matches!(drain_check(true, true, true, true), Some(Err(_))));
    assert!(matches!(drain_check(false, true, true, true), Some(Ok(()))));
    assert!(drain_check(false, true, false, true).is_none());
}
