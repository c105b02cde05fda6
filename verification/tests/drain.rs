use codechain_process::drain::{Diagnostic, Drain, DrainAction, DrainEnd, DrainEvent, DrainState, CHUNK_SIZE};

fn no_report(d: Option<Diagnostic<String>>) -> bool {
    d.is_none()
}

#[test]
fn chunk_size_is_one_kibibyte() {
    assert_eq!(CHUNK_SIZE, 1024);
}

#[test]
fn starts_by_reading() {
    let d = Drain::new();
    assert_eq!(d.state(), DrainState::Reading);
    assert_eq!(d.action(), DrainAction::Read);
}

#[test]
fn chunk_is_written_then_read_goes_on() {
    let mut d = Drain::new();
    let (action, report) = d.step::<String>(DrainEvent::Read(Ok(17)));
    assert_eq!(action, DrainAction::Write { len: 17 });
    assert!(no_report(report));
    assert_eq!(d.state(), DrainState::Writing { len: 17 });
    let (action, report) = d.step::<String>(DrainEvent::Written(Ok(())));
    assert_eq!(action, DrainAction::Read);
    assert!(no_report(report));
    let (action, _) = d.step::<String>(DrainEvent::Read(Ok(CHUNK_SIZE)));
    assert_eq!(action, DrainAction::Write { len: 1024 });
}

#[test]
fn end_of_stream_stops() {
    let mut d = Drain::new();
    let (action, report) = d.step::<String>(DrainEvent::Read(Ok(0)));
    assert_eq!(action, DrainAction::Stop);
    assert!(no_report(report));
    assert_eq!(d.state(), DrainState::Finished(DrainEnd::EndOfStream));
}

#[test]
fn read_failure_stops_and_is_reported() {
    let mut d = Drain::new();
    let (action, report) = d.step(DrainEvent::Read(Err("broken pipe".to_string())));
    assert_eq!(action, DrainAction::Stop);
    assert!(matches!(report, Some(Diagnostic::ReadFailed(e)) if e == "broken pipe"));
    assert_eq!(d.state(), DrainState::Finished(DrainEnd::ReadFailed));
}

#[test]
fn write_failure_is_reported_and_survived() {
    let mut d = Drain::new();
    d.step::<String>(DrainEvent::Read(Ok(5)));
    let (action, report) = d.step(DrainEvent::Written(Err("disk full".to_string())));
    assert_eq!(action, DrainAction::Read);
    assert!(matches!(report, Some(Diagnostic::WriteFailed(e)) if e == "disk full"));
    assert_eq!(d.state(), DrainState::Reading);
    let (action, _) = d.step::<String>(DrainEvent::Read(Ok(3)));
    assert_eq!(action, DrainAction::Write { len: 3 });
}

#[test]
fn finished_task_stays_finished() {
    let mut d = Drain::new();
    d.step::<String>(DrainEvent::Read(Ok(0)));
    for event in [DrainEvent::Read(Ok(4)), DrainEvent::Written(Ok(())), DrainEvent::Read(Err("x".to_string())), DrainEvent::Written(Err("y".to_string()))] {
        let (action, _) = d.step(event);
        assert_eq!(action, DrainAction::Stop);
        assert_eq!(d.state(), DrainState::Finished(DrainEnd::EndOfStream));
    }
}

#[test]
fn events_out_of_turn_change_nothing() {
    let mut d = Drain::new();
    let (action, report) = d.step(DrainEvent::Written(Err("late".to_string())));
    assert_eq!(action, DrainAction::Read);
    assert!(matches!(report, Some(Diagnostic::WriteFailed(e)) if e == "late"));
    d.step::<String>(DrainEvent::Read(Ok(9)));
    let (action, report) = d.step::<String>(DrainEvent::Read(Ok(0)));
    assert_eq!(action, DrainAction::Write { len: 9 });
    assert!(no_report(report));
    let (action, report) = d.step(DrainEvent::Read(Err("early".to_string())));
    assert_eq!(action, DrainAction::Write { len: 9 });
    assert!(matches!(report, Some(Diagnostic::ReadFailed(e)) if e == "early"));
}
