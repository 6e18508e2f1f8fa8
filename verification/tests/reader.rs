use logscout::config::{SourceConfig, SourceKind};
use logscout::logline::LogLine;
use logscout::reader::{
    plan_readers, Reader, ReaderAction, ReaderEvent, ReaderFault, ReaderState,
};
use std::time::{Duration, SystemTime};

fn file_source(name: &str) -> SourceConfig {
    SourceConfig { name: name.to_string(), kind: SourceKind::File { path: "/x".to_string() } }
}

fn command_source(name: &str) -> SourceConfig {
    SourceConfig {
        name: name.to_string(),
        kind: SourceKind::Command { command: "tail".to_string(), args: vec!["-f".to_string()] },
    }
}

fn at(seconds: u64) -> SystemTime {
    SystemTime::UNIX_EPOCH + Duration::from_secs(seconds)
}

fn line(text: &str, seconds: u64) -> ReaderEvent {
    ReaderEvent::Line { text: text.to_string(), at: at(seconds) }
}

fn run(reader: &mut Reader, events: Vec<ReaderEvent>) -> Vec<LogLine> {
    let mut sent = Vec::new();
    for event in events {
        if let ReaderAction::Send(l) = reader.step(event, false) {
            sent.push(l);
        }
    }
    sent
}

#[test]
fn new_reader_is_idle_and_named_after_its_source() {
    let r = Reader::new(&file_source("app"));
    assert_eq!(r.name, "app");
    assert!(!r.from_command);
    assert_eq!(r.state, ReaderState::Idle);
    let r = Reader::new(&command_source("journal"));
    assert_eq!(r.name, "journal");
    assert!(r.from_command);
    assert_eq!(r.state, ReaderState::Idle);
}

#[test]
fn one_reader_per_source_in_order() {
    let sources = vec![file_source("a"), command_source("b"), file_source("c")];
    let readers = plan_readers(&sources);
    assert_eq!(readers.len(), 3);
    let names: Vec<&str> = readers.iter().map(|r| r.name.as_str()).collect();
    assert_eq!(names, ["a", "b", "c"]);
    let kinds: Vec<bool> = readers.iter().map(|r| r.from_command).collect();
    assert_eq!(kinds, [false, true, false]);
    assert!(readers.iter().all(|r| r.state == ReaderState::Idle));
    assert!(plan_readers(&Vec::new()).is_empty());
}

#[test]
fn file_that_cannot_be_opened_yields_nothing() {
    let mut r = Reader::new(&file_source("app"));
    match r.step(ReaderEvent::OpenFailed, false) {
        ReaderAction::Finish { report, wait_for_exit } => {
            assert_eq!(report, Some(ReaderFault::OpenFailed));
            assert!(!wait_for_exit);
        }
        other => panic!("expected the reader to finish, got {:?}", other),
    }
    assert_eq!(r.state, ReaderState::Done);
    let sent = run(&mut r, vec![ReaderEvent::Opened, line("late", 1), ReaderEvent::EndOfInput]);
    assert!(sent.is_empty());
    assert_eq!(r.state, ReaderState::Done);
}

#[test]
fn command_that_cannot_be_spawned_yields_nothing_and_is_not_awaited() {
    let mut r = Reader::new(&command_source("job"));
    match r.step(ReaderEvent::OpenFailed, false) {
        ReaderAction::Finish { report, wait_for_exit } => {
            assert_eq!(report, Some(ReaderFault::OpenFailed));
            assert!(!wait_for_exit);
        }
        other => panic!("expected the reader to finish, got {:?}", other),
    }
    assert!(run(&mut r, vec![line("x", 1)]).is_empty());
}

#[test]
fn command_without_output_stream_is_reported() {
    let mut r = Reader::new(&command_source("job"));
    match r.step(ReaderEvent::NoOutputStream, false) {
        ReaderAction::Finish { report, wait_for_exit } => {
            assert_eq!(report, Some(ReaderFault::NoOutputStream));
            assert!(!wait_for_exit);
        }
        other => panic!("expected the reader to finish, got {:?}", other),
    }
    assert_eq!(r.state, ReaderState::Done);
}

#[test]
fn lines_are_sent_in_read_order_under_the_source_name() {
    let mut r = Reader::new(&file_source("app"));
    assert!(matches!(r.step(ReaderEvent::Opened, false), ReaderAction::Read));
    assert_eq!(r.state, ReaderState::Reading);
    let sent = run(&mut r, vec![line("one", 10), line("", 11), line("three", 12)]);
    assert_eq!(sent.len(), 3);
    let texts: Vec<&str> = sent.iter().map(|l| l.line.as_str()).collect();
    assert_eq!(texts, ["one", "", "three"]);
    assert!(sent.iter().all(|l| l.source == "app"));
    let times: Vec<SystemTime> = sent.iter().map(|l| l.timestamp).collect();
    assert_eq!(times, [at(10), at(11), at(12)]);
    assert_eq!(r.state, ReaderState::Reading);
}

#[test]
fn end_of_input_ends_a_file_reader_in_silence() {
    let mut r = Reader::new(&file_source("app"));
    r.step(ReaderEvent::Opened, false);
    match r.step(ReaderEvent::EndOfInput, false) {
        ReaderAction::Finish { report, wait_for_exit } => {
            assert_eq!(report, None);
            assert!(!wait_for_exit);
        }
        other => panic!("expected the reader to finish, got {:?}", other),
    }
    assert_eq!(r.state, ReaderState::Done);
}

#[test]
fn command_is_awaited_once_its_output_ends() {
    let mut r = Reader::new(&command_source("job"));
    r.step(ReaderEvent::Opened, false);
    assert_eq!(run(&mut r, vec![line("a", 1)]).len(), 1);
    match r.step(ReaderEvent::EndOfInput, false) {
        ReaderAction::Finish { report, wait_for_exit } => {
            assert_eq!(report, None);
            assert!(wait_for_exit);
        }
        other => panic!("expected the reader to finish, got {:?}", other),
    }
}

#[test]
fn read_failure_is_reported_and_stops_the_reader() {
    let mut r = Reader::new(&file_source("app"));
    r.step(ReaderEvent::Opened, false);
    let sent = run(&mut r, vec![line("a", 1)]);
    assert_eq!(sent.len(), 1);
    match r.step(ReaderEvent::ReadFailed, false) {
        ReaderAction::Finish { report, wait_for_exit } => {
            assert_eq!(report, Some(ReaderFault::ReadFailed));
            assert!(!wait_for_exit);
        }
        other => panic!("expected the reader to finish, got {:?}", other),
    }
    assert!(run(&mut r, vec![line("b", 2)]).is_empty());

    let mut c = Reader::new(&command_source("job"));
    c.step(ReaderEvent::Opened, false);
    match c.step(ReaderEvent::ReadFailed, false) {
        ReaderAction::Finish { report, wait_for_exit } => {
            assert_eq!(report, Some(ReaderFault::ReadFailed));
            assert!(wait_for_exit);
        }
        other => panic!("expected the reader to finish, got {:?}", other),
    }
}

#[test]
fn vanished_consumer_ends_the_reader_without_a_report() {
    let mut r = Reader::new(&command_source("job"));
    r.step(ReaderEvent::Opened, false);
    assert_eq!(run(&mut r, vec![line("a", 1)]).len(), 1);
    match r.step(ReaderEvent::ConsumerGone, false) {
        ReaderAction::Finish { report, wait_for_exit } => {
            assert_eq!(report, None);
            assert!(wait_for_exit);
        }
        other => panic!("expected the reader to finish, got {:?}", other),
    }
    assert_eq!(r.state, ReaderState::Done);
    assert!(run(&mut r, vec![line("b", 2), line("c", 3)]).is_empty());
}

#[test]
fn event_out_of_place_ends_the_reader_in_silence() {
    let mut r = Reader::new(&file_source("app"));
    match r.step(line("early", 1), false) {
        ReaderAction::Finish { report, wait_for_exit } => {
            assert_eq!(report, None);
            assert!(!wait_for_exit);
        }
        other => panic!("expected the reader to finish, got {:?}", other),
    }
    assert_eq!(r.state, ReaderState::Done);
    let mut c = Reader::new(&command_source("job"));
    c.step(ReaderEvent::Opened, false);
    match c.step(ReaderEvent::Opened, false) {
        ReaderAction::Finish { report, wait_for_exit } => {
            assert_eq!(report, None);
            assert!(wait_for_exit);
        }
        other => panic!("expected the reader to finish, got {:?}", other),
    }
}

#[test]
fn a_failing_source_leaves_the_others_alone() {
    let sources = vec![file_source("gone"), file_source("app")];
    let mut readers = plan_readers(&sources);
    let mut sent = Vec::new();
    sent.extend(run(&mut readers[0], vec![ReaderEvent::OpenFailed, line("x", 1)]));
    sent.extend(run(
        &mut readers[1],
        vec![ReaderEvent::Opened, line("a", 2), line("b", 3), ReaderEvent::EndOfInput],
    ));
    let got: Vec<(&str, &str)> = sent.iter().map(|l| (l.source.as_str(), l.line.as_str())).collect();
    assert_eq!(got, [("app", "a"), ("app", "b")]);
}

#[test]
fn cloned_line_keeps_every_field() {
    let l = LogLine { source: "s".to_string(), line: "text".to_string(), timestamp: at(42) };
    let c = l.clone();
    assert_eq!(c.source, "s");
    assert_eq!(c.line, "text");
    assert_eq!(c.timestamp, at(42));
}

#[test]
fn shutdown_abandons_the_send_and_ends_the_reader() {
    let mut r = Reader::new(&file_source("app"));
    r.step(ReaderEvent::Opened, false);
    assert!(matches!(r.step(line("kept", 1), false), ReaderAction::Send(_)));
    match r.step(line("abandoned", 2), true) {
        ReaderAction::Finish { report, wait_for_exit } => {
            assert_eq!(report, None);
            assert!(!wait_for_exit);
        }
        other => panic!("expected the reader to finish, got {:?}", other),
    }
    assert_eq!(r.state, ReaderState::Done);
    assert!(run(&mut r, vec![line("later", 3)]).is_empty());

    let mut c = Reader::new(&command_source("job"));
    c.step(ReaderEvent::Opened, true);
    assert_eq!(c.state, ReaderState::Reading);
    match c.step(line("abandoned", 1), true) {
        ReaderAction::Finish { report, wait_for_exit } => {
            assert_eq!(report, None);
            assert!(wait_for_exit);
        }
        other => panic!("expected the reader to finish, got {:?}", other),
    }
}

#[test]
fn failures_are_reported_during_shutdown_too() {
    let mut r = Reader::new(&file_source("app"));
    match r.step(ReaderEvent::OpenFailed, true) {
        ReaderAction::Finish { report, .. } => assert_eq!(report, Some(ReaderFault::OpenFailed)),
        other => panic!("expected the reader to finish, got {:?}", other),
    }
    let mut r = Reader::new(&file_source("app"));
    r.step(ReaderEvent::Opened, false);
    match r.step(ReaderEvent::ReadFailed, true) {
        ReaderAction::Finish { report, .. } => assert_eq!(report, Some(ReaderFault::ReadFailed)),
        other => panic!("expected the reader to finish, got {:?}", other),
    }
}
