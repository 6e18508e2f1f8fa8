use logscout::aggregator::{consume, consume_all, format_line, settle, ConsumeAction};
use logscout::config::Config;
use logscout::filters::{FilterDecision, Filters};
use logscout::logline::LogLine;
use logscout::stats::Stats;
use std::time::SystemTime;

fn filters(includes: &[&str], exclude: &[&str]) -> Filters {
    let cfg = Config {
        follow: false,
        includes: includes.iter().map(|p| p.to_string()).collect(),
        exclude: exclude.iter().map(|p| p.to_string()).collect(),
        sources: Vec::new(),
    };
    Filters::from_config(&cfg).expect("patterns compile")
}

fn msg(source: &str, line: &str) -> LogLine {
    LogLine { source: source.to_string(), line: line.to_string(), timestamp: SystemTime::now() }
}

fn emitted(action: ConsumeAction) -> Option<String> {
    match action {
        ConsumeAction::Emit(text) => Some(text),
        ConsumeAction::Skip => None,
        ConsumeAction::Stop => panic!("the consumer stopped"),
    }
}

#[test]
fn kept_line_is_printed_with_its_source_in_brackets() {
    assert_eq!(format_line(&msg("nginx", "GET / 200")), "[nginx] GET / 200");
    assert_eq!(format_line(&msg("", "")), "[] ");
    assert_eq!(format_line(&msg("a]b", " [x] ")), "[a]b]  [x] ");
}

#[test]
fn two_sources_with_their_own_filters() {
    let a = filters(&["error", "warn"], &[]);
    let b = filters(&[], &[]);
    let mut stats = Stats::new();
    let mut out = Vec::new();
    out.extend(emitted(consume(&a, &mut stats, false, &msg("A", "error: x"))));
    out.extend(emitted(consume(&b, &mut stats, false, &msg("B", "hello"))));
    out.extend(emitted(consume(&a, &mut stats, false, &msg("A", "info: y"))));
    assert_eq!(out, ["[A] error: x", "[B] hello"]);
    let (total, included, excluded) = stats.snapshot();
    assert_eq!((total, included, excluded), (3, 2, 0));
    assert_eq!(total - included - excluded, 1);
}

#[test]
fn one_filter_set_for_all_sources() {
    let f = filters(&["error", "warn"], &[]);
    let mut stats = Stats::new();
    let mut out = Vec::new();
    for m in [msg("A", "error: x"), msg("A", "info: y"), msg("B", "hello")] {
        out.extend(emitted(consume(&f, &mut stats, false, &m)));
    }
    assert_eq!(out, ["[A] error: x"]);
    assert_eq!(stats.snapshot(), (3, 1, 0));
}

#[test]
fn excluded_lines_are_counted_and_not_printed() {
    let f = filters(&["ERROR"], &["DEBUG"]);
    let mut stats = Stats::new();
    assert!(matches!(
        consume(&f, &mut stats, false, &msg("s", "DEBUG ERROR")),
        ConsumeAction::Skip
    ));
    assert_eq!(stats.snapshot(), (1, 0, 1));
    assert_eq!(
        emitted(consume(&f, &mut stats, false, &msg("s", "ERROR occurred"))),
        Some("[s] ERROR occurred".to_string())
    );
    assert_eq!(stats.snapshot(), (2, 1, 1));
    assert!(matches!(consume(&f, &mut stats, false, &msg("s", "trace")), ConsumeAction::Skip));
    assert_eq!(stats.snapshot(), (3, 1, 1));
}

#[test]
fn shutdown_stops_the_consumer_and_leaves_the_counts() {
    let f = filters(&[], &["DEBUG"]);
    let mut stats = Stats::new();
    let mut out = Vec::new();
    let lines = [msg("s", "one"), msg("s", "DEBUG two"), msg("s", "three"), msg("s", "four")];
    let mut taken = 0;
    for (i, m) in lines.iter().enumerate() {
        let shutdown = i >= 2;
        match consume(&f, &mut stats, shutdown, m) {
            ConsumeAction::Stop => break,
            ConsumeAction::Emit(text) => out.push(text),
            ConsumeAction::Skip => {}
        }
        taken += 1;
    }
    assert_eq!(taken, 2);
    assert_eq!(out, ["[s] one"]);
    assert_eq!(stats.snapshot(), (2, 1, 1));
    assert!(matches!(consume(&f, &mut stats, true, &msg("s", "late")), ConsumeAction::Stop));
    assert_eq!(stats.snapshot(), (2, 1, 1));
}

#[test]
fn settle_counts_and_prints_by_verdict() {
    let mut stats = Stats::new();
    let m = msg("src", "text");
    assert_eq!(
        emitted(settle(&mut stats, FilterDecision::Included, &m)),
        Some("[src] text".to_string())
    );
    assert_eq!(stats.snapshot(), (1, 1, 0));
    assert_eq!(
        emitted(settle(&mut stats, FilterDecision::Passed, &m)),
        Some("[src] text".to_string())
    );
    assert_eq!(stats.snapshot(), (2, 2, 0));
    assert_eq!(emitted(settle(&mut stats, FilterDecision::Excluded, &m)), None);
    assert_eq!(stats.snapshot(), (3, 2, 1));
    assert_eq!(emitted(settle(&mut stats, FilterDecision::DroppedNoIncludeMatch, &m)), None);
    assert_eq!(stats.snapshot(), (4, 2, 1));
}

#[test]
fn a_whole_run_prints_what_is_kept_in_order_of_arrival() {
    let f = filters(&["error", "warn"], &["debug"]);
    let mut stats = Stats::new();
    let lines = vec![
        msg("A", "error: 1"),
        msg("B", "warn: 1"),
        msg("A", "info: 2"),
        msg("B", "debug error"),
        msg("A", "warn: 3"),
        msg("B", "error: 2"),
    ];
    let printed = consume_all(&f, &mut stats, &lines);
    assert_eq!(printed, ["[A] error: 1", "[B] warn: 1", "[A] warn: 3", "[B] error: 2"]);
    assert_eq!(stats.snapshot(), (6, 4, 1));
    assert!(consume_all(&f, &mut stats, &Vec::new()).is_empty());
    assert_eq!(stats.snapshot(), (6, 4, 1));
}

#[test]
fn each_source_keeps_its_order_however_the_sources_interleave() {
    let f = filters(&[], &["skip"]);
    let a = ["a1", "a skip", "a2", "a3"];
    let b = ["b1", "b2", "b skip"];
    let kept_a = ["[A] a1", "[A] a2", "[A] a3"];
    let kept_b = ["[B] b1", "[B] b2"];
    let orders: [&[usize]; 4] = [
        &[0, 0, 0, 0, 1, 1, 1],
        &[1, 1, 1, 0, 0, 0, 0],
        &[0, 1, 0, 1, 0, 1, 0],
        &[1, 0, 0, 1, 0, 0, 1],
    ];
    for order in orders {
        let (mut ia, mut ib) = (0, 0);
        let mut lines = Vec::new();
        for &which in order {
            if which == 0 {
                lines.push(msg("A", a[ia]));
                ia += 1;
            } else {
                lines.push(msg("B", b[ib]));
                ib += 1;
            }
        }
        let mut stats = Stats::new();
        let printed = consume_all(&f, &mut stats, &lines);
        let from_a: Vec<&str> =
            printed.iter().map(|t| t.as_str()).filter(|t| t.starts_with("[A] ")).collect();
        let from_b: Vec<&str> =
            printed.iter().map(|t| t.as_str()).filter(|t| t.starts_with("[B] ")).collect();
        assert_eq!(from_a, kept_a);
        assert_eq!(from_b, kept_b);
        assert_eq!(printed.len(), 5);
        assert_eq!(stats.snapshot(), (7, 5, 2));
    }
}

#[test]
fn a_whole_run_counts_on_from_where_the_counters_stand() {
    let f = filters(&["x"], &[]);
    let mut stats = Stats::new();
    stats.inc_total();
    stats.inc_excluded();
    let printed = consume_all(&f, &mut stats, &vec![msg("s", "x"), msg("s", "y")]);
    assert_eq!(printed, ["[s] x"]);
    assert_eq!(stats.snapshot(), (3, 1, 1));
}
