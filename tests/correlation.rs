use nirictl::{App, Bootstrap, Registry, SpawnProgress, SpawnWait, StreamRead};

fn line(s: &str) -> StreamRead {
    StreamRead::Line(format!("{}\n", s))
}

fn ids(r: &Registry, candidates: &[u64]) -> Vec<u64> {
    candidates.iter().copied().filter(|id| r.contains(*id)).collect()
}

#[test]
fn scenario_bootstrap_then_spawn() {
    let mut reg = Registry::new();
    assert!(reg.bootstrap_step(&line(r#"{"WindowsChanged":[{"id":1},{"id":2}]}"#)));
    assert!(!reg.bootstrap_step(&StreamRead::Ended));
    assert_eq!(reg.len(), 2);
    assert_eq!(ids(&reg, &[1, 2, 3]), vec![1, 2]);

    let app = App { cmd: "term", id: "app://terminal" };
    let first = reg.spawn_step(
        app.id,
        &line(r#"{"WindowOpenedOrChanged":{"window":{"id":1,"app_id":"other"}}}"#),
    );
    assert_eq!(first, SpawnProgress::Waiting);
    let second = reg.spawn_step(
        app.id,
        &line(r#"{"WindowOpenedOrChanged":{"id":3,"app_id":"app://terminal"}}"#),
    );
    assert_eq!(second, SpawnProgress::Matched(3));
    assert_eq!(reg.len(), 3);
    assert_eq!(ids(&reg, &[1, 2, 3]), vec![1, 2, 3]);
}

#[test]
fn bootstrap_is_union_in_any_order_with_duplicates() {
    let events = [
        r#"{"WindowsChanged":[{"id":5},{"id":7}]}"#,
        r#"{"WindowsChanged":[{"id":7},{"id":9,"app_id":"x"}]}"#,
        r#"{"WindowsChanged":[{"id":5}]}"#,
    ];
    let mut forward = Registry::new();
    for e in events.iter() {
        assert!(forward.bootstrap_step(&line(e)));
    }
    let mut backward = Registry::new();
    for e in events.iter().rev().chain(events.iter()) {
        assert!(backward.bootstrap_step(&line(e)));
    }
    assert_eq!(forward.len(), 3);
    assert_eq!(backward.len(), 3);
    assert_eq!(ids(&forward, &[5, 7, 9, 11]), vec![5, 7, 9]);
    assert_eq!(ids(&backward, &[5, 7, 9, 11]), vec![5, 7, 9]);
}

#[test]
fn bootstrap_skips_records_without_integer_id() {
    let mut reg = Registry::new();
    assert!(reg.bootstrap_step(&line(
        r#"{"WindowsChanged":[{"id":"4"},{"title":"t"},{"id":-1},{"id":1.5},{"id":6}]}"#
    )));
    assert_eq!(reg.len(), 1);
    assert!(reg.contains(6));
}

#[test]
fn bootstrap_ignores_other_events() {
    let mut reg = Registry::new();
    assert!(reg.bootstrap_step(&line(r#"{"WorkspacesChanged":{"workspaces":[]}}"#)));
    assert!(reg.bootstrap_step(&line(r#"{"WindowOpenedOrChanged":{"window":{"id":4}}}"#)));
    assert!(reg.bootstrap_step(&line(r#"{"WindowsChanged":{"id":4}}"#)));
    assert_eq!(reg.len(), 0);
}

#[test]
fn bootstrap_skips_blank_lines() {
    let mut reg = Registry::new();
    assert!(reg.bootstrap_step(&StreamRead::Line("\n".to_string())));
    assert!(reg.bootstrap_step(&StreamRead::Line(" \t\r\n".to_string())));
    assert!(reg.bootstrap_step(&StreamRead::Line("\u{3000}\u{a0}".to_string())));
    assert!(reg.bootstrap_step(&line(r#"{"WindowsChanged":[{"id":12}]}"#)));
    assert!(!reg.bootstrap_step(&StreamRead::Ended));
    assert_eq!(reg.len(), 1);
    assert!(reg.contains(12));
}

#[test]
fn bootstrap_drain_collects_union_until_stream_goes_quiet() {
    let mut start = Registry::new();
    assert!(start.insert(100));
    let mut drain = Bootstrap::new(start);
    assert!(drain.step(&line(r#"{"WindowsChanged":[{"id":2},{"id":1}]}"#)));
    assert!(drain.step(&line("")));
    assert!(drain.step(&line("oops")));
    assert!(drain.step(&line(r#"{"WindowsChanged":[{"id":1},{"id":3}]}"#)));
    assert!(!drain.step(&StreamRead::Ended));
    let reg = drain.finish();
    assert_eq!(reg.len(), 4);
    assert_eq!(ids(&reg, &[1, 2, 3, 4, 100]), vec![1, 2, 3, 100]);
}

#[test]
fn spawn_wait_settles_on_first_new_window() {
    let mut start = Registry::new();
    assert!(start.insert(10));
    let mut wait = SpawnWait::new("X", start);
    let known = line(r#"{"WindowOpenedOrChanged":{"window":{"id":10,"app_id":"X"}}}"#);
    assert_eq!(wait.step(&known), SpawnProgress::Waiting);
    assert_eq!(wait.step(&line("{\"WindowOpenedOrC")), SpawnProgress::Waiting);
    let other = line(r#"{"WindowOpenedOrChanged":{"id":11,"app_id":"Y"}}"#);
    assert_eq!(wait.step(&other), SpawnProgress::Waiting);
    let new = line(r#"{"WindowOpenedOrChanged":{"id":12,"app_id":"X"}}"#);
    assert_eq!(wait.step(&new), SpawnProgress::Matched(12));
    let later = line(r#"{"WindowOpenedOrChanged":{"id":13,"app_id":"X"}}"#);
    assert_eq!(wait.step(&later), SpawnProgress::Matched(12));
    let (reg, matched) = wait.finish();
    assert_eq!(matched, Some(12));
    assert_eq!(reg.len(), 2);
    assert_eq!(ids(&reg, &[10, 11, 12, 13]), vec![10, 12]);
}

#[test]
fn spawn_wait_ends_with_stream() {
    let mut wait = SpawnWait::new("X", Registry::new());
    assert_eq!(wait.step(&line("[]")), SpawnProgress::Waiting);
    assert_eq!(wait.step(&StreamRead::Ended), SpawnProgress::StreamEnded);
    let (reg, matched) = wait.finish();
    assert_eq!(matched, None);
    assert_eq!(reg.len(), 0);
}

#[test]
fn no_false_match_on_known_window_of_same_program() {
    let mut reg = Registry::new();
    assert!(reg.bootstrap_step(&line(r#"{"WindowsChanged":[{"id":10,"app_id":"X"}]}"#)));
    let focus_change = line(r#"{"WindowOpenedOrChanged":{"window":{"id":10,"app_id":"X","is_focused":true}}}"#);
    assert_eq!(reg.spawn_step("X", &focus_change), SpawnProgress::Waiting);
    assert_eq!(reg.len(), 1);
    let created = line(r#"{"WindowOpenedOrChanged":{"window":{"id":20,"app_id":"X"}}}"#);
    assert_eq!(reg.spawn_step("X", &created), SpawnProgress::Matched(20));
    assert!(reg.contains(10));
    assert!(reg.contains(20));
}

#[test]
fn match_commits_exactly_once() {
    let mut reg = Registry::new();
    let w1 = line(r#"{"WindowOpenedOrChanged":{"window":{"id":30,"app_id":"X"}}}"#);
    assert_eq!(reg.spawn_step("X", &w1), SpawnProgress::Matched(30));
    assert!(reg.contains(30));
    assert_eq!(reg.spawn_step("X", &w1), SpawnProgress::Waiting);
    let w2 = line(r#"{"WindowOpenedOrChanged":{"window":{"id":31,"app_id":"X"}}}"#);
    assert_eq!(reg.spawn_step("X", &w2), SpawnProgress::Matched(31));
    assert_eq!(reg.len(), 2);
}

#[test]
fn flat_and_wrapped_payloads_agree() {
    let flat = line(r#"{"WindowOpenedOrChanged":{"id":40,"app_id":"Y"}}"#);
    let wrapped = line(r#"{"WindowOpenedOrChanged":{"window":{"id":40,"app_id":"Y"}}}"#);
    let mut a = Registry::new();
    let mut b = Registry::new();
    assert_eq!(a.spawn_step("Y", &flat), SpawnProgress::Matched(40));
    assert_eq!(b.spawn_step("Y", &wrapped), SpawnProgress::Matched(40));
    let mut c = Registry::new();
    let mut d = Registry::new();
    assert_eq!(c.spawn_step("Z", &flat), SpawnProgress::Waiting);
    assert_eq!(d.spawn_step("Z", &wrapped), SpawnProgress::Waiting);
    assert_eq!(c.len(), d.len());
}

#[test]
fn unparsable_lines_are_skipped() {
    let mut reg = Registry::new();
    assert!(reg.bootstrap_step(&line(r#"{"WindowsChanged":[{"id":1}]}"#)));
    assert!(reg.bootstrap_step(&line(r#"{"WindowsChanged":[{"id":2"#)));
    assert!(reg.bootstrap_step(&line("not json at all")));
    assert!(reg.bootstrap_step(&line(r#"{"WindowsChanged":[{"id":3}]}"#)));
    assert_eq!(ids(&reg, &[1, 2, 3]), vec![1, 3]);

    assert_eq!(reg.spawn_step("Q", &line("garbage{")), SpawnProgress::Waiting);
    assert_eq!(
        reg.spawn_step("Q", &line(r#"{"WindowOpenedOrChanged":{"window":{"id":4,"app_id":"Q""#)),
        SpawnProgress::Waiting
    );
    assert_eq!(reg.len(), 2);
    assert_eq!(
        reg.spawn_step("Q", &line(r#"{"WindowOpenedOrChanged":{"window":{"id":4,"app_id":"Q"}}}"#)),
        SpawnProgress::Matched(4)
    );
}

#[test]
fn window_without_identity_waits_for_later_report() {
    let mut reg = Registry::new();
    let bare = line(r#"{"WindowOpenedOrChanged":{"window":{"id":50,"app_id":null}}}"#);
    assert_eq!(reg.spawn_step("W", &bare), SpawnProgress::Waiting);
    assert!(!reg.contains(50));
    let later = line(r#"{"WindowOpenedOrChanged":{"window":{"id":50,"app_id":"W"}}}"#);
    assert_eq!(reg.spawn_step("W", &later), SpawnProgress::Matched(50));
}

#[test]
fn stream_end_stops_spawn_wait_without_match() {
    let mut reg = Registry::new();
    assert!(reg.insert(8));
    assert_eq!(reg.spawn_step("V", &StreamRead::Ended), SpawnProgress::StreamEnded);
    assert_eq!(reg.len(), 1);
}

#[test]
fn registry_insert_reports_novelty() {
    let mut reg = Registry::new();
    assert!(reg.insert(u64::MAX));
    assert!(!reg.insert(u64::MAX));
    assert!(reg.contains(u64::MAX));
    assert!(!reg.contains(0));
    assert_eq!(reg.len(), 1);
}
