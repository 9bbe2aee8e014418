use weiback_rs::exporter::export_pages;
use weiback_rs::planning::{BackupAction, BackupEvent, BackupRun};

#[test]
fn export_pages_step_by_limit() {
    let pages = export_pages("fav", 0, 25, 10);
    let got: Vec<(String, u32, u32)> = pages;
    assert_eq!(
        got,
        vec![
            ("fav_1".to_string(), 0, 10),
            ("fav_2".to_string(), 10, 20),
            ("fav_3".to_string(), 20, 25),
            ("fav_4".to_string(), 25, 25),
        ]
    );
}

#[test]
fn export_pages_of_a_single_post() {
    assert_eq!(export_pages("x", 7, 7, 100), vec![("x_1".to_string(), 7, 7)]);
}

#[test]
fn export_pages_of_a_reversed_range() {
    assert_eq!(
        export_pages("x", 9, 5, 3),
        vec![("x_1".to_string(), 9, 5), ("x_2".to_string(), 5, 5)]
    );
}

#[test]
fn backup_run_fetches_each_page_once() {
    let (mut run, total) = BackupRun::start(1, 60, 20);
    assert_eq!(total, 3);
    let mut fetched = Vec::new();
    let mut waits = Vec::new();
    while let BackupAction::Fetch(p) = run.action() {
        fetched.push(p);
        waits.push(run.page_done());
    }
    assert_eq!(fetched, vec![1, 2, 3]);
    assert_eq!(waits, vec![true, true, false]);
    assert_eq!(run.action(), BackupAction::Done);
}

fn run_log(start: u32, end: u32, count: u32, outcomes: &[bool]) -> Vec<BackupEvent> {
    let (mut run, total) = BackupRun::start(start, end, count);
    let mut log = vec![BackupEvent::Total(total)];
    let mut i = 0;
    while let BackupAction::Fetch(p) = run.action() {
        log.push(BackupEvent::Fetch(p));
        log.extend(run.on_fetched(outcomes[i]));
        i += 1;
    }
    log
}

#[test]
fn backup_log_reports_pages_and_stops_on_failure() {
    assert_eq!(
        run_log(1, 60, 20, &[true, true, true]),
        vec![BackupEvent::Total(3), BackupEvent::Fetch(1), BackupEvent::Progress, BackupEvent::Wait, BackupEvent::Fetch(2), BackupEvent::Progress, BackupEvent::Wait, BackupEvent::Fetch(3), BackupEvent::Progress]
    );
    assert_eq!(
        run_log(1, 60, 20, &[true, false, true]),
        vec![BackupEvent::Total(3), BackupEvent::Fetch(1), BackupEvent::Progress, BackupEvent::Wait, BackupEvent::Fetch(2), BackupEvent::Fail]
    );
}
