//! The task state machine, its progress samples, and the registry sweep.

use voice::analysis::Interval;
use voice::analysis::VideoAnalysis;
use voice::manager::{expired_ids, TaskManager};
use voice::task::{StatsParse, StatsSample, Task, TaskStatus};

fn sample(out_time_us: Option<u64>, speed_millionths: Option<u64>) -> StatsSample {
    let mut s = StatsSample::new();
    if let Some(t) = out_time_us {
        s.absorb(StatsParse::Time(t));
    }
    if let Some(v) = speed_millionths {
        s.absorb(StatsParse::Speed(v));
    }
    s
}

#[test]
fn admitted_task_starts_at_zero() {
    let t = Task::new(7);
    assert_eq!(t.last_status(), TaskStatus::InProgress { progress: 0, speed: 0 });
    assert_eq!(t.completed_at(), None);
}

#[test]
fn happy_path_status_sequence() {
    // Expected playtime 9.5 s; two samples, then a clean exit.
    let mut t = Task::new(1);
    let playtime = 9_500_000;
    let m1 = t.apply_sample(sample(Some(4_750_000), Some(2_000_000)), playtime).unwrap();
    assert_eq!(m1.1, TaskStatus::InProgress { progress: 500_000, speed: 2_000_000 });
    let m2 = t.apply_sample(sample(Some(9_500_000), Some(2_100_000)), playtime).unwrap();
    assert_eq!(m2.1, TaskStatus::InProgress { progress: 1_000_000, speed: 2_100_000 });
    let m3 = t.complete(777);
    assert_eq!(m3.1, TaskStatus::Completed { end_time_ms: 777 });
    assert_eq!(t.last_status(), TaskStatus::Completed { end_time_ms: 777 });
    assert_eq!(t.completed_at(), Some(777));
}

#[test]
fn progress_reaches_exactly_one() {
    // The encoder reports exactly the expected playtime: progress is 1.0,
    // not greater.
    let mut t = Task::new(2);
    let m = t.apply_sample(sample(Some(8_000_000), None), 8_000_000).unwrap();
    assert_eq!(m.1, TaskStatus::InProgress { progress: 1_000_000, speed: 0 });
    // Past the end it still reads 1.0.
    let m2 = t.apply_sample(sample(Some(9_000_000), None), 8_000_000).unwrap();
    assert_eq!(m2.1, TaskStatus::InProgress { progress: 1_000_000, speed: 0 });
}

#[test]
fn speed_stays_at_initial_zero() {
    // An encoder that never reports a speed leaves it at zero.
    let mut t = Task::new(3);
    for out in [1_000_000u64, 2_000_000, 3_000_000] {
        let m = t.apply_sample(sample(Some(out), None), 4_000_000).unwrap();
        match m.1 {
            TaskStatus::InProgress { speed, .. } => assert_eq!(speed, 0),
            _ => panic!("expected a running status"),
        }
    }
}

#[test]
fn out_of_order_progress_stays_monotone() {
    // A speed arrives before the first output time.
    let mut t = Task::new(4);
    let playtime = 8_000_000;
    let m1 = t.apply_sample(sample(None, Some(3_000_000)), playtime).unwrap();
    assert_eq!(m1.1, TaskStatus::InProgress { progress: 0, speed: 3_000_000 });
    let m2 = t.apply_sample(sample(Some(2_000_000), None), playtime).unwrap();
    assert_eq!(m2.1, TaskStatus::InProgress { progress: 250_000, speed: 3_000_000 });
}

#[test]
fn empty_sample_publishes_nothing() {
    let mut t = Task::new(5);
    assert!(t.apply_sample(sample(None, None), 1_000_000).is_none());
}

#[test]
fn encoder_failure_becomes_error_status() {
    let mut t = Task::new(6);
    let msg = "Invalid data found when processing input".to_string();
    let m = t.fail(msg, 100);
    assert_eq!(m.1, TaskStatus::Error("Invalid data found when processing input".to_string()));
    assert_eq!(t.completed_at(), Some(100));
}

#[test]
fn cancellation_completes_and_is_idempotent() {
    let mut t = Task::new(8);
    let m = t.cancel(42).unwrap();
    assert_eq!(m.1, TaskStatus::Completed { end_time_ms: 42 });
    // A second cancel is a no-op.
    assert!(t.cancel(99).is_none());
    assert_eq!(t.last_status(), TaskStatus::Completed { end_time_ms: 42 });
}

#[test]
fn terminal_status_absorbs_samples() {
    // A subscriber attaching after the terminal transition sees no further
    // messages; the status read afterwards is the terminal one.
    let mut t = Task::new(9);
    t.complete(5);
    assert!(t.apply_sample(sample(Some(1), Some(2)), 10).is_none());
    assert!(t.cancel(6).is_none());
    assert_eq!(t.last_status(), TaskStatus::Completed { end_time_ms: 5 });
}

#[test]
fn silent_file_fails_before_encoding() {
    // An analysis with no audible content fails the task without starting
    // the encoder.
    let mut t = Task::new(10);
    let a = VideoAnalysis { audible: vec![], duration_us: 8_000_000 };
    match t.begin_encode(&a, 50) {
        Err(m) => assert_eq!(m.1, TaskStatus::Error("no audible content".to_string())),
        Ok(_) => panic!("expected the task to fail"),
    }
    assert_eq!(t.last_status(), TaskStatus::Error("no audible content".to_string()));
}

#[test]
fn audible_file_proceeds_with_playtime() {
    let mut t = Task::new(11);
    let a = VideoAnalysis {
        audible: vec![Interval { start_us: 0, end_us: 5_000_000 }],
        duration_us: 8_000_000,
    };
    assert_eq!(t.begin_encode(&a, 50), Ok(5_000_000));
    assert_eq!(t.last_status(), TaskStatus::InProgress { progress: 0, speed: 0 });
}

#[test]
fn stats_lines_parse() {
    assert_eq!(StatsParse::parse_line("out_time_ms=4750000"), StatsParse::Time(4_750_000));
    assert_eq!(StatsParse::parse_line("out_time_ms=-5"), StatsParse::Time(0));
    assert_eq!(StatsParse::parse_line("speed=2.01x"), StatsParse::Speed(2_010_000));
    assert_eq!(StatsParse::parse_line("speed=N/A"), StatsParse::Other);
    assert_eq!(StatsParse::parse_line("fps=30"), StatsParse::Other);
    assert_eq!(StatsParse::parse_line("no equals sign"), StatsParse::Other);
    assert_eq!(StatsParse::parse_line("out_time_ms=abc"), StatsParse::Other);
}

#[test]
fn sweep_removes_expired_tasks_and_stray_files() {
    // A finished 70 minutes ago, B finished 30 minutes ago, retention 60.
    let now: u64 = 100 * 60 * 1000;
    let retention: u64 = 60 * 60 * 1000;
    let mut a = Task::new(1111);
    a.complete(now - 70 * 60 * 1000);
    let mut b = Task::new(2222);
    b.complete(now - 30 * 60 * 1000);
    let mut m = TaskManager::new();
    assert!(m.insert_task(a));
    assert!(m.insert_task(b));
    let removed = m.cleanup_tasks(now, retention);
    assert_eq!(removed, vec![1111]);
    assert!(!m.contains(1111));
    assert!(m.contains(2222));
    // The files of the removed task go, and so does a stray file with no
    // task; unparseable names are left alone.
    let files = vec![
        "1111".to_string(),
        "2222".to_string(),
        "42".to_string(),
        "notanumber".to_string(),
    ];
    let to_delete = m.cleanup_task_files(&files);
    assert_eq!(to_delete, vec!["1111".to_string(), "42".to_string()]);
}

#[test]
fn admission_rejects_identifier_collisions() {
    let mut m = TaskManager::new();
    assert!(m.insert_task(Task::new(5)));
    assert!(!m.insert_task(Task::new(5)));
    assert!(m.get_task(5).is_some());
    assert!(m.get_task(6).is_none());
}

#[test]
fn running_tasks_never_expire() {
    let mut m = TaskManager::new();
    assert!(m.insert_task(Task::new(1)));
    let removed = m.cleanup_tasks(u64::MAX, 0);
    assert_eq!(removed, vec![]);
    assert!(m.contains(1));
}

#[test]
fn expired_ids_from_snapshot() {
    let entries = vec![(1u64, Some(0u64)), (2, Some(50)), (3, None)];
    assert_eq!(expired_ids(&entries, 100, 10), vec![1, 2]);
    assert_eq!(expired_ids(&entries, 100, 60), vec![1]);
    assert_eq!(expired_ids(&entries, 100, 200), Vec::<u64>::new());
}

#[test]
fn identifiers_are_drawn_and_clock_reads() {
    let _ = Task::gen_id();
    let now = voice::manager::now_unix_millis();
    // After 2020, before 2100.
    assert!(now > 1_577_836_800_000);
    assert!(now < 4_102_444_800_000);
}
