use commitbot::dispatch::Dispatcher;
use commitbot::error::LlmError;

fn fail(tag: &str) -> LlmError {
    LlmError::Transport { status: Some(500), detail: tag.to_string() }
}

/// Runs every batch to completion, recording outcomes in reverse order of
/// position inside each batch, and returns the batches seen.
fn run(d: &mut Dispatcher, outcome: impl Fn(usize) -> Result<String, LlmError>) -> Vec<(usize, usize)> {
    let mut batches = Vec::new();
    while let Some((start, end)) = d.next_batch() {
        assert!(d.in_flight() <= d.cap());
        assert_eq!(d.next_batch(), None);
        for pos in (start..end).rev() {
            assert!(d.record(pos, outcome(pos)));
            assert!(d.in_flight() <= d.cap());
        }
        batches.push((start, end));
    }
    batches
}

#[test]
fn all_succeed_in_order_with_full_progress() {
    for cap in 1..=6usize {
        for n in 0..=7usize {
            let mut d = Dispatcher::new(n, cap);
            run(&mut d, |p| Ok(format!("summary {p}")));
            assert_eq!(d.progress(), n);
            assert!(d.is_finished());
            let texts = d.finish().unwrap().unwrap();
            let expected: Vec<String> = (0..n).map(|p| format!("summary {p}")).collect();
            assert_eq!(texts, expected);
        }
    }
}

#[test]
fn never_more_than_cap_in_flight() {
    let mut d = Dispatcher::new(10, 3);
    let batches = run(&mut d, |_| Ok(String::new()));
    assert_eq!(batches, vec![(0, 3), (3, 6), (6, 9), (9, 10)]);
    for (s, e) in batches {
        assert!(e - s <= 3);
    }
}

#[test]
fn failure_surfaces_by_position_not_completion_order() {
    let mut d = Dispatcher::new(4, 4);
    assert_eq!(d.next_batch(), Some((0, 4)));
    assert!(d.record(3, Ok("d".to_string())));
    assert!(d.record(2, Err(fail("third"))));
    assert!(d.record(1, Err(fail("second"))));
    assert!(d.record(0, Ok("a".to_string())));
    assert_eq!(d.finish(), Some(Err(fail("second"))));
}

#[test]
fn dispatch_with_failure_scenario() {
    let mut d = Dispatcher::new(3, 2);
    let batches = run(&mut d, |p| if p == 1 { Err(fail("B")) } else { Ok(format!("{p}")) });
    assert_eq!(batches, vec![(0, 2), (2, 3)]);
    assert_eq!(d.progress(), 3);
    assert_eq!(d.finish(), Some(Err(fail("B"))));
}

#[test]
fn zero_cap_behaves_as_one() {
    let mut a = Dispatcher::new(3, 0);
    let mut b = Dispatcher::new(3, 1);
    assert_eq!(a.cap(), 1);
    let ba = run(&mut a, |p| Ok(p.to_string()));
    let bb = run(&mut b, |p| Ok(p.to_string()));
    assert_eq!(ba, vec![(0, 1), (1, 2), (2, 3)]);
    assert_eq!(ba, bb);
    assert_eq!(a.finish(), b.finish());
}

#[test]
fn no_items_finish_at_once() {
    let mut d = Dispatcher::new(0, 4);
    assert_eq!(d.next_batch(), None);
    assert_eq!(d.finish(), Some(Ok(Vec::new())));
}

#[test]
fn cap_above_count_gives_one_batch() {
    let mut d = Dispatcher::new(2, 9);
    assert_eq!(d.next_batch(), Some((0, 2)));
    let mut single = Dispatcher::new(1, 9);
    assert_eq!(single.next_batch(), Some((0, 1)));
}

#[test]
fn record_rejects_unstarted_and_repeated_positions() {
    let mut d = Dispatcher::new(3, 1);
    assert!(!d.record(0, Ok("early".to_string())));
    assert_eq!(d.progress(), 0);
    assert_eq!(d.next_batch(), Some((0, 1)));
    assert!(d.record(0, Ok("x".to_string())));
    assert!(!d.record(0, Ok("again".to_string())));
    assert_eq!(d.progress(), 1);
    assert!(!d.is_finished());
}

#[test]
fn unfinished_dispatch_has_no_result() {
    let mut d = Dispatcher::new(2, 2);
    assert_eq!(d.next_batch(), Some((0, 2)));
    assert!(d.record(0, Ok("x".to_string())));
    assert_eq!(d.in_flight(), 1);
    assert_eq!(d.finish(), None);
}
