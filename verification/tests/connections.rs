use xdown::board::Board;
use xdown::process::{range_header, Action, Event, Process, Stage};
use xdown::task::{Extend, HttpMode, Reuse, Task};

fn process() -> Process {
    Process {
        file_path: "f".to_string(),
        max_retry: 15,
        retry: 0,
        mode: HttpMode::GET,
        url: "u".to_string(),
    }
}

fn board() -> Board {
    let mut b = Board::new();
    b.put(0, 0, 99);
    b.put(1, 100, 999);
    b
}

#[test]
fn range_holds_both_ends() {
    assert_eq!(range_header(0, 99), "bytes=0-99");
    assert_eq!(range_header(100, u64::MAX), "bytes=100-18446744073709551615");
}

#[test]
fn connection_starts_at_its_position() {
    let (stage, range) = process().start(&board(), 1).unwrap();
    assert_eq!(stage, Stage::Asking { back: 999 });
    assert_eq!(range, "bytes=100-999");
    assert!(process().start(&board(), 2).is_none());
}

#[test]
fn answered_connection_opens_its_bar() {
    let (mut p, mut b) = (process(), board());
    let (stage, action) = p.download(&mut b, 1, Stage::Asking { back: 999 }, Event::Answered);
    assert_eq!(stage, Stage::Streaming { next: 100, back: 999, pending: 0 });
    assert!(matches!(action, Action::Open { bytes: 899 }));
}

#[test]
fn blocks_move_the_connection() {
    let (mut p, mut b) = (process(), board());
    let stage = Stage::Streaming { next: 100, back: 999, pending: 0 };
    let (stage, action) = p.download(&mut b, 1, stage, Event::Block { len: 50 });
    assert_eq!(stage, Stage::Streaming { next: 150, back: 999, pending: 50 });
    assert!(matches!(action, Action::Read { length: None, shown: 0 }));
    assert_eq!(b.position(1), Some(150));
    assert_eq!(b.position(0), Some(0));
    let (stage, action) = p.download(&mut b, 1, stage, Event::Block { len: 850 });
    assert_eq!(stage, Stage::Closed);
    assert!(matches!(action, Action::Report { length: None, shown: 900 }));
    assert_eq!(b.position(1), Some(1000));
}

#[test]
fn connection_stores_the_byte_at_its_end() {
    let (mut p, mut b) = (process(), Board::new());
    b.put(0, 0, 9);
    let stage = Stage::Streaming { next: 0, back: 9, pending: 0 };
    let (stage, action) = p.download(&mut b, 0, stage, Event::Block { len: 9 });
    assert_eq!(stage, Stage::Streaming { next: 9, back: 9, pending: 9 });
    assert!(matches!(action, Action::Read { length: None, shown: 0 }));
    let (stage, action) = p.download(&mut b, 0, stage, Event::Block { len: 1 });
    assert_eq!(stage, Stage::Closed);
    assert!(matches!(action, Action::Report { length: None, shown: 10 }));
    assert_eq!(b.position(0), Some(10));
}

#[test]
fn connection_that_broke_before_its_last_byte_asks_for_it() {
    let (mut p, mut b) = (process(), Board::new());
    b.put(0, 9, 9);
    let stage = Stage::Streaming { next: 9, back: 9, pending: 0 };
    let (stage, action) = p.download(&mut b, 0, stage, Event::Broken);
    assert_eq!(stage, Stage::Asking { back: 9 });
    assert!(matches!(action, Action::Ask { range } if range == "bytes=9-9"));
    assert!(p.fits(&b, 0, stage, Event::Answered));
}

#[test]
fn many_bytes_are_shown_at_once() {
    let (mut p, mut b) = (process(), Board::new());
    b.put(0, 0, 10_000_000);
    let stage = Stage::Streaming { next: 0, back: 10_000_000, pending: 131_071 };
    let (stage, action) = p.download(&mut b, 0, stage, Event::Block { len: 1 });
    assert_eq!(stage, Stage::Streaming { next: 1, back: 10_000_000, pending: 0 });
    assert!(matches!(action, Action::Read { length: None, shown: 131_072 }));
}

#[test]
fn moved_end_changes_the_bar() {
    let (mut p, mut b) = (process(), board());
    let stage = Stage::Streaming { next: 100, back: 500, pending: 0 };
    let (stage, action) = p.download(&mut b, 1, stage, Event::Block { len: 10 });
    assert_eq!(stage, Stage::Streaming { next: 110, back: 999, pending: 10 });
    assert!(matches!(action, Action::Read { length: Some(899), shown: 0 }));
}

#[test]
fn halted_connection_leaves_off() {
    let (mut p, mut b) = (process(), board());
    b.halt();
    let stage = Stage::Streaming { next: 100, back: 999, pending: 0 };
    let (stage, action) = p.download(&mut b, 1, stage, Event::Block { len: 10 });
    assert_eq!(stage, Stage::Closed);
    assert!(matches!(action, Action::Leave));
    assert_eq!(b.position(1), Some(100));
}

#[test]
fn broken_answer_is_asked_for_again_from_where_it_broke() {
    let (mut p, mut b) = (process(), board());
    let stage = Stage::Streaming { next: 100, back: 999, pending: 0 };
    let (stage, _) = p.download(&mut b, 1, stage, Event::Block { len: 10 });
    let (stage, action) = p.download(&mut b, 1, stage, Event::Broken);
    assert_eq!(stage, Stage::Asking { back: 999 });
    assert!(matches!(action, Action::Ask { range } if range == "bytes=110-999"));
    assert_eq!(p.retry, 0);
}

#[test]
fn answer_that_is_over_reports() {
    let (mut p, mut b) = (process(), board());
    let stage = Stage::Streaming { next: 100, back: 999, pending: 7 };
    let (stage, action) = p.download(&mut b, 1, stage, Event::Ended);
    assert_eq!(stage, Stage::Closed);
    assert!(matches!(action, Action::Report { length: None, shown: 0 }));
}

#[test]
fn refused_connection_asks_until_it_gives_up() {
    let (mut p, mut b) = (process(), board());
    for round in 1..15 {
        let (stage, action) = p.download(&mut b, 0, Stage::Asking { back: 99 }, Event::Refused);
        assert_eq!(stage, Stage::Asking { back: 99 });
        assert!(matches!(action, Action::Ask { range } if range == "bytes=0-99"));
        assert_eq!(p.retry, round);
    }
    let (stage, action) = p.download(&mut b, 0, Stage::Asking { back: 99 }, Event::Refused);
    assert_eq!(stage, Stage::Closed);
    assert!(matches!(action, Action::GiveUp));
}

#[test]
fn events_fit_their_stages() {
    let (p, b) = (process(), board());
    let streaming = Stage::Streaming { next: 100, back: 999, pending: 0 };
    assert!(p.fits(&b, 1, Stage::Asking { back: 999 }, Event::Answered));
    assert!(!p.fits(&b, 1, Stage::Asking { back: 99 }, Event::Answered));
    assert!(!p.fits(&b, 7, Stage::Asking { back: 999 }, Event::Answered));
    assert!(!p.fits(&b, 1, streaming, Event::Answered));
    assert!(!p.fits(&b, 1, Stage::Closed, Event::Ended));
    assert!(p.fits(&b, 1, streaming, Event::Block { len: 5 }));
    assert!(!p.fits(&b, 1, streaming, Event::Block { len: u64::MAX }));
    assert!(!p.fits(&b, 1, Stage::Streaming { next: 1000, back: 5, pending: 0 }, Event::Block { len: 5 }));
    assert!(!Process { retry: 255, ..process() }.fits(&b, 1, Stage::Asking { back: 9 }, Event::Refused));
}

#[test]
fn file_is_complete_when_no_connection_is_left() {
    let size = 1000;
    let mut b = Board::new();
    b.assign(size, 3);
    let mut stored = vec![false; size as usize];
    let mut waiting = b.ids();
    let mut splits = 0;
    while let Some(id) = waiting.pop() {
        let mut p = process();
        let (mut stage, _) = p.start(&b, id).unwrap();
        stage = p.download(&mut b, id, stage, Event::Answered).0;
        let mut blocks = 0;
        while let Stage::Streaming { next, .. } = stage {
            blocks += 1;
            if blocks == 3 {
                stage = p.download(&mut b, id, stage, Event::Broken).0;
                stage = p.download(&mut b, id, stage, Event::Answered).0;
                continue;
            }
            let left = b.end(id).unwrap() + 1 - next;
            let len = if left > 41 {
                40
            } else if left > 1 {
                left - 1
            } else {
                1
            };
            for byte in next..next + len {
                stored[byte as usize] = true;
            }
            let before = b.position(id).unwrap();
            stage = p.download(&mut b, id, stage, Event::Block { len }).0;
            assert_eq!(b.position(id), Some(before + len));
            for byte in 0..size {
                let held = b.ids().into_iter().any(|i| b.position(i).unwrap() <= byte && byte <= b.end(i).unwrap());
                assert!(held || stored[byte as usize]);
            }
        }
        b.finish(id);
        if let Some(lag) = b.slowest() {
            if splits == 0 {
                splits += 1;
                waiting.push(b.split(4, lag));
            }
        }
    }
    assert_eq!(b.ids(), Vec::<u64>::new());
    assert!(stored.into_iter().all(|byte| byte));
}

#[test]
fn split_connection_stops_in_the_middle() {
    let (mut p, mut b) = (process(), board());
    let stage = Stage::Streaming { next: 100, back: 999, pending: 0 };
    let lag = b.slowest().unwrap();
    assert_eq!(b.split(9, lag), 10);
    let (stage, action) = p.download(&mut b, 1, stage, Event::Block { len: 449 });
    assert_eq!(stage, Stage::Streaming { next: 549, back: 549, pending: 449 });
    assert!(matches!(action, Action::Read { length: Some(449), shown: 0 }));
    let (stage, action) = p.download(&mut b, 1, stage, Event::Block { len: 1 });
    assert_eq!(stage, Stage::Closed);
    assert!(matches!(action, Action::Report { length: None, shown: 450 }));
    assert_eq!((b.position(10), b.end(10)), (Some(550), Some(999)));
}

fn task(thread_count: u32) -> Task {
    Task {
        url: "u".to_string(),
        output: None,
        thread_count,
        retry: 3,
        mode: HttpMode::GET,
        file_name: None,
        delete_stat: false,
        config_retry: true,
        extend: Extend::new(),
    }
}

struct Worker {
    id: u64,
    process: Process,
    stage: Stage,
    from: u64,
    sent: u64,
}

fn first_byte(range: &str) -> u64 {
    range["bytes=".len()..].split('-').next().unwrap().parse().unwrap()
}

fn worker(b: &Board, id: u64) -> Worker {
    let process = process();
    let (stage, range) = process.start(b, id).unwrap();
    Worker { id, process, stage, from: first_byte(&range), sent: 0 }
}

/// Runs all connections at once, each at its own speed, and returns what was stored, how often a
/// range was split and how often it was not, since the id was in use.
fn run(size: u64, count: u32, speed: fn(u64) -> u64) -> (Vec<Option<u64>>, u32, u32) {
    let t = task(count);
    let mut b = Board::new();
    b.assign(size, count);
    let mut stored = vec![None; size as usize];
    let mut workers: Vec<Worker> = b.ids().into_iter().map(|id| worker(&b, id)).collect();
    let (mut splits, mut held) = (0, 0);
    loop {
        for i in 0..workers.len() {
            let w = &mut workers[i];
            let event = match w.stage {
                Stage::Asking { .. } => Event::Answered,
                Stage::Streaming { next, .. } => {
                    let len = speed(w.id).min(size - next);
                    for k in 0..len {
                        stored[(next + k) as usize] = Some(w.from + w.sent + k);
                    }
                    w.sent += len;
                    Event::Block { len }
                }
                Stage::Closed => continue,
            };
            let (id, stage) = (w.id, w.stage);
            assert!(w.process.fits(&b, id, stage, event));
            let (stage, action) = w.process.download(&mut b, id, stage, event);
            w.stage = stage;
            if !matches!(action, Action::Report { .. }) {
                continue;
            }
            match t.resumd_thread(&mut b, id) {
                Reuse::Over => return (stored, splits, held),
                Reuse::Wait => {}
                Reuse::Held(_) => held += 1,
                Reuse::Slowest(lag) => {
                    let new_id = b.split(count as u64 + 1, lag);
                    workers.push(worker(&b, new_id));
                    splits += 1;
                }
            }
        }
    }
}

#[test]
fn slow_connection_is_split_again_and_again_without_loss() {
    let (stored, splits, held) = run(4000, 8, |id| if id == 5 { 1 } else { 7 });
    assert!(stored.into_iter().enumerate().all(|(at, byte)| byte == Some(at as u64)));
    assert!(splits >= 2 && held >= 1, "{} {}", splits, held);
}

#[test]
fn connections_of_all_speeds_store_the_file() {
    for count in 1..9 {
        let (stored, _, _) = run(997, count, |id| 1 + id % 5);
        assert!(stored.into_iter().enumerate().all(|(at, byte)| byte == Some(at as u64)));
    }
}
