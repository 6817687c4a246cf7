use dashmap::DashMap;
use xdown::board::{Board, Lag, ResumeError, Sjson};
use xdown::ranges::block;

fn table(entries: &[(u64, u64)]) -> DashMap<u64, u64> {
    let table = DashMap::new();
    for (id, position) in entries {
        table.insert(*id, *position);
    }
    table
}

fn board(entries: &[(u64, u64, u64)]) -> Board {
    let mut board = Board::new();
    for (id, next, end) in entries {
        board.put(*id, *next, *end);
    }
    board
}

#[test]
fn file_is_cut_into_ranges() {
    assert_eq!(block(100, 4, 0), (0, 25));
    assert_eq!(block(100, 4, 1), (26, 50));
    assert_eq!(block(100, 4, 2), (51, 75));
    assert_eq!(block(100, 4, 3), (76, 99));
    assert_eq!(block(10, 3, 0), (0, 3));
    assert_eq!(block(10, 3, 1), (4, 6));
    assert_eq!(block(10, 3, 2), (7, 9));
}

#[test]
fn one_connection_takes_the_whole_file() {
    assert_eq!(block(1, 1, 0), (0, 0));
    assert_eq!(block(77, 1, 0), (0, 76));
}

#[test]
fn small_file_leaves_connections_without_bytes() {
    assert_eq!(block(3, 8, 0), (0, 0));
    assert_eq!(block(3, 8, 1), (1, 0));
    assert_eq!(block(3, 8, 6), (1, 0));
    assert_eq!(block(3, 8, 7), (1, 2));
}

#[test]
fn every_byte_has_one_connection() {
    for size in 1..60u64 {
        for count in 1..12u32 {
            for byte in 0..size {
                let holders = (0..count)
                    .filter(|i| {
                        let (start, end) = block(size, count, *i);
                        start <= byte && byte <= end
                    })
                    .count();
                assert_eq!(holders, 1);
            }
        }
    }
}

#[test]
fn largest_file_is_cut_without_overflow() {
    assert_eq!(block(u64::MAX, u32::MAX, 0), (0, u64::MAX / u32::MAX as u64));
    assert_eq!(block(u64::MAX, u32::MAX, u32::MAX - 1).1, u64::MAX - 1);
}

#[test]
fn assigned_board_holds_the_ranges() {
    let mut b = Board::new();
    b.assign(100, 4);
    assert_eq!(b.position(0), Some(0));
    assert_eq!(b.end(0), Some(25));
    assert_eq!(b.position(3), Some(76));
    assert_eq!(b.end(3), Some(99));
    assert_eq!(b.position(4), None);
    assert_eq!(b.end(4), None);
}

#[test]
fn assigning_keeps_other_connections() {
    let mut b = board(&[(1, 900, 901), (9, 5, 6)]);
    b.assign(10, 2);
    assert_eq!(b.position(1), Some(6));
    assert_eq!(b.end(1), Some(9));
    assert_eq!(b.position(9), Some(5));
    assert_eq!(b.end(9), Some(6));
}

#[test]
fn finished_connection_leaves_the_board() {
    let mut b = board(&[(0, 1, 2), (1, 3, 4)]);
    assert!(!b.finish(0));
    assert_eq!(b.position(0), None);
    assert_eq!(b.end(0), None);
    assert!(!b.finish(7));
    assert!(b.finish(1));
}

#[test]
fn connection_advances() {
    let mut b = board(&[(0, 1, 20)]);
    b.advance(0, 11);
    assert_eq!(b.position(0), Some(11));
    assert_eq!(b.end(0), Some(20));
}

#[test]
fn slowest_has_the_most_bytes_left() {
    let b = board(&[(0, 10, 20), (1, 30, 90), (2, 95, 99)]);
    assert_eq!(b.slowest(), Some(Lag { id: 1, next: 30, end: 90 }));
}

#[test]
fn nobody_is_slowest_where_all_are_done() {
    assert_eq!(board(&[]).slowest(), None);
    assert_eq!(board(&[(0, 20, 20), (1, 91, 90)]).slowest(), None);
}

#[test]
fn first_listed_wins_among_the_slowest() {
    let b = board(&[(0, 0, 10), (1, 20, 30), (2, 40, 45)]);
    assert_eq!(b.slowest_in(&vec![(1, 20), (0, 0), (2, 40)]), Some(Lag { id: 1, next: 20, end: 30 }));
    assert_eq!(b.slowest_in(&vec![(2, 40), (0, 0), (1, 20)]), Some(Lag { id: 0, next: 0, end: 10 }));
    assert_eq!(b.slowest_in(&vec![(2, 45), (0, 11)]), None);
}

#[test]
fn split_hands_over_the_second_half() {
    let mut b = board(&[(3, 100, 200)]);
    let id = b.split(9, Lag { id: 3, next: 100, end: 200 });
    assert_eq!(id, 12);
    assert_eq!(b.position(12), Some(151));
    assert_eq!(b.end(12), Some(200));
    assert_eq!(b.position(3), Some(100));
    assert_eq!(b.end(3), Some(150));
}

#[test]
fn split_of_two_bytes_hands_over_the_last() {
    let mut b = board(&[(0, 7, 8)]);
    assert_eq!(b.split(1, Lag { id: 0, next: 7, end: 8 }), 1);
    assert_eq!(b.position(1), Some(8));
    assert_eq!(b.end(1), Some(8));
    assert_eq!((b.position(0), b.end(0)), (Some(7), Some(7)));
}

#[test]
fn halted_board_has_no_ends() {
    let mut b = board(&[(0, 1, 20), (1, 3, 40)]);
    b.halt();
    assert_eq!(b.end(0), Some(0));
    assert_eq!(b.end(1), Some(0));
    assert_eq!(b.position(0), Some(1));
    assert_eq!(b.position(1), Some(3));
}

#[test]
fn way_of_the_slowest_is_the_longest() {
    assert_eq!(Board::new().longest(), 0);
    assert_eq!(board(&[(4, 10, 30)]).longest(), 20);
    assert_eq!(board(&[(0, 1, 20), (1, 3, 40), (2, 9, 8)]).longest(), 37);
    assert_eq!(board(&[(0, 20, 20), (1, 41, 40)]).longest(), 0);
}

#[test]
fn farthest_end_is_found() {
    assert_eq!(Board::new().farthest(), None);
    assert_eq!(board(&[(0, 1, 20), (1, 3, 40), (2, 9, 8)]).farthest(), Some(40));
    assert!(Board::new().holds_none());
    assert!(!board(&[(0, 0, 0)]).holds_none());
}

#[test]
fn saved_board_is_read_back() {
    let b = board(&[(0, 12, 25), (1, 30, 50), (9, 80, 99)]);
    let saved = b.snapshot();
    let mut again = Board::new();
    assert_eq!(again.resume(&saved), Ok(()));
    for id in [0, 1, 9, 5] {
        assert_eq!(again.position(id), b.position(id));
        assert_eq!(again.end(id), b.end(id));
    }
}

#[test]
fn snapshot_is_json() {
    let saved = board(&[(7, 12, 25)]).snapshot();
    assert_eq!(saved.ato, "{\"7\":12}");
    assert_eq!(saved.eto, "{\"7\":25}");
}

#[test]
fn empty_board_is_not_taken_up() {
    let mut b = Board::new();
    let saved = Board::new().snapshot();
    assert_eq!(b.resume(&saved), Err(ResumeError::Mismatch));
}

#[test]
fn flawed_records_are_refused() {
    let good = "{\"1\":2}".to_string();
    let bad = "{\"1\":-2}".to_string();
    let mut b = board(&[(5, 6, 7)]);
    assert_eq!(
        b.resume(&Sjson { ato: bad.clone(), eto: good.clone() }),
        Err(ResumeError::Positions)
    );
    assert_eq!(b.resume(&Sjson { ato: good.clone(), eto: "".to_string() }), Err(ResumeError::Ends));
    assert_eq!(b.resume(&Sjson { ato: bad.clone(), eto: bad }), Err(ResumeError::Positions));
    assert_eq!(
        b.resume(&Sjson { ato: good, eto: "{\"1\":2,\"3\":4}".to_string() }),
        Err(ResumeError::Mismatch)
    );
    assert_eq!(b.position(5), Some(6));
    assert_eq!(b.position(1), None);
}

#[test]
fn adopted_connections_replace_their_namesakes() {
    let mut b = board(&[(1, 1, 1), (2, 2, 2)]);
    assert_eq!(b.adopt(table(&[(2, 20), (3, 30)]), table(&[(2, 25), (3, 35)])), Ok(()));
    assert_eq!(b.position(1), Some(1));
    assert_eq!(b.position(2), Some(20));
    assert_eq!(b.end(2), Some(25));
    assert_eq!(b.position(3), Some(30));
    assert_eq!(b.adopt(table(&[]), table(&[])), Err(ResumeError::Mismatch));
    assert_eq!(b.adopt(table(&[(1, 1)]), table(&[])), Err(ResumeError::Mismatch));
}

#[test]
fn tables_of_other_ids_are_taken_up_unbounded() {
    let mut b = Board::new();
    assert!(b.is_bounded());
    assert_eq!(b.adopt(table(&[(1, 10)]), table(&[(2, 20)])), Ok(()));
    assert!(!b.is_bounded());
    assert!(b.is_bounded_but(1));
    assert!(!b.is_bounded_but(2));
}

fn wanted(b: &Board, byte: u64) -> bool {
    b.ids().into_iter().any(|id| b.position(id).unwrap() <= byte && byte <= b.end(id).unwrap())
}

#[test]
fn split_loses_and_adds_no_byte() {
    let mut b = board(&[(0, 10, 90), (1, 95, 99)]);
    let before: Vec<bool> = (0..120).map(|byte| wanted(&b, byte)).collect();
    let lag = b.slowest().unwrap();
    b.split(5, lag);
    let after: Vec<bool> = (0..120).map(|byte| wanted(&b, byte)).collect();
    assert_eq!(before, after);
    for byte in 0..120 {
        let holders = b.ids().into_iter().filter(|id| b.position(*id).unwrap() <= byte && byte <= b.end(*id).unwrap());
        assert!(holders.count() <= 1);
    }
}

#[test]
fn half_of_what_is_left_is_handed_over() {
    assert_eq!(Lag { id: 0, next: 10, end: 21 }.space_over(), 5);
    assert_eq!(Lag { id: 0, next: 10, end: 10 }.space_over(), 0);
}

#[test]
fn ids_are_those_with_a_position() {
    let mut ids = board(&[(4, 0, 1), (2, 0, 1), (9, 0, 1)]).ids();
    ids.sort();
    assert_eq!(ids, vec![2, 4, 9]);
    assert_eq!(Board::new().ids(), Vec::<u64>::new());
}

#[test]
fn board_taken_up_from_tables_of_the_same_ids_is_bounded() {
    let mut b = board(&[(1, 1, 1)]);
    assert_eq!(b.adopt(table(&[(5, 50), (6, 60)]), table(&[(6, 65), (5, 55)])), Ok(()));
    assert!(b.is_bounded());
    let mut ids = b.ids();
    ids.sort();
    assert_eq!(ids, vec![1, 5, 6]);
}

#[test]
fn stopped_board_is_halted_where_its_record_is_not_written() {
    let mut b = board(&[(0, 1, 20)]);
    assert_eq!(b.stop(true), 0);
    assert_eq!(b.end(0), Some(20));
    assert_eq!(b.stop(false), 1);
    assert_eq!((b.position(0), b.end(0)), (Some(1), Some(0)));
}

#[test]
fn split_needs_the_board_as_it_is() {
    let b = board(&[(3, 100, 200), (20, 5, 9)]);
    assert!(b.may_split(9, Lag { id: 3, next: 100, end: 200 }));
    assert!(!b.may_split(9, Lag { id: 3, next: 99, end: 200 }));
    assert!(!b.may_split(9, Lag { id: 3, next: 100, end: 201 }));
    assert!(!b.may_split(9, Lag { id: 4, next: 100, end: 200 }));
    assert!(!b.may_split(17, Lag { id: 3, next: 100, end: 200 }));
    assert!(!b.may_split(0, Lag { id: 3, next: 100, end: 200 }));
    assert!(!b.may_split(u64::MAX, Lag { id: 3, next: 100, end: 200 }));
    assert!(!board(&[(3, 200, 200)]).may_split(9, Lag { id: 3, next: 200, end: 200 }));
}
