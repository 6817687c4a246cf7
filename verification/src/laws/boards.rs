//! The board: what is put on it is read from it, and what is saved comes back.
use crate::board::{lags, left, saved_board_resumes, Board, Lag, ResumeError, Sjson};
use crate::table::entries;
use dashmap::DashMap;
use vstd::prelude::*;

verus! {

/// A connection that is put on the board is where it was put; the others stay.
pub proof fn connection_is_where_it_was_put(id: u64, next: u64, end: u64, other: u64)
    ensures
        forall|b: &mut Board, r: (), p: Option<u64>, e: Option<u64>|
            #[trigger] call_ensures(Board::put, (b, id, next, end), r) && #[trigger] call_ensures(
                Board::position,
                (&*final(b), id),
                p,
            ) && #[trigger] call_ensures(Board::end, (&*final(b), id), e) ==> p == Some(next) && e == Some(end),
        forall|b: &mut Board, r: (), p: Option<u64>, q: Option<u64>|
            #[trigger] call_ensures(Board::put, (b, id, next, end), r) && #[trigger] call_ensures(
                Board::position,
                (&*final(b), other),
                p,
            ) && #[trigger] call_ensures(Board::position, (&*b, other), q) && other != id ==> p == q,
        forall|b: &mut Board, r: (), p: Option<u64>, q: Option<u64>|
            #[trigger] call_ensures(Board::put, (b, id, next, end), r) && #[trigger] call_ensures(
                Board::end,
                (&*final(b), other),
                p,
            ) && #[trigger] call_ensures(Board::end, (&*b, other), q) && other != id ==> p == q,
{
}

/// A connection that advances is where it advanced to; its end and the others stay.
pub proof fn connection_is_where_it_advanced_to(id: u64, next: u64, other: u64)
    ensures
        forall|b: &mut Board, r: (), p: Option<u64>|
            #[trigger] call_ensures(Board::advance, (b, id, next), r) && #[trigger] call_ensures(
                Board::position,
                (&*final(b), id),
                p,
            ) ==> p == Some(next),
        forall|b: &mut Board, r: ()| #[trigger]
            call_ensures(Board::advance, (b, id, next), r) ==> {
                &&& final(b).ends() == b.ends()
                &&& other != id ==> final(b).positions()[other] == b.positions()[other]
                &&& other != id ==> final(b).positions().dom().contains(other) == b.positions().dom().contains(other)
            },
{
}

/// A connection that is taken off the board has no position and no end there; the others stay, and
/// whether any is left is told.
pub proof fn connection_that_is_taken_off_is_gone(id: u64, other: u64)
    ensures
        forall|b: &mut Board, r: bool| #[trigger]
            call_ensures(Board::finish, (b, id), r) ==> {
                &&& !final(b).positions().dom().contains(id)
                &&& !final(b).ends().dom().contains(id)
                &&& other != id ==> final(b).positions().dom().contains(other) == b.positions().dom().contains(other)
                &&& other != id ==> final(b).ends().dom().contains(other) == b.ends().dom().contains(other)
                &&& other != id ==> final(b).positions()[other] == b.positions()[other]
                &&& other != id ==> final(b).ends()[other] == b.ends()[other]
                &&& r ==> !final(b).positions().dom().contains(other)
                &&& !r ==> exists|left: u64| #[trigger] final(b).positions().dom().contains(left)
            },
{
    assert forall|b: &mut Board, r: bool| #[trigger] call_ensures(Board::finish, (b, id), r) && !r implies exists|
        left: u64,
    | #[trigger] final(b).positions().dom().contains(left) by {
        if forall|left: u64| !#[trigger] final(b).positions().dom().contains(left) {
            assert(final(b).positions() =~= Map::<u64, u64>::empty());
        }
    }
}

/// The ids of the board are those of the connections that have a position, each once.
pub proof fn ids_have_positions(board: Board, ids: Vec<u64>, id: u64, p: Option<u64>)
    requires
        call_ensures(Board::ids, (&board,), ids),
        call_ensures(Board::position, (&board, id), p),
    ensures
        ids@.contains(id) <==> p is Some,
        forall|i: int, j: int| 0 <= i < j < ids@.len() ==> ids@[i] != ids@[j],
{
}

/// No connection has a longer way to its last byte than the slowest one, and there is a slowest one
/// exactly where some connection has not come to it.
pub proof fn none_is_slower_than_the_slowest(board: Board, r: Option<Lag>, id: u64)
    requires
        call_ensures(Board::slowest, (&board,), r),
        board.positions().dom().contains(id),
    ensures
        r matches Some(lag) ==> {
            &&& board.positions().dom().contains(lag.id)
            &&& lag.next == board.positions()[lag.id]
            &&& lag.end == board.ends()[lag.id]
            &&& lag.next < lag.end
            &&& board.ends()[id] - board.positions()[id] <= lag.end - lag.next
        },
        r is None ==> board.positions()[id] >= board.ends()[id],
{
    if board.positions()[id] < board.ends()[id] {
        assert(lags(board.positions(), board.ends(), id));
    }
    if r is None {
        assert(!lags(board.positions(), board.ends(), id));
    }
}

/// Of the connections of a list, the first with the longest way is the slowest.
pub proof fn first_of_the_slowest_comes_first(board: Board, list: Vec<(u64, u64)>, r: Option<Lag>, k: int)
    requires
        call_ensures(Board::slowest_in, (&board, &list), r),
        0 <= k < list@.len(),
    ensures
        r matches Some(lag) ==> {
            &&& board.ends()[list@[k].0] - list@[k].1 <= lag.end - lag.next
            &&& lag.next < lag.end
            &&& exists|i: int|
                0 <= i < list@.len() && (#[trigger] list@[i]).0 == lag.id && list@[i].1 == lag.next
                    && board.ends()[list@[i].0] == lag.end && (k < i ==> board.ends()[list@[k].0] - list@[k].1
                    < lag.end - lag.next)
        },
        r is None ==> list@[k].1 >= board.ends()[list@[k].0],
{
    assert(left(list@, board.ends(), k) == board.ends()[list@[k].0] - list@[k].1);
    if let Some(lag) = r {
        let i = choose|i: int| #[trigger] crate::board::is_first_slowest(list@, board.ends(), i, lag);
        assert(list@[i].0 == lag.id);
    }
}

/// A board that is stopped stays as it is where its record was written, and the program then
/// succeeds. Else every end is 0, positions stay, no connection goes, and the program fails.
pub proof fn stopped_board(written: bool, id: u64)
    ensures
        forall|b: &mut Board, r: i32| #[trigger]
            call_ensures(Board::stop, (b, written), r) ==> {
                &&& r == 0 <==> written
                &&& r == 0 || r == 1
                &&& final(b).positions() == b.positions()
                &&& final(b).ends().dom().contains(id) == b.ends().dom().contains(id)
                &&& written && b.ends().dom().contains(id) ==> final(b).ends()[id] == b.ends()[id]
                &&& !written && b.ends().dom().contains(id) ==> final(b).ends()[id] == 0
            },
        forall|b: &mut Board, r: ()| #[trigger]
            call_ensures(Board::halt, (b,), r) ==> {
                &&& final(b).positions() == b.positions()
                &&& final(b).ends().dom().contains(id) == b.ends().dom().contains(id)
                &&& b.ends().dom().contains(id) ==> final(b).ends()[id] == 0
            },
{
}

/// What is saved of a board comes back on an empty one.
pub proof fn saved_board_comes_back(board: Board, saved: Sjson)
    requires
        board.paired(),
        board.positions().dom().finite(),
        board.positions() != Map::<u64, u64>::empty(),
        call_ensures(Board::snapshot, (&board,), saved),
    ensures
        forall|b: &mut Board, r: Result<(), ResumeError>|
            b.positions() == Map::<u64, u64>::empty() && b.ends() == Map::<u64, u64>::empty() && #[trigger] call_ensures(
                Board::resume,
                (b, &saved),
                r,
            ) ==> r is Ok && final(b).positions() == board.positions() && final(b).ends() == board.ends(),
{
    saved_board_resumes(board, saved);
}

/// Tables are adopted exactly where there are as many positions as ends, at least one. Then each
/// connection is where its table says, and the others stay.
pub proof fn tables_are_adopted_whole(ato: DashMap<u64, u64>, eto: DashMap<u64, u64>, id: u64)
    ensures
        forall|b: &mut Board, r: Result<(), ResumeError>| #[trigger]
            call_ensures(Board::adopt, (b, ato, eto), r) ==> {
                &&& r is Ok <==> entries(ato).dom().len() > 0 && entries(ato).dom().len() == entries(eto).dom().len()
                &&& r matches Err(error) ==> error == ResumeError::Mismatch && final(b).positions() == b.positions()
                    && final(b).ends() == b.ends()
                &&& r is Ok ==> {
                    &&& entries(ato).dom().contains(id) ==> final(b).positions()[id] == entries(ato)[id]
                    &&& entries(eto).dom().contains(id) ==> final(b).ends()[id] == entries(eto)[id]
                    &&& final(b).positions().dom().contains(id) <==> entries(ato).dom().contains(id)
                        || b.positions().dom().contains(id)
                    &&& final(b).ends().dom().contains(id) <==> entries(eto).dom().contains(id)
                        || b.ends().dom().contains(id)
                    &&& !entries(ato).dom().contains(id) && b.positions().dom().contains(id) ==> final(b).positions()[id]
                        == b.positions()[id]
                    &&& !entries(eto).dom().contains(id) && b.ends().dom().contains(id) ==> final(b).ends()[id]
                        == b.ends()[id]
                }
            },
{
}

/// The way of the longest is no shorter than any, and the farthest end no nearer than any.
pub proof fn longest_and_farthest(board: Board, n: u64, end: Option<u64>, id: u64)
    requires
        call_ensures(Board::longest, (&board,), n),
        call_ensures(Board::farthest, (&board,), end),
        board.positions().dom().contains(id),
        board.ends().dom().contains(id),
    ensures
        board.ends()[id] - board.positions()[id] <= n,
        end matches Some(far) && board.ends()[id] <= far,
        end matches Some(far) && exists|other: u64| #[trigger]
            board.ends().dom().contains(other) && board.ends()[other] == far,
{
    if board.positions()[id] < board.ends()[id] {
        assert(lags(board.positions(), board.ends(), id));
    }
}

/// Whether each connection has an end, and each but one, is told rightly.
pub proof fn ends_are_looked_for(board: Board, id: u64, all: bool, others: bool, none: bool)
    requires
        call_ensures(Board::is_bounded, (&board,), all),
        call_ensures(Board::is_bounded_but, (&board, id), others),
        call_ensures(Board::holds_none, (&board,), none),
    ensures
        all <==> forall|other: u64| #[trigger]
            board.positions().dom().contains(other) ==> board.ends().dom().contains(other),
        others <==> forall|other: u64| #[trigger]
            board.positions().dom().contains(other) && other != id ==> board.ends().dom().contains(other),
        none ==> !board.positions().dom().contains(id),
        all ==> others,
{
    if others {
        assert forall|other: u64| #[trigger]
            board.positions().dom().contains(other) && other != id implies board.ends().dom().contains(other) by {
            assert(board.positions().dom().remove(id).contains(other));
        }
    }
}

/// A range can be split exactly where the board says of the connection what is said of it, the
/// connection has not come to its last byte, its new end would not be 0, and the new id fits and is
/// free.
pub proof fn split_is_allowed_exactly(board: Board, basic_id: u64, lag: Lag, r: bool)
    requires
        call_ensures(Board::may_split, (&board, basic_id, lag), r),
    ensures
        r <==> {
            &&& board.positions().dom().contains(lag.id)
            &&& board.ends().dom().contains(lag.id)
            &&& board.positions()[lag.id] == lag.next
            &&& board.ends()[lag.id] == lag.end
            &&& lag.next < lag.end
            &&& lag.next > 0 || lag.end > 1
            &&& basic_id + lag.id <= u64::MAX
            &&& !board.positions().dom().contains((basic_id + lag.id) as u64)
        },
{
}

/// Half of a way, twice, is the way or one byte less.
pub proof fn half_of_the_way(lag: Lag, r: u64)
    requires
        lag.next <= lag.end,
        call_ensures(Lag::space_over, (&lag,), r),
    ensures
        2 * r <= lag.end - lag.next <= 2 * r + 1,
{
}

} // verus!
