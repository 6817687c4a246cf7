//! Why a download over several connections is complete: from the moment when a file is cut into
//! ranges, each of its bytes is stored or stands in the range of a connection on the board. That
//! holds on as blocks are stored, as ranges are split, and as a connection that has reported on a
//! block is taken off. When no connection is left, all bytes are stored. One thing does not keep
//! it: to take off a connection whose answer was over before its range was.
use crate::board::{
    assigned, assigned_board_wants_file, can_split, middle, split_keeps_wanted, wanted, wants, Board, Lag,
};
use crate::process::{
    block_loses_nothing, can_happen, finish_loses_nothing, in_step, is_step, moved, reporting_connection_reached_end,
    Action, Event, Process, Stage,
};
use crate::ranges::{block_end, block_start};
use vstd::prelude::*;

verus! {

/// Each byte of a file of `size` bytes is stored, or in the range of a connection.
pub open spec fn accounted(size: int, stored: Set<int>, positions: Map<u64, u64>, ends: Map<u64, u64>) -> bool {
    forall|byte: int| 0 <= byte < size ==> stored.contains(byte) || #[trigger] wanted(positions, ends, byte)
}

/// The bytes from `from` up to `to`, which is not one of them.
pub open spec fn stretch(from: int, to: int) -> Set<int> {
    Set::new(|byte: int| from <= byte < to)
}

/// It holds once a file is cut on an empty board, with nothing stored.
pub proof fn accounted_at_start(size: u64, count: u32)
    requires
        0 < size,
        0 < count,
    ensures
        accounted(
            size as int,
            Set::empty(),
            assigned(Map::empty(), count as nat, |i: int| block_start(size as int, count as int, i)),
            assigned(Map::empty(), count as nat, |i: int| block_end(size as int, count as int, i)),
        ),
{
    let positions = assigned(Map::empty(), count as nat, |i: int| block_start(size as int, count as int, i));
    let ends = assigned(Map::empty(), count as nat, |i: int| block_end(size as int, count as int, i));
    assert forall|byte: int| 0 <= byte < size implies #[trigger] wanted(positions, ends, byte) by {
        assigned_board_wants_file(size, count, byte);
    }
}

/// A block that is stored where its connection is keeps it.
pub proof fn accounted_after_block(
    size: int,
    stored: Set<int>,
    process: Process,
    board: Board,
    id: u64,
    next: u64,
    back: u64,
    pending: u64,
    len: u64,
)
    requires
        accounted(size, stored, board.positions(), board.ends()),
        can_happen(process, board, id, Stage::Streaming { next, back, pending }, Event::Block { len }),
        in_step(board, id, Stage::Streaming { next, back, pending }),
    ensures
        accounted(
            size,
            stored.union(stretch(next as int, next + len)),
            moved(board, id, Stage::Streaming { next, back, pending }, Event::Block { len }),
            board.ends(),
        ),
{
    let positions = moved(board, id, Stage::Streaming { next, back, pending }, Event::Block { len });
    let more = stored.union(stretch(next as int, next + len));
    assert forall|byte: int| 0 <= byte < size implies more.contains(byte) || #[trigger] wanted(
        positions,
        board.ends(),
        byte,
    ) by {
        if !stored.contains(byte) {
            assert(wanted(board.positions(), board.ends(), byte));
            block_loses_nothing(process, board, id, next, back, pending, len, byte);
        }
    }
}

/// A split keeps it.
pub proof fn accounted_after_split(
    size: int,
    stored: Set<int>,
    positions: Map<u64, u64>,
    ends: Map<u64, u64>,
    basic_id: u64,
    lag: Lag,
)
    requires
        accounted(size, stored, positions, ends),
        can_split(positions, ends, basic_id, lag),
    ensures
        ({
            let new_id = (basic_id + lag.id) as u64;
            accounted(
                size,
                stored,
                positions.insert(new_id, (middle(lag) + 1) as u64),
                ends.insert(new_id, lag.end).insert(lag.id, middle(lag) as u64),
            )
        }),
{
    let new_id = (basic_id + lag.id) as u64;
    let positions2 = positions.insert(new_id, (middle(lag) + 1) as u64);
    let ends2 = ends.insert(new_id, lag.end).insert(lag.id, middle(lag) as u64);
    assert forall|byte: int| 0 <= byte < size implies stored.contains(byte) || #[trigger] wanted(
        positions2,
        ends2,
        byte,
    ) by {
        if !stored.contains(byte) {
            assert(wanted(positions, ends, byte));
            split_keeps_wanted(positions, ends, lag, new_id, byte);
        }
    }
}

/// To take a connection off the board keeps it, once the connection has gone past its end.
pub proof fn accounted_after_finish(
    size: int,
    stored: Set<int>,
    positions: Map<u64, u64>,
    ends: Map<u64, u64>,
    id: u64,
)
    requires
        accounted(size, stored, positions, ends),
        positions.dom().contains(id),
        positions[id] > ends[id],
    ensures
        accounted(size, stored, positions.remove(id), ends.remove(id)),
{
    assert forall|byte: int| 0 <= byte < size implies stored.contains(byte) || #[trigger] wanted(
        positions.remove(id),
        ends.remove(id),
        byte,
    ) by {
        if !stored.contains(byte) {
            assert(wanted(positions, ends, byte));
            finish_loses_nothing(positions, ends, id, byte);
        }
    }
}

/// A connection that reports on a block can be taken off the board at once: with that block
/// stored, it keeps it.
pub proof fn accounted_after_report(
    size: int,
    stored: Set<int>,
    process: Process,
    board: Board,
    id: u64,
    next: u64,
    back: u64,
    pending: u64,
    len: u64,
    after: Stage,
    action: Action,
)
    requires
        accounted(size, stored, board.positions(), board.ends()),
        can_happen(process, board, id, Stage::Streaming { next, back, pending }, Event::Block { len }),
        in_step(board, id, Stage::Streaming { next, back, pending }),
        is_step(
            process,
            board,
            id,
            Stage::Streaming { next, back, pending },
            Event::Block { len },
            after,
            action,
        ),
        action is Report,
    ensures
        accounted(
            size,
            stored.union(stretch(next as int, next + len)),
            moved(board, id, Stage::Streaming { next, back, pending }, Event::Block { len }).remove(id),
            board.ends().remove(id),
        ),
{
    let stage = Stage::Streaming { next, back, pending };
    accounted_after_block(size, stored, process, board, id, next, back, pending, len);
    reporting_connection_reached_end(process, board, id, stage, len, after, action);
    accounted_after_finish(
        size,
        stored.union(stretch(next as int, next + len)),
        moved(board, id, stage, Event::Block { len }),
        board.ends(),
        id,
    );
}

/// When no connection is left, every byte of the file is stored.
pub proof fn accounted_at_end(size: int, stored: Set<int>, ends: Map<u64, u64>, byte: int)
    requires
        accounted(size, stored, Map::empty(), ends),
        0 <= byte < size,
    ensures
        stored.contains(byte),
{
    let none = Map::<u64, u64>::empty();
    assert(stored.contains(byte) || wanted(none, ends, byte));
    if wanted(none, ends, byte) {
        let holder = choose|holder: u64| #[trigger] wants(none, ends, holder, byte);
        assert(none.dom().contains(holder));
    }
}

/// How far a download is: the bytes that are stored, and where each connection is and stops.
pub struct Progress {
    pub stored: Set<int>,
    pub positions: Map<u64, u64>,
    pub ends: Map<u64, u64>,
}

/// A file of `size` bytes, cut for `count` connections, of which nothing is stored.
pub open spec fn at_start(size: u64, count: u32) -> Progress {
    Progress {
        stored: Set::empty(),
        positions: assigned(Map::empty(), count as nat, |i: int| block_start(size as int, count as int, i)),
        ends: assigned(Map::empty(), count as nat, |i: int| block_end(size as int, count as int, i)),
    }
}

/// From `before` to `after`, connection `id` of `board` stores a block.
pub open spec fn stores(
    before: Progress,
    after: Progress,
    process: Process,
    board: Board,
    id: u64,
    next: u64,
    back: u64,
    pending: u64,
    len: u64,
) -> bool {
    let stage = Stage::Streaming { next, back, pending };
    &&& before.positions == board.positions()
    &&& before.ends == board.ends()
    &&& can_happen(process, board, id, stage, Event::Block { len })
    &&& in_step(board, id, stage)
    &&& after.stored == before.stored.union(stretch(next as int, next + len))
    &&& after.positions == moved(board, id, stage, Event::Block { len })
    &&& after.ends == before.ends
}

/// From `before` to `after`, the range of a connection is split.
pub open spec fn splits(before: Progress, after: Progress, basic_id: u64, lag: Lag) -> bool {
    let new_id = (basic_id + lag.id) as u64;
    &&& can_split(before.positions, before.ends, basic_id, lag)
    &&& after.stored == before.stored
    &&& after.positions == before.positions.insert(new_id, (middle(lag) + 1) as u64)
    &&& after.ends == before.ends.insert(new_id, lag.end).insert(lag.id, middle(lag) as u64)
}

/// From `before` to `after`, connection `id`, which has gone past its end, is taken off the board.
pub open spec fn finishes(before: Progress, after: Progress, id: u64) -> bool {
    &&& before.positions.dom().contains(id)
    &&& before.positions[id] > before.ends[id]
    &&& after.stored == before.stored
    &&& after.positions == before.positions.remove(id)
    &&& after.ends == before.ends.remove(id)
}

/// A block is stored, a range is split, or a connection is taken off.
pub open spec fn proceeds(before: Progress, after: Progress) -> bool {
    ||| exists|process: Process, board: Board, id: u64, next: u64, back: u64, pending: u64, len: u64| #[trigger]
        stores(before, after, process, board, id, next, back, pending, len)
    ||| exists|basic_id: u64, lag: Lag| #[trigger] splits(before, after, basic_id, lag)
    ||| exists|id: u64| #[trigger] finishes(before, after, id)
}

/// `run[i]` proceeds to the next.
pub open spec fn proceeds_at(run: Seq<Progress>, i: int) -> bool {
    proceeds(run[i], run[i + 1])
}

/// To proceed keeps it.
pub proof fn accounted_after_proceeding(size: int, before: Progress, after: Progress)
    requires
        accounted(size, before.stored, before.positions, before.ends),
        proceeds(before, after),
    ensures
        accounted(size, after.stored, after.positions, after.ends),
{
    if exists|process: Process, board: Board, id: u64, next: u64, back: u64, pending: u64, len: u64| #[trigger]
        stores(before, after, process, board, id, next, back, pending, len) {
        let (process, board, id, next, back, pending, len): (Process, Board, u64, u64, u64, u64, u64) = choose|
            process: Process,
            board: Board,
            id: u64,
            next: u64,
            back: u64,
            pending: u64,
            len: u64,
        | #[trigger]
            stores(before, after, process, board, id, next, back, pending, len);
        accounted_after_block(size, before.stored, process, board, id, next, back, pending, len);
    } else if exists|basic_id: u64, lag: Lag| #[trigger] splits(before, after, basic_id, lag) {
        let (basic_id, lag): (u64, Lag) = choose|basic_id: u64, lag: Lag| #[trigger]
            splits(before, after, basic_id, lag);
        accounted_after_split(size, before.stored, before.positions, before.ends, basic_id, lag);
    } else {
        let id: u64 = choose|id: u64| #[trigger] finishes(before, after, id);
        accounted_after_finish(size, before.stored, before.positions, before.ends, id);
    }
}

/// However the connections proceed, in whatever order and however often ranges are split: when
/// none is left, every byte of the file is stored.
pub proof fn run_stores_file(size: u64, count: u32, run: Seq<Progress>, byte: int)
    requires
        0 < size,
        0 < count,
        run.len() > 0,
        run[0] == at_start(size, count),
        forall|i: int| 0 <= i < run.len() - 1 ==> #[trigger] proceeds_at(run, i),
        run.last().positions == Map::<u64, u64>::empty(),
        0 <= byte < size,
    ensures
        run.last().stored.contains(byte),
{
    run_stays_accounted(size, count, run, run.len() - 1);
    accounted_at_end(size as int, run.last().stored, run.last().ends, byte);
}

/// At every point of a run each byte is stored, or in the range of a connection.
pub proof fn run_stays_accounted(size: u64, count: u32, run: Seq<Progress>, k: int)
    requires
        0 < size,
        0 < count,
        0 <= k < run.len(),
        run[0] == at_start(size, count),
        forall|i: int| 0 <= i < run.len() - 1 ==> #[trigger] proceeds_at(run, i),
    ensures
        accounted(size as int, run[k].stored, run[k].positions, run[k].ends),
    decreases k,
{
    if k == 0 {
        accounted_at_start(size, count);
    } else {
        run_stays_accounted(size, count, run, k - 1);
        assert(proceeds_at(run, k - 1));
        accounted_after_proceeding(size as int, run[k - 1], run[k]);
    }
}

} // verus!
