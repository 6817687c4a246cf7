//! The board on which every connection keeps where it is and where it has to stop.
use crate::ranges::{block, block_end, block_start, blocks_cover_file, blocks_disjoint, blocks_inside_file};
use crate::table::{
    entries, lists, parsed_table, table_entries, table_from_json, table_get, table_insert, table_is_empty, table_len,
    table_new, table_remove, table_to_json,
};
use dashmap::DashMap;
use vstd::prelude::*;

verus! {

/// For each connection, by its id: the next byte it will store, and the last byte of its range.
pub struct Board {
    ato: DashMap<u64, u64>,
    eto: DashMap<u64, u64>,
}

/// A connection that has not come to its last byte: it will store `next` next, and its range ends
/// at `end`.
#[derive(Clone, Copy, Debug, PartialEq, Eq, Structural)]
pub struct Lag {
    pub id: u64,
    pub next: u64,
    pub end: u64,
}

impl Lag {
    /// Half of the way to its end.
    pub fn space_over(&self) -> (r: u64)
        requires
            self.next <= self.end,
        ensures
            r == (self.end - self.next) / 2,
    {
        (self.end - self.next) / 2
    }
}

/// Connection `id` has not come to the last byte of its range.
pub open spec fn lags(positions: Map<u64, u64>, ends: Map<u64, u64>, id: u64) -> bool {
    &&& positions.dom().contains(id)
    &&& positions[id] < ends[id]
}

/// Each connection has come to the last byte of its range.
pub open spec fn none_lags(positions: Map<u64, u64>, ends: Map<u64, u64>) -> bool {
    forall|id: u64| !#[trigger] lags(positions, ends, id)
}

/// `lag` is a connection that has not come to its last byte, and none has further to go.
pub open spec fn is_slowest(positions: Map<u64, u64>, ends: Map<u64, u64>, lag: Lag) -> bool {
    &&& lags(positions, ends, lag.id)
    &&& lag.next == positions[lag.id]
    &&& lag.end == ends[lag.id]
    &&& forall|id: u64| #[trigger]
        lags(positions, ends, id) ==> ends[id] - positions[id] <= lag.end - lag.next
}

/// How far connection `list[k]`, which is given with its position, has to go to its last byte.
pub open spec fn left(list: Seq<(u64, u64)>, ends: Map<u64, u64>, k: int) -> int {
    ends[list[k].0] - list[k].1
}

/// Each connection of `list` has come to its last byte.
pub open spec fn none_left(list: Seq<(u64, u64)>, ends: Map<u64, u64>) -> bool {
    forall|k: int| 0 <= k < list.len() ==> #[trigger] left(list, ends, k) <= 0
}

/// `lag` is the connection `list[i]`; it has not come to its last byte, has further to go than any
/// before it in `list`, and none has further to go.
pub open spec fn is_first_slowest(list: Seq<(u64, u64)>, ends: Map<u64, u64>, i: int, lag: Lag) -> bool {
    &&& 0 <= i < list.len()
    &&& lag == (Lag { id: list[i].0, next: list[i].1, end: ends[list[i].0] })
    &&& left(list, ends, i) > 0
    &&& forall|k: int| 0 <= k < i ==> #[trigger] left(list, ends, k) < left(list, ends, i)
    &&& forall|k: int| 0 <= k < list.len() ==> #[trigger] left(list, ends, k) <= left(list, ends, i)
}

/// Some connection still has `byte` in its range.
pub open spec fn wanted(positions: Map<u64, u64>, ends: Map<u64, u64>, byte: int) -> bool {
    exists|id: u64| #[trigger] wants(positions, ends, id, byte)
}

/// Connection `id` still has `byte` in its range.
pub open spec fn wants(positions: Map<u64, u64>, ends: Map<u64, u64>, id: u64, byte: int) -> bool {
    &&& positions.dom().contains(id)
    &&& ends.dom().contains(id)
    &&& positions[id] <= byte <= ends[id]
}

/// No byte is in the range of two connections.
pub open spec fn apart(positions: Map<u64, u64>, ends: Map<u64, u64>) -> bool {
    forall|a: u64, b: u64, byte: int| #[trigger]
        wants(positions, ends, a, byte) && #[trigger] wants(positions, ends, b, byte) ==> a == b
}

/// `end` is an end, and no end is farther.
pub open spec fn is_farthest(ends: Map<u64, u64>, end: u64) -> bool {
    &&& exists|id: u64| #[trigger] ends.dom().contains(id) && ends[id] == end
    &&& forall|id: u64| #[trigger] ends.dom().contains(id) ==> ends[id] <= end
}

/// `n` is how far the slowest connection has to go to its last byte; 0 where none has to go on.
pub open spec fn is_longest(positions: Map<u64, u64>, ends: Map<u64, u64>, n: u64) -> bool {
    if n == 0 {
        forall|id: u64| !#[trigger] lags(positions, ends, id)
    } else {
        exists|lag: Lag| #[trigger] is_slowest(positions, ends, lag) && n == lag.end - lag.next
    }
}

/// A board as it is written to disk: both tables as JSON texts.
#[derive(Clone, Debug)]
pub struct Sjson {
    pub ato: String,
    pub eto: String,
}

/// Why a board cannot be taken up again.
#[derive(Clone, Copy, Debug, PartialEq, Eq, Structural)]
pub enum ResumeError {
    /// The positions are no table.
    Positions,
    /// The ends are no table.
    Ends,
    /// There are no positions, or not as many as ends.
    Mismatch,
}

/// What comes of taking up `ato` and `eto` on a board of `positions` and `ends`.
pub open spec fn resumed(
    ato: Option<Map<u64, u64>>,
    eto: Option<Map<u64, u64>>,
    positions: Map<u64, u64>,
    ends: Map<u64, u64>,
) -> Result<(Map<u64, u64>, Map<u64, u64>), ResumeError> {
    match (ato, eto) {
        (None, _) => Err(ResumeError::Positions),
        (Some(_), None) => Err(ResumeError::Ends),
        (Some(a), Some(e)) => if a.dom().len() == 0 || a.dom().len() != e.dom().len() {
            Err(ResumeError::Mismatch)
        } else {
            Ok((positions.union_prefer_right(a), ends.union_prefer_right(e)))
        },
    }
}

/// The table that binds connection `i`, for each `i` below `upto`, to `at(i)`, and keeps the rest.
pub open spec fn assigned(table: Map<u64, u64>, upto: nat, at: spec_fn(int) -> int) -> Map<u64, u64> {
    Map::new(
        |id: u64| id < upto || table.dom().contains(id),
        |id: u64|
            if id < upto {
                at(id as int) as u64
            } else {
                table[id]
            },
    )
}

/// The middle of the range that `lag` has left.
pub open spec fn middle(lag: Lag) -> int {
    (lag.end - lag.next) / 2 + lag.next
}

/// `lag` is a connection on the board, where the board says, that has not come to its last byte.
pub open spec fn is_lag(positions: Map<u64, u64>, ends: Map<u64, u64>, lag: Lag) -> bool {
    &&& lags(positions, ends, lag.id)
    &&& ends.dom().contains(lag.id)
    &&& lag.next == positions[lag.id]
    &&& lag.end == ends[lag.id]
}

/// The range of `lag` can be split: the id of the new connection fits and no connection holds it,
/// and the new end of `lag` is not 0, which would tell it to leave off.
pub open spec fn can_split(positions: Map<u64, u64>, ends: Map<u64, u64>, basic_id: u64, lag: Lag) -> bool {
    &&& is_lag(positions, ends, lag)
    &&& 0 < middle(lag)
    &&& basic_id + lag.id <= u64::MAX
    &&& !positions.dom().contains((basic_id + lag.id) as u64)
}

impl Board {
    /// Where each connection is.
    pub closed spec fn positions(self) -> Map<u64, u64> {
        entries(self.ato)
    }

    /// Where each connection stops.
    pub closed spec fn ends(self) -> Map<u64, u64> {
        entries(self.eto)
    }

    /// The same connections have a position and an end.
    pub open spec fn paired(self) -> bool {
        self.positions().dom() =~= self.ends().dom()
    }

    /// Every connection that has a position has an end.
    pub open spec fn bounded(self) -> bool {
        self.positions().dom().subset_of(self.ends().dom())
    }

    /// Every connection but `id` that has a position has an end.
    pub open spec fn bounded_but(self, id: u64) -> bool {
        self.positions().dom().remove(id).subset_of(self.ends().dom())
    }

    /// A board without connections.
    pub fn new() -> (r: Board)
        ensures
            r.positions() == Map::<u64, u64>::empty(),
            r.ends() == Map::<u64, u64>::empty(),
            r.paired(),
    {
        Board { ato: table_new(), eto: table_new() }
    }

    /// Puts connection `id` on the board, in place of an earlier one of that id.
    pub fn put(&mut self, id: u64, next: u64, end: u64)
        ensures
            final(self).positions() == old(self).positions().insert(id, next),
            final(self).ends() == old(self).ends().insert(id, end),
            old(self).paired() ==> final(self).paired(),
    {
        table_insert(&mut self.ato, id, next);
        table_insert(&mut self.eto, id, end);
    }

    /// Takes connection `id` off the board, and says whether no position is left.
    pub fn finish(&mut self, id: u64) -> (r: bool)
        ensures
            final(self).positions() == old(self).positions().remove(id),
            final(self).ends() == old(self).ends().remove(id),
            r == (final(self).positions() == Map::<u64, u64>::empty()),
            old(self).paired() ==> final(self).paired(),
    {
        table_remove(&mut self.ato, id);
        table_remove(&mut self.eto, id);
        table_is_empty(&self.ato)
    }

    /// Where connection `id` is.
    pub fn position(&self, id: u64) -> (r: Option<u64>)
        ensures
            r == (if self.positions().dom().contains(id) {
                Some(self.positions()[id])
            } else {
                None
            }),
    {
        table_get(&self.ato, id)
    }

    /// Where connection `id` stops.
    pub fn end(&self, id: u64) -> (r: Option<u64>)
        ensures
            r == (if self.ends().dom().contains(id) {
                Some(self.ends()[id])
            } else {
                None
            }),
    {
        table_get(&self.eto, id)
    }

    /// Moves connection `id` to `next`.
    pub fn advance(&mut self, id: u64, next: u64)
        requires
            old(self).positions().dom().contains(id),
        ensures
            final(self).positions() == old(self).positions().insert(id, next),
            final(self).ends() == old(self).ends(),
            old(self).paired() ==> final(self).paired(),
    {
        table_insert(&mut self.ato, id, next);
    }

    /// Cuts a file of `size` bytes into one range for each of `count` connections, whose ids
    /// count up from 0. Connections of other ids stay on the board.
    pub fn assign(&mut self, size: u64, count: u32)
        requires
            0 < size,
            0 < count,
        ensures
            final(self).positions() == assigned(
                old(self).positions(),
                count as nat,
                |i: int| block_start(size as int, count as int, i),
            ),
            final(self).ends() == assigned(
                old(self).ends(),
                count as nat,
                |i: int| block_end(size as int, count as int, i),
            ),
            old(self).paired() ==> final(self).paired(),
    {
        let ghost starts = |i: int| block_start(size as int, count as int, i);
        let ghost stops = |i: int| block_end(size as int, count as int, i);
        let mut i: u32 = 0;
        assert(assigned(self.positions(), 0, starts) =~= self.positions());
        assert(assigned(self.ends(), 0, stops) =~= self.ends());
        while i < count
            invariant
                i <= count,
                0 < size,
                starts == (|i: int| block_start(size as int, count as int, i)),
                stops == (|i: int| block_end(size as int, count as int, i)),
                self.positions() == assigned(old(self).positions(), i as nat, starts),
                self.ends() == assigned(old(self).ends(), i as nat, stops),
            decreases count - i,
        {
            let (start, end) = block(size, count, i);
            self.put(i as u64, start, end);
            assert(assigned(old(self).positions(), (i + 1) as nat, starts) =~= assigned(
                old(self).positions(),
                i as nat,
                starts,
            ).insert(i as u64, start));
            assert(assigned(old(self).ends(), (i + 1) as nat, stops) =~= assigned(
                old(self).ends(),
                i as nat,
                stops,
            ).insert(i as u64, end));
            i += 1;
        }
    }

    /// The ids of the connections that have a position, each once, in an order that differs from
    /// board to board.
    pub fn ids(&self) -> (r: Vec<u64>)
        ensures
            r@.no_duplicates(),
            forall|id: u64| self.positions().dom().contains(id) <==> #[trigger] r@.contains(id),
    {
        let list: Vec<(u64, u64)> = table_entries(&self.ato);
        let ghost positions = self.positions();
        let mut r: Vec<u64> = Vec::new();
        let mut i: usize = 0;
        while i < list.len()
            invariant
                i <= list.len(),
                lists(list@, positions),
                r@.len() == i,
                forall|k: int| 0 <= k < i ==> #[trigger] r@[k] == list@[k].0,
            decreases list.len() - i,
        {
            r.push(list[i].0);
            i += 1;
        }
        assert forall|id: u64| positions.dom().contains(id) <==> #[trigger] r@.contains(id) by {
            if positions.dom().contains(id) {
                let k = choose|k: int| 0 <= k < list@.len() && (#[trigger] list@[k]).0 == id;
                assert(r@[k] == id);
            }
            if r@.contains(id) {
                let k = choose|k: int| 0 <= k < r@.len() && r@[k] == id;
                assert(positions.dom().contains(list@[k].0));
            }
        }
        assert(r@.no_duplicates()) by {
            assert forall|a: int, b: int| 0 <= a < b < r@.len() implies r@[a] != r@[b] by {
                assert(list@[a].0 != list@[b].0);
            }
        }
        r
    }

    /// Whether no connection has a position.
    pub fn holds_none(&self) -> (r: bool)
        ensures
            r == (self.positions() == Map::<u64, u64>::empty()),
    {
        table_is_empty(&self.ato)
    }

    /// Whether every connection that has a position has an end.
    pub fn is_bounded(&self) -> (r: bool)
        ensures
            r == self.bounded(),
    {
        self.ends_hold(None)
    }

    /// Whether every connection but `id` that has a position has an end.
    pub fn is_bounded_but(&self, id: u64) -> (r: bool)
        ensures
            r == self.bounded_but(id),
    {
        self.ends_hold(Some(id))
    }

    /// Whether every connection that has a position, but for `skip`, has an end.
    fn ends_hold(&self, skip: Option<u64>) -> (r: bool)
        ensures
            r == (forall|id: u64| #[trigger]
                self.positions().dom().contains(id) && skip != Some(id) ==> self.ends().dom().contains(id)),
    {
        let list: Vec<(u64, u64)> = table_entries(&self.ato);
        let ghost positions = self.positions();
        let ghost ends = self.ends();
        let mut i: usize = 0;
        while i < list.len()
            invariant
                i <= list.len(),
                positions == self.positions(),
                ends == self.ends(),
                lists(list@, positions),
                forall|k: int|
                    0 <= k < i ==> skip == Some((#[trigger] list@[k]).0) || ends.dom().contains(list@[k].0),
            decreases list.len() - i,
        {
            let id: u64 = list[i].0;
            let skipped: bool = match skip {
                Some(other) => other == id,
                None => false,
            };
            if !skipped && table_get(&self.eto, id).is_none() {
                assert(positions.dom().contains(list@[i as int].0));
                return false;
            }
            i += 1;
        }
        assert forall|id: u64| #[trigger] positions.dom().contains(id) && skip != Some(id) implies ends.dom().contains(
            id,
        ) by {
            let k = choose|k: int| 0 <= k < list@.len() && (#[trigger] list@[k]).0 == id;
            assert(skip == Some(list@[k].0) || ends.dom().contains(list@[k].0));
        }
        true
    }

    /// The connection that has the farthest to go to its last byte, or `None` where each has come
    /// to it. Where several have the farthest, any of them may come back.
    pub fn slowest(&self) -> (r: Option<Lag>)
        requires
            self.bounded(),
        ensures
            match r {
                Some(lag) => is_slowest(self.positions(), self.ends(), lag),
                None => none_lags(self.positions(), self.ends()),
            },
    {
        let list: Vec<(u64, u64)> = table_entries(&self.ato);
        let ghost positions = self.positions();
        let ghost ends = self.ends();
        assert forall|k: int| 0 <= k < list@.len() implies ends.dom().contains((#[trigger] list@[k]).0) by {
            assert(positions.dom().contains(list@[k].0));
        }
        let r: Option<Lag> = self.slowest_in(&list);
        assert forall|id: u64| #[trigger] lags(positions, ends, id) implies r is Some && ends[id] - positions[id]
            <= r->0.end - r->0.next by {
            let k = choose|k: int| 0 <= k < list@.len() && (#[trigger] list@[k]).0 == id;
            assert(list@[k].1 == positions[id]);
            assert(left(list@, ends, k) > 0);
        }
        r
    }

    /// The first of the connections in `list`, which gives each with its position, that has the
    /// farthest to go to its last byte, or `None` where each has come to it.
    pub fn slowest_in(&self, list: &Vec<(u64, u64)>) -> (r: Option<Lag>)
        requires
            forall|k: int| 0 <= k < list@.len() ==> self.ends().dom().contains((#[trigger] list@[k]).0),
        ensures
            match r {
                Some(lag) => exists|i: int| #[trigger] is_first_slowest(list@, self.ends(), i, lag),
                None => none_left(list@, self.ends()),
            },
    {
        let ghost ends = self.ends();
        let ghost mut at: int = 0;
        let mut best: Option<Lag> = None;
        let mut i: usize = 0;
        while i < list.len()
            invariant
                i <= list.len(),
                ends == self.ends(),
                forall|k: int| 0 <= k < list@.len() ==> ends.dom().contains((#[trigger] list@[k]).0),
                match best {
                    Some(lag) => {
                        &&& at < i
                        &&& is_first_slowest(list@.take(i as int), ends, at, lag)
                    },
                    None => forall|k: int| 0 <= k < i ==> #[trigger] left(list@, ends, k) <= 0,
                },
            decreases list.len() - i,
        {
            let id: u64 = list[i].0;
            let next: u64 = list[i].1;
            let end: u64 = self.end_of(id);
            let ghost shorter = list@.take(i as int);
            let ghost longer = list@.take(i + 1);
            assert(left(longer, ends, i as int) == end - next);
            assert forall|k: int| 0 <= k < i implies #[trigger] left(longer, ends, k) == left(shorter, ends, k)
                && left(longer, ends, k) == left(list@, ends, k) by {
                assert(longer[k] == list@[k] && shorter[k] == list@[k]);
            }
            if next < end {
                let most: u64 = match best {
                    Some(lag) => lag.end - lag.next,
                    None => 0,
                };
                if most < end - next {
                    best = Some(Lag { id, next, end });
                    proof {
                        at = i as int;
                    }
                }
            }
            i += 1;
        }
        assert(list@.take(list@.len() as int) =~= list@);
        best
    }

    /// Where connection `id`, which is on the board, stops.
    fn end_of(&self, id: u64) -> (r: u64)
        requires
            self.ends().dom().contains(id),
        ensures
            r == self.ends()[id],
    {
        match table_get(&self.eto, id) {
            Some(end) => end,
            None => 0,
        }
    }

    /// Whether the range of `lag` can be split.
    pub fn may_split(&self, basic_id: u64, lag: Lag) -> (r: bool)
        ensures
            r == can_split(self.positions(), self.ends(), basic_id, lag),
    {
        match (self.position(lag.id), self.end(lag.id)) {
            (Some(next), Some(end)) => next == lag.next && end == lag.end && next < end && 0 < lag.space_over()
                + next && lag.id <= u64::MAX - basic_id && self.position(basic_id + lag.id).is_none(),
            _ => false,
        }
    }

    /// Gives the second half of what `lag` has left to a new connection, whose id is returned.
    /// `lag` itself stops in the middle from now on. No byte leaves the ranges, none comes in, and
    /// none comes to be in two of them.
    pub fn split(&mut self, basic_id: u64, lag: Lag) -> (r: u64)
        requires
            can_split(old(self).positions(), old(self).ends(), basic_id, lag),
        ensures
            r == basic_id + lag.id,
            final(self).positions() == old(self).positions().insert(r, (middle(lag) + 1) as u64),
            final(self).ends() == old(self).ends().insert(r, lag.end).insert(lag.id, middle(lag) as u64),
            old(self).paired() ==> final(self).paired(),
            forall|byte: int| #[trigger]
                wanted(final(self).positions(), final(self).ends(), byte) <==> wanted(
                    old(self).positions(),
                    old(self).ends(),
                    byte,
                ),
            apart(old(self).positions(), old(self).ends()) ==> apart(final(self).positions(), final(self).ends()),
    {
        let old_pos: u64 = lag.space_over() + lag.next;
        let new_id: u64 = basic_id + lag.id;
        self.put(new_id, old_pos + 1, lag.end);
        table_insert(&mut self.eto, lag.id, old_pos);
        proof {
            let positions = old(self).positions();
            let ends = old(self).ends();
            assert forall|byte: int| #[trigger] wanted(self.positions(), self.ends(), byte) <==> wanted(
                positions,
                ends,
                byte,
            ) by {
                split_keeps_wanted(positions, ends, lag, new_id, byte);
            }
            if apart(positions, ends) {
                split_keeps_apart(positions, ends, lag, new_id);
            }
        }
        new_id
    }

    /// Sets every end to 0, which tells each connection to leave off.
    pub fn halt(&mut self)
        ensures
            final(self).positions() == old(self).positions(),
            final(self).ends() == old(self).ends().map_values(|end: u64| 0u64),
            old(self).paired() ==> final(self).paired(),
    {
        let list: Vec<(u64, u64)> = table_entries(&self.eto);
        let ghost before = self.ends();
        let mut i: usize = 0;
        while i < list.len()
            invariant
                i <= list.len(),
                self.positions() == old(self).positions(),
                before == old(self).ends(),
                lists(list@, before),
                self.ends().dom() == before.dom(),
                forall|k: int| 0 <= k < i ==> self.ends()[(#[trigger] list@[k]).0] == 0,
            decreases list.len() - i,
        {
            assert(before.dom().contains(list@[i as int].0));
            table_insert(&mut self.eto, list[i].0, 0);
            assert(self.ends().dom() =~= before.dom());
            i += 1;
        }
        assert(self.ends() =~= before.map_values(|end: u64| 0u64)) by {
            assert forall|id: u64| before.dom().contains(id) implies self.ends()[id] == 0 by {
                let k = choose|k: int| 0 <= k < list@.len() && (#[trigger] list@[k]).0 == id;
                assert(list@[k].0 == id);
            }
        }
    }

    /// Leaves the board behind, once the user has stopped the program and its record was written
    /// or could not be: in the latter event, tells each connection to leave off. The exit code of
    /// the program is returned.
    pub fn stop(&mut self, written: bool) -> (r: i32)
        ensures
            r == (if written {
                0int
            } else {
                1
            }),
            final(self).positions() == old(self).positions(),
            final(self).ends() == (if written {
                old(self).ends()
            } else {
                old(self).ends().map_values(|end: u64| 0u64)
            }),
            old(self).paired() ==> final(self).paired(),
    {
        if written {
            0
        } else {
            self.halt();
            1
        }
    }

    /// How far the slowest connection has to go to its last byte; 0 where each has come to it.
    pub fn longest(&self) -> (r: u64)
        requires
            self.bounded(),
        ensures
            is_longest(self.positions(), self.ends(), r),
    {
        match self.slowest() {
            Some(lag) => lag.end - lag.next,
            None => 0,
        }
    }

    /// The farthest end, or `None` where there is none.
    pub fn farthest(&self) -> (r: Option<u64>)
        ensures
            match r {
                Some(end) => is_farthest(self.ends(), end),
                None => self.ends() == Map::<u64, u64>::empty(),
            },
    {
        let list: Vec<(u64, u64)> = table_entries(&self.eto);
        let ghost ends = self.ends();
        if list.len() == 0 {
            assert(ends =~= Map::<u64, u64>::empty());
            return None;
        }
        let mut best: u64 = list[0].1;
        let ghost mut at: int = 0;
        let mut i: usize = 1;
        while i < list.len()
            invariant
                1 <= i <= list.len(),
                0 <= at < i,
                best == list@[at].1,
                forall|k: int| 0 <= k < i ==> (#[trigger] list@[k]).1 <= best,
            decreases list.len() - i,
        {
            if best < list[i].1 {
                best = list[i].1;
                proof {
                    at = i as int;
                }
            }
            i += 1;
        }
        assert(is_farthest(ends, best)) by {
            assert(ends.dom().contains(list@[at].0));
            assert forall|id: u64| #[trigger] ends.dom().contains(id) implies ends[id] <= best by {
                let k = choose|k: int| 0 <= k < list@.len() && (#[trigger] list@[k]).0 == id;
                assert(list@[k].1 == ends[id]);
            }
        }
        Some(best)
    }

    /// The board as it is written to disk.
    pub fn snapshot(&self) -> (r: Sjson)
        ensures
            parsed_table(r.ato@) == Some(self.positions()),
            parsed_table(r.eto@) == Some(self.ends()),
    {
        Sjson { ato: table_to_json(&self.ato), eto: table_to_json(&self.eto) }
    }

    /// Takes up a board that was written to disk: its connections come onto this board, in
    /// place of those of the same ids.
    pub fn resume(&mut self, saved: &Sjson) -> (r: Result<(), ResumeError>)
        ensures
            match resumed(
                parsed_table(saved.ato@),
                parsed_table(saved.eto@),
                old(self).positions(),
                old(self).ends(),
            ) {
                Ok((positions, ends)) => {
                    &&& r is Ok
                    &&& final(self).positions() == positions
                    &&& final(self).ends() == ends
                },
                Err(error) => {
                    &&& r == Err::<(), ResumeError>(error)
                    &&& final(self).positions() == old(self).positions()
                    &&& final(self).ends() == old(self).ends()
                },
            },
    {
        let ato: DashMap<u64, u64> = match table_from_json(saved.ato.as_str()) {
            Ok(table) => table,
            Err(_) => return Err(ResumeError::Positions),
        };
        let eto: DashMap<u64, u64> = match table_from_json(saved.eto.as_str()) {
            Ok(table) => table,
            Err(_) => return Err(ResumeError::Ends),
        };
        self.adopt(ato, eto)
    }

    /// Takes up the connections of `ato`, which gives positions, and of `eto`, which gives ends.
    pub fn adopt(&mut self, ato: DashMap<u64, u64>, eto: DashMap<u64, u64>) -> (r: Result<(), ResumeError>)
        ensures
            match resumed(Some(entries(ato)), Some(entries(eto)), old(self).positions(), old(self).ends()) {
                Ok((positions, ends)) => {
                    &&& r is Ok
                    &&& final(self).positions() == positions
                    &&& final(self).ends() == ends
                },
                Err(error) => {
                    &&& r == Err::<(), ResumeError>(error)
                    &&& final(self).positions() == old(self).positions()
                    &&& final(self).ends() == old(self).ends()
                },
            },
    {
        if table_len(&ato) == 0 || table_len(&ato) != table_len(&eto) {
            return Err(ResumeError::Mismatch);
        }
        merge(&mut self.ato, &ato);
        merge(&mut self.eto, &eto);
        Ok(())
    }
}

/// Binds in `into` all that `from` binds.
fn merge(into: &mut DashMap<u64, u64>, from: &DashMap<u64, u64>)
    ensures
        entries(*final(into)) == entries(*old(into)).union_prefer_right(entries(*from)),
{
    let list: Vec<(u64, u64)> = table_entries(from);
    let ghost before = entries(*into);
    let ghost added = entries(*from);
    let mut i: usize = 0;
    while i < list.len()
        invariant
            i <= list.len(),
            before == entries(*old(into)),
            added == entries(*from),
            lists(list@, added),
            forall|id: u64| #[trigger]
                entries(*into).dom().contains(id) <==> before.dom().contains(id) || (exists|k: int|
                    0 <= k < i && (#[trigger] list@[k]).0 == id),
            forall|k: int| 0 <= k < i ==> entries(*into)[(#[trigger] list@[k]).0] == list@[k].1,
            forall|id: u64|
                before.dom().contains(id) && !added.dom().contains(id) ==> #[trigger] entries(*into)[id]
                    == before[id],
        decreases list.len() - i,
    {
        let ghost was = entries(*into);
        table_insert(into, list[i].0, list[i].1);
        assert forall|id: u64| #[trigger] entries(*into).dom().contains(id) implies before.dom().contains(id) || (
        exists|k: int| 0 <= k < i + 1 && (#[trigger] list@[k]).0 == id) by {
            if id == list@[i as int].0 {
            } else {
                assert(was.dom().contains(id));
            }
        }
        assert forall|id: u64| before.dom().contains(id) || (exists|k: int|
            0 <= k < i + 1 && (#[trigger] list@[k]).0 == id) implies #[trigger] entries(*into).dom().contains(id) by {
            if id != list@[i as int].0 {
                assert(was.dom().contains(id));
            }
        }
        i += 1;
    }
    assert(entries(*into) =~= before.union_prefer_right(added)) by {
        assert forall|id: u64| added.dom().contains(id) implies entries(*into).dom().contains(id)
            && entries(*into)[id] == added[id] by {
            let k = choose|k: int| 0 <= k < list@.len() && (#[trigger] list@[k]).0 == id;
            assert(list@[k].0 == id);
        }
        assert forall|id: u64| entries(*into).dom().contains(id) implies before.dom().contains(id)
            || added.dom().contains(id) by {
            if !before.dom().contains(id) {
                let k = choose|k: int| 0 <= k < list@.len() && (#[trigger] list@[k]).0 == id;
                assert(added.dom().contains(list@[k].0));
            }
        }
    }
}

/// A board that was written to disk and is taken up on an empty board is the same board again,
/// provided that it holds a connection.
pub proof fn saved_board_resumes(board: Board, saved: Sjson)
    requires
        board.paired(),
        board.positions().dom().finite(),
        board.positions() != Map::<u64, u64>::empty(),
        parsed_table(saved.ato@) == Some(board.positions()),
        parsed_table(saved.eto@) == Some(board.ends()),
    ensures
        resumed(
            parsed_table(saved.ato@),
            parsed_table(saved.eto@),
            Map::empty(),
            Map::empty(),
        ) == Ok::<(Map<u64, u64>, Map<u64, u64>), ResumeError>((board.positions(), board.ends())),
{
    assert(board.positions().dom() == board.ends().dom());
    if board.positions().dom().len() == 0 {
        assert(board.positions() =~= Map::<u64, u64>::empty());
    }
    assert(Map::<u64, u64>::empty().union_prefer_right(board.positions()) =~= board.positions());
    assert(Map::<u64, u64>::empty().union_prefer_right(board.ends()) =~= board.ends());
}

/// A board that is taken up keeps positions and ends together, where its tables name the same
/// connections.
pub proof fn resumed_board_stays_paired(
    ato: Map<u64, u64>,
    eto: Map<u64, u64>,
    board: Board,
    positions: Map<u64, u64>,
    ends: Map<u64, u64>,
)
    requires
        board.paired(),
        ato.dom() == eto.dom(),
        resumed(Some(ato), Some(eto), board.positions(), board.ends()) == Ok::<
            (Map<u64, u64>, Map<u64, u64>),
            ResumeError,
        >((positions, ends)),
    ensures
        positions.dom() == ends.dom(),
{
    assert(positions.dom() =~= ends.dom());
}

/// Once a file is cut on an empty board, the bytes that some connection has in its range are
/// those of the file.
pub proof fn assigned_board_wants_file(size: u64, count: u32, byte: int)
    requires
        0 < size,
        0 < count,
    ensures
        wanted(
            assigned(Map::empty(), count as nat, |i: int| block_start(size as int, count as int, i)),
            assigned(Map::empty(), count as nat, |i: int| block_end(size as int, count as int, i)),
            byte,
        ) <==> 0 <= byte < size,
{
    let starts = |i: int| block_start(size as int, count as int, i);
    let stops = |i: int| block_end(size as int, count as int, i);
    let positions = assigned(Map::empty(), count as nat, starts);
    let ends = assigned(Map::empty(), count as nat, stops);
    if 0 <= byte < size {
        let i = blocks_cover_file(size as int, count as int, byte);
        blocks_inside_file(size as int, count as int, i);
        assert(wants(positions, ends, i as u64, byte));
    }
    if wanted(positions, ends, byte) {
        let id = choose|id: u64| #[trigger] wants(positions, ends, id, byte);
        blocks_inside_file(size as int, count as int, id as int);
    }
}

/// Once a file is cut on an empty board, no byte is in the range of two connections.
pub proof fn assigned_board_wants_once(size: u64, count: u32, a: u64, b: u64, byte: int)
    requires
        0 < size,
        0 < count,
        wants(
            assigned(Map::empty(), count as nat, |i: int| block_start(size as int, count as int, i)),
            assigned(Map::empty(), count as nat, |i: int| block_end(size as int, count as int, i)),
            a,
            byte,
        ),
        wants(
            assigned(Map::empty(), count as nat, |i: int| block_start(size as int, count as int, i)),
            assigned(Map::empty(), count as nat, |i: int| block_end(size as int, count as int, i)),
            b,
            byte,
        ),
    ensures
        a == b,
{
    blocks_inside_file(size as int, count as int, a as int);
    blocks_inside_file(size as int, count as int, b as int);
    blocks_disjoint(size as int, count as int, a as int, b as int, byte);
}

/// The range that a split hands over is not empty, lies in the range that was split, and is no
/// shorter than the part before it.
pub proof fn split_takes_second_half(lag: Lag)
    requires
        lag.next < lag.end,
    ensures
        lag.next <= middle(lag) < lag.end,
        middle(lag) - lag.next <= lag.end - middle(lag) <= middle(lag) - lag.next + 1,
{
}

/// A split under an id that is not on the board loses no byte and adds none.
pub proof fn split_keeps_wanted(positions: Map<u64, u64>, ends: Map<u64, u64>, lag: Lag, new_id: u64, byte: int)
    requires
        is_lag(positions, ends, lag),
        !positions.dom().contains(new_id),
    ensures
        wanted(
            positions.insert(new_id, (middle(lag) + 1) as u64),
            ends.insert(new_id, lag.end).insert(lag.id, middle(lag) as u64),
            byte,
        ) <==> wanted(positions, ends, byte),
{
    let positions2 = positions.insert(new_id, (middle(lag) + 1) as u64);
    let ends2 = ends.insert(new_id, lag.end).insert(lag.id, middle(lag) as u64);
    split_parts_range(positions, ends, lag, new_id, byte);
    if wanted(positions, ends, byte) {
        let id = choose|id: u64| #[trigger] wants(positions, ends, id, byte);
        if id != lag.id {
            assert(wants(positions2, ends2, id, byte));
        }
    }
    if wanted(positions2, ends2, byte) {
        let id = choose|id: u64| #[trigger] wants(positions2, ends2, id, byte);
        if id != new_id && id != lag.id {
            assert(wants(positions, ends, id, byte));
        }
    }
}

/// A split under an id that is not on the board parts the range of a connection in two:
/// each of its bytes is in the range of one of the two connections, and none in that of both.
pub proof fn split_parts_range(positions: Map<u64, u64>, ends: Map<u64, u64>, lag: Lag, new_id: u64, byte: int)
    requires
        is_lag(positions, ends, lag),
        !positions.dom().contains(new_id),
    ensures
        ({
            let positions2 = positions.insert(new_id, (middle(lag) + 1) as u64);
            let ends2 = ends.insert(new_id, lag.end).insert(lag.id, middle(lag) as u64);
            let old_has = wants(positions2, ends2, lag.id, byte);
            let new_has = wants(positions2, ends2, new_id, byte);
            &&& wants(positions, ends, lag.id, byte) <==> old_has || new_has
            &&& !(old_has && new_has)
        }),
{
}

/// Where no byte is in the range of two connections, none is after a split under an id that is
/// not on the board.
pub proof fn split_keeps_apart(positions: Map<u64, u64>, ends: Map<u64, u64>, lag: Lag, new_id: u64)
    requires
        apart(positions, ends),
        is_lag(positions, ends, lag),
        !positions.dom().contains(new_id),
    ensures
        apart(
            positions.insert(new_id, (middle(lag) + 1) as u64),
            ends.insert(new_id, lag.end).insert(lag.id, middle(lag) as u64),
        ),
{
    let positions2 = positions.insert(new_id, (middle(lag) + 1) as u64);
    let ends2 = ends.insert(new_id, lag.end).insert(lag.id, middle(lag) as u64);
    assert forall|a: u64, b: u64, byte: int| #[trigger]
        wants(positions2, ends2, a, byte) && #[trigger] wants(positions2, ends2, b, byte) implies a == b by {
        split_parts_range(positions, ends, lag, new_id, byte);
        let was_a = if a == new_id {
            lag.id
        } else {
            a
        };
        let was_b = if b == new_id {
            lag.id
        } else {
            b
        };
        assert(wants(positions, ends, was_a, byte));
        assert(wants(positions, ends, was_b, byte));
    }
}

/// A split moves no connection, and changes the end of none but the one whose range it splits.
pub proof fn split_keeps_others(positions: Map<u64, u64>, ends: Map<u64, u64>, basic_id: u64, lag: Lag, id: u64)
    requires
        can_split(positions, ends, basic_id, lag),
        positions.dom().contains(id),
    ensures
        ({
            let new_id = (basic_id + lag.id) as u64;
            let ends2 = ends.insert(new_id, lag.end).insert(lag.id, middle(lag) as u64);
            &&& positions.insert(new_id, (middle(lag) + 1) as u64)[id] == positions[id]
            &&& id != lag.id ==> ends2[id] == ends[id]
            &&& ends2[lag.id] >= positions[lag.id]
        }),
{
}

} // verus!
