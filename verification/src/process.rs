//! One connection: what it asks for, and what it does with what comes back.
use crate::board::{wanted, wants, Board};
use crate::number::{decimal, push_decimal};
use crate::task::HttpMode;
use vstd::prelude::*;

verus! {

/// How many bytes a connection stores before it shows them.
pub const SHOW_BYTES: u64 = 131072;

/// One connection.
#[derive(Debug)]
pub struct Process {
    /// The file to write.
    pub file_path: String,
    /// How many refused requests are too many.
    pub max_retry: u8,
    /// How many requests were refused.
    pub retry: u8,
    /// How it asks.
    pub mode: HttpMode,
    /// What it asks for.
    pub url: String,
}

/// Where a connection stands.
#[derive(Clone, Copy, Debug, PartialEq, Eq, Structural)]
pub enum Stage {
    /// It has asked for its range up to `back`.
    Asking { back: u64 },
    /// It stores the next block at `next`. It last saw its end at `back`, and has stored
    /// `pending` bytes that it has not shown.
    Streaming { next: u64, back: u64, pending: u64 },
    /// It has left off.
    Closed,
}

/// What happens to a connection.
#[derive(Clone, Copy, Debug, PartialEq, Eq, Structural)]
pub enum Event {
    /// Its request was refused.
    Refused,
    /// Its request was answered.
    Answered,
    /// A block of `len` bytes has come, and was handed over to be stored at `next`.
    Block { len: u64 },
    /// The answer broke off.
    Broken,
    /// The answer is over, before the connection has gone past its end. What the answer left out
    /// is not asked for again.
    Ended,
}

/// What a connection does next.
#[derive(Debug)]
pub enum Action {
    /// It asks for `range`.
    Ask { range: String },
    /// It shows a bar of `bytes` bytes and waits for a block.
    Open { bytes: u64 },
    /// It makes its bar `length` bytes long, where that is given, shows `shown` further bytes,
    /// and waits for a block.
    Read { length: Option<u64>, shown: u64 },
    /// As `Read`, but in place of waiting it takes its bar away and reports its id.
    Report { length: Option<u64>, shown: u64 },
    /// It leaves off without a report.
    Leave,
    /// It has been refused too often.
    GiveUp,
}

/// The text of a `Range` header field: the bytes from `next` to `end`, both of them too.
pub open spec fn range_text(next: u64, end: u64) -> Seq<char> {
    "bytes="@ + decimal(next as nat) + "-"@ + decimal(end as nat)
}

/// The text of a `Range` header field.
pub fn range_header(next: u64, end: u64) -> (r: String)
    ensures
        r@ == range_text(next, end),
{
    let mut r: String = "bytes=".to_string();
    push_decimal(&mut r, next);
    r.append("-");
    push_decimal(&mut r, end);
    r
}

/// Connection `id` is on the board.
pub open spec fn on_board(board: Board, id: u64) -> bool {
    &&& board.positions().dom().contains(id)
    &&& board.ends().dom().contains(id)
}

/// What a connection has stored is what the board says.
pub open spec fn in_step(board: Board, id: u64, stage: Stage) -> bool {
    stage matches Stage::Streaming { next, .. } ==> board.positions()[id] == next
}

/// `event` can happen at `stage`, and no number that follows from it is out of range: a bar has
/// no negative length, and positions and counts fit.
pub open spec fn can_happen(process: Process, board: Board, id: u64, stage: Stage, event: Event) -> bool {
    &&& on_board(board, id)
    &&& match (stage, event) {
        (Stage::Asking { .. }, Event::Refused) => process.retry < u8::MAX,
        (Stage::Asking { back }, Event::Answered) => board.positions()[id] <= back,
        (Stage::Streaming { next, back, pending }, Event::Block { len }) => {
            let end = board.ends()[id];
            &&& next + len <= u64::MAX
            &&& pending + len <= u64::MAX
            &&& end == 0 || end == back || next <= end
        },
        (Stage::Streaming { .. }, Event::Broken) => true,
        (Stage::Streaming { .. }, Event::Ended) => true,
        _ => false,
    }
}

/// The new length of the bar, where the end has moved from `back`.
pub open spec fn new_length(next: u64, back: u64, end: u64) -> Option<u64> {
    if end != back {
        Some((end - next) as u64)
    } else {
        None
    }
}

/// `action` and `after` are what connection `id` does at `stage` on `event`.
pub open spec fn is_step(
    process: Process,
    board: Board,
    id: u64,
    stage: Stage,
    event: Event,
    after: Stage,
    action: Action,
) -> bool {
    let position = board.positions()[id];
    let end = board.ends()[id];
    match (stage, event) {
        (Stage::Asking { .. }, Event::Refused) => if process.retry + 1 >= process.max_retry {
            action is GiveUp && after == Stage::Closed
        } else {
            &&& action matches Action::Ask { range } && range@ == range_text(position, end)
            &&& after == Stage::Asking { back: end }
        },
        (Stage::Asking { back }, Event::Answered) => {
            &&& action == Action::Open { bytes: (back - position) as u64 }
            &&& after == Stage::Streaming { next: position, back, pending: 0 }
        },
        (Stage::Streaming { next, back, pending }, Event::Block { len }) => if end == 0 {
            action is Leave && after == Stage::Closed
        } else if next + len > end {
            &&& action == Action::Report {
                length: new_length(next, back, end),
                shown: (pending + len) as u64,
            }
            &&& after == Stage::Closed
        } else if pending + len >= SHOW_BYTES {
            &&& action == Action::Read { length: new_length(next, back, end), shown: (pending + len) as u64 }
            &&& after == Stage::Streaming { next: (next + len) as u64, back: end, pending: 0 }
        } else {
            &&& action == Action::Read { length: new_length(next, back, end), shown: 0 }
            &&& after == Stage::Streaming {
                next: (next + len) as u64,
                back: end,
                pending: (pending + len) as u64,
            }
        },
        (Stage::Streaming { .. }, Event::Broken) => {
            &&& action matches Action::Ask { range } && range@ == range_text(position, end)
            &&& after == Stage::Asking { back: end }
        },
        _ => {
            &&& action == Action::Report { length: None, shown: 0 }
            &&& after == Stage::Closed
        },
    }
}

/// Where connection `id` is on the board once `event` has happened at `stage`.
pub open spec fn moved(board: Board, id: u64, stage: Stage, event: Event) -> Map<u64, u64> {
    match (stage, event) {
        (Stage::Streaming { next, .. }, Event::Block { len }) => if board.ends()[id] == 0 {
            board.positions()
        } else {
            board.positions().insert(id, (next + len) as u64)
        },
        _ => board.positions(),
    }
}

impl Process {
    /// What connection `id` asks for first, and at which stage it then is. `None` where it is
    /// not on the board.
    pub fn start(&self, board: &Board, id: u64) -> (r: Option<(Stage, String)>)
        ensures
            match r {
                Some((stage, range)) => {
                    &&& on_board(*board, id)
                    &&& stage == Stage::Asking { back: board.ends()[id] }
                    &&& range@ == range_text(board.positions()[id], board.ends()[id])
                },
                None => !on_board(*board, id),
            },
    {
        match (board.position(id), board.end(id)) {
            (Some(next), Some(end)) => Some((Stage::Asking { back: end }, range_header(next, end))),
            _ => None,
        }
    }

    /// Whether `event` can happen at `stage`.
    pub fn fits(&self, board: &Board, id: u64, stage: Stage, event: Event) -> (r: bool)
        ensures
            r == can_happen(*self, *board, id, stage, event),
    {
        match (board.position(id), board.end(id)) {
            (Some(position), Some(end)) => match (stage, event) {
                (Stage::Asking { .. }, Event::Refused) => self.retry < u8::MAX,
                (Stage::Asking { back }, Event::Answered) => position <= back,
                (Stage::Streaming { next, back, pending }, Event::Block { len }) => len <= u64::MAX - next && len
                    <= u64::MAX - pending && (end == 0 || end == back || next <= end),
                (Stage::Streaming { .. }, Event::Broken) => true,
                (Stage::Streaming { .. }, Event::Ended) => true,
                _ => false,
            },
            _ => false,
        }
    }

    /// One step of connection `id`: what it does at `stage` on `event`, and at which stage it
    /// then is.
    pub fn download(&mut self, board: &mut Board, id: u64, stage: Stage, event: Event) -> (r: (Stage, Action))
        requires
            can_happen(*old(self), *old(board), id, stage, event),
        ensures
            is_step(*old(self), *old(board), id, stage, event, r.0, r.1),
            final(board).positions() == moved(*old(board), id, stage, event),
            final(board).ends() == old(board).ends(),
            final(self).retry == old(self).retry + (if event == Event::Refused {
                1int
            } else {
                0
            }),
            final(self).file_path == old(self).file_path,
            final(self).max_retry == old(self).max_retry,
            final(self).mode == old(self).mode,
            final(self).url == old(self).url,
            in_step(*old(board), id, stage) ==> in_step(*final(board), id, r.0),
    {
        let position: u64 = match board.position(id) {
            Some(position) => position,
            None => 0,
        };
        let end: u64 = match board.end(id) {
            Some(end) => end,
            None => 0,
        };
        match (stage, event) {
            (Stage::Asking { .. }, Event::Refused) => {
                self.retry = self.retry + 1;
                if self.retry >= self.max_retry {
                    (Stage::Closed, Action::GiveUp)
                } else {
                    (Stage::Asking { back: end }, Action::Ask { range: range_header(position, end) })
                }
            },
            (Stage::Asking { back }, Event::Answered) => (
                Stage::Streaming { next: position, back, pending: 0 },
                Action::Open { bytes: back - position },
            ),
            (Stage::Streaming { next, back, pending }, Event::Block { len }) => {
                if end == 0 {
                    return (Stage::Closed, Action::Leave);
                }
                let length: Option<u64> = if end != back {
                    Some(end - next)
                } else {
                    None
                };
                let next: u64 = next + len;
                let pending: u64 = pending + len;
                board.advance(id, next);
                if next > end {
                    (Stage::Closed, Action::Report { length, shown: pending })
                } else if pending >= SHOW_BYTES {
                    (Stage::Streaming { next, back: end, pending: 0 }, Action::Read { length, shown: pending })
                } else {
                    (Stage::Streaming { next, back: end, pending }, Action::Read { length, shown: 0 })
                }
            },
            (Stage::Streaming { .. }, Event::Broken) => (
                Stage::Asking { back: end },
                Action::Ask { range: range_header(position, end) },
            ),
            _ => (Stage::Closed, Action::Report { length: None, shown: 0 }),
        }
    }
}

/// On a board that was halted, a connection leaves off at the next block, and moves no further.
pub proof fn halted_connection_leaves(
    process: Process,
    board: Board,
    id: u64,
    stage: Stage,
    len: u64,
    after: Stage,
    action: Action,
)
    requires
        on_board(board, id),
        board.ends()[id] == 0,
        stage is Streaming,
        is_step(process, board, id, stage, Event::Block { len }, after, action),
    ensures
        action is Leave,
        after == Stage::Closed,
        moved(board, id, stage, Event::Block { len }) == board.positions(),
{
}

/// A step of a connection changes the position of no other one, and takes none off the board.
pub proof fn connections_keep_apart(process: Process, board: Board, id: u64, stage: Stage, event: Event, other: u64)
    requires
        can_happen(process, board, id, stage, event),
        other != id,
    ensures
        moved(board, id, stage, event).dom() == board.positions().dom(),
        moved(board, id, stage, event)[other] == board.positions()[other],
{
    assert(moved(board, id, stage, event).dom() =~= board.positions().dom());
}

/// A connection never goes back.
pub proof fn connections_go_forward(process: Process, board: Board, id: u64, stage: Stage, event: Event)
    requires
        can_happen(process, board, id, stage, event),
        in_step(board, id, stage),
    ensures
        board.positions()[id] <= moved(board, id, stage, event)[id],
{
}

/// A connection whose answer breaks off asks next for what it has not stored, and for no byte
/// that it has.
pub proof fn broken_connection_asks_for_rest(
    process: Process,
    board: Board,
    id: u64,
    next: u64,
    back: u64,
    pending: u64,
    after: Stage,
    action: Action,
)
    requires
        on_board(board, id),
        in_step(board, id, Stage::Streaming { next, back, pending }),
        is_step(process, board, id, Stage::Streaming { next, back, pending }, Event::Broken, after, action),
    ensures
        action matches Action::Ask { range } && range@ == range_text(next, board.ends()[id]),
{
}

/// A connection reports on a block exactly where it has stored every byte of its range, the one
/// at its end too.
pub proof fn reporting_connection_reached_end(
    process: Process,
    board: Board,
    id: u64,
    stage: Stage,
    len: u64,
    after: Stage,
    action: Action,
)
    requires
        can_happen(process, board, id, stage, Event::Block { len }),
        is_step(process, board, id, stage, Event::Block { len }, after, action),
    ensures
        action is Report <==> board.ends()[id] != 0 && moved(board, id, stage, Event::Block { len })[id]
            > board.ends()[id],
{
}

/// A block that is stored loses no byte: what some connection had in its range it still has, or
/// the block holds it.
pub proof fn block_loses_nothing(
    process: Process,
    board: Board,
    id: u64,
    next: u64,
    back: u64,
    pending: u64,
    len: u64,
    byte: int,
)
    requires
        can_happen(process, board, id, Stage::Streaming { next, back, pending }, Event::Block { len }),
        in_step(board, id, Stage::Streaming { next, back, pending }),
        wanted(board.positions(), board.ends(), byte),
    ensures
        ({
            let positions = moved(board, id, Stage::Streaming { next, back, pending }, Event::Block { len });
            wanted(positions, board.ends(), byte) || next <= byte < next + len
        }),
{
    let positions = moved(board, id, Stage::Streaming { next, back, pending }, Event::Block { len });
    let holder = choose|holder: u64| #[trigger] wants(board.positions(), board.ends(), holder, byte);
    if !(next <= byte < next + len) {
        assert(wants(positions, board.ends(), holder, byte));
    }
}

/// Once a connection that has gone past its end is taken off the board, no byte is lost. One
/// that reports on a block has; one whose answer was too short has not.
pub proof fn finish_loses_nothing(positions: Map<u64, u64>, ends: Map<u64, u64>, id: u64, byte: int)
    requires
        positions.dom().contains(id),
        positions[id] > ends[id],
        wanted(positions, ends, byte),
    ensures
        wanted(positions.remove(id), ends.remove(id), byte),
{
    let holder = choose|holder: u64| #[trigger] wants(positions, ends, holder, byte);
    assert(wants(positions.remove(id), ends.remove(id), holder, byte));
}

/// A connection asks again after a refusal until `max_retry` have come, and then gives up.
pub proof fn refused_connection_gives_up(
    process: Process,
    board: Board,
    id: u64,
    back: u64,
    after: Stage,
    action: Action,
)
    requires
        can_happen(process, board, id, Stage::Asking { back }, Event::Refused),
        is_step(process, board, id, Stage::Asking { back }, Event::Refused, after, action),
    ensures
        action is GiveUp <==> process.retry + 1 >= process.max_retry,
        action is Ask <==> process.retry + 1 < process.max_retry,
{
}

} // verus!
