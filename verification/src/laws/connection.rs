//! One connection: what it asks for, where it stores what comes, what it shows, and when it leaves.
use crate::board::Board;
use crate::number::{decimal, decimal_digits, decimal_reads_back, is_digit, u64_value};
use crate::process::{can_happen, range_header, Action, Event, Process, Stage};
use crate::text::{after_last, after_last_at, before_first, before_first_at};
use vstd::prelude::*;

verus! {

/// Whenever a step makes a connection ask, after a refusal or after a broken answer, it asks for
/// the bytes from its position on the board to its end on the board, and is then at the stage that
/// waits for them. It asks on no other event.
pub proof fn step_asks_for_what_is_left(id: u64, stage: Stage, event: Event)
    ensures
        forall|p: &mut Process, b: &mut Board, r: (Stage, Action)| #[trigger]
            call_ensures(Process::download, (p, b, id, stage, event), r) ==> {
                &&& r.1 matches Action::Ask { range } ==> {
                    &&& range@ == "bytes="@ + decimal(b.positions()[id] as nat) + "-"@ + decimal(b.ends()[id] as nat)
                    &&& r.0 == Stage::Asking { back: b.ends()[id] }
                    &&& event == Event::Refused || event == Event::Broken
                }
                &&& r.0 matches Stage::Asking { .. } ==> r.1 is Ask
            },
{
}

/// A connection that starts asks for the bytes from its position on the board to its end on the
/// board, and it starts where it has both.
pub proof fn start_asks_for_what_is_left(p: Process, b: Board, id: u64, r: Option<(Stage, String)>)
    requires
        call_ensures(Process::start, (&p, &b, id), r),
    ensures
        r is Some <==> b.positions().dom().contains(id) && b.ends().dom().contains(id),
        r matches Some((stage, range)) ==> {
            &&& range@ == "bytes="@ + decimal(b.positions()[id] as nat) + "-"@ + decimal(b.ends()[id] as nat)
            &&& stage == Stage::Asking { back: b.ends()[id] }
        },
{
}

/// From the text of a range both its ends can be read.
pub proof fn range_reads_back(next: u64, end: u64, r: String)
    requires
        call_ensures(range_header, (next, end), r),
    ensures
        r@.len() >= 6,
        r@.take(6) == "bytes="@,
        u64_value(before_first(r@.skip(6), '-')) == Some(next),
        u64_value(after_last(r@.skip(6), '-')) == Some(end),
{
    reveal_strlit("bytes=");
    reveal_strlit("-");
    decimal_digits(next as nat);
    decimal_digits(end as nat);
    decimal_reads_back(next);
    decimal_reads_back(end);
    let a = decimal(next as nat);
    let b = decimal(end as nat);
    let s = r@.skip(6);
    assert(r@.take(6) =~= "bytes="@);
    assert(s =~= a + "-"@ + b);
    assert forall|j: int| 0 <= j < a.len() implies s[j] != '-' by {
        assert(is_digit(a[j]));
    }
    before_first_at(s, '-', a.len() as int);
    assert(s.take(a.len() as int) =~= a);
    assert forall|j: int| a.len() + 1 <= j < s.len() implies s[j] != '-' by {
        assert(is_digit(b[j - a.len() - 1]));
    }
    after_last_at(s, '-', a.len() as int + 1);
    assert(s.skip(a.len() as int + 1) =~= b);
}

/// An answered connection stores from its position on, and has shown nothing; its bar goes from
/// there to the end that it asked for.
pub proof fn answer_is_stored_from_the_position_on(id: u64, back: u64)
    ensures
        forall|p: &mut Process, b: &mut Board, r: (Stage, Action)|
            can_happen(*p, *b, id, Stage::Asking { back }, Event::Answered) && #[trigger] call_ensures(
                Process::download,
                (p, b, id, Stage::Asking { back }, Event::Answered),
                r,
            ) ==> {
                &&& r.0 == Stage::Streaming { next: b.positions()[id], back, pending: 0 }
                &&& r.1 matches Action::Open { bytes } && b.positions()[id] + bytes == back
                &&& final(b).positions() == b.positions()
            },
{
}

/// A block moves its connection on by its length, unless the board was halted, and is stored right
/// behind the block before it.
pub proof fn blocks_follow_one_another(id: u64, next: u64, back: u64, pending: u64, len: u64)
    ensures
        forall|p: &mut Process, b: &mut Board, r: (Stage, Action)|
            can_happen(*p, *b, id, Stage::Streaming { next, back, pending }, Event::Block { len }) && #[trigger] call_ensures(
                Process::download,
                (p, b, id, Stage::Streaming { next, back, pending }, Event::Block { len }),
                r,
            ) ==> {
                &&& b.ends()[id] != 0 ==> final(b).positions() == b.positions().insert(id, (next + len) as u64)
                &&& b.ends()[id] == 0 ==> final(b).positions() == b.positions()
                &&& r.0 matches Stage::Streaming { next: then, back: seen, .. } ==> then == next + len && seen
                    == b.ends()[id]
            },
{
}

/// On a block, a connection goes on exactly while it has a byte of its range left, reports exactly
/// where it has none left, and leaves without a report exactly where the board was halted.
pub proof fn block_ends_a_connection_at_its_end(id: u64, next: u64, back: u64, pending: u64, len: u64)
    ensures
        forall|p: &mut Process, b: &mut Board, r: (Stage, Action)|
            can_happen(*p, *b, id, Stage::Streaming { next, back, pending }, Event::Block { len }) && #[trigger] call_ensures(
                Process::download,
                (p, b, id, Stage::Streaming { next, back, pending }, Event::Block { len }),
                r,
            ) ==> {
                &&& r.1 is Leave <==> b.ends()[id] == 0
                &&& r.1 is Report <==> b.ends()[id] != 0 && next + len > b.ends()[id]
                &&& r.1 is Read <==> b.ends()[id] != 0 && next + len <= b.ends()[id]
                &&& r.1 is Read <==> r.0 is Streaming
                &&& r.0 is Streaming || r.0 == Stage::Closed
            },
{
}

/// The bar shows each byte that is stored once: what is shown and what is held back are together
/// what was held back and what has come. Less than 128 KiB are held back, and nothing once a
/// connection reports.
pub proof fn bar_shows_each_byte_once(id: u64, next: u64, back: u64, pending: u64, len: u64)
    ensures
        forall|p: &mut Process, b: &mut Board, r: (Stage, Action)|
            can_happen(*p, *b, id, Stage::Streaming { next, back, pending }, Event::Block { len }) && #[trigger] call_ensures(
                Process::download,
                (p, b, id, Stage::Streaming { next, back, pending }, Event::Block { len }),
                r,
            ) ==> {
                &&& r.1 matches Action::Read { shown, .. } ==> (r.0 matches Stage::Streaming { pending: held, .. } && {
                    &&& shown + held == pending + len
                    &&& shown == 0 || held == 0
                    &&& held < 128 * 1024
                    &&& shown > 0 ==> shown >= 128 * 1024
                })
                &&& r.1 matches Action::Report { shown, .. } ==> shown == pending + len
            },
{
}

/// The bar gets a new length exactly where the end has moved since the connection last saw it, and
/// then goes from where the block was stored to the end.
pub proof fn bar_follows_the_end(id: u64, next: u64, back: u64, pending: u64, len: u64)
    ensures
        forall|p: &mut Process, b: &mut Board, r: (Stage, Action)|
            can_happen(*p, *b, id, Stage::Streaming { next, back, pending }, Event::Block { len }) && #[trigger] call_ensures(
                Process::download,
                (p, b, id, Stage::Streaming { next, back, pending }, Event::Block { len }),
                r,
            ) ==> {
                &&& r.1 matches Action::Read { length, .. } ==> (length is Some <==> b.ends()[id] != back) && (
                length matches Some(n) ==> next + n == b.ends()[id])
                &&& r.1 matches Action::Report { length, .. } ==> (length is Some <==> b.ends()[id] != back) && (
                length matches Some(n) ==> next + n == b.ends()[id])
            },
{
}

/// A connection whose answer is over reports, and one whose answer broke asks again; neither moves.
pub proof fn end_of_an_answer(id: u64, next: u64, back: u64, pending: u64, event: Event)
    requires
        event == Event::Ended || event == Event::Broken,
    ensures
        forall|p: &mut Process, b: &mut Board, r: (Stage, Action)| #[trigger]
            call_ensures(
                Process::download,
                (p, b, id, Stage::Streaming { next, back, pending }, event),
                r,
            ) ==> {
                &&& event == Event::Ended ==> r.1 == Action::Report { length: None, shown: 0 } && r.0 == Stage::Closed
                &&& event == Event::Broken ==> r.1 is Ask
                &&& final(b).positions() == b.positions()
            },
{
}

/// A refusal is counted, and ends the connection exactly where it is the `max_retry`th or a later
/// one; nothing else is counted. Neither moves the connection.
pub proof fn refusals_are_counted(id: u64, stage: Stage, event: Event)
    ensures
        forall|p: &mut Process, b: &mut Board, r: (Stage, Action)|
            can_happen(*p, *b, id, stage, event) && #[trigger] call_ensures(
                Process::download,
                (p, b, id, stage, event),
                r,
            ) ==> {
                &&& event == Event::Refused ==> {
                    &&& final(p).retry == p.retry + 1
                    &&& r.1 is GiveUp <==> final(p).retry >= p.max_retry
                    &&& r.1 is Ask <==> final(p).retry < p.max_retry
                    &&& final(b).positions() == b.positions()
                }
                &&& event != Event::Refused ==> final(p).retry == p.retry && !(r.1 is GiveUp)
            },
{
}

/// No step changes an end, what a connection asks for and how, or the position of another
/// connection; and none takes a connection off the board or puts one on it.
pub proof fn steps_keep_the_rest(id: u64, stage: Stage, event: Event, other: u64)
    requires
        other != id,
    ensures
        forall|p: &mut Process, b: &mut Board, r: (Stage, Action)|
            can_happen(*p, *b, id, stage, event) && #[trigger] call_ensures(
                Process::download,
                (p, b, id, stage, event),
                r,
            ) ==> {
                &&& final(b).ends() == b.ends()
                &&& final(b).positions().dom() == b.positions().dom()
                &&& final(b).positions()[other] == b.positions()[other]
                &&& final(p).url == p.url
                &&& final(p).mode == p.mode
                &&& final(p).file_path == p.file_path
                &&& final(p).max_retry == p.max_retry
            },
{
    assert forall|p: &mut Process, b: &mut Board, r: (Stage, Action)|
        can_happen(*p, *b, id, stage, event) && #[trigger] call_ensures(
            Process::download,
            (p, b, id, stage, event),
            r,
        ) implies final(b).positions().dom() == b.positions().dom() by {
        assert(final(b).positions().dom() =~= b.positions().dom());
    }
}

/// A step ends a connection exactly where it reports, leaves or gives up.
pub proof fn connection_is_closed_once_it_leaves(id: u64, stage: Stage, event: Event)
    ensures
        forall|p: &mut Process, b: &mut Board, r: (Stage, Action)|
            can_happen(*p, *b, id, stage, event) && #[trigger] call_ensures(
                Process::download,
                (p, b, id, stage, event),
                r,
            ) ==> (r.0 == Stage::Closed <==> r.1 is Report || r.1 is Leave || r.1 is GiveUp),
{
}

/// What can happen to a connection on the board: a refusal or an answer while it waits for one, and
/// a block, a break or an end while it reads. A block is fit where it is counted without overflow
/// and the end has not moved behind it.
pub proof fn events_fit(p: Process, b: Board, id: u64, stage: Stage, event: Event, r: bool)
    requires
        call_ensures(Process::fits, (&p, &b, id, stage, event), r),
    ensures
        !(b.positions().dom().contains(id) && b.ends().dom().contains(id)) ==> !r,
        stage == Stage::Closed ==> !r,
        b.positions().dom().contains(id) && b.ends().dom().contains(id) ==> {
            &&& stage matches Stage::Asking { back } ==> {
                &&& event == Event::Refused ==> r == (p.retry < 255)
                &&& event == Event::Answered ==> r == (b.positions()[id] <= back)
                &&& event != Event::Refused && event != Event::Answered ==> !r
            }
            &&& stage matches Stage::Streaming { next, back, pending } ==> {
                &&& event == Event::Ended || event == Event::Broken ==> r
                &&& event == Event::Refused || event == Event::Answered ==> !r
                &&& event matches Event::Block { len } ==> {
                    &&& next <= b.ends()[id] && next + len <= u64::MAX && pending + len <= u64::MAX ==> r
                    &&& b.ends()[id] == 0 && next + len <= u64::MAX && pending + len <= u64::MAX ==> r
                    &&& next > b.ends()[id] && b.ends()[id] != 0 && b.ends()[id] != back ==> !r
                    &&& next + len > u64::MAX || pending + len > u64::MAX ==> !r
                }
            }
        },
{
}

} // verus!
