//! How a download is shared among connections, broken off and taken up again.
use crate::board::{
    apart, assigned, assigned_board_wants_file, assigned_board_wants_once, lags, saved_board_resumes, wanted,
    wants, Board, Lag, Sjson,
};
use crate::config::Config;
use crate::ranges::{block, block_end, block_start};
use crate::single::{BlockStep, OneDownload};
use crate::table::parsed_table;
use crate::task::{DownloadPlan, Reuse, ReusePlan, Task, TaskError};
use vstd::arithmetic::div_mod::lemma_fundamental_div_mod;
use vstd::prelude::*;

verus! {

/// Several connections share a download where the options force it, whatever else they say and
/// whatever the server offers; where they ask for one connection and force nothing, never; and else
/// exactly where the server offers ranges or further servers.
pub proof fn several_connections_exactly(config: Config, ranges: bool)
    ensures
        forall|t: &mut Task, r: Result<DownloadPlan, TaskError>| #[trigger]
            call_ensures(Task::download, (t, &config, ranges), r) ==> (r matches Ok(plan) ==> {
                &&& config.force_thread ==> plan.threads
                &&& config.one_download && !config.force_thread ==> !plan.threads
                &&& !config.one_download && ranges ==> plan.threads
                &&& !config.one_download && t.extend.seiki_enable ==> plan.threads
                &&& !config.force_thread && !ranges && !t.extend.seiki_enable ==> !plan.threads
            }),
{
}

/// A file that is cut on an empty board is shared out in full: each of its bytes, and no other, is
/// in the range of a connection, and none in the range of two. The connections are those from 0 up
/// to the number that the download has.
pub proof fn cut_file_is_shared_out(task: Task, size: u64, force_thread: bool)
    requires
        0 < size,
        0 < task.thread_count,
    ensures
        forall|b: &mut Board, r: Result<(), TaskError>|
            b.positions() == Map::<u64, u64>::empty() && b.ends() == Map::<u64, u64>::empty() && #[trigger] call_ensures(
                Task::thread_download,
                (&task, b, Some(size), force_thread),
                r,
            ) ==> {
                &&& r is Ok
                &&& forall|byte: int| #[trigger]
                    wanted(final(b).positions(), final(b).ends(), byte) <==> 0 <= byte < size
                &&& apart(final(b).positions(), final(b).ends())
                &&& forall|id: u64| #[trigger] final(b).positions().dom().contains(id) <==> id < task.thread_count
                &&& final(b).paired()
            },
{
    let count = task.thread_count;
    let positions = assigned(Map::empty(), count as nat, |i: int| block_start(size as int, count as int, i));
    let ends = assigned(Map::empty(), count as nat, |i: int| block_end(size as int, count as int, i));
    assert forall|byte: int| #[trigger] wanted(positions, ends, byte) <==> 0 <= byte < size by {
        assigned_board_wants_file(size, count, byte);
    }
    assert forall|a: u64, b: u64, byte: int| #[trigger]
        wants(positions, ends, a, byte) && #[trigger] wants(positions, ends, b, byte) implies a == b by {
        assigned_board_wants_once(size, count, a, b, byte);
    }
}

/// What is on the board under an id that no connection of the cut file has stays there.
pub proof fn cut_keeps_other_ids(task: Task, size: u64, force_thread: bool, other: u64)
    requires
        0 < size,
        task.thread_count <= other,
    ensures
        forall|b: &mut Board, r: Result<(), TaskError>| #[trigger]
            call_ensures(Task::thread_download, (&task, b, Some(size), force_thread), r) ==> {
                &&& final(b).positions().dom().contains(other) == b.positions().dom().contains(other)
                &&& final(b).ends().dom().contains(other) == b.ends().dom().contains(other)
                &&& b.positions().dom().contains(other) ==> final(b).positions()[other] == b.positions()[other]
                &&& b.ends().dom().contains(other) ==> final(b).ends()[other] == b.ends()[other]
            },
{
}

/// Without its size a file is not cut: the error tells whether several connections were forced, and
/// the board stays as it is.
pub proof fn file_without_size_is_not_cut(task: Task, force_thread: bool)
    ensures
        forall|b: &mut Board, r: Result<(), TaskError>| #[trigger]
            call_ensures(Task::thread_download, (&task, b, None, force_thread), r) ==> {
                &&& force_thread ==> r == Err::<(), TaskError>(TaskError::NoSizeForced)
                &&& !force_thread ==> r == Err::<(), TaskError>(TaskError::NoSize)
                &&& final(b).positions() == b.positions()
                &&& final(b).ends() == b.ends()
            },
{
}

/// The shares are even: the first connection takes one byte more than the size over the count, each
/// further one but the last just that, and the last one less, and what the division leaves over.
pub proof fn shares_are_even(size: u64, count: u32, i: u32, r: (u64, u64))
    requires
        0 < size,
        i < count,
        1 < count,
        call_ensures(block, (size, count, i), r),
    ensures
        i == 0 ==> r.0 == 0 && r.1 - r.0 == size / count as u64,
        0 < i < count - 1 ==> r.1 - r.0 + 1 == size / count as u64,
        i == count - 1 ==> r.1 - r.0 + 2 == size / count as u64 + size % count as u64,
{
    let step = size as int / count as int;
    lemma_fundamental_div_mod(size as int, count as int);
    assert((i + 1) * step == i * step + step) by (nonlinear_arith);
    assert(0 * step == 0) by (nonlinear_arith);
    if i == count - 1 {
        assert(count * step == i * step + step) by (nonlinear_arith)
            requires
                count == i + 1,
        ;
    }
}

/// One connection takes the whole file.
pub proof fn one_share_is_all(size: u64, r: (u64, u64))
    requires
        0 < size,
        call_ensures(block, (size, 1, 0), r),
    ensures
        r.0 == 0,
        r.1 == size - 1,
{
}

/// A record is taken up exactly where one is there and it is not forbidden.
pub proof fn record_is_taken_up_exactly(task: Task, saved: bool, r: bool)
    requires
        call_ensures(Task::takes_up, (&task, saved), r),
    ensures
        task.delete_stat ==> !r,
        !saved ==> !r,
        saved && !task.delete_stat ==> r,
{
}

/// What a broken download writes brings back its board where it is taken up on an empty one.
pub proof fn broken_download_comes_back(
    task: Task,
    other: Task,
    board: Board,
    stopped: Result<(String, Sjson), TaskError>,
)
    requires
        board.paired(),
        board.positions().dom().finite(),
        board.positions() != Map::<u64, u64>::empty(),
        call_ensures(Task::downed_for, (&task, &board), stopped),
    ensures
        stopped matches Ok((_, saved)) ==> forall|b: &mut Board, r: Result<(), TaskError>|
            b.positions() == Map::<u64, u64>::empty() && b.ends() == Map::<u64, u64>::empty() && #[trigger] call_ensures(
                Task::downloaded,
                (&other, b, &saved),
                r,
            ) ==> r is Ok && final(b).positions() == board.positions() && final(b).ends() == board.ends(),
{
    if let Ok((_, saved)) = stopped {
        saved_board_resumes(board, saved);
    }
}

/// A broken download writes its record where it is looked for when it is taken up.
pub proof fn record_is_found_again(
    task: Task,
    board: Board,
    stopped: Result<(String, Sjson), TaskError>,
    r: Result<String, TaskError>,
)
    requires
        call_ensures(Task::downed_for, (&task, &board), stopped),
        call_ensures(Task::record_name, (&task,), r),
    ensures
        match r {
            Ok(name) => stopped matches Ok((record, _)) && record@ == name@,
            Err(error) => stopped == Err::<(String, Sjson), TaskError>(error),
        },
{
}

/// A record is taken up exactly where both its texts are tables of as many connections, at least
/// one. Then each connection of the record is where the record says, and the others stay. A record
/// that is not taken up changes nothing, and the error tells what is wrong with it.
pub proof fn record_is_taken_up_whole(task: Task, saved: Sjson, id: u64)
    ensures
        forall|b: &mut Board, r: Result<(), TaskError>| #[trigger]
            call_ensures(Task::downloaded, (&task, b, &saved), r) ==> {
                let ato = parsed_table(saved.ato@);
                let eto = parsed_table(saved.eto@);
                &&& r is Ok <==> ato is Some && eto is Some && ato->0.dom().len() > 0 && ato->0.dom().len()
                    == eto->0.dom().len()
                &&& r is Ok ==> {
                    &&& ato->0.dom().contains(id) ==> final(b).positions().dom().contains(id)
                        && final(b).positions()[id] == ato->0[id]
                    &&& eto->0.dom().contains(id) ==> final(b).ends().dom().contains(id) && final(b).ends()[id]
                        == eto->0[id]
                    &&& !ato->0.dom().contains(id) ==> final(b).positions().dom().contains(id)
                        == b.positions().dom().contains(id)
                    &&& !eto->0.dom().contains(id) ==> final(b).ends().dom().contains(id) == b.ends().dom().contains(
                        id,
                    )
                    &&& !ato->0.dom().contains(id) && b.positions().dom().contains(id) ==> final(b).positions()[id]
                        == b.positions()[id]
                    &&& !eto->0.dom().contains(id) && b.ends().dom().contains(id) ==> final(b).ends()[id]
                        == b.ends()[id]
                }
                &&& r is Err ==> final(b).positions() == b.positions() && final(b).ends() == b.ends()
                &&& r matches Err(error) ==> {
                    &&& error == TaskError::Resume(crate::board::ResumeError::Positions) <==> ato is None
                    &&& error == TaskError::Resume(crate::board::ResumeError::Ends) <==> ato is Some && eto is None
                    &&& error == TaskError::Resume(crate::board::ResumeError::Mismatch) <==> ato is Some && eto is Some
                }
            },
{
}

/// Connections are used again exactly where the file has the least number of KiB for it, whatever
/// is left to download. Without the size of the file, it is the farthest end that counts.
pub proof fn reuse_goes_by_the_file(
    task: Task,
    board: Board,
    file_size: Option<u64>,
    least: u64,
    r: Option<ReusePlan>,
)
    requires
        call_ensures(Task::downloads, (&task, &board, file_size, least), r),
    ensures
        r matches Some(plan) ==> {
            &&& file_size matches Some(size) ==> (plan.reuse <==> size / 1024 >= least)
            &&& file_size is None ==> (plan.reuse <==> least == 0 || exists|id: u64| #[trigger]
                board.ends().dom().contains(id) && board.ends()[id] + 1 >= least * 1024)
        },
{
    if file_size is None && r is Some && r->0.reuse {
        let end = choose|end: u64| #[trigger]
            crate::board::is_farthest(board.ends(), end) && r->0.reuse == (end + 1 >= least * 1024);
        let id = choose|id: u64| #[trigger] board.ends().dom().contains(id) && board.ends()[id] == end;
        assert(board.ends().dom().contains(id));
    }
}

/// How connections are used again can be said of every board that holds one, each with its end,
/// where the least size fits. The share that is worth a new connection is measured on the longest
/// way that one of them has to go, and the new ids come after those of the cut file.
pub proof fn reuse_is_measured_on_the_longest_way(
    task: Task,
    board: Board,
    file_size: Option<u64>,
    least: u64,
    r: Option<ReusePlan>,
    id: u64,
)
    requires
        call_ensures(Task::downloads, (&task, &board, file_size, least), r),
        board.positions().dom().contains(id),
    ensures
        r is Some <==> (forall|other: u64| #[trigger]
            board.positions().dom().contains(other) ==> board.ends().dom().contains(other)) && least * 1024 <= u64::MAX,
        r matches Some(plan) ==> {
            &&& board.ends()[id] - board.positions()[id] <= plan.one_bytes
            &&& plan.one_bytes > 0 ==> exists|other: u64| #[trigger]
                board.positions().dom().contains(other) && board.ends()[other] - board.positions()[other]
                    == plan.one_bytes
            &&& plan.basic_id == task.thread_count + 1
        },
{
    if let Some(plan) = r {
        if plan.one_bytes > 0 {
            let lag = choose|lag: Lag| #[trigger]
                crate::board::is_slowest(board.positions(), board.ends(), lag) && plan.one_bytes == lag.end - lag.next;
            assert(board.positions().dom().contains(lag.id));
        }
        if board.positions()[id] < board.ends()[id] {
            assert(lags(board.positions(), board.ends(), id));
        }
    }
}

/// A board without connections gives no plan.
pub proof fn empty_board_gives_no_plan(
    task: Task,
    board: Board,
    file_size: Option<u64>,
    least: u64,
    r: Option<ReusePlan>,
)
    requires
        call_ensures(Task::downloads, (&task, &board, file_size, least), r),
        board.positions() == Map::<u64, u64>::empty(),
    ensures
        r is None,
{
}

/// A report takes its connection off the board and no other. The download is over exactly where none
/// is left.
pub proof fn report_takes_one_off(task: Task, id: u64, other: u64)
    ensures
        forall|b: &mut Board, r: Reuse| #[trigger]
            call_ensures(Task::resumd_thread, (&task, b, id), r) ==> {
                &&& !final(b).positions().dom().contains(id)
                &&& !final(b).ends().dom().contains(id)
                &&& other != id ==> {
                    &&& final(b).positions().dom().contains(other) == b.positions().dom().contains(other)
                    &&& final(b).ends().dom().contains(other) == b.ends().dom().contains(other)
                    &&& final(b).positions()[other] == b.positions()[other]
                    &&& final(b).ends()[other] == b.ends()[other]
                }
                &&& r == Reuse::Over <==> final(b).positions() == Map::<u64, u64>::empty()
            },
{
    assert forall|b: &mut Board, r: Reuse| #[trigger] call_ensures(Task::resumd_thread, (&task, b, id), r) implies (r
        == Reuse::Over <==> final(b).positions() == Map::<u64, u64>::empty()) by {
        if let Reuse::Slowest(lag) = r {
            assert(final(b).positions().dom().contains(lag.id));
        }
        if let Reuse::Held(lag) = r {
            assert(final(b).positions().dom().contains(lag.id));
        }
    }
}

/// After a report, help goes to a connection that has the longest way of all that are left, and
/// there is none to be helped exactly where all have come to their last byte. It gets help exactly
/// where the id of the helper is free and fits and its own new end would not be 0.
pub proof fn help_goes_to_the_slowest(task: Task, id: u64, other: u64)
    ensures
        forall|b: &mut Board, r: Reuse| #[trigger]
            call_ensures(Task::resumd_thread, (&task, b, id), r) && final(b).positions().dom().contains(other) ==> {
                let free = |lag: Lag|
                    lag.id + task.thread_count + 1 <= u64::MAX && !final(b).positions().dom().contains(
                        (lag.id + task.thread_count + 1) as u64,
                    ) && lag.next + (lag.end - lag.next) / 2 > 0;
                &&& r == Reuse::Wait ==> final(b).positions()[other] >= final(b).ends()[other]
                &&& r matches Reuse::Slowest(lag) ==> {
                    &&& final(b).positions().dom().contains(lag.id)
                    &&& lag.next == final(b).positions()[lag.id]
                    &&& lag.end == final(b).ends()[lag.id]
                    &&& lag.next < lag.end
                    &&& final(b).ends()[other] - final(b).positions()[other] <= lag.end - lag.next
                    &&& free(lag)
                }
                &&& r matches Reuse::Held(lag) ==> {
                    &&& final(b).positions().dom().contains(lag.id)
                    &&& lag.next == final(b).positions()[lag.id]
                    &&& lag.end == final(b).ends()[lag.id]
                    &&& lag.next < lag.end
                    &&& final(b).ends()[other] - final(b).positions()[other] <= lag.end - lag.next
                    &&& !free(lag)
                }
            },
{
    assert forall|b: &mut Board, r: Reuse| #[trigger]
        call_ensures(Task::resumd_thread, (&task, b, id), r) && final(b).positions().dom().contains(
            other,
        ) implies final(b).positions()[other] >= final(b).ends()[other] || lags(
        final(b).positions(),
        final(b).ends(),
        other,
    ) by {}
    assert forall|b: &mut Board, r: Reuse| #[trigger]
        call_ensures(Task::resumd_thread, (&task, b, id), r) && final(b).positions().dom().contains(
            other,
        ) implies final(b).ends().dom().contains(other) by {}
}

/// A split hands over the second half: the new connection takes over right behind the new end of the
/// old one, up to its old end, and neither has more than one byte more than the other.
pub proof fn split_halves_the_way(basic_id: u64, lag: Lag)
    requires
        lag.next < lag.end,
    ensures
        forall|b: &mut Board, r: u64| #[trigger]
            call_ensures(Board::split, (b, basic_id, lag), r) && b.positions().dom().contains(lag.id)
                && b.positions()[lag.id] == lag.next && r != lag.id ==> {
                let kept = final(b).ends()[lag.id] - final(b).positions()[lag.id] + 1;
                let given = final(b).ends()[r] - final(b).positions()[r] + 1;
                &&& r == basic_id + lag.id
                &&& final(b).positions()[lag.id] == lag.next
                &&& final(b).positions()[r] == final(b).ends()[lag.id] + 1
                &&& final(b).ends()[r] == lag.end
                &&& kept + given == lag.end - lag.next + 1
                &&& 0 <= kept - given <= 1
            },
{
}

/// A download over one connection asks as its task does, knows the size that is known, and has
/// nothing yet. Its bar is as long as the file.
pub proof fn single_download_starts(task: Task, size: Option<u64>, r: OneDownload, length: u64, total: u64)
    requires
        call_ensures(OneDownload::total, (&r,), total),
        call_ensures(Task::one_download, (&task, size), r),
        call_ensures(OneDownload::length, (&r,), length),
    ensures
        r.mode == task.mode,
        r.size == size,
        r.count == 0,
        total == 0,
        size matches Some(n) ==> length == n,
        size is None ==> length == 100 * 1024 * 1024 * 1024,
{
}

/// Every block of a download over one connection is counted and shown in full. One that is written
/// is followed by the next, whatever is known of the size; one that is not ends the download exactly
/// where the size is not known.
pub proof fn single_download_goes_on(len: u64, written: bool)
    ensures
        forall|d: &mut OneDownload, r: (BlockStep, u64)| #[trigger]
            call_ensures(OneDownload::block, (d, len, written), r) ==> {
                &&& written <==> r.0 == BlockStep::Next
                &&& !written && d.size is Some <==> r.0 == BlockStep::Pause
                &&& !written && d.size is None <==> r.0 == BlockStep::Fail
                &&& r.1 == len
                &&& final(d).count == d.count + len
                &&& forall|total: u64| #[trigger]
                    call_ensures(OneDownload::total, (&*final(d),), total) ==> total == d.count + len
                &&& final(d).size == d.size
                &&& final(d).mode == d.mode
            },
{
}

} // verus!
