//! A download over one connection.
use crate::task::HttpMode;
use vstd::prelude::*;

verus! {

/// How long the bar is where the size is not known.
pub const UNKNOWN_LENGTH: u64 = 107374182400;

/// A download over one connection: how it is asked for, its size, where that is known, and how
/// many bytes have come.
#[derive(Clone, Copy, Debug, PartialEq, Eq, Structural)]
pub struct OneDownload {
    pub mode: HttpMode,
    pub size: Option<u64>,
    pub count: u64,
}

/// What is done once a block was written, or could not be.
#[derive(Clone, Copy, Debug, PartialEq, Eq, Structural)]
pub enum BlockStep {
    /// The next block is read after a pause.
    Pause,
    /// The next block is read.
    Next,
    /// The download fails.
    Fail,
}

/// What is done about a block: the download goes on until the answer is over. At a block that
/// cannot be written, one of known size pauses, and one of unknown size fails.
pub open spec fn step_of(size: Option<u64>, written: bool) -> BlockStep {
    match (size, written) {
        (_, true) => BlockStep::Next,
        (Some(_), false) => BlockStep::Pause,
        (None, false) => BlockStep::Fail,
    }
}

impl OneDownload {
    /// A download of which nothing has come.
    pub fn new(mode: HttpMode, size: Option<u64>) -> (r: OneDownload)
        ensures
            r == (OneDownload { mode, size, count: 0 }),
    {
        OneDownload { mode, size, count: 0 }
    }

    /// How long the bar is.
    pub fn length(&self) -> (r: u64)
        ensures
            r == (match self.size {
                Some(size) => size,
                None => UNKNOWN_LENGTH,
            }),
    {
        match self.size {
            Some(size) => size,
            None => UNKNOWN_LENGTH,
        }
    }

    /// Takes note of a block of `len` bytes, which was written or could not be. Says what is done
    /// next, and how many further bytes the bar shows: all of the block.
    pub fn block(&mut self, len: u64, written: bool) -> (r: (BlockStep, u64))
        requires
            old(self).count + len <= u64::MAX,
        ensures
            r == (step_of(old(self).size, written), len),
            final(self).count == old(self).count + len,
            final(self).mode == old(self).mode,
            final(self).size == old(self).size,
    {
        self.count = self.count + len;
        let step: BlockStep = match (self.size, written) {
            (_, true) => BlockStep::Next,
            (Some(_), false) => BlockStep::Pause,
            (None, false) => BlockStep::Fail,
        };
        (step, len)
    }

    /// How many bytes have come.
    pub fn total(&self) -> (r: u64)
        ensures
            r == self.count,
    {
        self.count
    }
}

/// How many bytes blocks of these lengths hold together.
pub open spec fn sum(lens: Seq<u64>) -> int
    decreases lens.len(),
{
    if lens.len() == 0 {
        0
    } else {
        sum(lens.drop_last()) + lens.last()
    }
}

/// `run` is what becomes of a download as blocks of these lengths come and are written.
pub open spec fn is_run(run: Seq<OneDownload>, lens: Seq<u64>) -> bool {
    &&& run.len() == lens.len() + 1
    &&& forall|i: int| 0 <= i < lens.len() ==> #[trigger] takes_block(run, lens, i)
}

/// From `run[i]` on comes a block of `lens[i]` bytes, which is written.
pub open spec fn takes_block(run: Seq<OneDownload>, lens: Seq<u64>, i: int) -> bool {
    &&& step_of(run[i].size, true) == BlockStep::Next
    &&& run[i + 1] == (OneDownload { count: (run[i].count + lens[i]) as u64, ..run[i] })
    &&& run[i].count + lens[i] <= u64::MAX
}

/// However a file comes in blocks, the download reads and counts all of them.
pub proof fn single_download_counts_all(run: Seq<OneDownload>, lens: Seq<u64>)
    requires
        is_run(run, lens),
        run[0].count == 0,
    ensures
        run.last().count == sum(lens),
        run.last().mode == run[0].mode,
        run.last().size == run[0].size,
    decreases lens.len(),
{
    if lens.len() > 0 {
        let n = lens.len() as int;
        let shorter = run.drop_last();
        assert forall|i: int| 0 <= i < n - 1 implies #[trigger] takes_block(shorter, lens.drop_last(), i) by {
            assert(takes_block(run, lens, i));
        }
        single_download_counts_all(shorter, lens.drop_last());
        assert(takes_block(run, lens, n - 1));
    }
}

} // verus!
