//! Choosing what a run works on, and tallying what happened to each cell of
//! one image.
use vstd::prelude::*;

use crate::grid::SkipReason;

verus! {

/// What a run works on: one image file, or every entry of a directory.
#[derive(Debug)]
pub enum Source {
    File(String),
    Directory(String),
}

/// A run given neither or both of a file and a directory.
#[derive(Debug, Clone, Copy, PartialEq, Eq, Structural)]
pub enum UsageError {
    /// A file and a directory were both given.
    BothGiven,
    /// Neither a file nor a directory was given.
    NoneGiven,
}

/// Picks the source of a run from the file and the directory given: exactly
/// one of them must be present.
pub fn select_source(file: Option<String>, directory: Option<String>) -> (r: Result<Source, UsageError>)
    ensures
        match (file, directory) {
            (Some(f), None) => r matches Ok(Source::File(p)) && p@ == f@,
            (None, Some(d)) => r matches Ok(Source::Directory(p)) && p@ == d@,
            (Some(_), Some(_)) => r matches Err(UsageError::BothGiven),
            (None, None) => r matches Err(UsageError::NoneGiven),
        },
{
    match (file, directory) {
        (Some(f), None) => Ok(Source::File(f)),
        (None, Some(d)) => Ok(Source::Directory(d)),
        (Some(_), Some(_)) => Err(UsageError::BothGiven),
        (None, None) => Err(UsageError::NoneGiven),
    }
}

/// What became of one cell of an image.
#[derive(Debug, Clone, Copy, PartialEq, Eq, Structural)]
pub enum CellStatus {
    Written,
    Skipped(SkipReason),
    WriteFailed,
}

/// The tally of one image's cells.
#[derive(Debug)]
pub struct FileReport {
    pub written: u64,
    pub skipped: u64,
    /// Ordinals of the cells whose file could not be written, in order.
    pub failed: Vec<u64>,
}

/// How many of `s` were written.
pub open spec fn count_written(s: Seq<CellStatus>) -> nat
    decreases s.len(),
{
    if s.len() == 0 {
        0
    } else {
        count_written(s.drop_last()) + if s.last() is Written {
            1nat
        } else {
            0nat
        }
    }
}

/// How many of `s` were skipped.
pub open spec fn count_skipped(s: Seq<CellStatus>) -> nat
    decreases s.len(),
{
    if s.len() == 0 {
        0
    } else {
        count_skipped(s.drop_last()) + if s.last() is Skipped {
            1nat
        } else {
            0nat
        }
    }
}

/// The positions in `s` of the cells whose write failed, in order.
pub open spec fn failed_positions(s: Seq<CellStatus>) -> Seq<u64>
    decreases s.len(),
{
    if s.len() == 0 {
        seq![]
    } else if s.last() is WriteFailed {
        failed_positions(s.drop_last()).push((s.len() - 1) as u64)
    } else {
        failed_positions(s.drop_last())
    }
}

proof fn lemma_counts_bounded(s: Seq<CellStatus>)
    ensures
        count_written(s) + count_skipped(s) + failed_positions(s).len() == s.len(),
    decreases s.len(),
{
    if s.len() > 0 {
        lemma_counts_bounded(s.drop_last());
    }
}

/// Tallies the statuses of an image's cells, listed by ordinal: the cell of
/// ordinal `k` is at position `k`.
pub fn summarize(statuses: &Vec<CellStatus>) -> (r: FileReport)
    ensures
        r.written == count_written(statuses@),
        r.skipped == count_skipped(statuses@),
        r.failed@ == failed_positions(statuses@),
{
    let mut written: u64 = 0;
    let mut skipped: u64 = 0;
    let mut failed: Vec<u64> = Vec::new();
    let n = statuses.len();
    let mut i: usize = 0;
    while i < n
        invariant
            n == statuses@.len(),
            i <= n,
            written == count_written(statuses@.take(i as int)),
            skipped == count_skipped(statuses@.take(i as int)),
            failed@ == failed_positions(statuses@.take(i as int)),
        decreases n - i,
    {
        let ghost prev = statuses@.take(i as int);
        let ghost next = statuses@.take(i + 1);
        proof {
            assert(next.drop_last() =~= prev);
            lemma_counts_bounded(next);
        }
        match statuses[i] {
            CellStatus::Written => {
                written = written + 1;
            },
            CellStatus::Skipped(_) => {
                skipped = skipped + 1;
            },
            CellStatus::WriteFailed => {
                failed.push(i as u64);
            },
        }
        i = i + 1;
    }
    assert(statuses@.take(n as int) =~= statuses@);
    FileReport { written, skipped, failed }
}

} // verus!
