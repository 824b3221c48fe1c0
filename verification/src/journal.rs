//! The retraction journal: an append-only log of inverse edits.
//!
//! Every mutation that a compile session performs on the code vector, on a
//! skeleton or on the code index appends one record describing the inverse
//! of that edit.  Replaying the log in reverse restores the state to the
//! moment the journal window was opened; `orig_code_extent` records the
//! length of the code vector at that moment, to which the vector is
//! truncated after replay.

use vstd::prelude::*;

use crate::instructions::{IndexPtr, IndexingCode, NextOrFail};
use crate::skeleton::{
    ClauseIndexInfo, CompilationTarget, OptArgIndexKey, PredicateKey, PredicateSkeleton,
};

verus! {

/// One inverse edit.  Each variant carries what is needed to restore the
/// state before a single primitive edit: positions are absolute positions in
/// the code vector, and the remaining payload is the overwritten content.
#[derive(Debug)]
pub enum RetractionRecord {
    /// `TryMeElse` at the position had the given offset.
    ModifiedTryMeElse(usize, usize),
    /// `RetryMeElse` at the position had the given offset.
    ModifiedRetryMeElse(usize, usize),
    /// The dynamic choice instruction at the position had `Next` of the
    /// given offset.
    ReplacedDynamicElseOffset(usize, usize),
    /// The dynamic choice instruction at the position had the given
    /// `NextOrFail` field.
    AppendedNextOrFail(usize, NextOrFail),
    /// The position held `TrustMe` of the given offset.
    AppendedTrustMe(usize, usize, bool),
    /// `RevJmpBy` at the position had the given offset.
    ModifiedRevJmpBy(usize, usize),
    /// The choice instruction at the position had the given offset.
    ReplacedChoiceOffset(usize, usize),
    /// The `SwitchOnTerm` at the position had the given variable
    /// fall-through.
    ReplacedSwitchOnTermVarIndex(usize, crate::instructions::IndexingCodePtr),
    /// An entry for the key was merged into the indexing table the key
    /// records, with the given target offset.
    AddedIndex(OptArgIndexKey, usize),
    /// The entry with the given target offset was removed from the indexing
    /// table at the position, under the given key.
    RemovedIndex(usize, OptArgIndexKey, usize),
    /// The position held the given indexing block.
    ReplacedIndexingLine(usize, IndexingCode),
    /// The clause entry and mirror location were removed from the skeleton
    /// of the (target, key) pair at the given clause position.
    RemovedSkeletonClause(CompilationTarget, PredicateKey, usize, ClauseIndexInfo, usize),
    /// The clause at the given position of the skeleton had the given start.
    SkeletonClauseStartReplaced(CompilationTarget, PredicateKey, usize, usize),
    /// The skeleton's clause list had the given length before new clauses
    /// were appended.
    SkeletonClauseTruncateBack(CompilationTarget, PredicateKey, usize),
    /// A clause entry and mirror location were appended to the skeleton.
    SkeletonClausePopBack(CompilationTarget, PredicateKey),
    /// A clause entry and mirror location were prepended to the skeleton.
    SkeletonClausePopFront(CompilationTarget, PredicateKey),
    /// The local skeleton's mirror-location list had the given length.
    SkeletonLocalClauseTruncateBack(CompilationTarget, CompilationTarget, PredicateKey, usize),
    /// A mirror location was appended to the local skeleton.
    SkeletonLocalClauseClausePopBack(CompilationTarget, CompilationTarget, PredicateKey),
    /// A mirror location was prepended to the local skeleton.
    SkeletonLocalClauseClausePopFront(CompilationTarget, CompilationTarget, PredicateKey),
    /// A fresh skeleton was registered for the (target, key) pair.
    AddedExtensiblePredicate(CompilationTarget, PredicateKey),
    /// A fresh local skeleton was registered under (local target, target,
    /// key).
    AddedLocalExtensiblePredicate(CompilationTarget, CompilationTarget, PredicateKey),
    /// An incremental append to the predicate began.
    AppendedExtensiblePredicate(CompilationTarget, PredicateKey),
    /// An incremental prepend to the predicate began.
    PrependedExtensiblePredicate(CompilationTarget, PredicateKey),
    /// The skeleton of the (target, key) pair was removed; it is retained
    /// here.
    RemovedSkeleton(CompilationTarget, PredicateKey, PredicateSkeleton),
    /// The code-index entry of the (target, key) pair held the given
    /// pointer.
    ReplacedCodeIndex(CompilationTarget, PredicateKey, IndexPtr),
}

/// The retraction journal of one load session.
#[derive(Debug)]
pub struct RetractionInfo {
    /// Length of the code vector when the journal window was opened.
    pub orig_code_extent: usize,
    /// Inverse edits, in edit order; replay is strict LIFO.
    pub records: Vec<RetractionRecord>,
}

impl RetractionInfo {
    /// Opens a journal window over a code vector of the given length.
    pub fn new(orig_code_extent: usize) -> (r: RetractionInfo)
        ensures
            r.orig_code_extent == orig_code_extent,
            r.records@ == Seq::<RetractionRecord>::empty(),
    {
        RetractionInfo { orig_code_extent, records: Vec::new() }
    }

    /// Appends one inverse edit.  Journal records MUST be appended before
    /// or at the same moment as the mutation they describe.
    pub fn push_record(&mut self, record: RetractionRecord)
        ensures
            final(self).orig_code_extent == old(self).orig_code_extent,
            final(self).records@ == old(self).records@.push(record),
    {
        self.records.push(record);
    }
}

} // verus!
