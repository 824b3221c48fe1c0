//! The machine state that the compiler driver edits: the code vector, the
//! predicate skeletons, their local shadows, the code index and the
//! retraction journal, together with the retract-layer rewrites.

use vstd::prelude::*;
use vstd::pervasive::unreached;

use crate::chains::{
    blunt_leading_choice_instr, blunt_line, blunt_records, blunt_result, blunt_ret,
    blunt_terminates, thread_line, thread_records, thread_result, thread_terminates,
};
use crate::instructions::{
    cv, group_cv, ChoiceInstruction, IndexPtr, Line, LineV, NextOrFail,
};
use crate::journal::{RetractionInfo, RetractionRecord};
use crate::locs::locs_remove;
use crate::skeleton::{
    ClauseIndexInfo, CompilationTarget, PredicateKey, PredicateSkeleton,
};

verus! {

broadcast use group_cv;

/// A predicate skeleton registered under its compilation target and key.
#[derive(Debug)]
pub struct SkeletonEntry {
    pub target: CompilationTarget,
    pub key: PredicateKey,
    pub skeleton: PredicateSkeleton,
}

/// A local shadow skeleton: the clauses that the source currently being
/// loaded under `local_target` contributed to the predicate stored under
/// `target`.
#[derive(Debug)]
pub struct LocalSkeletonEntry {
    pub local_target: CompilationTarget,
    pub target: CompilationTarget,
    pub key: PredicateKey,
    pub skeleton: PredicateSkeleton,
}

/// A code-index slot: the entry point registered for a predicate.
#[derive(Clone, Copy, Debug, PartialEq, Eq, Structural)]
pub struct CodeIndexEntry {
    pub target: CompilationTarget,
    pub key: PredicateKey,
    pub ptr: IndexPtr,
}

/// The first table position registered for (target, key).
pub open spec fn skel_find(
    s: Seq<SkeletonEntry>,
    target: CompilationTarget,
    key: PredicateKey,
) -> Option<int>
    decreases s.len(),
{
    if s.len() == 0 {
        None
    } else if s[0].target == target && s[0].key == key {
        Some(0)
    } else {
        match skel_find(s.drop_first(), target, key) {
            Some(i) => Some(i + 1),
            None => None,
        }
    }
}

/// A found position indexes the matching entry, and nothing before it
/// matches.
pub proof fn lemma_skel_find(s: Seq<SkeletonEntry>, target: CompilationTarget, key: PredicateKey)
    ensures
        match skel_find(s, target, key) {
            Some(i) => 0 <= i < s.len() && s[i].target == target && s[i].key == key && forall|
                j: int,
            | 0 <= j < i ==> !(s[j].target == target && s[j].key == key),
            None => forall|j: int|
                0 <= j < s.len() ==> !(s[j].target == target && s[j].key == key),
        },
    decreases s.len(),
{
    if s.len() > 0 && !(s[0].target == target && s[0].key == key) {
        lemma_skel_find(s.drop_first(), target, key);
        match skel_find(s, target, key) {
            Some(i) => {
                assert(s.drop_first()[i - 1] == s[i]);
                assert forall|j: int|
                    0 <= j < i implies !(s[j].target == target && s[j].key == key) by {
                    if j >= 1 {
                        assert(s.drop_first()[j - 1] == s[j]);
                    }
                }
            },
            None => {
                assert forall|j: int|
                    0 <= j < s.len() implies !(s[j].target == target && s[j].key == key) by {
                    if j >= 1 {
                        assert(s.drop_first()[j - 1] == s[j]);
                    }
                }
            },
        }
    }
}

/// A table whose entries differ from another's only at a position that
/// still matches the looked-up pair is found at the same position.
pub proof fn lemma_skel_find_stable(
    s0: Seq<SkeletonEntry>,
    s1: Seq<SkeletonEntry>,
    target: CompilationTarget,
    key: PredicateKey,
    mi: int,
)
    requires
        skel_find(s0, target, key) == Some(mi),
        s1.len() == s0.len(),
        forall|j: int| 0 <= j < s0.len() && j != mi ==> s1[j] == s0[j],
        s1[mi].target == target,
        s1[mi].key == key,
    ensures
        skel_find(s1, target, key) == Some(mi),
{
    lemma_skel_find(s0, target, key);
    lemma_skel_find(s1, target, key);
    match skel_find(s1, target, key) {
        None => {
            assert(s1[mi].target == target && s1[mi].key == key);
            assert(false);
        },
        Some(i) => {
            if i < mi {
                assert(s1[i] == s0[i]);
                assert(false);
            } else if i > mi {
                assert(s1[mi].target == target && s1[mi].key == key);
                assert(false);
            }
        },
    }
}

/// A table whose entries differ from another's only at a position that
/// does not match the looked-up pair is found at the same position.
pub proof fn lemma_skel_find_stable_other(
    s0: Seq<SkeletonEntry>,
    s1: Seq<SkeletonEntry>,
    target: CompilationTarget,
    key: PredicateKey,
    si: int,
    mi: int,
)
    requires
        skel_find(s0, target, key) == Some(si),
        s1.len() == s0.len(),
        forall|j: int| 0 <= j < s0.len() && j != mi ==> s1[j] == s0[j],
        si != mi,
        0 <= mi < s1.len(),
        !(s1[mi].target == target && s1[mi].key == key),
    ensures
        skel_find(s1, target, key) == Some(si),
{
    lemma_skel_find(s0, target, key);
    lemma_skel_find(s1, target, key);
    match skel_find(s1, target, key) {
        None => {
            assert(s1[si] == s0[si]);
            assert(false);
        },
        Some(i) => {
            if i < si {
                if i != mi {
                    assert(s1[i] == s0[i]);
                }
                assert(false);
            } else if i > si {
                assert(s1[si] == s0[si]);
                assert(false);
            }
        },
    }
}

/// The first local-shadow position registered for (local, target, key).
pub open spec fn local_find(
    s: Seq<LocalSkeletonEntry>,
    local_target: CompilationTarget,
    target: CompilationTarget,
    key: PredicateKey,
) -> Option<int>
    decreases s.len(),
{
    if s.len() == 0 {
        None
    } else if s[0].local_target == local_target && s[0].target == target && s[0].key == key {
        Some(0)
    } else {
        match local_find(s.drop_first(), local_target, target, key) {
            Some(i) => Some(i + 1),
            None => None,
        }
    }
}

/// A found position indexes the matching local shadow.
pub proof fn lemma_local_find(
    s: Seq<LocalSkeletonEntry>,
    local_target: CompilationTarget,
    target: CompilationTarget,
    key: PredicateKey,
)
    ensures
        match local_find(s, local_target, target, key) {
            Some(i) => 0 <= i < s.len() && s[i].local_target == local_target && s[i].target
                == target && s[i].key == key && forall|j: int|
                0 <= j < i ==> !(s[j].local_target == local_target && s[j].target == target
                    && s[j].key == key),
            None => forall|j: int|
                0 <= j < s.len() ==> !(s[j].local_target == local_target && s[j].target == target
                    && s[j].key == key),
        },
    decreases s.len(),
{
    if s.len() > 0 && !(s[0].local_target == local_target && s[0].target == target && s[0].key
        == key) {
        lemma_local_find(s.drop_first(), local_target, target, key);
        match local_find(s, local_target, target, key) {
            Some(i) => {
                assert(s.drop_first()[i - 1] == s[i]);
                assert forall|j: int|
                    0 <= j < i implies !(s[j].local_target == local_target && s[j].target
                    == target && s[j].key == key) by {
                    if j >= 1 {
                        assert(s.drop_first()[j - 1] == s[j]);
                    }
                }
            },
            None => {
                assert forall|j: int|
                    0 <= j < s.len() implies !(s[j].local_target == local_target && s[j].target
                    == target && s[j].key == key) by {
                    if j >= 1 {
                        assert(s.drop_first()[j - 1] == s[j]);
                    }
                }
            },
        }
    }
}

/// The first code-index position registered for (target, key).
pub open spec fn ci_find(
    s: Seq<CodeIndexEntry>,
    target: CompilationTarget,
    key: PredicateKey,
) -> Option<int>
    decreases s.len(),
{
    if s.len() == 0 {
        None
    } else if s[0].target == target && s[0].key == key {
        Some(0)
    } else {
        match ci_find(s.drop_first(), target, key) {
            Some(i) => Some(i + 1),
            None => None,
        }
    }
}

/// A found position indexes the matching slot.
pub proof fn lemma_ci_find(s: Seq<CodeIndexEntry>, target: CompilationTarget, key: PredicateKey)
    ensures
        match ci_find(s, target, key) {
            Some(i) => 0 <= i < s.len() && s[i].target == target && s[i].key == key && forall|
                j: int,
            | 0 <= j < i ==> !(s[j].target == target && s[j].key == key),
            None => forall|j: int|
                0 <= j < s.len() ==> !(s[j].target == target && s[j].key == key),
        },
    decreases s.len(),
{
    if s.len() > 0 && !(s[0].target == target && s[0].key == key) {
        lemma_ci_find(s.drop_first(), target, key);
        match ci_find(s, target, key) {
            Some(i) => {
                assert(s.drop_first()[i - 1] == s[i]);
                assert forall|j: int|
                    0 <= j < i implies !(s[j].target == target && s[j].key == key) by {
                    if j >= 1 {
                        assert(s.drop_first()[j - 1] == s[j]);
                    }
                }
            },
            None => {
                assert forall|j: int|
                    0 <= j < s.len() implies !(s[j].target == target && s[j].key == key) by {
                    if j >= 1 {
                        assert(s.drop_first()[j - 1] == s[j]);
                    }
                }
            },
        }
    }
}

/// Finds a skeleton's table position.
pub fn skeleton_pos(
    s: &Vec<SkeletonEntry>,
    target: CompilationTarget,
    key: PredicateKey,
) -> (r: Option<usize>)
    ensures
        match r {
            Some(i) => skel_find(s@, target, key) == Some(i as int),
            None => skel_find(s@, target, key) is None,
        },
{
    proof {
        lemma_skel_find(s@, target, key);
    }
    let mut idx: usize = 0;
    while idx < s.len()
        invariant
            idx <= s@.len(),
            forall|j: int| 0 <= j < idx ==> !(s@[j].target == target && s@[j].key == key),
        decreases s@.len() - idx,
    {
        if s[idx].target == target && s[idx].key == key {
            proof {
                lemma_skel_find(s@, target, key);
            }
            return Some(idx);
        }
        idx = idx + 1;
    }
    None
}

/// Finds a local shadow's table position.
pub fn local_skeleton_pos(
    s: &Vec<LocalSkeletonEntry>,
    local_target: CompilationTarget,
    target: CompilationTarget,
    key: PredicateKey,
) -> (r: Option<usize>)
    ensures
        match r {
            Some(i) => local_find(s@, local_target, target, key) == Some(i as int),
            None => local_find(s@, local_target, target, key) is None,
        },
{
    proof {
        lemma_local_find(s@, local_target, target, key);
    }
    let mut idx: usize = 0;
    while idx < s.len()
        invariant
            idx <= s@.len(),
            forall|j: int|
                0 <= j < idx ==> !(s@[j].local_target == local_target && s@[j].target == target
                    && s@[j].key == key),
        decreases s@.len() - idx,
    {
        if s[idx].local_target == local_target && s[idx].target == target && s[idx].key == key {
            proof {
                lemma_local_find(s@, local_target, target, key);
            }
            return Some(idx);
        }
        idx = idx + 1;
    }
    None
}

/// Finds a code-index slot's table position.
pub fn code_index_pos(
    s: &Vec<CodeIndexEntry>,
    target: CompilationTarget,
    key: PredicateKey,
) -> (r: Option<usize>)
    ensures
        match r {
            Some(i) => ci_find(s@, target, key) == Some(i as int),
            None => ci_find(s@, target, key) is None,
        },
{
    proof {
        lemma_ci_find(s@, target, key);
    }
    let mut idx: usize = 0;
    while idx < s.len()
        invariant
            idx <= s@.len(),
            forall|j: int| 0 <= j < idx ==> !(s@[j].target == target && s@[j].key == key),
        decreases s@.len() - idx,
    {
        if s[idx].target == target && s[idx].key == key {
            proof {
                lemma_ci_find(s@, target, key);
            }
            return Some(idx);
        }
        idx = idx + 1;
    }
    None
}

/// Acquires the code-index slot for (target, key), registering an
/// `Undefined` slot when none exists; returns its table position.
pub fn get_or_insert_code_index(
    code_index: &mut Vec<CodeIndexEntry>,
    target: CompilationTarget,
    key: PredicateKey,
) -> (r: usize)
    ensures
        match ci_find(old(code_index)@, target, key) {
            Some(i) => final(code_index)@ == old(code_index)@ && r == i,
            None => {
                &&& final(code_index)@ == old(code_index)@.push(
                    CodeIndexEntry { target, key, ptr: IndexPtr::Undefined },
                )
                &&& r == old(code_index)@.len()
            },
        },
        r < final(code_index)@.len(),
        final(code_index)@[r as int].target == target,
        final(code_index)@[r as int].key == key,
{
    proof {
        lemma_ci_find(code_index@, target, key);
    }
    match code_index_pos(code_index, target, key) {
        Some(i) => i,
        None => {
            let r = code_index.len();
            code_index.push(CodeIndexEntry { target, key, ptr: IndexPtr::Undefined });
            r
        },
    }
}

/// Sets the code-index slot at `ci_pos` to `ptr`, journalling the slot's
/// old pointer under its target and key.
pub fn set_code_index(
    retraction_info: &mut RetractionInfo,
    code_index: &mut Vec<CodeIndexEntry>,
    ci_pos: usize,
    ptr: IndexPtr,
)
    requires
        ci_pos < old(code_index)@.len(),
    ensures
        final(code_index)@ == old(code_index)@.update(
            ci_pos as int,
            CodeIndexEntry {
                target: old(code_index)@[ci_pos as int].target,
                key: old(code_index)@[ci_pos as int].key,
                ptr,
            },
        ),
        final(retraction_info).records@ == old(retraction_info).records@.push(
            RetractionRecord::ReplacedCodeIndex(
                old(code_index)@[ci_pos as int].target,
                old(code_index)@[ci_pos as int].key,
                old(code_index)@[ci_pos as int].ptr,
            ),
        ),
        final(retraction_info).orig_code_extent == old(retraction_info).orig_code_extent,
{
    let entry = code_index[ci_pos];
    retraction_info.push_record(
        RetractionRecord::ReplacedCodeIndex(entry.target, entry.key, entry.ptr),
    );
    code_index[ci_pos] = CodeIndexEntry { target: entry.target, key: entry.key, ptr };
}

/// Removes the clause entry and its `$clause/2` mirror location at
/// `target_pos` from the skeleton, decrements the assert margin when the
/// clause stood below it, and journals the removed records; returns the
/// mirror location.
pub fn delete_from_skeleton(
    compilation_target: CompilationTarget,
    key: PredicateKey,
    skeleton: &mut PredicateSkeleton,
    target_pos: usize,
    retraction_info: &mut RetractionInfo,
) -> (r: usize)
    requires
        target_pos < old(skeleton)@.clauses.len(),
        target_pos < old(skeleton)@.clause_clause_locs.len(),
    ensures
        final(skeleton)@.clauses == old(skeleton)@.clauses.remove(target_pos as int),
        final(skeleton)@.clause_clause_locs == old(skeleton)@.clause_clause_locs.remove(
            target_pos as int,
        ),
        final(skeleton)@.clause_assert_margin == if (target_pos as int) < old(
            skeleton,
        )@.clause_assert_margin {
            old(skeleton)@.clause_assert_margin - 1
        } else {
            old(skeleton)@.clause_assert_margin as int
        },
        final(skeleton)@.is_dynamic == old(skeleton)@.is_dynamic,
        final(skeleton)@.is_multifile == old(skeleton)@.is_multifile,
        r == old(skeleton)@.clause_clause_locs[target_pos as int],
        final(retraction_info).records@ == old(retraction_info).records@.push(
            RetractionRecord::RemovedSkeletonClause(
                compilation_target,
                key,
                target_pos,
                old(skeleton)@.clauses[target_pos as int],
                r,
            ),
        ),
        final(retraction_info).orig_code_extent == old(retraction_info).orig_code_extent,
{
    let clause_index_info = skeleton.clauses.remove(target_pos);
    let clause_clause_loc = locs_remove(&mut skeleton.clause_clause_locs, target_pos);
    if target_pos < skeleton.clause_assert_margin {
        skeleton.clause_assert_margin = skeleton.clause_assert_margin - 1;
    }
    retraction_info.push_record(
        RetractionRecord::RemovedSkeletonClause(
            compilation_target,
            key,
            target_pos,
            clause_index_info,
            clause_clause_loc,
        ),
    );
    clause_clause_loc
}

/// Deletes the clause from the skeleton and, when the retract produced a
/// new entry point, registers it in the code-index slot at `ci_pos`;
/// returns the clause's mirror location.
pub fn finalize_retract(
    key: PredicateKey,
    compilation_target: CompilationTarget,
    skeleton: &mut PredicateSkeleton,
    code_index: &mut Vec<CodeIndexEntry>,
    ci_pos: usize,
    target_pos: usize,
    index_ptr_opt: Option<IndexPtr>,
    retraction_info: &mut RetractionInfo,
) -> (r: usize)
    requires
        target_pos < old(skeleton)@.clauses.len(),
        target_pos < old(skeleton)@.clause_clause_locs.len(),
        ci_pos < old(code_index)@.len(),
    ensures
        final(skeleton)@.clauses == old(skeleton)@.clauses.remove(target_pos as int),
        final(skeleton)@.clause_clause_locs == old(skeleton)@.clause_clause_locs.remove(
            target_pos as int,
        ),
        final(skeleton)@.clause_assert_margin == if (target_pos as int) < old(
            skeleton,
        )@.clause_assert_margin {
            old(skeleton)@.clause_assert_margin - 1
        } else {
            old(skeleton)@.clause_assert_margin as int
        },
        final(skeleton)@.is_dynamic == old(skeleton)@.is_dynamic,
        final(skeleton)@.is_multifile == old(skeleton)@.is_multifile,
        r == old(skeleton)@.clause_clause_locs[target_pos as int],
        match index_ptr_opt {
            Some(ptr) => final(code_index)@ == old(code_index)@.update(
                ci_pos as int,
                CodeIndexEntry {
                    target: old(code_index)@[ci_pos as int].target,
                    key: old(code_index)@[ci_pos as int].key,
                    ptr,
                },
            ),
            None => final(code_index)@ == old(code_index)@,
        },
        final(retraction_info).records@ == old(retraction_info).records@.push(
            RetractionRecord::RemovedSkeletonClause(
                compilation_target,
                key,
                target_pos,
                old(skeleton)@.clauses[target_pos as int],
                r,
            ),
        ) + match index_ptr_opt {
            Some(_) => seq![
                RetractionRecord::ReplacedCodeIndex(
                    old(code_index)@[ci_pos as int].target,
                    old(code_index)@[ci_pos as int].key,
                    old(code_index)@[ci_pos as int].ptr,
                ),
            ],
            None => Seq::<RetractionRecord>::empty(),
        },
        final(retraction_info).orig_code_extent == old(retraction_info).orig_code_extent,
{
    let clause_clause_loc = delete_from_skeleton(
        compilation_target,
        key,
        skeleton,
        target_pos,
        retraction_info,
    );
    match index_ptr_opt {
        Some(index_ptr) => {
            set_code_index(retraction_info, code_index, ci_pos, index_ptr);
            proof {
                assert(retraction_info.records@ =~= old(retraction_info).records@.push(
                    RetractionRecord::RemovedSkeletonClause(
                        compilation_target,
                        key,
                        target_pos,
                        old(skeleton)@.clauses[target_pos as int],
                        clause_clause_loc,
                    ),
                ) + seq![
                    RetractionRecord::ReplacedCodeIndex(
                        old(code_index)@[ci_pos as int].target,
                        old(code_index)@[ci_pos as int].key,
                        old(code_index)@[ci_pos as int].ptr,
                    ),
                ]);
            }
        },
        None => {
            proof {
                assert(retraction_info.records@ =~= retraction_info.records@ + Seq::<
                    RetractionRecord,
                >::empty());
            }
        },
    }
    clause_clause_loc
}

/// Whether `remove_non_leading_clause` accepts the code: the removed
/// clause's own choice instruction is a middle or tail link, and for a
/// middle link the preceding clause's chain can be threaded past it.
pub open spec fn rnl_applicable(
    code: Seq<LineV>,
    preceding_loc: usize,
    removed_loc: usize,
) -> bool {
    &&& (removed_loc as int) < code.len()
    &&& match code[removed_loc as int] {
        LineV::Choice(ChoiceInstruction::RetryMeElse(o)) => removed_loc + o < code.len()
            && thread_terminates(code, removed_loc + o, preceding_loc as int),
        LineV::Choice(ChoiceInstruction::TrustMe(_)) => {
            &&& (preceding_loc as int) < code.len()
            &&& (code[preceding_loc as int] matches LineV::Choice(
                ChoiceInstruction::RetryMeElse(_),
            ) || code[preceding_loc as int] matches LineV::Choice(
                ChoiceInstruction::TryMeElse(_),
            ))
        },
        _ => false,
    }
}

/// The code after a non-leading clause leaves its chain.
pub open spec fn rnl_code(code: Seq<LineV>, preceding_loc: usize, removed_loc: usize) -> Seq<
    LineV,
> {
    match code[removed_loc as int] {
        LineV::Choice(ChoiceInstruction::RetryMeElse(o)) => code.update(
            thread_result(code, removed_loc + o, preceding_loc as int),
            thread_line(
                code,
                removed_loc + o,
                thread_result(code, removed_loc + o, preceding_loc as int),
            ),
        ),
        _ => match code[preceding_loc as int] {
            LineV::Choice(ChoiceInstruction::RetryMeElse(_)) => code.update(
                preceding_loc as int,
                LineV::Choice(ChoiceInstruction::TrustMe(0)),
            ),
            _ => code.update(
                preceding_loc as int,
                LineV::Choice(ChoiceInstruction::TryMeElse(0)),
            ),
        },
    }
}

/// The journal records of `remove_non_leading_clause`.
pub open spec fn rnl_records(code: Seq<LineV>, preceding_loc: usize, removed_loc: usize) -> Seq<
    RetractionRecord,
> {
    match code[removed_loc as int] {
        LineV::Choice(ChoiceInstruction::RetryMeElse(o)) => thread_records(
            code,
            thread_result(code, removed_loc + o, preceding_loc as int),
        ),
        _ => match code[preceding_loc as int] {
            LineV::Choice(ChoiceInstruction::RetryMeElse(o)) => seq![
                RetractionRecord::ModifiedRetryMeElse(preceding_loc, o),
            ],
            LineV::Choice(ChoiceInstruction::TryMeElse(o)) => seq![
                RetractionRecord::ModifiedTryMeElse(preceding_loc, o),
            ],
            _ => Seq::empty(),
        },
    }
}

/// The new entry point that `remove_non_leading_clause` reports, if any.
pub open spec fn rnl_result(code: Seq<LineV>, preceding_loc: usize, removed_loc: usize) -> Option<
    IndexPtr,
> {
    match code[removed_loc as int] {
        LineV::Choice(ChoiceInstruction::RetryMeElse(_)) => None,
        _ => match code[preceding_loc as int] {
            LineV::Choice(ChoiceInstruction::TryMeElse(_)) => Some(
                IndexPtr::Index((preceding_loc + 1) as usize),
            ),
            _ => None,
        },
    }
}

/// Unlinks a non-leading clause from its chain: a middle clause is skipped
/// by threading its predecessor to its successor; a tail clause makes its
/// predecessor the new tail — and when that predecessor led the chain, its
/// line past the now-stub `TryMeElse` becomes the predicate's new entry
/// point.
pub fn remove_non_leading_clause(
    code: &mut Vec<Line>,
    preceding_choice_instr_loc: usize,
    non_indexed_choice_instr_loc: usize,
    retraction_info: &mut RetractionInfo,
) -> (r: Option<IndexPtr>)
    requires
        rnl_applicable(cv(old(code)@), preceding_choice_instr_loc, non_indexed_choice_instr_loc),
    ensures
        r == rnl_result(
            cv(old(code)@),
            preceding_choice_instr_loc,
            non_indexed_choice_instr_loc,
        ),
        cv(final(code)@) == rnl_code(
            cv(old(code)@),
            preceding_choice_instr_loc,
            non_indexed_choice_instr_loc,
        ),
        final(code)@.len() == old(code)@.len(),
        final(retraction_info).records@ == old(retraction_info).records@ + rnl_records(
            cv(old(code)@),
            preceding_choice_instr_loc,
            non_indexed_choice_instr_loc,
        ),
        final(retraction_info).orig_code_extent == old(retraction_info).orig_code_extent,
{
    let ghost oldv = cv(old(code)@);
    let n = code.len();
    let c = crate::chains::read_choice(code, non_indexed_choice_instr_loc);
    match c {
        ChoiceInstruction::RetryMeElse(o) => {
            crate::chains::thread_choice_instr_at_to(
                code,
                preceding_choice_instr_loc,
                non_indexed_choice_instr_loc + o,
                retraction_info,
            );
            None
        },
        ChoiceInstruction::TrustMe(_) => {
            let p = crate::chains::read_choice(code, preceding_choice_instr_loc);
            match p {
                ChoiceInstruction::RetryMeElse(o) => {
                    retraction_info.push_record(
                        RetractionRecord::ModifiedRetryMeElse(preceding_choice_instr_loc, o),
                    );
                    code[preceding_choice_instr_loc] = Line::Choice(
                        ChoiceInstruction::TrustMe(0),
                    );
                    proof {
                        assert(retraction_info.records@ =~= old(retraction_info).records@
                            + rnl_records(
                            oldv,
                            preceding_choice_instr_loc,
                            non_indexed_choice_instr_loc,
                        ));
                    }
                    None
                },
                ChoiceInstruction::TryMeElse(o) => {
                    retraction_info.push_record(
                        RetractionRecord::ModifiedTryMeElse(preceding_choice_instr_loc, o),
                    );
                    code[preceding_choice_instr_loc] = Line::Choice(
                        ChoiceInstruction::TryMeElse(0),
                    );
                    proof {
                        assert(retraction_info.records@ =~= old(retraction_info).records@
                            + rnl_records(
                            oldv,
                            preceding_choice_instr_loc,
                            non_indexed_choice_instr_loc,
                        ));
                    }
                    Some(IndexPtr::Index(preceding_choice_instr_loc + 1))
                },
                _ => unreached(),
            }
        },
        _ => unreached(),
    }
}

/// Whether `remove_leading_unindexed_clause` accepts the code: the leading
/// clause's `TryMeElse` either is live, with the rest of the chain
/// reachable for blunting once the link is derelicted, or is already a
/// stub.
pub open spec fn rlu_applicable(code: Seq<LineV>, removed_loc: usize) -> bool {
    &&& (removed_loc as int) < code.len()
    &&& match code[removed_loc as int] {
        LineV::Choice(ChoiceInstruction::TryMeElse(o)) => o == 0 || (removed_loc + o
            < code.len() && blunt_terminates(
            code.update(removed_loc as int, LineV::Choice(ChoiceInstruction::TryMeElse(0))),
            removed_loc + o,
        )),
        _ => false,
    }
}

/// The code after the leading unindexed clause leaves its chain.
pub open spec fn rlu_code(code: Seq<LineV>, removed_loc: usize) -> Seq<LineV> {
    match code[removed_loc as int] {
        LineV::Choice(ChoiceInstruction::TryMeElse(o)) => if o == 0 {
            code
        } else {
            let code2 = code.update(
                removed_loc as int,
                LineV::Choice(ChoiceInstruction::TryMeElse(0)),
            );
            code2.update(
                blunt_result(code2, removed_loc + o),
                blunt_line(code2, blunt_result(code2, removed_loc + o)),
            )
        },
        _ => code,
    }
}

/// The journal records of `remove_leading_unindexed_clause`.
pub open spec fn rlu_records(code: Seq<LineV>, removed_loc: usize) -> Seq<RetractionRecord> {
    match code[removed_loc as int] {
        LineV::Choice(ChoiceInstruction::TryMeElse(o)) => if o == 0 {
            Seq::empty()
        } else {
            let code2 = code.update(
                removed_loc as int,
                LineV::Choice(ChoiceInstruction::TryMeElse(0)),
            );
            seq![RetractionRecord::ModifiedTryMeElse(removed_loc, o)] + blunt_records(
                code2,
                blunt_result(code2, removed_loc + o),
            )
        },
        _ => Seq::empty(),
    }
}

/// The entry point that `remove_leading_unindexed_clause` reports.
pub open spec fn rlu_result(code: Seq<LineV>, removed_loc: usize) -> Option<IndexPtr> {
    match code[removed_loc as int] {
        LineV::Choice(ChoiceInstruction::TryMeElse(o)) => if o == 0 {
            Some(IndexPtr::DynamicUndefined)
        } else {
            let code2 = code.update(
                removed_loc as int,
                LineV::Choice(ChoiceInstruction::TryMeElse(0)),
            );
            Some(
                IndexPtr::Index(
                    blunt_ret(code2, blunt_result(code2, removed_loc + o)) as usize,
                ),
            )
        },
        _ => None,
    }
}

/// Unlinks the leading unindexed clause of a predicate: its live
/// `TryMeElse` is derelicted and the following clause's choice instruction
/// is blunted into the new head, which becomes the predicate's entry
/// point.  A predicate whose single clause was already a stub reports the
/// dynamic-undefined entry point.
pub fn remove_leading_unindexed_clause(
    code: &mut Vec<Line>,
    non_indexed_choice_instr_loc: usize,
    retraction_info: &mut RetractionInfo,
) -> (r: Option<IndexPtr>)
    requires
        rlu_applicable(cv(old(code)@), non_indexed_choice_instr_loc),
    ensures
        r == rlu_result(cv(old(code)@), non_indexed_choice_instr_loc),
        cv(final(code)@) == rlu_code(cv(old(code)@), non_indexed_choice_instr_loc),
        final(code)@.len() == old(code)@.len(),
        final(retraction_info).records@ == old(retraction_info).records@ + rlu_records(
            cv(old(code)@),
            non_indexed_choice_instr_loc,
        ),
        final(retraction_info).orig_code_extent == old(retraction_info).orig_code_extent,
{
    let ghost oldv = cv(old(code)@);
    let n = code.len();
    let c = crate::chains::read_choice(code, non_indexed_choice_instr_loc);
    match c {
        ChoiceInstruction::TryMeElse(o) => {
            if o > 0 {
                retraction_info.push_record(
                    RetractionRecord::ModifiedTryMeElse(non_indexed_choice_instr_loc, o),
                );
                code[non_indexed_choice_instr_loc] = Line::Choice(
                    ChoiceInstruction::TryMeElse(0),
                );
                let index_ptr = blunt_leading_choice_instr(
                    code,
                    non_indexed_choice_instr_loc + o,
                    retraction_info,
                );
                proof {
                    assert(retraction_info.records@ =~= old(retraction_info).records@
                        + rlu_records(oldv, non_indexed_choice_instr_loc));
                }
                Some(IndexPtr::Index(index_ptr))
            } else {
                proof {
                    assert(retraction_info.records@ =~= retraction_info.records@ + Seq::<
                        RetractionRecord,
                    >::empty());
                }
                Some(IndexPtr::DynamicUndefined)
            }
        },
        _ => unreached(),
    }
}


/// What integrating an appended clause will do to the skeleton and the
/// entry point: the new clause's skeleton entry, and the fresh entry-point
/// pointer when the append produces one.
pub struct AppendPlan {
    pub new_entry: ClauseIndexInfo,
    pub result: Option<IndexPtr>,
    pub code: Seq<LineV>,
}

/// The plan of `append_compiled_clause`, mirroring its control flow over
/// the code view, the clause block and the skeleton; `None` when one of
/// its steps is undefined on this input.
pub open spec fn append_plan(
    codev: Seq<LineV>,
    ccv: Seq<LineV>,
    skel: crate::skeleton::PredicateSkeletonV,
    clock: usize,
) -> Option<AppendPlan> {
    let clause_loc = codev.len() as usize;
    let target_pos = skel.clauses.len() - 1;
    let lower_bound = crate::skeleton::spec_lower_bound_of_target_clause(skel.clauses, target_pos);
    let settings = crate::instructions::CodeGenSettings {
        global_clock_tick: if skel.is_dynamic {
            Some(clock)
        } else {
            None
        },
        is_extensible: true,
        non_counted_bt: false,
    };
    if !(skel.clauses.len() >= 2 && codev.len() + ccv.len() + 1 <= usize::MAX) {
        None
    } else {
        let target_key = skel.clauses[target_pos].opt_arg_index_key;
        let lb_key = skel.clauses[lower_bound].opt_arg_index_key;
        if lb_key.spec_switch_on_term_loc() is Some && lb_key.spec_arg_num()
            == target_key.spec_arg_num() {
            // the new clause joins the indexed sub-sequence at `lower_bound`
            let index_loc = lb_key.spec_switch_on_term_loc().unwrap();
            let key2 = target_key.spec_shifted((index_loc - 1) as usize);
            let code1 = codev + seq![
                LineV::Choice(settings.spec_internal_trust_me()),
            ] + ccv.skip(3);
            if !(ccv.len() >= 3 && index_loc >= 1 && (match target_key.spec_switch_on_term_loc() {
                Some(loc) => loc + index_loc - 1 <= usize::MAX,
                None => false,
            }) && (index_loc as int) < codev.len() && code1[index_loc as int] is IndexingCode
                && crate::indexing::merge_applicable(
                code1[index_loc as int]->IndexingCode_0,
                key2,
            )) {
                None
            } else {
                let code2 = code1.update(
                    index_loc as int,
                    LineV::IndexingCode(
                        crate::indexing::merge_spec(
                            code1[index_loc as int]->IndexingCode_0,
                            key2,
                            clause_loc,
                            crate::instructions::AppendOrPrepend::Append,
                        ),
                    ),
                );
                if !crate::chains::inner_terminates(
                    code2,
                    index_loc as int,
                    skel.clauses[target_pos - 1].clause_start as int,
                ) {
                    None
                } else {
                    let tpcs = crate::chains::inner_result(
                        code2,
                        index_loc as int,
                        skel.clauses[target_pos - 1].clause_start as int,
                    );
                    if !crate::chains::outer_terminates(code2, tpcs) {
                        None
                    } else {
                        let threaded = crate::chains::outer_result(code2, tpcs);
                        let pair = lower_bound + 1 == target_pos;
                        if pair && !(threaded >= index_loc
                            && crate::indexing::switch_var_applicable(code2, index_loc) && ({
                            let v = match crate::indexing::switch_var(code2, index_loc) {
                                crate::instructions::IndexingCodePtr::External(v) => v,
                                crate::instructions::IndexingCodePtr::DynamicExternal(v) => v,
                                crate::instructions::IndexingCodePtr::Internal(v) => v,
                            };
                            index_loc + v < code2.len()
                        })) {
                            None
                        } else {
                            let code3 = if pair && !crate::indexing::var_lands_on_choice(
                                code2,
                                index_loc,
                            ) {
                                code2.update(
                                    index_loc as int,
                                    LineV::IndexingCode(
                                        crate::indexing::switch_var_set(
                                            code2[index_loc as int]->IndexingCode_0,
                                            (threaded - index_loc) as usize,
                                        ),
                                    ),
                                )
                            } else {
                                code2
                            };
                            if !crate::chains::thread_terminates(
                                code3,
                                clause_loc as int,
                                threaded,
                            ) {
                                None
                            } else {
                                Some(
                                    AppendPlan {
                                        new_entry: ClauseIndexInfo {
                                            opt_arg_index_key: key2,
                                            clause_start: clause_loc,
                                        },
                                        result: None,
                                        code: code3.update(
                                            crate::chains::thread_result(
                                                code3,
                                                clause_loc as int,
                                                threaded,
                                            ),
                                            crate::chains::thread_line(
                                                code3,
                                                clause_loc as int,
                                                crate::chains::thread_result(
                                                    code3,
                                                    clause_loc as int,
                                                    threaded,
                                                ),
                                            ),
                                        ),
                                    },
                                )
                            }
                        }
                    }
                }
            }
        } else {
            // the new clause starts its own (sub-)sequence
            let key2 = target_key.spec_shifted(clause_loc);
            let code1 = codev + seq![LineV::Choice(settings.spec_trust_me())] + ccv.skip(1);
            if !(ccv.len() >= 1 && (match target_key.spec_switch_on_term_loc() {
                Some(loc) => loc + clause_loc <= usize::MAX,
                None => true,
            })) {
                None
            } else {
                match lb_key.spec_switch_on_term_loc() {
                    Some(_) => {
                        let lcs = skel.clauses[lower_bound].clause_start;
                        if !(lcs >= 2 && crate::chains::outer_terminates(code1, lcs - 2)) {
                            None
                        } else {
                            let threaded = crate::chains::outer_result(code1, lcs - 2);
                            if !crate::chains::thread_terminates(
                                code1,
                                clause_loc as int,
                                threaded,
                            ) {
                                None
                            } else {
                                Some(
                                    AppendPlan {
                                        code: code1.update(
                                            crate::chains::thread_result(
                                                code1,
                                                clause_loc as int,
                                                threaded,
                                            ),
                                            crate::chains::thread_line(
                                                code1,
                                                clause_loc as int,
                                                crate::chains::thread_result(
                                                    code1,
                                                    clause_loc as int,
                                                    threaded,
                                                ),
                                            ),
                                        ),
                                        new_entry: ClauseIndexInfo {
                                            opt_arg_index_key: key2,
                                            clause_start: clause_loc,
                                        },
                                        result: if lower_bound == 0 {
                                            Some(
                                                if skel.is_dynamic {
                                                    IndexPtr::DynamicIndex((lcs - 2) as usize)
                                                } else {
                                                    IndexPtr::Index((lcs - 2) as usize)
                                                },
                                            )
                                        } else {
                                            None
                                        },
                                    },
                                )
                            }
                        }
                    },
                    None => {
                        let bump = key2.spec_switch_on_term_loc() is Some;
                        let set_var = bump && !skel.is_dynamic;
                        if set_var && !(key2.spec_switch_on_term_loc().unwrap() < code1.len()
                            && crate::indexing::switch_var_applicable(
                            code1,
                            key2.spec_switch_on_term_loc().unwrap(),
                        )) {
                            None
                        } else {
                            let code2 = if set_var {
                                code1.update(
                                    key2.spec_switch_on_term_loc().unwrap() as int,
                                    LineV::IndexingCode(
                                        crate::indexing::switch_var_set(
                                            code1[key2.spec_switch_on_term_loc().unwrap() as int]
                                                ->IndexingCode_0,
                                            2,
                                        ),
                                    ),
                                )
                            } else {
                                code1
                            };
                            let lcs = if lower_bound == target_pos {
                                clause_loc
                            } else {
                                skel.clauses[lower_bound].clause_start
                            };
                            if !(crate::chains::outer_terminates(code2, lcs as int)
                                && clause_loc + 2 <= usize::MAX) {
                                None
                            } else {
                                let threaded = crate::chains::outer_result(code2, lcs as int);
                                if !crate::chains::thread_terminates(
                                    code2,
                                    clause_loc as int,
                                    threaded,
                                ) {
                                    None
                                } else {
                                    Some(
                                        AppendPlan {
                                            code: code2.update(
                                                crate::chains::thread_result(
                                                    code2,
                                                    clause_loc as int,
                                                    threaded,
                                                ),
                                                crate::chains::thread_line(
                                                    code2,
                                                    clause_loc as int,
                                                    crate::chains::thread_result(
                                                        code2,
                                                        clause_loc as int,
                                                        threaded,
                                                    ),
                                                ),
                                            ),
                                            new_entry: ClauseIndexInfo {
                                                opt_arg_index_key: key2,
                                                clause_start: if bump {
                                                    (clause_loc + 2) as usize
                                                } else {
                                                    clause_loc
                                                },
                                            },
                                            result: if lower_bound == 0 {
                                                Some(
                                                    if skel.is_dynamic {
                                                        IndexPtr::DynamicIndex(lcs)
                                                    } else {
                                                        IndexPtr::Index(lcs)
                                                    },
                                                )
                                            } else {
                                                None
                                            },
                                        },
                                    )
                                }
                            }
                        }
                    },
                }
            }
        }
    }
}

/// Integrates an appended clause (`assertz`): the generated block is
/// spliced at the tail of the code vector behind an internal or outer
/// trailing choice instruction, the clause's key is re-based, its entry is
/// merged into the indexing table of its sub-sequence (re-pointing the
/// variable fall-through when the sub-sequence becomes a pair), and the
/// preceding chain tail is threaded to the new clause.  Returns a new
/// entry-point pointer when the predicate's entry moves.
///
/// The caller has already pushed the new clause's skeleton entry; its
/// final form and the returned pointer follow `append_plan`.
pub fn append_compiled_clause(
    code: &mut Vec<Line>,
    clause_code: Vec<Line>,
    skeleton: &mut PredicateSkeleton,
    retraction_info: &mut RetractionInfo,
    global_clock_tick: usize,
) -> (r: Option<IndexPtr>)
    requires
        append_plan(
            cv(old(code)@),
            cv(clause_code@),
            old(skeleton)@,
            global_clock_tick,
        ) is Some,
    ensures
        ({
            let plan = append_plan(
                cv(old(code)@),
                cv(clause_code@),
                old(skeleton)@,
                global_clock_tick,
            ).unwrap();
            &&& r == plan.result
            &&& cv(final(code)@) == plan.code
            &&& final(skeleton)@.clauses == old(skeleton)@.clauses.update(
                old(skeleton)@.clauses.len() - 1,
                plan.new_entry,
            )
        }),
        final(skeleton)@.clause_clause_locs == old(skeleton)@.clause_clause_locs,
        final(skeleton)@.clause_assert_margin == old(skeleton)@.clause_assert_margin,
        final(skeleton)@.is_dynamic == old(skeleton)@.is_dynamic,
        final(skeleton)@.is_multifile == old(skeleton)@.is_multifile,
        final(code)@.len() >= old(code)@.len() + 1,
        final(retraction_info).records@.take(old(retraction_info).records@.len() as int) == old(
            retraction_info,
        ).records@,
        final(retraction_info).records@.len() >= old(retraction_info).records@.len(),
        final(retraction_info).orig_code_extent == old(retraction_info).orig_code_extent,
{
    let ghost plan = append_plan(
        cv(old(code)@),
        cv(clause_code@),
        old(skeleton)@,
        global_clock_tick,
    ).unwrap();
    let clause_loc = code.len();
    let target_pos = skeleton.clauses.len() - 1;
    let lower_bound = crate::skeleton::lower_bound_of_target_clause(skeleton, target_pos);
    let settings = crate::instructions::CodeGenSettings {
        global_clock_tick: if skeleton.is_dynamic {
            Some(global_clock_tick)
        } else {
            None
        },
        is_extensible: true,
        non_counted_bt: false,
    };
    let lb_key = skeleton.clauses[lower_bound].opt_arg_index_key;
    let target_key = skeleton.clauses[target_pos].opt_arg_index_key;
    let mut code_ptr_opt: Option<IndexPtr> = None;
    let case_a = match lb_key.switch_on_term_loc() {
        Some(_) => lb_key.arg_num() == target_key.arg_num(),
        None => false,
    };
    let threaded_choice_instr_loc: usize;
    if case_a {
        let index_loc = match lb_key.switch_on_term_loc() {
            Some(l) => l,
            None => unreached(),
        };
        code.push(Line::Choice(settings.internal_trust_me()));
        splice_tail(code, clause_code, 3);
        proof {
            assert(cv(code@) =~= cv(old(code)@) + seq![
                LineV::Choice(settings.spec_internal_trust_me()),
            ] + cv(clause_code@).skip(3));
        }
        let mut entry = skeleton.clauses[target_pos];
        entry.opt_arg_index_key.shift(index_loc - 1);
        entry.clause_start = clause_loc;
        skeleton.clauses[target_pos] = entry;
        retraction_info.push_record(
            RetractionRecord::AddedIndex(entry.opt_arg_index_key, entry.clause_start),
        );
        crate::indexing::merge_clause_index(
            code,
            index_loc,
            entry.opt_arg_index_key,
            clause_loc,
            crate::instructions::AppendOrPrepend::Append,
        );
        let prev_start = skeleton.clauses[target_pos - 1].clause_start;
        let tpcs = crate::chains::find_inner_choice_instr(code, prev_start, index_loc);
        let tpcs2 = crate::chains::find_outer_choice_instr(code, tpcs);
        if lower_bound + 1 == target_pos {
            crate::indexing::set_switch_var_offset_to_choice_instr(
                code,
                index_loc,
                tpcs2 - index_loc,
                retraction_info,
            );
        }
        threaded_choice_instr_loc = tpcs2;
    } else {
        code.push(Line::Choice(settings.trust_me()));
        splice_tail(code, clause_code, 1);
        proof {
            assert(cv(code@) =~= cv(old(code)@) + seq![
                LineV::Choice(settings.spec_trust_me()),
            ] + cv(clause_code@).skip(1));
        }
        let mut entry = skeleton.clauses[target_pos];
        entry.opt_arg_index_key.shift(clause_loc);
        entry.clause_start = clause_loc;
        skeleton.clauses[target_pos] = entry;
        match lb_key.switch_on_term_loc() {
            Some(_) => {
                let lcs = skeleton.clauses[lower_bound].clause_start;
                if lower_bound == 0 {
                    code_ptr_opt = Some(
                        if skeleton.is_dynamic {
                            IndexPtr::DynamicIndex(lcs - 2)
                        } else {
                            IndexPtr::Index(lcs - 2)
                        },
                    );
                }
                threaded_choice_instr_loc = crate::chains::find_outer_choice_instr(
                    code,
                    lcs - 2,
                );
            },
            None => {
                let lcs = skeleton.clauses[lower_bound].clause_start;
                if lower_bound == 0 {
                    code_ptr_opt = Some(
                        if skeleton.is_dynamic {
                            IndexPtr::DynamicIndex(lcs)
                        } else {
                            IndexPtr::Index(lcs)
                        },
                    );
                }
                match entry.opt_arg_index_key.switch_on_term_loc() {
                    Some(index_loc) => {
                        // the appended clause carries its own indexing block:
                        // enter past the inner stub, and for a static
                        // predicate let the variable fall-through do so too
                        let mut entry2 = skeleton.clauses[target_pos];
                        entry2.clause_start = entry2.clause_start + 2;
                        skeleton.clauses[target_pos] = entry2;
                        if !skeleton.is_dynamic {
                            crate::indexing::set_switch_var_offset(
                                code,
                                index_loc,
                                2,
                                retraction_info,
                            );
                        }
                    },
                    None => {},
                }
                threaded_choice_instr_loc = crate::chains::find_outer_choice_instr(code, lcs);
            },
        }
    }
    crate::chains::thread_choice_instr_at_to(
        code,
        threaded_choice_instr_loc,
        clause_loc,
        retraction_info,
    );
    proof {
        assert(skeleton@.clauses =~= old(skeleton)@.clauses.update(
            old(skeleton)@.clauses.len() - 1,
            plan.new_entry,
        ));
        assert(cv((*code)@) =~= plan.code);
        assert(retraction_info.records@.take(old(retraction_info).records@.len() as int)
            =~= old(retraction_info).records@);
    }
    code_ptr_opt
}

/// Appends the lines of `block` from position `from` on to the code
/// vector, consuming the block.
pub fn splice_tail(code: &mut Vec<Line>, block: Vec<Line>, from: usize) -> (n: usize)
    requires
        from <= block@.len(),
        old(code)@.len() + block@.len() <= usize::MAX,
    ensures
        cv(final(code)@) == cv(old(code)@) + cv(block@).skip(from as int),
        final(code)@.len() == old(code)@.len() + block@.len() - from,
        n == block@.len() - from,
{
    let ghost oldv = code@;
    let ghost blockv = block@;
    let mut i = from;
    let block = block;
    let mut count: usize = 0;
    while i < block.len()
        invariant
            from <= i <= block@.len(),
            block@ == blockv,
            count == i - from,
            cv(code@) == cv(oldv) + cv(block@).subrange(from as int, i as int),
            code@.len() == oldv.len() + i - from,
            oldv.len() + block@.len() <= usize::MAX,
        decreases block@.len() - i,
    {
        let line = read_line(&block, i);
        code.push(line);
        i = i + 1;
        count = count + 1;
        proof {
            assert(cv(code@) =~= cv(oldv) + cv(block@).subrange(from as int, i as int));
        }
    }
    proof {
        assert(cv(code@) =~= cv(oldv) + cv(block@).skip(from as int));
    }
    count
}

/// Reads one line of a block by position.
pub fn read_line(block: &Vec<Line>, i: usize) -> (l: Line)
    requires
        i < block@.len(),
    ensures
        l@ == block@[i as int]@,
{
    let ghost target = block@[i as int];
    match &block[i] {
        Line::Choice(c) => Line::Choice(*c),
        Line::RevJmpBy(o) => Line::RevJmpBy(*o),
        Line::JmpBy(a, o) => Line::JmpBy(*a, *o),
        Line::IndexingCode(ic) => {
            let copied = copy_indexing_code(ic);
            proof {
                assert(Line::IndexingCode(copied)@ == target@);
            }
            Line::IndexingCode(copied)
        },
        Line::Body(t) => Line::Body(*t),
    }
}

/// Copies an indexing block field by field.
pub fn copy_indexing_code(ic: &crate::instructions::IndexingCode) -> (r:
    crate::instructions::IndexingCode)
    ensures
        r@ == ic@,
{
    let mut constants: Vec<(u64, crate::instructions::IndexingCodePtr)> = Vec::new();
    let mut i: usize = 0;
    while i < ic.constants.len()
        invariant
            i <= ic.constants@.len(),
            constants@ == ic.constants@.take(i as int),
        decreases ic.constants@.len() - i,
    {
        constants.push(ic.constants[i]);
        proof {
            assert(constants@ =~= ic.constants@.take(i + 1));
        }
        i = i + 1;
    }
    let mut structures: Vec<(u64, usize, crate::instructions::IndexingCodePtr)> = Vec::new();
    let mut j: usize = 0;
    while j < ic.structures.len()
        invariant
            j <= ic.structures@.len(),
            structures@ == ic.structures@.take(j as int),
        decreases ic.structures@.len() - j,
    {
        structures.push(ic.structures[j]);
        proof {
            assert(structures@ =~= ic.structures@.take(j + 1));
        }
        j = j + 1;
    }
    let mut buckets: Vec<Vec<crate::instructions::IndexedChoiceInstruction>> = Vec::new();
    let mut k: usize = 0;
    while k < ic.buckets.len()
        invariant
            k <= ic.buckets@.len(),
            buckets@.map_values(|b: Vec<crate::instructions::IndexedChoiceInstruction>| b@)
                == ic.buckets@.map_values(
                |b: Vec<crate::instructions::IndexedChoiceInstruction>| b@,
            ).take(k as int),
        decreases ic.buckets@.len() - k,
    {
        let mut bucket: Vec<crate::instructions::IndexedChoiceInstruction> = Vec::new();
        let mut m: usize = 0;
        while m < ic.buckets[k].len()
            invariant
                k < ic.buckets@.len(),
                m <= ic.buckets@[k as int]@.len(),
                bucket@ == ic.buckets@[k as int]@.take(m as int),
            decreases ic.buckets@[k as int]@.len() - m,
        {
            bucket.push(ic.buckets[k][m]);
            proof {
                assert(bucket@ =~= ic.buckets@[k as int]@.take(m + 1));
            }
            m = m + 1;
        }
        proof {
            assert(bucket@ =~= ic.buckets@[k as int]@);
        }
        let ghost pre_buckets = buckets@;
        buckets.push(bucket);
        proof {
            pre_buckets.lemma_push_map_commute(
                |b: Vec<crate::instructions::IndexedChoiceInstruction>| b@,
                bucket,
            );
            assert(buckets@.map_values(
                |b: Vec<crate::instructions::IndexedChoiceInstruction>| b@,
            ) =~= ic.buckets@.map_values(
                |b: Vec<crate::instructions::IndexedChoiceInstruction>| b@,
            ).take(k + 1));
        }
        k = k + 1;
    }
    let r = crate::instructions::IndexingCode {
        arg: ic.arg,
        var_ptr: ic.var_ptr,
        constants,
        structures,
        buckets,
    };
    proof {
        assert(r@.constants =~= ic@.constants);
        assert(r@.structures =~= ic@.structures);
        assert(r@.buckets =~= ic@.buckets);
        assert(r@ =~~= ic@);
    }
    r
}


/// Copies the lines of `block` from position `from` on into a fresh
/// vector, consuming the block.
pub fn tail_lines(block: Vec<Line>, from: usize) -> (r: Vec<Line>)
    requires
        from <= block@.len(),
    ensures
        cv(r@) == cv(block@).skip(from as int),
        r@.len() == block@.len() - from,
{
    let ghost blockv = block@;
    let mut r: Vec<Line> = Vec::new();
    let mut i = from;
    while i < block.len()
        invariant
            from <= i <= block@.len(),
            block@ == blockv,
            cv(r@) == cv(block@).subrange(from as int, i as int),
            r@.len() == i - from,
        decreases block@.len() - i,
    {
        let line = read_line(&block, i);
        r.push(line);
        i = i + 1;
        proof {
            assert(cv(r@) =~= cv(block@).subrange(from as int, i as int));
        }
    }
    proof {
        assert(cv(r@) =~= cv(block@).skip(from as int));
    }
    r
}

/// What integrating a prepended clause will do: the new clause's skeleton
/// entry, the rewritten start of the old first clause (when it moves), and
/// the new entry-point pointer.
pub struct PrependPlan {
    pub entry0: ClauseIndexInfo,
    pub new_head_start: Option<usize>,
    pub result: IndexPtr,
    pub code: Seq<LineV>,
}

/// The plan of `prepend_compiled_clause`, mirroring its control flow;
/// `None` when one of its steps is undefined on this input.
pub open spec fn prepend_plan(
    codev: Seq<LineV>,
    ccv: Seq<LineV>,
    skel: crate::skeleton::PredicateSkeletonV,
    clock: usize,
) -> Option<PrependPlan> {
    let clause_loc = codev.len() as usize;
    let settings = crate::instructions::CodeGenSettings {
        global_clock_tick: if skel.is_dynamic {
            Some(clock)
        } else {
            None
        },
        is_extensible: true,
        non_counted_bt: false,
    };
    if !(skel.clauses.len() >= 2 && codev.len() + ccv.len() + 8 <= usize::MAX) {
        None
    } else {
        let key0 = skel.clauses[0].opt_arg_index_key;
        let key1 = skel.clauses[1].opt_arg_index_key;
        let cs1 = skel.clauses[1].clause_start;
        if key0.spec_switch_on_term_loc() is Some && key1.spec_switch_on_term_loc() is Some
            && key0.spec_arg_num() == key1.spec_arg_num() {
            // the new clause joins the old first clause's indexed
            // sub-sequence, reusing its `SwitchOnTerm`
            let index_loc = key1.spec_switch_on_term_loc().unwrap();
            let key02 = key0.spec_shifted((index_loc - 1) as usize);
            let qlen0 = ccv.len() - 3;
            if !(ccv.len() >= 3 && index_loc >= 1 && key0.spec_switch_on_term_loc().unwrap()
                + index_loc - 1 <= usize::MAX && (index_loc as int) < codev.len()) {
                None
            } else {
                let otcl_opt: Option<int> = if skel.is_dynamic {
                    if crate::chains::dynamic_outer_applicable(codev, index_loc) {
                        Some(crate::chains::dynamic_outer_result(codev, index_loc))
                    } else {
                        None
                    }
                } else {
                    if cs1 >= 2 {
                        Some(cs1 - 2)
                    } else {
                        None
                    }
                };
                if !(otcl_opt is Some && crate::chains::inner_terminates(
                    codev,
                    index_loc as int,
                    cs1 as int,
                )) {
                    None
                } else {
                    let otcl = otcl_opt.unwrap();
                    let new_cs1 = crate::chains::inner_result(codev, index_loc as int, cs1 as int);
                    if !(0 <= otcl < codev.len() && otcl != index_loc
                        && crate::chains::derelict_applicable(codev[otcl])) {
                        None
                    } else {
                        let codev2 = codev.update(
                            otcl,
                            crate::chains::derelict_line(codev[otcl]),
                        );
                        let outer_offset: usize = match crate::chains::derelict_result(
                            codev[otcl],
                        ) {
                            Some(next) => if otcl + next <= qlen0 + 4 + clause_loc {
                                (qlen0 + 4) as usize
                            } else {
                                0
                            },
                            None => 0,
                        };
                        let arith_ok = match crate::chains::derelict_result(codev[otcl]) {
                            Some(next) => otcl + next <= qlen0 + 4 + clause_loc,
                            None => true,
                        };
                        if !(arith_ok && (index_loc as int) < codev2.len()
                            && codev2[index_loc as int] is IndexingCode
                            && crate::indexing::merge_applicable(
                            codev2[index_loc as int]->IndexingCode_0,
                            key02,
                        )) {
                            None
                        } else {
                            let codev3 = codev2.update(
                                index_loc as int,
                                LineV::IndexingCode(
                                    crate::indexing::merge_spec(
                                        codev2[index_loc as int]->IndexingCode_0,
                                        key02,
                                        (clause_loc + 2) as usize,
                                        crate::instructions::AppendOrPrepend::Prepend,
                                    ),
                                ),
                            );
                            if !(crate::indexing::switch_var_applicable(codev3, index_loc)
                                && crate::chains::internalize_applicable(
                                codev3.update(
                                    index_loc as int,
                                    LineV::IndexingCode(
                                        crate::indexing::switch_var_set(
                                            codev3[index_loc as int]->IndexingCode_0,
                                            (clause_loc - index_loc + 2) as usize,
                                        ),
                                    ),
                                ),
                                new_cs1 as usize,
                            )) {
                                None
                            } else {
                                let codev4 = codev3.update(
                                    index_loc as int,
                                    LineV::IndexingCode(
                                        crate::indexing::switch_var_set(
                                            codev3[index_loc as int]->IndexingCode_0,
                                            (clause_loc - index_loc + 2) as usize,
                                        ),
                                    ),
                                );
                                let codev5 = codev4.update(
                                    new_cs1,
                                    crate::chains::internalize_line(codev4, new_cs1 as usize),
                                );
                                let tail_rev: usize = match crate::chains::derelict_result(
                                    codev[otcl],
                                ) {
                                    Some(next) => (qlen0 + 4 + clause_loc - otcl
                                        - next) as usize,
                                    None => 0,
                                };
                                let queue = seq![
                                    LineV::Choice(settings.spec_try_me_else(outer_offset)),
                                    LineV::RevJmpBy((1 + clause_loc - index_loc) as usize),
                                    LineV::Choice(
                                        settings.spec_internal_try_me_else(
                                            (qlen0 + 1) as usize,
                                        ),
                                    ),
                                ] + ccv.skip(3) + seq![
                                    LineV::RevJmpBy(
                                        (3 + qlen0 + clause_loc - new_cs1) as usize,
                                    ),
                                    LineV::RevJmpBy(tail_rev),
                                ];
                                Some(
                                    PrependPlan {
                                        code: codev5 + queue,
                                        entry0: ClauseIndexInfo {
                                            opt_arg_index_key: key02,
                                            clause_start: (clause_loc + 2) as usize,
                                        },
                                        new_head_start: Some(new_cs1 as usize),
                                        result: if skel.is_dynamic {
                                            IndexPtr::DynamicIndex(clause_loc)
                                        } else if outer_offset == 0 {
                                            IndexPtr::Index((clause_loc + 1) as usize)
                                        } else {
                                            IndexPtr::Index(clause_loc)
                                        },
                                    },
                                )
                            }
                        }
                    }
                }
            }
        } else if key0.spec_switch_on_term_loc() is Some {
            // the new clause brings its own `SwitchOnTerm` block
            let key02 = key0.spec_shifted(clause_loc);
            if !(ccv.len() >= 3 && key0.spec_switch_on_term_loc().unwrap() + clause_loc
                <= usize::MAX && (ccv[2] matches LineV::Choice(ChoiceInstruction::TryMeElse(0))
                || ccv[2] matches LineV::Choice(
                    ChoiceInstruction::DynamicInternalElse(_, _, NextOrFail::Next(0)),
                ))) {
                None
            } else {
                let ocs_opt: Option<int> = match key1.spec_switch_on_term_loc() {
                    Some(iloc) => if skel.is_dynamic {
                        if crate::chains::dynamic_outer_applicable(codev, iloc) {
                            Some(crate::chains::dynamic_outer_result(codev, iloc))
                        } else {
                            None
                        }
                    } else {
                        if cs1 >= 2 {
                            Some(cs1 - 2)
                        } else {
                            None
                        }
                    },
                    None => Some(cs1 as int),
                };
                if !(ocs_opt is Some && 0 <= ocs_opt.unwrap()
                    && crate::chains::internalize_applicable(codev, ocs_opt.unwrap() as usize)) {
                    None
                } else {
                    let ocs = ocs_opt.unwrap();
                    let qlen = ccv.len() - 1;
                    let patched_inner = match ccv[2] {
                        LineV::Choice(ChoiceInstruction::DynamicInternalElse(b, d, _)) =>
                            LineV::Choice(
                            ChoiceInstruction::DynamicInternalElse(
                                b,
                                d,
                                NextOrFail::Fail((qlen - 1) as usize),
                            ),
                        ),
                        _ => LineV::Choice(ChoiceInstruction::TryMeElse((qlen - 1) as usize)),
                    };
                    let queue = seq![
                        LineV::Choice(settings.spec_try_me_else((qlen + 2) as usize)),
                    ] + ccv.skip(1).update(1, patched_inner) + seq![
                        LineV::RevJmpBy(0),
                        LineV::RevJmpBy((2 + qlen + clause_loc - ocs) as usize),
                    ];
                    Some(
                        PrependPlan {
                            code: codev.update(
                                ocs,
                                crate::chains::internalize_line(codev, ocs as usize),
                            ) + queue,
                            entry0: ClauseIndexInfo {
                                opt_arg_index_key: key02,
                                clause_start: (clause_loc + 2) as usize,
                            },
                            new_head_start: None,
                            result: if skel.is_dynamic {
                                IndexPtr::DynamicIndex(clause_loc)
                            } else {
                                IndexPtr::Index(clause_loc)
                            },
                        },
                    )
                }
            }
        } else {
            // the new clause is unindexed: a simple try-me-else front
            let ocs_opt: Option<int> = match key1.spec_switch_on_term_loc() {
                Some(iloc) => if skel.is_dynamic {
                    if crate::chains::dynamic_outer_applicable(codev, iloc) {
                        Some(crate::chains::dynamic_outer_result(codev, iloc))
                    } else {
                        None
                    }
                } else {
                    if cs1 >= 2 {
                        Some(cs1 - 2)
                    } else {
                        None
                    }
                },
                None => Some(cs1 as int),
            };
            if !(ccv.len() >= 1 && ocs_opt is Some && 0 <= ocs_opt.unwrap()
                && crate::chains::internalize_applicable(codev, ocs_opt.unwrap() as usize)) {
                None
            } else {
                let ocs = ocs_opt.unwrap();
                let qlen = ccv.len() - 1;
                let queue = seq![
                    LineV::Choice(settings.spec_try_me_else((qlen + 1) as usize)),
                ] + ccv.skip(1) + seq![
                    LineV::RevJmpBy((1 + qlen + clause_loc - ocs) as usize),
                ];
                Some(
                    PrependPlan {
                        code: codev.update(
                            ocs,
                            crate::chains::internalize_line(codev, ocs as usize),
                        ) + queue,
                        entry0: ClauseIndexInfo {
                            opt_arg_index_key: key0,
                            clause_start: clause_loc,
                        },
                        new_head_start: None,
                        result: if skel.is_dynamic {
                            IndexPtr::DynamicIndex(clause_loc)
                        } else {
                            IndexPtr::Index(clause_loc)
                        },
                    },
                )
            }
        }
    }
}

/// Integrates a prepended clause (`asserta`): builds a prepend queue of
/// choice and reverse-jump lines around the clause's code, splices it at
/// the tail of the code vector, re-points the indexing table's entries and
/// variable fall-through at the new clause where it shares a
/// `SwitchOnTerm`, internalises the old first clause's choice instruction,
/// and returns the predicate's new entry point.  The caller has already
/// pushed the new clause's skeleton entry at the front.
#[verifier::rlimit(100)]
#[verifier::spinoff_prover]
pub fn prepend_compiled_clause(
    code: &mut Vec<Line>,
    compilation_target: CompilationTarget,
    key: PredicateKey,
    clause_code: Vec<Line>,
    skeleton: &mut PredicateSkeleton,
    retraction_info: &mut RetractionInfo,
    global_clock_tick: usize,
) -> (r: IndexPtr)
    requires
        prepend_plan(
            cv(old(code)@),
            cv(clause_code@),
            old(skeleton)@,
            global_clock_tick,
        ) is Some,
    ensures
        ({
            let plan = prepend_plan(
                cv(old(code)@),
                cv(clause_code@),
                old(skeleton)@,
                global_clock_tick,
            ).unwrap();
            &&& r == plan.result
            &&& cv(final(code)@) == plan.code
            &&& final(skeleton)@.clauses == match plan.new_head_start {
                Some(ns) => old(skeleton)@.clauses.update(0, plan.entry0).update(
                    1,
                    ClauseIndexInfo {
                        opt_arg_index_key: old(skeleton)@.clauses[1].opt_arg_index_key,
                        clause_start: ns,
                    },
                ),
                None => old(skeleton)@.clauses.update(0, plan.entry0),
            }
        }),
        final(skeleton)@.clause_clause_locs == old(skeleton)@.clause_clause_locs,
        final(skeleton)@.clause_assert_margin == old(skeleton)@.clause_assert_margin,
        final(skeleton)@.is_dynamic == old(skeleton)@.is_dynamic,
        final(skeleton)@.is_multifile == old(skeleton)@.is_multifile,
        final(code)@.len() >= old(code)@.len() + 1,
        final(retraction_info).records@.take(old(retraction_info).records@.len() as int) == old(
            retraction_info,
        ).records@,
        final(retraction_info).records@.len() >= old(retraction_info).records@.len(),
        final(retraction_info).orig_code_extent == old(retraction_info).orig_code_extent,
{
    let ghost plan = prepend_plan(
        cv(old(code)@),
        cv(clause_code@),
        old(skeleton)@,
        global_clock_tick,
    ).unwrap();
    let ghost ccv0 = cv(clause_code@);
    let clause_loc = code.len();
    let settings = crate::instructions::CodeGenSettings {
        global_clock_tick: if skeleton.is_dynamic {
            Some(global_clock_tick)
        } else {
            None
        },
        is_extensible: true,
        non_counted_bt: false,
    };
    let key0 = skeleton.clauses[0].opt_arg_index_key;
    let key1 = skeleton.clauses[1].opt_arg_index_key;
    let cs1 = skeleton.clauses[1].clause_start;
    let case_shared = match (key0.switch_on_term_loc(), key1.switch_on_term_loc()) {
        (Some(_), Some(_)) => key0.arg_num() == key1.arg_num(),
        _ => false,
    };
    if case_shared {
        let index_loc = match key1.switch_on_term_loc() {
            Some(l) => l,
            None => unreached(),
        };
        let mut prepend_queue = tail_lines(clause_code, 3);
        let mut entry0 = skeleton.clauses[0];
        entry0.opt_arg_index_key.shift(index_loc - 1);
        entry0.clause_start = clause_loc + 2;
        skeleton.clauses[0] = entry0;
        retraction_info.push_record(
            RetractionRecord::AddedIndex(entry0.opt_arg_index_key, entry0.clause_start),
        );
        let outer_thread_choice_loc = if skeleton.is_dynamic {
            crate::chains::find_dynamic_outer_choice_instr(code, index_loc)
        } else {
            cs1 - 2
        };
        retraction_info.push_record(
            RetractionRecord::SkeletonClauseStartReplaced(compilation_target, key, 1, cs1),
        );
        let new_cs1 = crate::chains::find_inner_choice_instr(code, cs1, index_loc);
        let mut entry1 = skeleton.clauses[1];
        entry1.clause_start = new_cs1;
        skeleton.clauses[1] = entry1;
        let inner_thread_rev_offset = 3 + prepend_queue.len() + clause_loc - new_cs1;
        prepend_queue.push(Line::RevJmpBy(inner_thread_rev_offset));
        prepend_queue.insert(
            0,
            Line::Choice(settings.internal_try_me_else(prepend_queue.len())),
        );
        prepend_queue.insert(0, Line::RevJmpBy(1 + clause_loc - index_loc));
        let outer_thread_choice_offset: usize = match crate::chains::derelictize_try_me_else(
            code,
            outer_thread_choice_loc,
            retraction_info,
        ) {
            Some(next_subseq_offset) => {
                let outer_thread_rev_offset = prepend_queue.len() + 1 + clause_loc
                    - outer_thread_choice_loc - next_subseq_offset;
                prepend_queue.push(Line::RevJmpBy(outer_thread_rev_offset));
                prepend_queue.len()
            },
            None => {
                prepend_queue.push(Line::RevJmpBy(0));
                0
            },
        };
        prepend_queue.insert(0, Line::Choice(settings.try_me_else(outer_thread_choice_offset)));
        crate::indexing::merge_clause_index(
            code,
            index_loc,
            entry0.opt_arg_index_key,
            clause_loc + 2,
            crate::instructions::AppendOrPrepend::Prepend,
        );
        crate::indexing::set_switch_var_offset(
            code,
            index_loc,
            clause_loc - index_loc + 2,
            retraction_info,
        );
        proof {
            assert(cv(prepend_queue@) =~= seq![
                LineV::Choice(settings.spec_try_me_else(outer_thread_choice_offset)),
                LineV::RevJmpBy((1 + clause_loc - index_loc) as usize),
                LineV::Choice(
                    settings.spec_internal_try_me_else((ccv0.len() - 3 + 1) as usize),
                ),
            ] + ccv0.skip(3) + seq![
                LineV::RevJmpBy((3 + ccv0.len() - 3 + clause_loc - new_cs1) as usize),
                LineV::RevJmpBy(prepend_queue@[prepend_queue@.len() - 1]@->RevJmpBy_0),
            ]);
        }
        crate::chains::internalize_choice_instr_at(code, new_cs1, retraction_info);
        splice_tail(code, prepend_queue, 0);
        proof {
            assert(cv(code@) =~= plan.code);
            assert(skeleton@.clauses =~= old(skeleton)@.clauses.update(0, plan.entry0).update(
                1,
                ClauseIndexInfo {
                    opt_arg_index_key: old(skeleton)@.clauses[1].opt_arg_index_key,
                    clause_start: plan.new_head_start.unwrap(),
                },
            ));
            assert(retraction_info.records@.take(old(retraction_info).records@.len() as int)
                =~= old(retraction_info).records@);
        }
        if skeleton.is_dynamic {
            IndexPtr::DynamicIndex(clause_loc)
        } else if outer_thread_choice_offset == 0 {
            IndexPtr::Index(clause_loc + 1)
        } else {
            IndexPtr::Index(clause_loc)
        }
    } else {
        let indexed0 = match key0.switch_on_term_loc() {
            Some(_) => true,
            None => false,
        };
        let mut prepend_queue = tail_lines(clause_code, 1);
        let old_clause_start: usize = match key1.switch_on_term_loc() {
            Some(iloc) => {
                if skeleton.is_dynamic {
                    crate::chains::find_dynamic_outer_choice_instr(code, iloc)
                } else {
                    cs1 - 2
                }
            },
            None => cs1,
        };
        if indexed0 {
            let mut entry0 = skeleton.clauses[0];
            entry0.opt_arg_index_key.shift(clause_loc);
            entry0.clause_start = clause_loc + 2;
            skeleton.clauses[0] = entry0;
            let inner_thread_rev_offset = 2 + prepend_queue.len() + clause_loc
                - old_clause_start;
            // a stub for chaining inner-threaded choice instructions
            prepend_queue.push(Line::RevJmpBy(0));
            let prepend_queue_len = prepend_queue.len();
            let inner = read_line(&prepend_queue, 1);
            proof {
                assert(cv(prepend_queue@)[1] == ccv0[2]);
                assert(inner@ == ccv0[2]);
            }
            match inner {
                Line::Choice(ChoiceInstruction::TryMeElse(0)) => {
                    prepend_queue[1] = Line::Choice(
                        ChoiceInstruction::TryMeElse(prepend_queue_len - 2),
                    );
                },
                Line::Choice(
                    ChoiceInstruction::DynamicInternalElse(b, d, NextOrFail::Next(0)),
                ) => {
                    prepend_queue[1] = Line::Choice(
                        ChoiceInstruction::DynamicInternalElse(
                            b,
                            d,
                            NextOrFail::Fail(prepend_queue_len - 2),
                        ),
                    );
                },
                _ => unreached(),
            }
            prepend_queue.push(Line::RevJmpBy(inner_thread_rev_offset));
            prepend_queue.insert(0, Line::Choice(settings.try_me_else(prepend_queue.len())));
            crate::chains::internalize_choice_instr_at(
                code,
                old_clause_start,
                retraction_info,
            );
            splice_tail(code, prepend_queue, 0);
            proof {
                assert(cv(code@) =~= plan.code);
            }
        } else {
            let mut entry0 = skeleton.clauses[0];
            entry0.clause_start = clause_loc;
            skeleton.clauses[0] = entry0;
            let inner_thread_rev_offset = 1 + prepend_queue.len() + clause_loc
                - old_clause_start;
            prepend_queue.push(Line::RevJmpBy(inner_thread_rev_offset));
            prepend_queue.insert(0, Line::Choice(settings.try_me_else(prepend_queue.len())));
            crate::chains::internalize_choice_instr_at(
                code,
                old_clause_start,
                retraction_info,
            );
            splice_tail(code, prepend_queue, 0);
            proof {
                assert(cv(code@) =~= plan.code);
            }
        }
        proof {
            assert(skeleton@.clauses =~= old(skeleton)@.clauses.update(0, plan.entry0));
            assert(retraction_info.records@.take(old(retraction_info).records@.len() as int)
                =~= old(retraction_info).records@);
        }
        if skeleton.is_dynamic {
            IndexPtr::DynamicIndex(clause_loc)
        } else {
            IndexPtr::Index(clause_loc)
        }
    }
}


/// The first clause position at or after `from` whose key is unindexed.
pub open spec fn first_unindexed_at(clauses: Seq<ClauseIndexInfo>, from: int) -> Option<int>
    decreases clauses.len() - from,
{
    if !(0 <= from < clauses.len()) {
        None
    } else if !clauses[from].opt_arg_index_key.spec_is_indexed() {
        Some(from)
    } else {
        first_unindexed_at(clauses, from + 1)
    }
}

/// The plan of `merge_indexed_subsequences`: the code after the two runs
/// are linked, and the new entry point when one arises; `None` when a step
/// is undefined.
pub open spec fn mis_plan(
    codev: Seq<LineV>,
    clauses: Seq<ClauseIndexInfo>,
    lower_upper_bound: int,
    upper_lower_bound: int,
) -> Option<(Seq<LineV>, Option<IndexPtr>)> {
    if !(2 <= upper_lower_bound < clauses.len() && 0 <= lower_upper_bound < clauses.len()
        && clauses[upper_lower_bound].opt_arg_index_key.spec_switch_on_term_loc() is Some) {
        None
    } else {
        let inner_trust_me_loc = clauses[upper_lower_bound - 2].clause_start;
        let iloc = clauses[upper_lower_bound].opt_arg_index_key.spec_switch_on_term_loc().unwrap();
        if !crate::chains::inner_terminates(
            codev,
            iloc as int,
            clauses[upper_lower_bound].clause_start as int,
        ) {
            None
        } else {
            let itmel = crate::chains::inner_result(
                codev,
                iloc as int,
                clauses[upper_lower_bound].clause_start as int,
            );
            let promote_ok = match codev[itmel] {
                LineV::Choice(ChoiceInstruction::TryMeElse(o)) => o == 0 || itmel + o
                    < codev.len(),
                _ => true,
            };
            if !promote_ok {
                None
            } else {
                let code1 = match codev[itmel] {
                    LineV::Choice(ChoiceInstruction::TryMeElse(o)) => codev.update(
                        itmel,
                        if o == 0 {
                            LineV::Choice(ChoiceInstruction::TrustMe(0))
                        } else if codev[itmel + o] matches LineV::RevJmpBy(0) {
                            LineV::Choice(ChoiceInstruction::TrustMe(o))
                        } else {
                            LineV::Choice(ChoiceInstruction::RetryMeElse(o))
                        },
                    ),
                    _ => codev,
                };
                if !crate::chains::thread_terminates(code1, itmel, inner_trust_me_loc as int) {
                    None
                } else {
                    let code2 = code1.update(
                        crate::chains::thread_result(code1, itmel, inner_trust_me_loc as int),
                        crate::chains::thread_line(
                            code1,
                            itmel,
                            crate::chains::thread_result(
                                code1,
                                itmel,
                                inner_trust_me_loc as int,
                            ),
                        ),
                    );
                    if !(clauses[lower_upper_bound].clause_start >= 2) {
                        None
                    } else {
                        let otcil = clauses[lower_upper_bound].clause_start - 2;
                        match first_unindexed_at(clauses, upper_lower_bound) {
                            Some(idx) => {
                                if !crate::chains::thread_terminates(
                                    code2,
                                    clauses[idx].clause_start as int,
                                    otcil,
                                ) {
                                    None
                                } else {
                                    let code3 = code2.update(
                                        crate::chains::thread_result(
                                            code2,
                                            clauses[idx].clause_start as int,
                                            otcil,
                                        ),
                                        crate::chains::thread_line(
                                            code2,
                                            clauses[idx].clause_start as int,
                                            crate::chains::thread_result(
                                                code2,
                                                clauses[idx].clause_start as int,
                                                otcil,
                                            ),
                                        ),
                                    );
                                    Some((code3, None))
                                }
                            },
                            None => {
                                if !(0 <= otcil < code2.len()) {
                                    None
                                } else {
                                    match code2[otcil] {
                                        LineV::Choice(ChoiceInstruction::TryMeElse(_)) => Some(
                                            (
                                                code2.update(
                                                    otcil,
                                                    LineV::Choice(
                                                        ChoiceInstruction::TryMeElse(0),
                                                    ),
                                                ),
                                                Some(IndexPtr::Index((otcil + 1) as usize)),
                                            ),
                                        ),
                                        _ => Some((code2, None)),
                                    }
                                }
                            },
                        }
                    }
                }
            }
        }
    }
}

/// Finds the first unindexed clause position at or after `from`.
fn find_first_unindexed(clauses: &Vec<ClauseIndexInfo>, from: usize) -> (r: Option<usize>)
    requires
        from <= clauses@.len(),
    ensures
        match r {
            Some(i) => first_unindexed_at(clauses@, from as int) == Some(i as int) && i
                < clauses@.len(),
            None => first_unindexed_at(clauses@, from as int) is None,
        },
{
    let mut i = from;
    while i < clauses.len()
        invariant
            from <= i <= clauses@.len(),
            first_unindexed_at(clauses@, from as int) == first_unindexed_at(clauses@, i as int),
        decreases clauses@.len() - i,
    {
        if !clauses[i].opt_arg_index_key.is_indexed() {
            return Some(i);
        }
        i = i + 1;
    }
    None
}

/// Links the indexed run below a removed clause to the run above it:
/// patches the lower run's inner tail to continue at the upper run's
/// derelicted first clause, then threads the outer chain across the gap.
/// When everything that follows is indexed, the outer threaded choice
/// becomes a stub and the line after it the predicate's new entry point.
pub fn merge_indexed_subsequences(
    code: &mut Vec<Line>,
    clauses: &Vec<ClauseIndexInfo>,
    lower_upper_bound: usize,
    upper_lower_bound: usize,
    retraction_info: &mut RetractionInfo,
) -> (r: Option<IndexPtr>)
    requires
        mis_plan(
            cv(old(code)@),
            clauses@,
            lower_upper_bound as int,
            upper_lower_bound as int,
        ) is Some,
    ensures
        ({
            let plan = mis_plan(
                cv(old(code)@),
                clauses@,
                lower_upper_bound as int,
                upper_lower_bound as int,
            ).unwrap();
            &&& cv(final(code)@) == plan.0
            &&& r == plan.1
        }),
        final(code)@.len() == old(code)@.len(),
        final(retraction_info).records@.take(old(retraction_info).records@.len() as int) == old(
            retraction_info,
        ).records@,
        final(retraction_info).records@.len() >= old(retraction_info).records@.len(),
        final(retraction_info).orig_code_extent == old(retraction_info).orig_code_extent,
{
    let ghost plan = mis_plan(
        cv(old(code)@),
        clauses@,
        lower_upper_bound as int,
        upper_lower_bound as int,
    ).unwrap();
    let n = code.len();
    let inner_trust_me_loc = clauses[upper_lower_bound - 2].clause_start;
    let iloc = match clauses[upper_lower_bound].opt_arg_index_key.switch_on_term_loc() {
        Some(l) => l,
        None => unreached(),
    };
    let itmel = crate::chains::find_inner_choice_instr(
        code,
        clauses[upper_lower_bound].clause_start,
        iloc,
    );
    let head = crate::chains::read_choice_opt(code, itmel);
    match head {
        Some(ChoiceInstruction::TryMeElse(o)) => {
            retraction_info.push_record(RetractionRecord::ModifiedTryMeElse(itmel, o));
            if o == 0 {
                code[itmel] = Line::Choice(ChoiceInstruction::TrustMe(0));
            } else {
                proof {
                    assert(cv(code@)[itmel as int] == LineV::Choice(
                        ChoiceInstruction::TryMeElse(o),
                    ));
                    assert(itmel + o < code@.len());
                }
                let is_end = match &code[itmel + o] {
                    Line::RevJmpBy(p) => *p == 0,
                    _ => false,
                };
                if is_end {
                    code[itmel] = Line::Choice(ChoiceInstruction::TrustMe(o));
                } else {
                    code[itmel] = Line::Choice(ChoiceInstruction::RetryMeElse(o));
                }
            }
        },
        _ => {},
    }
    crate::chains::thread_choice_instr_at_to(code, inner_trust_me_loc, itmel, retraction_info);
    let otcil = clauses[lower_upper_bound].clause_start - 2;
    let r = match find_first_unindexed(clauses, upper_lower_bound) {
        Some(idx) => {
            crate::chains::thread_choice_instr_at_to(
                code,
                otcil,
                clauses[idx].clause_start,
                retraction_info,
            );
            None
        },
        None => {
            let tail = crate::chains::read_choice_opt(code, otcil);
            match tail {
                Some(ChoiceInstruction::TryMeElse(o)) => {
                    retraction_info.push_record(
                        RetractionRecord::ModifiedTryMeElse(inner_trust_me_loc, o),
                    );
                    code[otcil] = Line::Choice(ChoiceInstruction::TryMeElse(0));
                    Some(IndexPtr::Index(otcil + 1))
                },
                _ => None,
            }
        },
    };
    proof {
        assert(retraction_info.records@.take(old(retraction_info).records@.len() as int)
            =~= old(retraction_info).records@);
        assert(cv(code@) =~= plan.0);
    }
    r
}


/// The machine state a load session edits: the code vector, the skeleton
/// tables, the code index and the session's retraction journal, together
/// with the compilation target of the source being loaded and the global
/// clock that dynamic clauses are stamped with.
#[derive(Debug)]
pub struct LoadState {
    pub compilation_target: CompilationTarget,
    pub code: Vec<Line>,
    pub skeletons: Vec<SkeletonEntry>,
    pub local_skeletons: Vec<LocalSkeletonEntry>,
    pub code_index: Vec<CodeIndexEntry>,
    pub retraction_info: RetractionInfo,
    pub global_clock: usize,
}

/// The position in the code vector of the dynamic choice instruction that
/// guards the clause at `target_pos`.
pub open spec fn rdc_loc(
    codev: Seq<LineV>,
    skel: crate::skeleton::PredicateSkeletonV,
    target_pos: usize,
) -> int {
    match skel.clauses[target_pos as int].opt_arg_index_key.spec_switch_on_term_loc() {
        Some(iloc) => crate::chains::inner_result(
            codev,
            iloc as int,
            skel.clauses[target_pos as int].clause_start as int,
        ),
        None => skel.clauses[target_pos as int].clause_start as int,
    }
}

/// Whether `retract_dynamic_clause` accepts the state for this key and
/// clause position.
pub open spec fn rdc_applicable(
    codev: Seq<LineV>,
    skels: Seq<SkeletonEntry>,
    compilation_target: CompilationTarget,
    key: PredicateKey,
    target_pos: usize,
    clock: usize,
) -> bool {
    match skel_find(skels, compilation_target, key) {
        None => false,
        Some(si) => {
            let skel = skels[si].skeleton@;
            &&& (target_pos as int) < skel.clauses.len()
            &&& (target_pos as int) < skel.clause_clause_locs.len()
            &&& match skel.clauses[target_pos as int].opt_arg_index_key.spec_switch_on_term_loc() {
                Some(iloc) => crate::chains::inner_terminates(
                    codev,
                    iloc as int,
                    skel.clauses[target_pos as int].clause_start as int,
                ),
                None => (skel.clauses[target_pos as int].clause_start as int) < codev.len(),
            }
            &&& match codev[rdc_loc(codev, skel, target_pos)] {
                // the clause was emitted at or before the instant that now
                // closes its lifetime interval, so `birth <= death` holds
                // of the stamp
                LineV::Choice(ChoiceInstruction::DynamicElse(b, _, _)) => b <= clock,
                LineV::Choice(ChoiceInstruction::DynamicInternalElse(b, _, _)) => b <= clock,
                _ => false,
            }
        },
    }
}

/// The guarding line with its death stamped at `clock`.
pub open spec fn rdc_stamped(l: LineV, clock: usize) -> LineV {
    match l {
        LineV::Choice(ChoiceInstruction::DynamicElse(b, _, nof)) => LineV::Choice(
            ChoiceInstruction::DynamicElse(b, crate::instructions::Death::Finite(clock), nof),
        ),
        LineV::Choice(ChoiceInstruction::DynamicInternalElse(b, _, nof)) => LineV::Choice(
            ChoiceInstruction::DynamicInternalElse(
                b,
                crate::instructions::Death::Finite(clock),
                nof,
            ),
        ),
        _ => l,
    }
}

/// The leading-clause branch of `retract_plan`: the removed clause leads
/// its indexed sub-sequence (or follows a single unindexed clause).
pub open spec fn retract_plan_early(
    codev: Seq<LineV>,
    clauses: Seq<ClauseIndexInfo>,
    tp: int,
) -> Option<(Seq<ClauseIndexInfo>, Option<IndexPtr>, Seq<LineV>)> {
    let cs_t = clauses[tp].clause_start;
    let key_t = clauses[tp].opt_arg_index_key;
    {

                    let iloc = key_t.spec_switch_on_term_loc().unwrap();
                    if !crate::chains::inner_terminates(codev, iloc as int, cs_t as int) {
                        None
                    } else {
                        let ics = crate::chains::inner_result(codev, iloc as int, cs_t as int);
                        if !crate::indexing::rsub_applicable(codev, key_t, ics as usize) {
                            None
                        } else {
                            let code1 = crate::indexing::rsub_code(codev, key_t, ics as usize);
                            if !(ics < code1.len() && crate::chains::derelict_applicable(
                                code1[ics],
                            )) {
                                None
                            } else {
                                let code2 = code1.update(
                                    ics,
                                    crate::chains::derelict_line(code1[ics]),
                                );
                                match crate::chains::derelict_result(code1[ics]) {
                                    Some(offset) => {
                                        if !crate::chains::inner_terminates(
                                            code2,
                                            iloc as int,
                                            ics + offset,
                                        ) {
                                            None
                                        } else {
                                            let il2 = crate::chains::inner_result(
                                                code2,
                                                iloc as int,
                                                ics + offset,
                                            );
                                            if !crate::chains::blunt_terminates(code2, il2) {
                                                None
                                            } else {
                                                let bres = crate::chains::blunt_result(
                                                    code2,
                                                    il2,
                                                );
                                                let code3 = code2.update(
                                                    bres,
                                                    crate::chains::blunt_line(code2, bres),
                                                );
                                                let clause_loc = crate::chains::blunt_ret(
                                                    code2,
                                                    bres,
                                                );
                                                if !(crate::indexing::switch_var_applicable(
                                                    code3,
                                                    iloc as usize,
                                                ) && clause_loc >= iloc && tp + 1
                                                    < clauses.len()) {
                                                    None
                                                } else {
                                                    let clauses2 = clauses.update(
                                                        tp + 1,
                                                        ClauseIndexInfo {
                                                            opt_arg_index_key: clauses[tp
                                                                + 1].opt_arg_index_key,
                                                            clause_start: cs_t,
                                                        },
                                                    );
                                                    let code4 = code3.update(
                                                        iloc as int,
                                                        LineV::IndexingCode(
                                                            crate::indexing::switch_var_set(
                                                                code3[iloc as int]
                                                                    ->IndexingCode_0,
                                                                (clause_loc - iloc) as usize,
                                                            ),
                                                        ),
                                                    );
                                                    Some((clauses2.remove(tp), None, code4))
                                                }
                                            }
                                        }
                                    },
                                    None => {
                                        if tp > 0 {
                                            let pci = clauses[tp - 1].clause_start;
                                            if !(cs_t >= 2 && rnl_applicable(
                                                code2,
                                                pci,
                                                (cs_t - 2) as usize,
                                            )) {
                                                None
                                            } else {
                                                Some(
                                                    (
                                                        clauses.remove(tp),
                                                        rnl_result(
                                                            code2,
                                                            pci,
                                                            (cs_t - 2) as usize,
                                                        ),
                                                        rnl_code(
                                                            code2,
                                                            pci,
                                                            (cs_t - 2) as usize,
                                                        ),
                                                    ),
                                                )
                                            }
                                        } else {
                                            if !(cs_t >= 2 && rlu_applicable(
                                                code2,
                                                (cs_t - 2) as usize,
                                            )) {
                                                None
                                            } else {
                                                Some(
                                                    (
                                                        clauses.remove(tp),
                                                        rlu_result(code2, (cs_t - 2) as usize),
                                                        rlu_code(code2, (cs_t - 2) as usize),
                                                    ),
                                                )
                                            }
                                        }
                                    },
                                }
                            }
                        }
                    }
                
    }
}

/// The remaining branch of `retract_plan`: a non-leading clause is
/// unlinked from its chain, or the leading unindexed clause of the
/// predicate is removed.
pub open spec fn retract_plan_rest(
    codev: Seq<LineV>,
    clauses: Seq<ClauseIndexInfo>,
    lb: int,
    tp: int,
) -> Option<(Seq<ClauseIndexInfo>, Option<IndexPtr>, Seq<LineV>)> {
    let cs_t = clauses[tp].clause_start;
    let key_t = clauses[tp].opt_arg_index_key;
    {

                        if tp > 0 {
                            if !crate::indexing::rsub_applicable(codev, key_t, cs_t) {
                                None
                            } else {
                                let code1 = crate::indexing::rsub_code(codev, key_t, cs_t);
                                match key_t.spec_switch_on_term_loc() {
                                    Some(iloc) => {
                                        if !crate::chains::inner_terminates(
                                            code1,
                                            iloc as int,
                                            clauses[tp - 1].clause_start as int,
                                        ) {
                                            None
                                        } else {
                                            let pci = crate::chains::inner_result(
                                                code1,
                                                iloc as int,
                                                clauses[tp - 1].clause_start as int,
                                            );
                                            if !rnl_applicable(code1, pci as usize, cs_t) {
                                                None
                                            } else {
                                                let code2 = rnl_code(
                                                    code1,
                                                    pci as usize,
                                                    cs_t,
                                                );
                                                let need_var = code2[pci] matches LineV::Choice(
                                                    ChoiceInstruction::TryMeElse(0),
                                                );
                                                if need_var && !(
                                                crate::indexing::switch_var_applicable(
                                                    code2,
                                                    iloc,
                                                ) && pci + 1 >= iloc) {
                                                    None
                                                } else {
                                                    let code3 = if need_var {
                                                        code2.update(
                                                            iloc as int,
                                                            LineV::IndexingCode(
                                                                crate::indexing::switch_var_set(
                                                                    code2[iloc as int]
                                                                        ->IndexingCode_0,
                                                                    (pci + 1 - iloc) as usize,
                                                                ),
                                                            ),
                                                        )
                                                    } else {
                                                        code2
                                                    };
                                                    Some((clauses.remove(tp), None, code3))
                                                }
                                            }
                                        }
                                    },
                                    None => {
                                        let lb_ok = if clauses[lb].opt_arg_index_key
                                            .spec_is_indexed() {
                                            clauses[lb].clause_start >= 2
                                        } else {
                                            true
                                        };
                                        let pci = if clauses[lb].opt_arg_index_key
                                            .spec_is_indexed() {
                                            (clauses[lb].clause_start - 2) as usize
                                        } else {
                                            clauses[lb].clause_start
                                        };
                                        if !(lb_ok && rnl_applicable(code1, pci, cs_t)) {
                                            None
                                        } else {
                                            Some(
                                                (
                                                    clauses.remove(tp),
                                                    rnl_result(code1, pci, cs_t),
                                                    rnl_code(code1, pci, cs_t),
                                                ),
                                            )
                                        }
                                    },
                                }
                            }
                        } else {
                            if !rlu_applicable(codev, cs_t) {
                                None
                            } else {
                                Some((clauses.remove(tp), rlu_result(codev, cs_t), rlu_code(
                                    codev,
                                    cs_t,
                                )))
                            }
                        }
                    
    }
}

/// The merge branch of `retract_plan`: the removed clause joins two
/// indexed sub-sequences that merge once it is gone.
pub open spec fn retract_plan_merge(
    codev: Seq<LineV>,
    clauses: Seq<ClauseIndexInfo>,
    lb: int,
    tp: int,
) -> Option<(Seq<ClauseIndexInfo>, Option<IndexPtr>, Seq<LineV>)> {
    let lb_key = clauses[lb].opt_arg_index_key;
    {

                        let t_iloc = lb_key.spec_switch_on_term_loc().unwrap();
                        if !crate::chains::inner_terminates(
                            codev,
                            t_iloc as int,
                            clauses[lb].clause_start as int,
                        ) {
                            None
                        } else {
                            let lbcs = crate::chains::inner_result(
                                codev,
                                t_iloc as int,
                                clauses[lb].clause_start as int,
                            );
                            let later_opt = clauses[tp + 1].opt_arg_index_key
                                .spec_switch_on_term_loc();
                            if later_opt is Some && later_opt.unwrap() < t_iloc {
                                let later = later_opt.unwrap();
                                if !((t_iloc as int) < codev.len() && codev[t_iloc as int]
                                    is IndexingCode) {
                                    None
                                } else {
                                    let code_a = codev.update(
                                        t_iloc as int,
                                        LineV::RevJmpBy((t_iloc - later) as usize),
                                    );
                                    match mis_plan(code_a, clauses, lb, tp + 1) {
                                        None => None,
                                        Some(mis) => {
                                            match crate::indexing::merge_indices_spec(
                                                mis.0,
                                                later,
                                                lb,
                                                tp,
                                                clauses,
                                            ) {
                                                None => None,
                                                Some(mi) => {
                                                    if !(crate::indexing::switch_var_applicable(
                                                        mi.0,
                                                        later,
                                                    ) && lbcs >= later) {
                                                        None
                                                    } else {
                                                        let code_f = mi.0.update(
                                                            later as int,
                                                            LineV::IndexingCode(
                                                                crate::indexing::switch_var_set(
                                                                    mi.0[later as int]
                                                                        ->IndexingCode_0,
                                                                    (lbcs - later) as usize,
                                                                ),
                                                            ),
                                                        );
                                                        Some((mi.1.remove(tp), mis.1, code_f))
                                                    }
                                                },
                                            }
                                        },
                                    }
                                }
                            } else {
                                match mis_plan(codev, clauses, lb, tp + 1) {
                                    None => None,
                                    Some(mis) => {
                                        match crate::indexing::merge_indices_spec(
                                            mis.0,
                                            t_iloc,
                                            tp + 1,
                                            clauses.len() as int,
                                            clauses,
                                        ) {
                                            None => None,
                                            Some(mi) => {
                                                if !(crate::indexing::switch_var_applicable(
                                                    mi.0,
                                                    t_iloc,
                                                ) && lbcs >= t_iloc && ({
                                                    let v = match crate::indexing::switch_var(
                                                        mi.0,
                                                        t_iloc,
                                                    ) {
                                                        crate::instructions::IndexingCodePtr::External(v) => v,
                                                        crate::instructions::IndexingCodePtr::DynamicExternal(v) => v,
                                                        crate::instructions::IndexingCodePtr::Internal(v) => v,
                                                    };
                                                    t_iloc + v < mi.0.len()
                                                })) {
                                                    None
                                                } else {
                                                    let code_f = if
                                                    crate::indexing::var_lands_on_choice(
                                                        mi.0,
                                                        t_iloc,
                                                    ) {
                                                        mi.0
                                                    } else {
                                                        mi.0.update(
                                                            t_iloc as int,
                                                            LineV::IndexingCode(
                                                                crate::indexing::switch_var_set(
                                                                    mi.0[t_iloc as int]
                                                                        ->IndexingCode_0,
                                                                    (lbcs - t_iloc) as usize,
                                                                ),
                                                            ),
                                                        )
                                                    };
                                                    Some((mi.1.remove(tp), mis.1, code_f))
                                                }
                                            },
                                        }
                                    },
                                }
                            }
                        }
                    
    }
}

/// The plan of `retract_clause`: the clauses left in the skeleton after
/// the removal (before the final deletion, already performed here), and
/// the entry-point pointer to register, if any; `None` when a step is
/// undefined on this state.
pub open spec fn retract_plan(
    codev: Seq<LineV>,
    skels: Seq<SkeletonEntry>,
    compilation_target: CompilationTarget,
    key: PredicateKey,
    target_pos: usize,
) -> Option<(Seq<ClauseIndexInfo>, Option<IndexPtr>, Seq<LineV>)> {
    match skel_find(skels, compilation_target, key) {
        None => None,
        Some(si) => {
            let skel = skels[si].skeleton@;
            let clauses = skel.clauses;
            let tp = target_pos as int;
            if !(tp < clauses.len() && tp < skel.clause_clause_locs.len()) {
                None
            } else {
                let lb = crate::skeleton::spec_lower_bound_of_target_clause(clauses, tp);
                let lb_unindexed = !clauses[lb].opt_arg_index_key.spec_is_indexed();
                let cs_t = clauses[tp].clause_start;
                let key_t = clauses[tp].opt_arg_index_key;
                if (tp == 0 || (lb + 1 == tp && lb_unindexed))
                    && key_t.spec_switch_on_term_loc() is Some {
                    retract_plan_early(codev, clauses, tp)
                } else {
                    let lb_key = clauses[lb].opt_arg_index_key;
                    if lb_key.spec_switch_on_term_loc() is Some
                        && crate::skeleton::spec_mergeable_indexed_subsequences(
                        clauses,
                        lb,
                        tp,
                    ) {
                        retract_plan_merge(codev, clauses, lb, tp)
                    } else {
                        retract_plan_rest(codev, clauses, lb, tp)
                    }
                }
            }
        }
    }
}

/// Prefixes chain: what preserves a longer prefix preserves a shorter one.
pub proof fn lemma_prefix_chain(
    r0: Seq<RetractionRecord>,
    r1: Seq<RetractionRecord>,
    r2: Seq<RetractionRecord>,
)
    requires
        r0.len() <= r1.len() <= r2.len(),
        r1.take(r0.len() as int) == r0,
        r2.take(r1.len() as int) == r1,
    ensures
        r2.take(r0.len() as int) == r0,
{
    assert(r2.take(r0.len() as int) =~= r0);
}

/// The leading-clause case of `retract_clause`: deletes the clause's
/// indexing entry, derelicts its guard, and either blunts the following
/// clause's choice instruction into the new head or removes the clause
/// from the head of its chain, updating the code-index slot at `ci_pos`
/// when the entry point moves.  Deletes the clause from the skeleton and
/// returns its mirror location.
fn retract_early_case(
    code: &mut Vec<Line>,
    skel: &mut PredicateSkeleton,
    code_index: &mut Vec<CodeIndexEntry>,
    ci_pos: usize,
    retraction_info: &mut RetractionInfo,
    compilation_target: CompilationTarget,
    key: PredicateKey,
    target_pos: usize,
) -> (r: usize)
    requires
        target_pos < old(skel)@.clauses.len(),
        target_pos < old(skel)@.clause_clause_locs.len(),
        ci_pos < old(code_index)@.len(),
        old(skel)@.clauses[target_pos as int].opt_arg_index_key.spec_switch_on_term_loc()
            is Some,
        retract_plan_early(cv(old(code)@), old(skel)@.clauses, target_pos as int) is Some,
    ensures
        ({
            let plan = retract_plan_early(
                cv(old(code)@),
                old(skel)@.clauses,
                target_pos as int,
            ).unwrap();
            &&& final(skel)@.clauses == plan.0
            &&& cv(final(code)@) == plan.2
            &&& final(code_index)@ == match plan.1 {
                Some(p) => old(code_index)@.update(
                    ci_pos as int,
                    CodeIndexEntry {
                        target: old(code_index)@[ci_pos as int].target,
                        key: old(code_index)@[ci_pos as int].key,
                        ptr: p,
                    },
                ),
                None => old(code_index)@,
            }
        }),
        final(skel)@.clause_clause_locs == old(skel)@.clause_clause_locs.remove(
            target_pos as int,
        ),
        final(skel)@.clause_assert_margin == if (target_pos as int) < old(
            skel,
        )@.clause_assert_margin {
            old(skel)@.clause_assert_margin - 1
        } else {
            old(skel)@.clause_assert_margin as int
        },
        final(skel)@.is_dynamic == old(skel)@.is_dynamic,
        final(skel)@.is_multifile == old(skel)@.is_multifile,
        r == old(skel)@.clause_clause_locs[target_pos as int],
        final(code)@.len() == old(code)@.len(),
        final(retraction_info).records@.take(old(retraction_info).records@.len() as int) == old(
            retraction_info,
        ).records@,
        final(retraction_info).orig_code_extent == old(retraction_info).orig_code_extent,
{
    let ghost plan = retract_plan_early(
        cv(old(code)@),
        old(skel)@.clauses,
        target_pos as int,
    ).unwrap();
    let n = code.len();
    let cl = skel.clauses.len();
    let cs_t = skel.clauses[target_pos].clause_start;
    let key_t = skel.clauses[target_pos].opt_arg_index_key;
    match key_t.switch_on_term_loc() {
        Some(index_loc) => {

                    let inner_clause_start = crate::chains::find_inner_choice_instr(
                        &*code,
                        cs_t,
                        index_loc,
                    );
                    crate::indexing::remove_index_from_subsequence(
                        code,
                        key_t,
                        inner_clause_start,
                        retraction_info,
                    );
                    proof {
                        assert(retraction_info.records@.take(
                            old(retraction_info).records@.len() as int,
                        ) =~= old(retraction_info).records@);
                    }
                    match crate::chains::derelictize_try_me_else(
                        code,
                        inner_clause_start,
                        retraction_info,
                    ) {
                        Some(offset) => {
                            let instr_loc = crate::chains::find_inner_choice_instr(
                                &*code,
                                inner_clause_start + offset,
                                index_loc,
                            );
                            let clause_loc = crate::chains::blunt_leading_choice_instr(
                                code,
                                instr_loc,
                                retraction_info,
                            );
                            proof {
                                assert(retraction_info.records@.take(
                                    old(retraction_info).records@.len() as int,
                                ) =~= old(retraction_info).records@);
                            }
                            crate::indexing::set_switch_var_offset(
                                code,
                                index_loc,
                                clause_loc - index_loc,
                                retraction_info,
                            );
                            proof {
                                assert(retraction_info.records@.take(
                                    old(retraction_info).records@.len() as int,
                                ) =~= old(retraction_info).records@);
                            }
                            retraction_info.push_record(
                                RetractionRecord::SkeletonClauseStartReplaced(
                                    compilation_target,
                                    key,
                                    target_pos + 1,
                                    skel.clauses[target_pos + 1].clause_start,
                                ),
                            );
                            proof {
                                assert(retraction_info.records@.take(
                                    old(retraction_info).records@.len() as int,
                                ) =~= old(retraction_info).records@);
                            }
                            let mut e = skel.clauses[target_pos + 1];
                            e.clause_start = cs_t;
                            skel.clauses[target_pos + 1] = e;
                            let r = delete_from_skeleton(
                                compilation_target,
                                key,
                                skel,
                                target_pos,
                                retraction_info,
                            );
                            proof {
                                assert(retraction_info.records@.take(
                                    old(retraction_info).records@.len() as int,
                                ) =~= old(retraction_info).records@);
                            }
                            proof {
                                assert(skel.clauses@ =~= plan.0);
                                assert(cv((*code)@) =~= plan.2);
                                assert(retraction_info.records@.take(
                                    old(retraction_info).records@.len() as int,
                                ) =~= old(retraction_info).records@);
                            }
                            return r;
                        },
                        None => {
                            let index_ptr_opt = if target_pos > 0 {
                                let pci = skel.clauses[target_pos - 1].clause_start;
                                remove_non_leading_clause(
                                    code,
                                    pci,
                                    cs_t - 2,
                                    retraction_info,
                                )
                            } else {
                                remove_leading_unindexed_clause(
                                    code,
                                    cs_t - 2,
                                    retraction_info,
                                )
                            };
                            let r = finalize_retract(
                                key,
                                compilation_target,
                                skel,
                                code_index,
                                ci_pos,
                                target_pos,
                                index_ptr_opt,
                                retraction_info,
                            );
                            proof {
                                assert(retraction_info.records@.take(
                                    old(retraction_info).records@.len() as int,
                                ) =~= old(retraction_info).records@);
                            }
                            proof {
                                assert(skel.clauses@ =~= plan.0);
                                assert(cv((*code)@) =~= plan.2);
                                assert(retraction_info.records@.take(
                                    old(retraction_info).records@.len() as int,
                                ) =~= old(retraction_info).records@);
                            }
                            return r;
                        },
                    }
                
        },
        None => unreached(),
    }
}

/// The merge case of `retract_clause`: links the sub-sequences on either
/// side of the removed clause, migrates the upper run's indexing entries
/// into the surviving table, and re-points the variable fall-through.
fn retract_merge_case(
    code: &mut Vec<Line>,
    skel: &mut PredicateSkeleton,
    retraction_info: &mut RetractionInfo,
    lower_bound: usize,
    target_pos: usize,
) -> (r: Option<IndexPtr>)
    requires
        lower_bound <= target_pos,
        lower_bound < old(skel)@.clauses.len(),
        target_pos + 1 < old(skel)@.clauses.len(),
        old(skel)@.clauses[lower_bound as int].opt_arg_index_key.spec_switch_on_term_loc()
            is Some,
        crate::skeleton::spec_mergeable_indexed_subsequences(
            old(skel)@.clauses,
            lower_bound as int,
            target_pos as int,
        ),
        retract_plan_merge(
            cv(old(code)@),
            old(skel)@.clauses,
            lower_bound as int,
            target_pos as int,
        ) is Some,
    ensures
        ({
            let plan = retract_plan_merge(
                cv(old(code)@),
                old(skel)@.clauses,
                lower_bound as int,
                target_pos as int,
            ).unwrap();
            &&& plan.0 == final(skel)@.clauses.remove(target_pos as int)
            &&& r == plan.1
            &&& cv(final(code)@) == plan.2
        }),
        final(skel)@.clauses.len() == old(skel)@.clauses.len(),
        final(skel)@.clause_clause_locs == old(skel)@.clause_clause_locs,
        final(skel)@.clause_assert_margin == old(skel)@.clause_assert_margin,
        final(skel)@.is_dynamic == old(skel)@.is_dynamic,
        final(skel)@.is_multifile == old(skel)@.is_multifile,
        final(code)@.len() == old(code)@.len(),
        final(retraction_info).records@.take(old(retraction_info).records@.len() as int) == old(
            retraction_info,
        ).records@,
        final(retraction_info).records@.len() >= old(retraction_info).records@.len(),
        final(retraction_info).orig_code_extent == old(retraction_info).orig_code_extent,
{
    let ghost plan = retract_plan_merge(
        cv(old(code)@),
        old(skel)@.clauses,
        lower_bound as int,
        target_pos as int,
    ).unwrap();
    let ghost r0 = old(retraction_info).records@;
    let n = code.len();
    let cl = skel.clauses.len();
    let lb_key = skel.clauses[lower_bound].opt_arg_index_key;
    let index_ptr_opt: Option<IndexPtr>;
    let target_indexing_loc = match lb_key.switch_on_term_loc() {
        Some(l) => l,
        None => unreached(),
    };
    let lbcs = crate::chains::find_inner_choice_instr(
        &*code,
        skel.clauses[lower_bound].clause_start,
        target_indexing_loc,
    );
    let later_opt = skel.clauses[target_pos + 1].opt_arg_index_key.switch_on_term_loc();
    let use_later = match later_opt {
        Some(later) => later < target_indexing_loc,
        None => false,
    };
    if use_later {
        let later = match later_opt {
            Some(l) => l,
            None => unreached(),
        };
        let line = crate::chains::take_line(code, target_indexing_loc);
        code[target_indexing_loc] = Line::RevJmpBy(target_indexing_loc - later);
        match line {
            Line::IndexingCode(ic) => {
                retraction_info.push_record(
                    RetractionRecord::ReplacedIndexingLine(target_indexing_loc, ic),
                );
            },
            _ => unreached(),
        }
        let ghost r1 = retraction_info.records@;
        proof {
            assert(r1.take(r0.len() as int) =~= r0);
            assert(cv((*code)@) =~= cv(old(code)@).update(
                target_indexing_loc as int,
                LineV::RevJmpBy((target_indexing_loc - later) as usize),
            ));
        }
        index_ptr_opt = merge_indexed_subsequences(
            code,
            &skel.clauses,
            lower_bound,
            target_pos + 1,
            retraction_info,
        );
        let ghost r2 = retraction_info.records@;
        proof {
            lemma_prefix_chain(r0, r1, r2);
        }
        crate::indexing::merge_indices(
            code,
            later,
            lower_bound,
            target_pos,
            &mut skel.clauses,
            retraction_info,
        );
        let ghost r3 = retraction_info.records@;
        proof {
            assert(r3.take(r2.len() as int) =~= r2);
            lemma_prefix_chain(r0, r2, r3);
        }
        crate::indexing::set_switch_var_offset(
            code,
            later,
            lbcs - later,
            retraction_info,
        );
        let ghost r4 = retraction_info.records@;
        proof {
            assert(r4.take(r3.len() as int) =~= r3);
            lemma_prefix_chain(r0, r3, r4);
        }
    } else {
        index_ptr_opt = merge_indexed_subsequences(
            code,
            &skel.clauses,
            lower_bound,
            target_pos + 1,
            retraction_info,
        );
        let ghost r1 = retraction_info.records@;
        let clauses_len = skel.clauses.len();
        crate::indexing::merge_indices(
            code,
            target_indexing_loc,
            target_pos + 1,
            clauses_len,
            &mut skel.clauses,
            retraction_info,
        );
        let ghost r2 = retraction_info.records@;
        proof {
            assert(r2.take(r1.len() as int) =~= r1);
            lemma_prefix_chain(r0, r1, r2);
        }
        crate::indexing::set_switch_var_offset_to_choice_instr(
            code,
            target_indexing_loc,
            lbcs - target_indexing_loc,
            retraction_info,
        );
        let ghost r3 = retraction_info.records@;
        proof {
            assert(r3.take(r2.len() as int) =~= r2);
            lemma_prefix_chain(r0, r2, r3);
        }
    }
    proof {
        assert(plan.0 =~= skel.clauses@.remove(target_pos as int));
        assert(cv((*code)@) =~= plan.2);
    }
    index_ptr_opt
}

impl LoadState {
    /// Journals that an incremental compile into the predicate began.
    pub fn record_incremental_compile(
        &mut self,
        key: PredicateKey,
        compilation_target: CompilationTarget,
        append_or_prepend: crate::instructions::AppendOrPrepend,
    )
        ensures
            final(self).retraction_info.records@ == old(self).retraction_info.records@.push(
                if append_or_prepend.spec_is_append() {
                    RetractionRecord::AppendedExtensiblePredicate(compilation_target, key)
                } else {
                    RetractionRecord::PrependedExtensiblePredicate(compilation_target, key)
                },
            ),
            final(self).retraction_info.orig_code_extent == old(
                self,
            ).retraction_info.orig_code_extent,
            final(self).code == old(self).code,
            final(self).skeletons == old(self).skeletons,
            final(self).local_skeletons == old(self).local_skeletons,
            final(self).code_index == old(self).code_index,
            final(self).compilation_target == old(self).compilation_target,
            final(self).global_clock == old(self).global_clock,
    {
        let record = match append_or_prepend {
            crate::instructions::AppendOrPrepend::Append =>
                RetractionRecord::AppendedExtensiblePredicate(compilation_target, key),
            crate::instructions::AppendOrPrepend::Prepend =>
                RetractionRecord::PrependedExtensiblePredicate(compilation_target, key),
        };
        self.retraction_info.push_record(record);
    }

    /// Retracts a clause of a dynamic predicate: the clause is NOT rewired
    /// out of its chain — its guarding dynamic choice instruction is
    /// stamped with `death` at the current clock, so that execution's
    /// clock check skips it — and its skeleton entry is deleted.  Returns
    /// the clause's `$clause/2` mirror location.
    pub fn retract_dynamic_clause(&mut self, key: PredicateKey, target_pos: usize) -> (r: usize)
        requires
            rdc_applicable(
                cv(old(self).code@),
                old(self).skeletons@,
                old(self).compilation_target,
                key,
                target_pos,
                old(self).global_clock,
            ),
        ensures
            ({
                let si = skel_find(
                    old(self).skeletons@,
                    old(self).compilation_target,
                    key,
                ).unwrap();
                let skel = old(self).skeletons@[si].skeleton@;
                let loc = rdc_loc(cv(old(self).code@), skel, target_pos);
                &&& cv(final(self).code@) == cv(old(self).code@).update(
                    loc,
                    rdc_stamped(cv(old(self).code@)[loc], old(self).global_clock),
                )
                &&& r == skel.clause_clause_locs[target_pos as int]
                &&& final(self).skeletons@.len() == old(self).skeletons@.len()
                &&& forall|j: int|
                    0 <= j < old(self).skeletons@.len() && j != si ==> final(self).skeletons@[j]
                        == old(self).skeletons@[j]
                &&& final(self).skeletons@[si].target == old(self).skeletons@[si].target
                &&& final(self).skeletons@[si].key == old(self).skeletons@[si].key
                &&& final(self).skeletons@[si].skeleton@.clauses == skel.clauses.remove(
                    target_pos as int,
                )
                &&& final(self).skeletons@[si].skeleton@.clause_clause_locs
                    == skel.clause_clause_locs.remove(target_pos as int)
                &&& final(self).skeletons@[si].skeleton@.clause_assert_margin == if (
                target_pos as int) < skel.clause_assert_margin {
                    skel.clause_assert_margin - 1
                } else {
                    skel.clause_assert_margin as int
                }
                &&& final(self).skeletons@[si].skeleton@.is_dynamic == skel.is_dynamic
                &&& final(self).skeletons@[si].skeleton@.is_multifile == skel.is_multifile
                &&& final(self).retraction_info.records@ == old(
                    self,
                ).retraction_info.records@.push(
                    RetractionRecord::RemovedSkeletonClause(
                        old(self).compilation_target,
                        key,
                        target_pos,
                        skel.clauses[target_pos as int],
                        r,
                    ),
                )
            }),
            final(self).retraction_info.orig_code_extent == old(
                self,
            ).retraction_info.orig_code_extent,
            final(self).local_skeletons == old(self).local_skeletons,
            final(self).code_index == old(self).code_index,
            final(self).compilation_target == old(self).compilation_target,
            final(self).global_clock == old(self).global_clock,
            final(self).code@.len() == old(self).code@.len(),
    {
        let si = match skeleton_pos(&self.skeletons, self.compilation_target, key) {
            Some(si) => si,
            None => unreached(),
        };
        proof {
            lemma_skel_find(self.skeletons@, self.compilation_target, key);
        }
        let mut skel = PredicateSkeleton::new();
        core::mem::swap(&mut skel, &mut self.skeletons[si].skeleton);
        let clause_loc = match skel.clauses[target_pos].opt_arg_index_key.switch_on_term_loc() {
            Some(index_loc) => crate::chains::find_inner_choice_instr(
                &self.code,
                skel.clauses[target_pos].clause_start,
                index_loc,
            ),
            None => skel.clauses[target_pos].clause_start,
        };
        let c = crate::chains::read_choice(&self.code, clause_loc);
        match c {
            ChoiceInstruction::DynamicElse(b, _, nof) => {
                self.code[clause_loc] = Line::Choice(
                    ChoiceInstruction::DynamicElse(
                        b,
                        crate::instructions::Death::Finite(self.global_clock),
                        nof,
                    ),
                );
            },
            ChoiceInstruction::DynamicInternalElse(b, _, nof) => {
                self.code[clause_loc] = Line::Choice(
                    ChoiceInstruction::DynamicInternalElse(
                        b,
                        crate::instructions::Death::Finite(self.global_clock),
                        nof,
                    ),
                );
            },
            _ => unreached(),
        }
        let r = delete_from_skeleton(
            self.compilation_target,
            key,
            &mut skel,
            target_pos,
            &mut self.retraction_info,
        );
        core::mem::swap(&mut skel, &mut self.skeletons[si].skeleton);
        proof {
            assert(final(self).skeletons@[si as int].skeleton@.clauses =~= old(
                self,
            ).skeletons@[si as int].skeleton@.clauses.remove(target_pos as int));
        }
        r
    }

    /// Retracts a clause of a static predicate by surgical edits on the
    /// live code vector: the clause's indexing-table entry is deleted and
    /// the try/retry/trust chain rethreaded past it — blunting the next
    /// clause's choice instruction when the removed clause led its
    /// sub-sequence, merging the neighbouring indexed sub-sequences when
    /// the removal joins them, and registering a fresh entry point when
    /// the predicate's entry moves.  Returns the clause's `$clause/2`
    /// mirror location.
    #[verifier::rlimit(100)]
    #[verifier::spinoff_prover]
    pub fn retract_clause(&mut self, key: PredicateKey, target_pos: usize) -> (r: usize)
        requires
            retract_plan(
                cv(old(self).code@),
                old(self).skeletons@,
                old(self).compilation_target,
                key,
                target_pos,
            ) is Some,
        ensures
            ({
                let si = skel_find(
                    old(self).skeletons@,
                    old(self).compilation_target,
                    key,
                ).unwrap();
                let skel = old(self).skeletons@[si].skeleton@;
                let plan = retract_plan(
                    cv(old(self).code@),
                    old(self).skeletons@,
                    old(self).compilation_target,
                    key,
                    target_pos,
                ).unwrap();
                let t1 = if ci_find(
                    old(self).code_index@,
                    old(self).compilation_target,
                    key,
                ) is Some {
                    old(self).code_index@
                } else {
                    old(self).code_index@.push(
                        CodeIndexEntry {
                            target: old(self).compilation_target,
                            key,
                            ptr: IndexPtr::Undefined,
                        },
                    )
                };
                let slot = ci_find(t1, old(self).compilation_target, key).unwrap();
                &&& r == skel.clause_clause_locs[target_pos as int]
                &&& final(self).skeletons@.len() == old(self).skeletons@.len()
                &&& forall|j: int|
                    0 <= j < old(self).skeletons@.len() && j != si ==> final(self).skeletons@[j]
                        == old(self).skeletons@[j]
                &&& final(self).skeletons@[si].target == old(self).skeletons@[si].target
                &&& final(self).skeletons@[si].key == old(self).skeletons@[si].key
                &&& final(self).skeletons@[si].skeleton@.clauses == plan.0
                &&& cv(final(self).code@) == plan.2
                &&& final(self).skeletons@[si].skeleton@.clause_clause_locs
                    == skel.clause_clause_locs.remove(target_pos as int)
                &&& final(self).skeletons@[si].skeleton@.clause_assert_margin == if (
                target_pos as int) < skel.clause_assert_margin {
                    skel.clause_assert_margin - 1
                } else {
                    skel.clause_assert_margin as int
                }
                &&& final(self).skeletons@[si].skeleton@.is_dynamic == skel.is_dynamic
                &&& final(self).skeletons@[si].skeleton@.is_multifile == skel.is_multifile
                &&& final(self).code_index@ == match plan.1 {
                    Some(p) => t1.update(
                        slot,
                        CodeIndexEntry {
                            target: old(self).compilation_target,
                            key,
                            ptr: p,
                        },
                    ),
                    None => t1,
                }
            }),
            final(self).code@.len() == old(self).code@.len(),
            final(self).retraction_info.records@.take(
                old(self).retraction_info.records@.len() as int,
            ) == old(self).retraction_info.records@,
            final(self).retraction_info.orig_code_extent == old(
                self,
            ).retraction_info.orig_code_extent,
            final(self).local_skeletons == old(self).local_skeletons,
            final(self).compilation_target == old(self).compilation_target,
            final(self).global_clock == old(self).global_clock,
    {
        let ghost plan = retract_plan(
            cv(old(self).code@),
            old(self).skeletons@,
            old(self).compilation_target,
            key,
            target_pos,
        ).unwrap();
        proof {
            lemma_ci_find(self.code_index@, self.compilation_target, key);
        }
        let ci_pos = get_or_insert_code_index(
            &mut self.code_index,
            self.compilation_target,
            key,
        );
        proof {
            lemma_ci_find(self.code_index@, self.compilation_target, key);
            lemma_skel_find(self.skeletons@, self.compilation_target, key);
        }
        let si = match skeleton_pos(&self.skeletons, self.compilation_target, key) {
            Some(si) => si,
            None => unreached(),
        };
        let mut skel = PredicateSkeleton::new();
        core::mem::swap(&mut skel, &mut self.skeletons[si].skeleton);
        let n = self.code.len();
        let cl = skel.clauses.len();
        let lower_bound = crate::skeleton::lower_bound_of_target_clause(&skel, target_pos);
        let lb_unindexed = !skel.clauses[lower_bound].opt_arg_index_key.is_indexed();
        let cs_t = skel.clauses[target_pos].clause_start;
        let key_t = skel.clauses[target_pos].opt_arg_index_key;
        if target_pos == 0 || (lower_bound + 1 == target_pos && lb_unindexed) {
            // the clause preceding `target_pos`, if any, is unindexed
            match key_t.switch_on_term_loc() {
                Some(_) => {
                    let r = retract_early_case(
                        &mut self.code,
                        &mut skel,
                        &mut self.code_index,
                        ci_pos,
                        &mut self.retraction_info,
                        self.compilation_target,
                        key,
                        target_pos,
                    );
                    core::mem::swap(&mut skel, &mut self.skeletons[si].skeleton);
                    proof {
                        assert(final(self).skeletons@[si as int].skeleton@.clauses =~= plan.0);
                        assert(cv(self.code@) =~= plan.2);
                        assert(self.retraction_info.records@.take(
                            old(self).retraction_info.records@.len() as int,
                        ) =~= old(self).retraction_info.records@);
                    }
                    return r;},
                None => {},
            }
        }
        let lb_key = skel.clauses[lower_bound].opt_arg_index_key;
        let merg = match lb_key.switch_on_term_loc() {
            Some(_) => crate::skeleton::mergeable_indexed_subsequences(
                lower_bound,
                target_pos,
                &skel,
            ),
            None => false,
        };
        if merg {
            let index_ptr_opt = retract_merge_case(
                &mut self.code,
                &mut skel,
                &mut self.retraction_info,
                lower_bound,
                target_pos,
            );
            let ghost rh = self.retraction_info.records@;
            let r = finalize_retract(
                key,
                self.compilation_target,
                &mut skel,
                &mut self.code_index,
                ci_pos,
                target_pos,
                index_ptr_opt,
                &mut self.retraction_info,
            );
            core::mem::swap(&mut skel, &mut self.skeletons[si].skeleton);
            proof {
                assert(final(self).skeletons@[si as int].skeleton@.clauses =~= plan.0);
                assert(cv(self.code@) =~= plan.2);
                assert(self.retraction_info.records@.take(rh.len() as int) =~= rh);
                lemma_prefix_chain(
                    old(self).retraction_info.records@,
                    rh,
                    self.retraction_info.records@,
                );
            }
            return r;
        } else if target_pos > 0 {
            crate::indexing::remove_index_from_subsequence(
                &mut self.code,
                key_t,
                cs_t,
                &mut self.retraction_info,
            );
            proof {
                assert(self.retraction_info.records@.take(
                    old(self).retraction_info.records@.len() as int,
                ) =~= old(self).retraction_info.records@);
            }
            match key_t.switch_on_term_loc() {
                Some(index_loc) => {
                    let pci = crate::chains::find_inner_choice_instr(
                        &self.code,
                        skel.clauses[target_pos - 1].clause_start,
                        index_loc,
                    );
                    remove_non_leading_clause(
                        &mut self.code,
                        pci,
                        cs_t,
                        &mut self.retraction_info,
                    );
                    proof {
                        assert(self.retraction_info.records@.take(
                            old(self).retraction_info.records@.len() as int,
                        ) =~= old(self).retraction_info.records@);
                    }
                    let is_stub = match crate::chains::read_choice_opt(&self.code, pci) {
                        Some(ChoiceInstruction::TryMeElse(0)) => true,
                        _ => false,
                    };
                    if is_stub {
                        crate::indexing::set_switch_var_offset(
                            &mut self.code,
                            index_loc,
                            pci + 1 - index_loc,
                            &mut self.retraction_info,
                        );
                    }
                    let index_ptr_opt: Option<IndexPtr> = None;
                    let r = finalize_retract(
                        key,
                        self.compilation_target,
                        &mut skel,
                        &mut self.code_index,
                        ci_pos,
                        target_pos,
                        index_ptr_opt,
                        &mut self.retraction_info,
                    );
                    core::mem::swap(&mut skel, &mut self.skeletons[si].skeleton);
                    proof {
                        assert(final(self).skeletons@[si as int].skeleton@.clauses =~= plan.0);
                        assert(cv(self.code@) =~= plan.2);
                        assert(self.retraction_info.records@.take(
                            old(self).retraction_info.records@.len() as int,
                        ) =~= old(self).retraction_info.records@);
                    }
                    return r;
                },
                None => {
                    let pci = if lb_key.is_indexed() {
                        skel.clauses[lower_bound].clause_start - 2
                    } else {
                        skel.clauses[lower_bound].clause_start
                    };
                    let index_ptr_opt = remove_non_leading_clause(
                        &mut self.code,
                        pci,
                        cs_t,
                        &mut self.retraction_info,
                    );
                    let r = finalize_retract(
                        key,
                        self.compilation_target,
                        &mut skel,
                        &mut self.code_index,
                        ci_pos,
                        target_pos,
                        index_ptr_opt,
                        &mut self.retraction_info,
                    );
                    core::mem::swap(&mut skel, &mut self.skeletons[si].skeleton);
                    proof {
                        assert(final(self).skeletons@[si as int].skeleton@.clauses =~= plan.0);
                        assert(cv(self.code@) =~= plan.2);
                        assert(self.retraction_info.records@.take(
                            old(self).retraction_info.records@.len() as int,
                        ) =~= old(self).retraction_info.records@);
                    }
                    return r;
                },
            }
        } else {
            let index_ptr_opt = remove_leading_unindexed_clause(
                &mut self.code,
                cs_t,
                &mut self.retraction_info,
            );
            let r = finalize_retract(
                key,
                self.compilation_target,
                &mut skel,
                &mut self.code_index,
                ci_pos,
                target_pos,
                index_ptr_opt,
                &mut self.retraction_info,
            );
            core::mem::swap(&mut skel, &mut self.skeletons[si].skeleton);
            proof {
                assert(final(self).skeletons@[si as int].skeleton@.clauses =~= plan.0);
                assert(cv(self.code@) =~= plan.2);
                assert(self.retraction_info.records@.take(
                    old(self).retraction_info.records@.len() as int,
                ) =~= old(self).retraction_info.records@);
            }
            return r;
        }
        unreached()
    }
}

} // verus!
