//! The library's laws: journal invertibility for the code vector's
//! primitive edits, the assert-margin discipline, append/retract round
//! trips at the skeleton level, the birth/death discipline of dynamic
//! clauses, and the step discipline that keeps the `$clause/2` mirror in
//! synchrony.

use vstd::prelude::*;

use crate::instructions::{cv, group_cv, Line};
use crate::chains::{
    blunt_line, blunt_records, blunt_step, derelict_applicable, derelict_line, derelict_records,
    internalize_applicable, internalize_line, internalize_records, thread_line, thread_records,
    thread_step, WalkStep,
};
use crate::indexing::{switch_var, switch_var_applicable, switch_var_set};
use crate::instructions::{ChoiceInstruction, CodeGenSettings, Death, LineV, NextOrFail};
use crate::journal::RetractionRecord;
use crate::skeleton::{ClauseIndexInfo, PredicateSkeletonV};

verus! {

broadcast use group_cv;

/// The code vector with one journalled edit undone: the overwritten
/// content the record retains is written back at the record's position.
/// Records that do not touch the code vector leave it unchanged.
pub open spec fn undo_code(code: Seq<LineV>, rec: RetractionRecord) -> Seq<LineV> {
    if !undo_pos_ok(code, rec) {
        code
    } else {
        undo_code_at(code, rec)
    }
}

/// Whether the record's position lies inside the code vector.
pub open spec fn undo_pos_ok(code: Seq<LineV>, rec: RetractionRecord) -> bool {
    match rec {
        RetractionRecord::ModifiedTryMeElse(pos, _) => (pos as int) < code.len(),
        RetractionRecord::ModifiedRetryMeElse(pos, _) => (pos as int) < code.len(),
        RetractionRecord::ReplacedDynamicElseOffset(pos, _) => (pos as int) < code.len(),
        RetractionRecord::AppendedNextOrFail(pos, _) => (pos as int) < code.len(),
        RetractionRecord::AppendedTrustMe(pos, _, _) => (pos as int) < code.len(),
        RetractionRecord::ModifiedRevJmpBy(pos, _) => (pos as int) < code.len(),
        RetractionRecord::ReplacedChoiceOffset(pos, _) => (pos as int) < code.len(),
        RetractionRecord::ReplacedSwitchOnTermVarIndex(pos, _) => (pos as int) < code.len(),
        RetractionRecord::ReplacedIndexingLine(pos, _) => (pos as int) < code.len(),
        _ => true,
    }
}

/// The undo of one record, its position in bounds.
pub open spec fn undo_code_at(code: Seq<LineV>, rec: RetractionRecord) -> Seq<LineV> {
    match rec {
        RetractionRecord::ModifiedTryMeElse(pos, o) => code.update(
            pos as int,
            LineV::Choice(ChoiceInstruction::TryMeElse(o)),
        ),
        RetractionRecord::ModifiedRetryMeElse(pos, o) => code.update(
            pos as int,
            LineV::Choice(ChoiceInstruction::RetryMeElse(o)),
        ),
        RetractionRecord::ReplacedDynamicElseOffset(pos, o) => match code[pos as int] {
            LineV::Choice(ChoiceInstruction::DynamicElse(b, d, _)) => code.update(
                pos as int,
                LineV::Choice(ChoiceInstruction::DynamicElse(b, d, NextOrFail::Next(o))),
            ),
            LineV::Choice(ChoiceInstruction::DynamicInternalElse(b, d, _)) => code.update(
                pos as int,
                LineV::Choice(ChoiceInstruction::DynamicInternalElse(b, d, NextOrFail::Next(o))),
            ),
            _ => code,
        },
        RetractionRecord::AppendedNextOrFail(pos, nof) => match code[pos as int] {
            LineV::Choice(ChoiceInstruction::DynamicElse(b, d, _)) => code.update(
                pos as int,
                LineV::Choice(ChoiceInstruction::DynamicElse(b, d, nof)),
            ),
            LineV::Choice(ChoiceInstruction::DynamicInternalElse(b, d, _)) => code.update(
                pos as int,
                LineV::Choice(ChoiceInstruction::DynamicInternalElse(b, d, nof)),
            ),
            _ => code,
        },
        RetractionRecord::AppendedTrustMe(pos, o, _) => code.update(
            pos as int,
            LineV::Choice(ChoiceInstruction::TrustMe(o)),
        ),
        RetractionRecord::ModifiedRevJmpBy(pos, o) => code.update(
            pos as int,
            LineV::RevJmpBy(o),
        ),
        RetractionRecord::ReplacedChoiceOffset(pos, o) => match code[pos as int] {
            LineV::Choice(ChoiceInstruction::TryMeElse(_)) => code.update(
                pos as int,
                LineV::Choice(ChoiceInstruction::TryMeElse(o)),
            ),
            LineV::Choice(ChoiceInstruction::RetryMeElse(_)) => code.update(
                pos as int,
                LineV::Choice(ChoiceInstruction::RetryMeElse(o)),
            ),
            _ => code,
        },
        RetractionRecord::ReplacedSwitchOnTermVarIndex(pos, v) => match code[pos as int] {
            LineV::IndexingCode(ic) => code.update(
                pos as int,
                LineV::IndexingCode(
                    crate::instructions::IndexingCodeV {
                        arg: ic.arg,
                        var_ptr: v,
                        constants: ic.constants,
                        structures: ic.structures,
                        buckets: ic.buckets,
                    },
                ),
            ),
            _ => code,
        },
        RetractionRecord::ReplacedIndexingLine(pos, ic) => code.update(
            pos as int,
            LineV::IndexingCode(ic@),
        ),
        _ => code,
    }
}

/// The code vector with a run of journalled edits undone, strictly last
/// record first.
pub open spec fn undo_all_code(code: Seq<LineV>, recs: Seq<RetractionRecord>) -> Seq<LineV>
    decreases recs.len(),
{
    if recs.len() == 0 {
        code
    } else {
        undo_all_code(undo_code(code, recs.last()), recs.drop_last())
    }
}

/// Undoing a single-record journal is undoing the record.
pub proof fn lemma_undo_all_single(
    code2: Seq<LineV>,
    code0: Seq<LineV>,
    rec: RetractionRecord,
)
    requires
        undo_code(code2, rec) == code0,
    ensures
        undo_all_code(code2, seq![rec]) == code0,
{
    assert(seq![rec].last() == rec);
    assert(seq![rec].drop_last() =~= Seq::<RetractionRecord>::empty());
    assert(undo_all_code(undo_code(code2, rec), Seq::<RetractionRecord>::empty())
        == undo_code(code2, rec));
}

/// Journal invertibility composes: undoing the records of two sessions in
/// reverse is undoing the later session's records, then the earlier's.
pub proof fn lemma_undo_all_code_append(
    code: Seq<LineV>,
    r1: Seq<RetractionRecord>,
    r2: Seq<RetractionRecord>,
)
    ensures
        undo_all_code(code, r1 + r2) == undo_all_code(undo_all_code(code, r2), r1),
    decreases r2.len(),
{
    if r2.len() == 0 {
        assert(r1 + r2 =~= r1);
    } else {
        assert((r1 + r2).last() == r2.last());
        assert((r1 + r2).drop_last() =~= r1 + r2.drop_last());
        lemma_undo_all_code_append(undo_code(code, r2.last()), r1, r2.drop_last());
    }
}

/// Journal invertibility for the derelicting edit: undoing its records
/// restores the code byte for byte.
pub proof fn lemma_derelict_inverts(code: Seq<LineV>, index: usize)
    requires
        (index as int) < code.len(),
        derelict_applicable(code[index as int]),
    ensures
        undo_all_code(
            code.update(index as int, derelict_line(code[index as int])),
            derelict_records(code[index as int], index),
        ) == code,
{
    let l = code[index as int];
    let updated = code.update(index as int, derelict_line(l));
    let recs = derelict_records(l, index);
    match l {
        LineV::Choice(ChoiceInstruction::DynamicElse(b, d, NextOrFail::Next(o))) => {
            if o > 0 {
                assert(recs.drop_last() =~= Seq::<RetractionRecord>::empty());
                assert(updated[index as int] == LineV::Choice(
                    ChoiceInstruction::DynamicElse(b, d, NextOrFail::Next(0)),
                ));
                assert(undo_code(updated, recs.last()) =~= code);
                assert(recs =~= seq![recs.last()]);
                lemma_undo_all_single(updated, code, recs.last());
            } else {
                assert(updated =~= code);
            }
        },
        LineV::Choice(ChoiceInstruction::DynamicInternalElse(b, d, NextOrFail::Next(o))) => {
            if o > 0 {
                assert(recs.drop_last() =~= Seq::<RetractionRecord>::empty());
                assert(updated[index as int] == LineV::Choice(
                    ChoiceInstruction::DynamicInternalElse(b, d, NextOrFail::Next(0)),
                ));
                assert(undo_code(updated, recs.last()) =~= code);
                assert(recs =~= seq![recs.last()]);
                lemma_undo_all_single(updated, code, recs.last());
            } else {
                assert(updated =~= code);
            }
        },
        LineV::Choice(ChoiceInstruction::TryMeElse(o)) => {
            if o > 0 {
                assert(undo_code(updated, recs.last()) =~= code);
                assert(recs =~= seq![recs.last()]);
                lemma_undo_all_single(updated, code, recs.last());
            } else {
                assert(updated =~= code);
            }
        },
        _ => {
            assert(updated =~= code);
        },
    }
}

/// Journal invertibility for the internalising edit.
pub proof fn lemma_internalize_inverts(code: Seq<LineV>, loc: usize)
    requires
        internalize_applicable(code, loc),
    ensures
        undo_all_code(
            code.update(loc as int, internalize_line(code, loc)),
            internalize_records(code, loc),
        ) == code,
{
    let l = code[loc as int];
    let updated = code.update(loc as int, internalize_line(code, loc));
    let recs = internalize_records(code, loc);
    match l {
        LineV::Choice(ChoiceInstruction::DynamicElse(b, d, NextOrFail::Next(o))) => {
            if o == 0 {
                assert(recs.last() == RetractionRecord::ReplacedDynamicElseOffset(loc, 0));
                assert(updated[loc as int] == LineV::Choice(
                    ChoiceInstruction::DynamicElse(b, d, NextOrFail::Fail(0)),
                ));
            } else {
                assert(recs.last() == RetractionRecord::AppendedNextOrFail(
                    loc,
                    NextOrFail::Next(o),
                ));
                assert(updated[loc as int] matches LineV::Choice(
                    ChoiceInstruction::DynamicElse(_, _, _),
                ));
            }
            assert(undo_code(updated, recs.last()) =~= code);
            assert(recs =~= seq![recs.last()]);
            lemma_undo_all_single(updated, code, recs.last());
        },
        LineV::Choice(ChoiceInstruction::DynamicInternalElse(b, d, NextOrFail::Next(o))) => {
            assert(recs.last() == RetractionRecord::ReplacedDynamicElseOffset(loc, o));
            assert(updated[loc as int] matches LineV::Choice(
                ChoiceInstruction::DynamicInternalElse(_, _, _),
            ));
            assert(undo_code(updated, recs.last()) =~= code);
            assert(recs =~= seq![recs.last()]);
            lemma_undo_all_single(updated, code, recs.last());
        },
        LineV::Choice(ChoiceInstruction::TryMeElse(o)) => {
            assert(recs.last() == RetractionRecord::ModifiedTryMeElse(loc, o));
            assert(undo_code(updated, recs.last()) =~= code);
            assert(recs =~= seq![recs.last()]);
            lemma_undo_all_single(updated, code, recs.last());
        },
        _ => {
            assert(updated =~= code);
            assert(recs =~= Seq::<RetractionRecord>::empty());
        },
    }
}

/// Journal invertibility for the blunting edit at its stop position.
pub proof fn lemma_blunt_inverts(code: Seq<LineV>, s: int)
    requires
        blunt_step(code, s) == WalkStep::Stop(s),
        s <= usize::MAX,
    ensures
        undo_all_code(code.update(s, blunt_line(code, s)), blunt_records(code, s)) == code,
{
    let updated = code.update(s, blunt_line(code, s));
    let recs = blunt_records(code, s);
    match code[s] {
        LineV::Choice(ChoiceInstruction::RetryMeElse(o)) => {
            assert(recs.last() == RetractionRecord::ModifiedRetryMeElse(s as usize, o));
            assert(undo_code(updated, recs.last()) =~= code);
            assert(recs =~= seq![recs.last()]);
            lemma_undo_all_single(updated, code, recs.last());
        },
        LineV::Choice(ChoiceInstruction::DynamicElse(b, d, NextOrFail::Fail(o))) => {
            assert(recs.last() == RetractionRecord::AppendedNextOrFail(
                s as usize,
                NextOrFail::Fail(o),
            ));
            assert(updated[s] == LineV::Choice(
                ChoiceInstruction::DynamicElse(b, d, NextOrFail::Next(0)),
            ));
            assert(undo_code(updated, recs.last()) =~= code);
            assert(recs =~= seq![recs.last()]);
            lemma_undo_all_single(updated, code, recs.last());
        },
        LineV::Choice(ChoiceInstruction::DynamicInternalElse(b, d, NextOrFail::Fail(o))) => {
            assert(recs.last() == RetractionRecord::AppendedNextOrFail(
                s as usize,
                NextOrFail::Fail(o),
            ));
            assert(updated[s] == LineV::Choice(
                ChoiceInstruction::DynamicInternalElse(b, d, NextOrFail::Next(0)),
            ));
            assert(undo_code(updated, recs.last()) =~= code);
            assert(recs =~= seq![recs.last()]);
            lemma_undo_all_single(updated, code, recs.last());
        },
        LineV::Choice(ChoiceInstruction::TrustMe(o)) => {
            assert(recs.last() == RetractionRecord::AppendedTrustMe(s as usize, o, false));
            assert(undo_code(updated, recs.last()) =~= code);
            assert(recs =~= seq![recs.last()]);
            lemma_undo_all_single(updated, code, recs.last());
        },
        _ => {
            assert(updated =~= code);
        },
    }
}

/// Journal invertibility for the threading edit at its stop position.
pub proof fn lemma_thread_inverts(code: Seq<LineV>, target: int, s: int)
    requires
        thread_step(code, target, s) == WalkStep::Stop(s),
        s <= usize::MAX,
    ensures
        undo_all_code(
            code.update(s, thread_line(code, target, s)),
            thread_records(code, s),
        ) == code,
{
    let updated = code.update(s, thread_line(code, target, s));
    let recs = thread_records(code, s);
    match code[s] {
        LineV::Choice(ChoiceInstruction::DynamicElse(b, d, nof)) => {
            match nof {
                NextOrFail::Next(o) => {
                    assert(recs.last() == RetractionRecord::ReplacedDynamicElseOffset(
                        s as usize,
                        o,
                    ));
                },
                NextOrFail::Fail(o) => {
                    assert(recs.last() == RetractionRecord::AppendedNextOrFail(
                        s as usize,
                        NextOrFail::Fail(o),
                    ));
                },
            }
            assert(updated[s] matches LineV::Choice(ChoiceInstruction::DynamicElse(_, _, _)));
            assert(undo_code(updated, recs.last()) =~= code);
            assert(recs =~= seq![recs.last()]);
            lemma_undo_all_single(updated, code, recs.last());
        },
        LineV::Choice(ChoiceInstruction::DynamicInternalElse(b, d, nof)) => {
            match nof {
                NextOrFail::Next(o) => {
                    assert(recs.last() == RetractionRecord::ReplacedDynamicElseOffset(
                        s as usize,
                        o,
                    ));
                },
                NextOrFail::Fail(o) => {
                    assert(recs.last() == RetractionRecord::AppendedNextOrFail(
                        s as usize,
                        NextOrFail::Fail(o),
                    ));
                },
            }
            assert(updated[s] matches LineV::Choice(
                ChoiceInstruction::DynamicInternalElse(_, _, _),
            ));
            assert(undo_code(updated, recs.last()) =~= code);
            assert(recs =~= seq![recs.last()]);
            lemma_undo_all_single(updated, code, recs.last());
        },
        _ => {
            assert(undo_code(updated, recs.last()) =~= code);
            assert(recs =~= seq![recs.last()]);
            lemma_undo_all_single(updated, code, recs.last());
        },
    }
}

/// Journal invertibility for re-pointing the variable fall-through.
pub proof fn lemma_switch_var_inverts(code: Seq<LineV>, index_loc: usize, offset: usize)
    requires
        switch_var_applicable(code, index_loc),
    ensures
        undo_code(
            code.update(
                index_loc as int,
                LineV::IndexingCode(
                    switch_var_set(code[index_loc as int]->IndexingCode_0, offset),
                ),
            ),
            RetractionRecord::ReplacedSwitchOnTermVarIndex(
                index_loc,
                switch_var(code, index_loc),
            ),
        ) == code,
{
    let updated = code.update(
        index_loc as int,
        LineV::IndexingCode(switch_var_set(code[index_loc as int]->IndexingCode_0, offset)),
    );
    assert(undo_code(
        updated,
        RetractionRecord::ReplacedSwitchOnTermVarIndex(index_loc, switch_var(code, index_loc)),
    ) =~~= code);
}

/// The assert-margin invariant: `flags` marks, clause by clause, whether
/// the clause was `asserta`-prepended, and the margin is exactly the
/// boundary below which every clause is prepended and at or above which
/// none is — so the margin equals the count of live prepended clauses.
pub open spec fn margin_inv(skel: PredicateSkeletonV, flags: Seq<bool>) -> bool {
    &&& flags.len() == skel.clauses.len()
    &&& skel.clause_assert_margin <= skel.clauses.len()
    &&& forall|i: int| 0 <= i < flags.len() ==> (flags[i] <==> i < skel.clause_assert_margin)
}

/// The skeleton after a clause entry and its mirror location leave
/// position `pos`.
pub open spec fn skel_deleted(skel: PredicateSkeletonV, pos: int) -> PredicateSkeletonV {
    PredicateSkeletonV {
        clauses: skel.clauses.remove(pos),
        clause_clause_locs: skel.clause_clause_locs.remove(pos),
        clause_assert_margin: if pos < skel.clause_assert_margin {
            (skel.clause_assert_margin - 1) as usize
        } else {
            skel.clause_assert_margin
        },
        is_dynamic: skel.is_dynamic,
        is_multifile: skel.is_multifile,
    }
}

/// Margin discipline under `asserta`: prepending keeps the margin equal
/// to the count of live prepended clauses.
pub proof fn lemma_margin_prepend(
    skel: PredicateSkeletonV,
    flags: Seq<bool>,
    cii: ClauseIndexInfo,
    loc: usize,
)
    requires
        margin_inv(skel, flags),
        skel.clause_assert_margin + 1 <= usize::MAX,
    ensures
        margin_inv(crate::compile::skel_prepended(skel, cii, loc), seq![true] + flags),
{
    let skel2 = crate::compile::skel_prepended(skel, cii, loc);
    let flags2 = seq![true] + flags;
    assert forall|i: int| 0 <= i < flags2.len() implies (flags2[i] <==> i
        < skel2.clause_assert_margin) by {
        if i >= 1 {
            assert(flags2[i] == flags[i - 1]);
        }
    }
}

/// Margin discipline under `assertz`: appending leaves the margin equal
/// to the count of live prepended clauses.
pub proof fn lemma_margin_append(
    skel: PredicateSkeletonV,
    flags: Seq<bool>,
    cii: ClauseIndexInfo,
    loc: usize,
)
    requires
        margin_inv(skel, flags),
    ensures
        margin_inv(crate::compile::skel_appended(skel, cii, loc), flags.push(false)),
{
    let skel2 = crate::compile::skel_appended(skel, cii, loc);
    let flags2 = flags.push(false);
    assert forall|i: int| 0 <= i < flags2.len() implies (flags2[i] <==> i
        < skel2.clause_assert_margin) by {
        if i < flags.len() {
            assert(flags2[i] == flags[i]);
        }
    }
}

/// Margin discipline under `retract`: removing a clause decrements the
/// margin exactly when the removed clause was a prepended one, keeping
/// the margin equal to the count of live prepended clauses.
pub proof fn lemma_margin_retract(skel: PredicateSkeletonV, flags: Seq<bool>, pos: int)
    requires
        margin_inv(skel, flags),
        0 <= pos < skel.clauses.len(),
        skel.clauses.len() == skel.clause_clause_locs.len(),
    ensures
        margin_inv(skel_deleted(skel, pos), flags.remove(pos)),
{
    let skel2 = skel_deleted(skel, pos);
    let flags2 = flags.remove(pos);
    assert forall|i: int| 0 <= i < flags2.len() implies (flags2[i] <==> i
        < skel2.clause_assert_margin) by {
        if i < pos {
            assert(flags2[i] == flags[i]);
        } else {
            assert(flags2[i] == flags[i + 1]);
        }
    }
}

/// Append/retract round trip: retracting the clause that was just
/// appended restores the skeleton — its clauses, mirror locations and
/// assert margin — whatever entry the append recorded for the clause.
pub proof fn lemma_append_retract_round_trip(
    skel: PredicateSkeletonV,
    entry: ClauseIndexInfo,
    loc: usize,
)
    requires
        skel.clauses.len() == skel.clause_clause_locs.len(),
        skel.clause_assert_margin <= skel.clauses.len(),
    ensures
        skel_deleted(crate::compile::skel_appended(skel, entry, loc), skel.clauses.len() as int)
            == skel,
{
    let skel2 = crate::compile::skel_appended(skel, entry, loc);
    let n = skel.clauses.len() as int;
    assert(skel2.clauses.remove(n) =~= skel.clauses);
    assert(skel2.clause_clause_locs.remove(n) =~= skel.clause_clause_locs);
    assert(skel_deleted(skel2, n) =~~= skel);
}

/// Prepend/retract round trip: retracting the clause that was just
/// prepended restores the skeleton, the assert margin included.
pub proof fn lemma_prepend_retract_round_trip(
    skel: PredicateSkeletonV,
    entry: ClauseIndexInfo,
    loc: usize,
)
    requires
        skel.clauses.len() == skel.clause_clause_locs.len(),
        skel.clause_assert_margin + 1 <= usize::MAX,
    ensures
        skel_deleted(crate::compile::skel_prepended(skel, entry, loc), 0) == skel,
{
    let skel2 = crate::compile::skel_prepended(skel, entry, loc);
    assert(skel2.clauses.remove(0) =~= skel.clauses);
    assert(skel2.clause_clause_locs.remove(0) =~= skel.clause_clause_locs);
    assert(skel_deleted(skel2, 0) =~~= skel);
}

/// Journal invertibility for a skeleton deletion: inserting the retained
/// clause entry and mirror location back at the recorded position restores
/// the skeleton.  Whether the clause stood below the assert margin decides
/// whether the margin is re-incremented; replay must take that from the
/// margin it finds, and at the boundary position the retained record alone
/// leaves the two readings apart.
pub proof fn lemma_delete_inverts(skel: PredicateSkeletonV, pos: int)
    requires
        0 <= pos < skel.clauses.len(),
        skel.clauses.len() == skel.clause_clause_locs.len(),
        skel.clause_assert_margin <= skel.clauses.len(),
    ensures
        ({
            let d = skel_deleted(skel, pos);
            PredicateSkeletonV {
                clauses: d.clauses.insert(pos, skel.clauses[pos]),
                clause_clause_locs: d.clause_clause_locs.insert(
                    pos,
                    skel.clause_clause_locs[pos],
                ),
                clause_assert_margin: if pos < skel.clause_assert_margin {
                    (d.clause_assert_margin + 1) as usize
                } else {
                    d.clause_assert_margin
                },
                is_dynamic: d.is_dynamic,
                is_multifile: d.is_multifile,
            } == skel
        }),
{
    let d = skel_deleted(skel, pos);
    assert(d.clauses.insert(pos, skel.clauses[pos]) =~= skel.clauses);
    assert(d.clause_clause_locs.insert(pos, skel.clause_clause_locs[pos])
        =~= skel.clause_clause_locs);
    assert(PredicateSkeletonV {
        clauses: d.clauses.insert(pos, skel.clauses[pos]),
        clause_clause_locs: d.clause_clause_locs.insert(pos, skel.clause_clause_locs[pos]),
        clause_assert_margin: if pos < skel.clause_assert_margin {
            (d.clause_assert_margin + 1) as usize
        } else {
            d.clause_assert_margin
        },
        is_dynamic: d.is_dynamic,
        is_multifile: d.is_multifile,
    } =~~= skel);
}

/// Dynamic emission discipline: every dynamic choice instruction is born
/// with `death = Infinity` — a clause is emitted live.
pub proof fn lemma_dynamic_emission(settings: CodeGenSettings, offset: usize)
    requires
        settings.spec_is_dynamic(),
    ensures
        settings.spec_try_me_else(offset) matches ChoiceInstruction::DynamicElse(
            b,
            d,
            _,
        ) && d == Death::Infinity && b == settings.global_clock_tick.unwrap(),
        settings.spec_internal_try_me_else(offset) matches ChoiceInstruction::DynamicInternalElse(
            b,
            d,
            _,
        ) && d == Death::Infinity && b == settings.global_clock_tick.unwrap(),
        settings.spec_trust_me() matches ChoiceInstruction::DynamicElse(b, d, _) && d
            == Death::Infinity && b == settings.global_clock_tick.unwrap(),
        settings.spec_internal_trust_me() matches ChoiceInstruction::DynamicInternalElse(
            b,
            d,
            _,
        ) && d == Death::Infinity && b == settings.global_clock_tick.unwrap(),
{
}

/// Dynamic retraction discipline: stamping a guard whose birth does not
/// exceed the clock closes its lifetime interval at the clock — so
/// `birth <= death` holds of the stamped clause, and its interval no
/// longer contains any instant at or past the stamp.
pub proof fn lemma_dynamic_retract_stamp(l: LineV, clock: usize)
    requires
        match l {
            LineV::Choice(ChoiceInstruction::DynamicElse(b, _, _)) => b <= clock,
            LineV::Choice(ChoiceInstruction::DynamicInternalElse(b, _, _)) => b <= clock,
            _ => false,
        },
    ensures
        match crate::machine::rdc_stamped(l, clock) {
            LineV::Choice(ChoiceInstruction::DynamicElse(b, d, _)) => d == Death::Finite(clock)
                && b <= clock,
            LineV::Choice(ChoiceInstruction::DynamicInternalElse(b, d, _)) => d == Death::Finite(
                clock,
            ) && b <= clock,
            _ => false,
        },
{
}

/// Mirror synchrony discipline: when the mirror predicate has as many
/// clauses as its source has mirror locations, one paired step — a clause
/// entering the source with its location, and a `$clause/2` fact entering
/// the mirror — keeps the counts equal.
pub proof fn lemma_mirror_synchrony(
    source: PredicateSkeletonV,
    mirror: PredicateSkeletonV,
    source_entry: ClauseIndexInfo,
    mirror_entry: ClauseIndexInfo,
    source_loc: usize,
    mirror_loc: usize,
)
    requires
        mirror.clauses.len() == source.clause_clause_locs.len(),
    ensures
        crate::compile::skel_appended(mirror, mirror_entry, mirror_loc).clauses.len()
            == crate::compile::skel_appended(source, source_entry, source_loc)
            .clause_clause_locs.len(),
        crate::compile::skel_prepended(mirror, mirror_entry, mirror_loc).clauses.len()
            == crate::compile::skel_prepended(source, source_entry, source_loc)
            .clause_clause_locs.len(),
{
}


/// Replays the journal records from position `from` on, in reverse,
/// undoing each code-vector edit they describe: the executable form of
/// journal invertibility.  Records that do not touch the code vector are
/// passed over.
pub fn replay_code(code: &mut Vec<Line>, records: &Vec<RetractionRecord>, from: usize)
    requires
        from <= records@.len(),
    ensures
        cv(final(code)@) == undo_all_code(
            cv(old(code)@),
            records@.subrange(from as int, records@.len() as int),
        ),
        final(code)@.len() == old(code)@.len(),
{
    let ghost code0 = cv(old(code)@);
    let mut i = records.len();
    while i > from
        invariant
            from <= i <= records@.len(),
            code@.len() == old(code)@.len(),
            cv(code@) == undo_all_code(
                code0,
                records@.subrange(i as int, records@.len() as int),
            ),
        decreases i,
    {
        i = i - 1;
        let ghost pre = cv(code@);
        let n = code.len();
        match &records[i] {
            RetractionRecord::ModifiedTryMeElse(pos, o) => {
                if *pos < n {
                    code[*pos] = Line::Choice(ChoiceInstruction::TryMeElse(*o));
                }
            },
            RetractionRecord::ModifiedRetryMeElse(pos, o) => {
                if *pos < n {
                    code[*pos] = Line::Choice(ChoiceInstruction::RetryMeElse(*o));
                }
            },
            RetractionRecord::ReplacedDynamicElseOffset(pos, o) => {
                if *pos < n {
                    match crate::chains::read_choice_opt(&*code, *pos) {
                        Some(ChoiceInstruction::DynamicElse(b, d, _)) => {
                            code[*pos] = Line::Choice(
                                ChoiceInstruction::DynamicElse(b, d, NextOrFail::Next(*o)),
                            );
                        },
                        Some(ChoiceInstruction::DynamicInternalElse(b, d, _)) => {
                            code[*pos] = Line::Choice(
                                ChoiceInstruction::DynamicInternalElse(
                                    b,
                                    d,
                                    NextOrFail::Next(*o),
                                ),
                            );
                        },
                        _ => {},
                    }
                }
            },
            RetractionRecord::AppendedNextOrFail(pos, nof) => {
                if *pos < n {
                    match crate::chains::read_choice_opt(&*code, *pos) {
                        Some(ChoiceInstruction::DynamicElse(b, d, _)) => {
                            code[*pos] = Line::Choice(
                                ChoiceInstruction::DynamicElse(b, d, *nof),
                            );
                        },
                        Some(ChoiceInstruction::DynamicInternalElse(b, d, _)) => {
                            code[*pos] = Line::Choice(
                                ChoiceInstruction::DynamicInternalElse(b, d, *nof),
                            );
                        },
                        _ => {},
                    }
                }
            },
            RetractionRecord::AppendedTrustMe(pos, o, _) => {
                if *pos < n {
                    code[*pos] = Line::Choice(ChoiceInstruction::TrustMe(*o));
                }
            },
            RetractionRecord::ModifiedRevJmpBy(pos, o) => {
                if *pos < n {
                    code[*pos] = Line::RevJmpBy(*o);
                }
            },
            RetractionRecord::ReplacedChoiceOffset(pos, o) => {
                if *pos < n {
                    match crate::chains::read_choice_opt(&*code, *pos) {
                        Some(ChoiceInstruction::TryMeElse(_)) => {
                            code[*pos] = Line::Choice(ChoiceInstruction::TryMeElse(*o));
                        },
                        Some(ChoiceInstruction::RetryMeElse(_)) => {
                            code[*pos] = Line::Choice(ChoiceInstruction::RetryMeElse(*o));
                        },
                        _ => {},
                    }
                }
            },
            RetractionRecord::ReplacedSwitchOnTermVarIndex(pos, v) => {
                if *pos < n {
                    let is_block = match &code[*pos] {
                        Line::IndexingCode(_) => true,
                        _ => false,
                    };
                    if is_block {
                        let line = crate::chains::take_line(code, *pos);
                        match line {
                            Line::IndexingCode(mut ic) => {
                                ic.var_ptr = *v;
                                code[*pos] = Line::IndexingCode(ic);
                            },
                            _ => {},
                        }
                        proof {
                            assert(cv(code@) =~~= undo_code(pre, records@[i as int]));
                        }
                    }
                }
            },
            RetractionRecord::ReplacedIndexingLine(pos, ic) => {
                if *pos < n {
                    let copied = crate::machine::copy_indexing_code(ic);
                    code[*pos] = Line::IndexingCode(copied);
                    proof {
                        assert(cv(code@) =~~= undo_code(pre, records@[i as int]));
                    }
                }
            },
            _ => {},
        }
        proof {
            assert(cv(code@) =~~= undo_code(pre, records@[i as int]));
            let rest = records@.subrange(i + 1, records@.len() as int);
            assert(records@.subrange(i as int, records@.len() as int) =~= seq![
                records@[i as int],
            ] + rest);
            lemma_undo_all_code_append(code0, seq![records@[i as int]], rest);
            let s1 = seq![records@[i as int]];
            assert(s1.last() == records@[i as int]);
            assert(s1.drop_last() =~= Seq::<RetractionRecord>::empty());
            assert(undo_all_code(
                undo_code(pre, records@[i as int]),
                Seq::<RetractionRecord>::empty(),
            ) == undo_code(pre, records@[i as int]));
            assert(undo_all_code(pre, s1) == undo_code(pre, records@[i as int]));
        }
    }
    proof {
        assert(cv(code@) =~= undo_all_code(
            code0,
            records@.subrange(from as int, records@.len() as int),
        ));
    }
}


/// Chain completeness for a fresh compilation.  The external code
/// generator's contract is that a block's own chain walk, from the
/// block's entry line, visits exactly its clauses' start positions in
/// order.  Splicing such a block at the tail of the code vector — which
/// is what a fresh compilation does, re-basing the skeleton entries by
/// the old code length — preserves that: walking from the registered
/// entry point visits exactly the skeleton's clauses, each once, in
/// skeleton order.
pub proof fn lemma_compile_chain_completeness(
    prefix: Seq<LineV>,
    block: Seq<LineV>,
    clauses: Seq<ClauseIndexInfo>,
    entry: int,
    clock: usize,
    fuel: nat,
)
    requires
        crate::walk::walk_within(block, entry, clock, fuel),
        0 <= entry,
        prefix.len() + block.len() <= usize::MAX,
        crate::compile::compile_shift_ok(clauses, prefix.len() as usize),
        crate::walk::walk_chain_spec(block, entry, clock, fuel) == clauses.map_values(
            |c: ClauseIndexInfo| c.clause_start,
        ),
    ensures
        crate::walk::walk_chain_spec(prefix + block, prefix.len() + entry, clock, fuel)
            == crate::compile::shifted_clauses(clauses, prefix.len() as usize).map_values(
            |c: ClauseIndexInfo| c.clause_start,
        ),
{
    crate::walk::lemma_walk_chain_shift(prefix, block, entry, clock, fuel);
    assert(clauses.map_values(|c: ClauseIndexInfo| c.clause_start).map_values(
        |x: usize| (prefix.len() + x) as usize,
    ) =~= crate::compile::shifted_clauses(clauses, prefix.len() as usize).map_values(
        |c: ClauseIndexInfo| c.clause_start,
    ));
}


/// Indexing-table stability across a splice: a block's constant dispatch
/// resolves to the same targets wherever the block stands, because
/// sub-table entries hold absolute positions.  With the generator's
/// contract that each key's entry reaches its clause, dispatch in the
/// spliced code reaches the same clauses.
pub proof fn lemma_compile_dispatch_stability(
    prefix: Seq<LineV>,
    block: Seq<LineV>,
    loc: usize,
    c: u64,
)
    requires
        (loc as int) < block.len(),
        prefix.len() + block.len() <= usize::MAX,
    ensures
        crate::walk::lookup_spec(
            prefix + block,
            (prefix.len() + loc) as usize,
            c,
        ) == crate::walk::lookup_spec(block, loc, c),
{
    assert((prefix + block)[prefix.len() + loc] == block[loc as int]);
}

} // verus!
