//! The choice-chain editor: traversal and rewriting of try/retry/trust and
//! dynamic-else chains.
//!
//! A chain is walked with three motions: follow-next along a live forward
//! link, follow-back via `RevJmpBy`, and stop on a chain tail or stub.  Each
//! traversal is specified by a step function on the code view and a
//! fuel-bounded walk; a traversal's precondition is that its walk reaches a
//! stop, and its postcondition pins the stop position down exactly.

use vstd::prelude::*;
use vstd::pervasive::unreached;

use crate::instructions::{
    cv, group_cv, ChoiceInstruction, IndexingCodePtr, Line, LineV, NextOrFail,
};
use crate::journal::{RetractionInfo, RetractionRecord};

verus! {

broadcast use group_cv;

/// One step of a chain traversal: stop at a position, continue at a
/// position, or get stuck (the traversal is undefined on this code).
pub enum WalkStep {
    Stop(int),
    Go(int),
    Stuck,
}

/// The position a traversal stops at, starting at `index` with `fuel` steps
/// available; `None` when it gets stuck or runs out of fuel.
pub open spec fn walk(step: spec_fn(int) -> WalkStep, index: int, fuel: nat) -> Option<int>
    decreases fuel,
{
    match step(index) {
        WalkStep::Stop(r) => Some(r),
        WalkStep::Stuck => None,
        WalkStep::Go(n) => if fuel == 0 {
            None
        } else {
            walk(step, n, (fuel - 1) as nat)
        },
    }
}

/// Whether the traversal from `index` reaches a stop at all.
pub open spec fn walk_terminates(step: spec_fn(int) -> WalkStep, index: int) -> bool {
    exists|fuel: nat| walk(step, index, fuel) is Some
}

/// The position the traversal from `index` stops at.
pub open spec fn walk_result(step: spec_fn(int) -> WalkStep, index: int) -> int {
    walk(step, index, choose|fuel: nat| walk(step, index, fuel) is Some).unwrap()
}

/// More fuel never changes where a traversal stops.
pub proof fn lemma_walk_mono(step: spec_fn(int) -> WalkStep, index: int, f1: nat, f2: nat)
    requires
        walk(step, index, f1) is Some,
        f1 <= f2,
    ensures
        walk(step, index, f2) == walk(step, index, f1),
    decreases f1,
{
    match step(index) {
        WalkStep::Stop(_) => {},
        WalkStep::Stuck => {},
        WalkStep::Go(n) => {
            lemma_walk_mono(step, n, (f1 - 1) as nat, (f2 - 1) as nat);
        },
    }
}

/// A successful walk with any fuel witnesses termination and the result.
pub proof fn lemma_walk_complete(step: spec_fn(int) -> WalkStep, index: int, fuel: nat)
    requires
        walk(step, index, fuel) is Some,
    ensures
        walk_terminates(step, index),
        walk_result(step, index) == walk(step, index, fuel).unwrap(),
{
    let f0 = choose|f: nat| walk(step, index, f) is Some;
    if f0 <= fuel {
        lemma_walk_mono(step, index, f0, fuel);
    } else {
        lemma_walk_mono(step, index, fuel, f0);
    }
}

/// Taking one `Go` step preserves termination and the stop position.
pub proof fn lemma_walk_go(step: spec_fn(int) -> WalkStep, index: int, next: int)
    requires
        walk_terminates(step, index),
        step(index) == WalkStep::Go(next),
    ensures
        walk_terminates(step, next),
        walk_result(step, next) == walk_result(step, index),
{
    let f0 = choose|f: nat| walk(step, index, f) is Some;
    lemma_walk_complete(step, index, f0);
    lemma_walk_complete(step, next, (f0 - 1) as nat);
}

/// The step function of the inner-choice traversal
/// (`find_inner_choice_instr`): locates the try/retry choice instruction
/// immediately guarding a clause's code, walking through embedded
/// `SwitchOnTerm` redirections as needed, and stops one line back when the
/// clause is the sole member of its indexed sub-sequence.
pub open spec fn inner_step(code: Seq<LineV>, index_loc: int, index: int) -> WalkStep {
    if !(0 <= index < code.len()) {
        WalkStep::Stuck
    } else {
        match code[index] {
            LineV::Choice(ChoiceInstruction::TryMeElse(o)) => if o > 0 {
                WalkStep::Stop(index)
            } else {
                WalkStep::Go(index_loc)
            },
            LineV::Choice(ChoiceInstruction::RetryMeElse(o)) => if o > 0 {
                WalkStep::Stop(index)
            } else {
                WalkStep::Go(index_loc)
            },
            LineV::Choice(ChoiceInstruction::DynamicElse(_, _, nof)) => match nof {
                NextOrFail::Next(i) => if i == 0 {
                    WalkStep::Go(index_loc)
                } else {
                    WalkStep::Stop(index)
                },
                NextOrFail::Fail(_) => WalkStep::Stop(index),
            },
            LineV::Choice(ChoiceInstruction::DynamicInternalElse(_, _, nof)) => match nof {
                NextOrFail::Next(i) => if i == 0 {
                    WalkStep::Go(index_loc)
                } else {
                    WalkStep::Stop(index)
                },
                NextOrFail::Fail(_) => WalkStep::Stop(index),
            },
            LineV::Choice(ChoiceInstruction::TrustMe(_)) => WalkStep::Stop(index),
            LineV::IndexingCode(ic) => match ic.var_ptr {
                IndexingCodePtr::External(v) => WalkStep::Go(index + v),
                IndexingCodePtr::DynamicExternal(v) => if 0 <= index + v < code.len() && (code[index
                    + v] matches LineV::Choice(
                    ChoiceInstruction::DynamicInternalElse(_, _, NextOrFail::Next(0)),
                )) {
                    WalkStep::Stop(index + v)
                } else {
                    WalkStep::Go(index + v)
                },
                IndexingCodePtr::Internal(_) => WalkStep::Stuck,
            },
            LineV::RevJmpBy(o) => WalkStep::Go(index - o),
            _ => if index > 0 {
                // the line after a stub `TryMeElse(0)`, reached iff a single
                // clause belongs to the indexed sub-sequence: stop at the
                // derelict `TryMeElse` itself
                WalkStep::Stop(index - 1)
            } else {
                WalkStep::Stuck
            },
        }
    }
}

/// The inner-choice traversal from `start` reaches a stop.
pub open spec fn inner_terminates(code: Seq<LineV>, index_loc: int, start: int) -> bool {
    walk_terminates(|i: int| inner_step(code, index_loc, i), start)
}

/// Where the inner-choice traversal from `start` stops.
pub open spec fn inner_result(code: Seq<LineV>, index_loc: int, start: int) -> int {
    walk_result(|i: int| inner_step(code, index_loc, i), start)
}

/// Locates the try/retry choice instruction immediately guarding a clause's
/// code, starting from the clause's recorded start position and redirecting
/// through the `SwitchOnTerm` at `index_loc` as needed.  When the clause is
/// the sole member of its indexed sub-sequence, the returned position is
/// that of its derelict `TryMeElse`.
pub fn find_inner_choice_instr(code: &Vec<Line>, start: usize, index_loc: usize) -> (r: usize)
    requires
        inner_terminates(cv(code@), index_loc as int, start as int),
    ensures
        r == inner_result(cv(code@), index_loc as int, start as int),
        r < code@.len(),
{
    let ghost codev = cv(code@);
    let ghost step = |i: int| inner_step(codev, index_loc as int, i);
    let ghost mut fuel: nat = choose|f: nat| walk(step, start as int, f) is Some;
    proof {
        lemma_walk_complete(step, start as int, fuel);
    }
    let mut index = start;
    loop
        invariant
            walk(step, index as int, fuel) is Some,
            walk_terminates(step, index as int),
            walk_result(step, index as int) == walk_result(step, start as int),
            codev == cv(code@),
            step == (|i: int| inner_step(codev, index_loc as int, i)),
        decreases fuel,
    {
        proof {
            lemma_walk_complete(step, index as int, fuel);
            vstd::std_specs::vec::axiom_spec_len(code);
        }
        let next: usize;
        match &code[index] {
            Line::Choice(ChoiceInstruction::TryMeElse(o)) => {
                if *o > 0 {
                    return index;
                }
                next = index_loc;
            },
            Line::Choice(ChoiceInstruction::RetryMeElse(o)) => {
                if *o > 0 {
                    return index;
                }
                next = index_loc;
            },
            Line::Choice(ChoiceInstruction::DynamicElse(_, _, nof)) => {
                match nof {
                    NextOrFail::Next(i) => {
                        if *i != 0 {
                            return index;
                        }
                    },
                    NextOrFail::Fail(_) => {
                        return index;
                    },
                }
                next = index_loc;
            },
            Line::Choice(ChoiceInstruction::DynamicInternalElse(_, _, nof)) => {
                match nof {
                    NextOrFail::Next(i) => {
                        if *i != 0 {
                            return index;
                        }
                    },
                    NextOrFail::Fail(_) => {
                        return index;
                    },
                }
                next = index_loc;
            },
            Line::Choice(ChoiceInstruction::TrustMe(_)) => {
                return index;
            },
            Line::IndexingCode(ic) => {
                match ic.var_ptr {
                    IndexingCodePtr::External(v) => {
                        proof {
                            assert(step(index as int) == WalkStep::Go(index + v));
                            assert(walk(step, index + v, (fuel - 1) as nat) is Some);
                            if !(index + v < codev.len()) {
                                assert(step(index + v) == WalkStep::Stuck);
                            }
                        }
                        next = index + v;
                    },
                    IndexingCodePtr::DynamicExternal(v) => {
                        proof {
                            match step(index as int) {
                                WalkStep::Stop(_) => {},
                                WalkStep::Go(_) => {
                                    assert(walk(step, index + v, (fuel - 1) as nat) is Some);
                                    if !(index + v < codev.len()) {
                                        assert(step(index + v) == WalkStep::Stuck);
                                    }
                                },
                                WalkStep::Stuck => {},
                            }
                        }
                        let target = index + v;
                        match &code[target] {
                            Line::Choice(ChoiceInstruction::DynamicInternalElse(
                                _,
                                _,
                                NextOrFail::Next(0),
                            )) => {
                                return target;
                            },
                            _ => {
                                next = target;
                            },
                        }
                    },
                    IndexingCodePtr::Internal(_) => {
                        proof {
                            assert(step(index as int) == WalkStep::Stuck);
                        }
                        // excluded: the walk would be stuck here
                        next = index;
                    },
                }
            },
            Line::RevJmpBy(o) => {
                proof {
                    assert(step(index as int) == WalkStep::Go(index - o as int));
                    assert(walk(step, index - o as int, (fuel - 1) as nat) is Some);
                    if !(0 <= index - o as int) {
                        assert(step(index - o as int) == WalkStep::Stuck);
                    }
                }
                next = index - *o;
            },
            _ => {
                proof {
                    if index == 0 {
                        assert(step(index as int) == WalkStep::Stuck);
                    }
                }
                return index - 1;
            },
        }
        proof {
            assert(step(index as int) == WalkStep::Go(next as int));
            lemma_walk_go(step, index as int, next as int);
            assert(walk(step, next as int, (fuel - 1) as nat) is Some);
            fuel = (fuel - 1) as nat;
        }
        index = next;
    }
}

/// The step function of the outer-choice traversal
/// (`find_outer_choice_instr`): follows the `Next` links of dynamic-else
/// chains forward to the tail of an outer alternative run.
pub open spec fn outer_step(code: Seq<LineV>, index: int) -> WalkStep {
    if !(0 <= index < code.len()) {
        WalkStep::Stuck
    } else {
        match code[index] {
            LineV::Choice(ChoiceInstruction::DynamicElse(_, _, NextOrFail::Next(i))) => if i > 0 {
                WalkStep::Go(index + i)
            } else {
                WalkStep::Stop(index)
            },
            LineV::Choice(
                ChoiceInstruction::DynamicInternalElse(_, _, NextOrFail::Next(i)),
            ) => if i > 0 {
                WalkStep::Go(index + i)
            } else {
                WalkStep::Stop(index)
            },
            _ => WalkStep::Stop(index),
        }
    }
}

/// The outer-choice traversal from `start` reaches a stop.
pub open spec fn outer_terminates(code: Seq<LineV>, start: int) -> bool {
    walk_terminates(|i: int| outer_step(code, i), start)
}

/// Where the outer-choice traversal from `start` stops.
pub open spec fn outer_result(code: Seq<LineV>, start: int) -> int {
    walk_result(|i: int| outer_step(code, i), start)
}

/// Walks forward along the `Next` links of dynamic-else chains to the tail
/// of an outer alternative run.
pub fn find_outer_choice_instr(code: &Vec<Line>, start: usize) -> (r: usize)
    requires
        outer_terminates(cv(code@), start as int),
    ensures
        r == outer_result(cv(code@), start as int),
        r < code@.len(),
{
    let ghost codev = cv(code@);
    let ghost step = |i: int| outer_step(codev, i);
    let ghost mut fuel: nat = choose|f: nat| walk(step, start as int, f) is Some;
    proof {
        lemma_walk_complete(step, start as int, fuel);
    }
    let mut index = start;
    loop
        invariant
            walk(step, index as int, fuel) is Some,
            walk_terminates(step, index as int),
            walk_result(step, index as int) == walk_result(step, start as int),
            codev == cv(code@),
            step == (|i: int| outer_step(codev, i)),
        decreases fuel,
    {
        proof {
            lemma_walk_complete(step, index as int, fuel);
            vstd::std_specs::vec::axiom_spec_len(code);
        }
        let next: usize;
        match &code[index] {
            Line::Choice(ChoiceInstruction::DynamicElse(_, _, NextOrFail::Next(i))) => {
                if *i == 0 {
                    return index;
                }
                proof {
                    assert(step(index as int) == WalkStep::Go(index + (*i as int)));
                    assert(walk(step, index + (*i as int), (fuel - 1) as nat) is Some);
                    if !(index + (*i as int) < codev.len()) {
                        assert(step(index + (*i as int)) == WalkStep::Stuck);
                    }
                }
                next = index + *i;
            },
            Line::Choice(ChoiceInstruction::DynamicInternalElse(_, _, NextOrFail::Next(i))) => {
                if *i == 0 {
                    return index;
                }
                proof {
                    assert(step(index as int) == WalkStep::Go(index + (*i as int)));
                    assert(walk(step, index + (*i as int), (fuel - 1) as nat) is Some);
                    if !(index + (*i as int) < codev.len()) {
                        assert(step(index + (*i as int)) == WalkStep::Stuck);
                    }
                }
                next = index + *i;
            },
            _ => {
                return index;
            },
        }
        proof {
            assert(step(index as int) == WalkStep::Go(next as int));
            lemma_walk_go(step, index as int, next as int);
            assert(walk(step, next as int, (fuel - 1) as nat) is Some);
            fuel = (fuel - 1) as nat;
        }
        index = next;
    }
}

/// Swaps the line at `i` out of the code vector, leaving an opaque line.
pub fn take_line(code: &mut Vec<Line>, i: usize) -> (l: Line)
    requires
        i < old(code)@.len(),
    ensures
        l == old(code)@[i as int],
        final(code)@ == old(code)@.update(i as int, Line::Body(0)),
{
    let mut tmp = Line::Body(0);
    core::mem::swap(&mut tmp, &mut code[i]);
    tmp
}

/// Reads the choice instruction at position `i` of the code vector.
pub fn read_choice(code: &Vec<Line>, i: usize) -> (c: ChoiceInstruction)
    requires
        i < code@.len(),
        cv(code@)[i as int] is Choice,
    ensures
        cv(code@)[i as int] == LineV::Choice(c),
{
    match &code[i] {
        Line::Choice(c) => *c,
        _ => unreached(),
    }
}

/// Reads the choice instruction at position `i`, or `None` when the line
/// is not a choice instruction.
pub fn read_choice_opt(code: &Vec<Line>, i: usize) -> (c: Option<ChoiceInstruction>)
    requires
        i < code@.len(),
    ensures
        match c {
            Some(ci) => cv(code@)[i as int] == LineV::Choice(ci),
            None => !(cv(code@)[i as int] is Choice),
        },
{
    match &code[i] {
        Line::Choice(c) => Some(*c),
        _ => None,
    }
}

/// Whether `derelictize_try_me_else` accepts the line.
pub open spec fn derelict_applicable(l: LineV) -> bool {
    match l {
        LineV::Choice(ChoiceInstruction::DynamicElse(_, _, _)) => true,
        LineV::Choice(ChoiceInstruction::DynamicInternalElse(_, _, _)) => true,
        LineV::Choice(ChoiceInstruction::TryMeElse(_)) => true,
        _ => false,
    }
}

/// The offset that derelicting returns: the prior forward link of a live
/// `TryMeElse` or dynamic `Next`, and `None` for a line already a stub or
/// finalised.
pub open spec fn derelict_result(l: LineV) -> Option<usize> {
    match l {
        LineV::Choice(ChoiceInstruction::DynamicElse(_, _, NextOrFail::Next(o))) => if o > 0 {
            Some(o)
        } else {
            None
        },
        LineV::Choice(ChoiceInstruction::DynamicInternalElse(_, _, NextOrFail::Next(o))) => if o
            > 0 {
            Some(o)
        } else {
            None
        },
        LineV::Choice(ChoiceInstruction::TryMeElse(o)) => if o > 0 {
            Some(o)
        } else {
            None
        },
        _ => None,
    }
}

/// The line after derelicting: its forward link replaced by the stub 0.
pub open spec fn derelict_line(l: LineV) -> LineV {
    match l {
        LineV::Choice(ChoiceInstruction::DynamicElse(b, d, NextOrFail::Next(o))) => if o > 0 {
            LineV::Choice(ChoiceInstruction::DynamicElse(b, d, NextOrFail::Next(0)))
        } else {
            l
        },
        LineV::Choice(ChoiceInstruction::DynamicInternalElse(b, d, NextOrFail::Next(o))) => if o
            > 0 {
            LineV::Choice(ChoiceInstruction::DynamicInternalElse(b, d, NextOrFail::Next(0)))
        } else {
            l
        },
        LineV::Choice(ChoiceInstruction::TryMeElse(o)) => if o > 0 {
            LineV::Choice(ChoiceInstruction::TryMeElse(0))
        } else {
            l
        },
        _ => l,
    }
}

/// The journal records that derelicting appends.
pub open spec fn derelict_records(l: LineV, index: usize) -> Seq<RetractionRecord> {
    match l {
        LineV::Choice(ChoiceInstruction::DynamicElse(_, _, NextOrFail::Next(o))) => if o > 0 {
            seq![RetractionRecord::ReplacedDynamicElseOffset(index, o)]
        } else {
            Seq::empty()
        },
        LineV::Choice(ChoiceInstruction::DynamicInternalElse(_, _, NextOrFail::Next(o))) => if o
            > 0 {
            seq![RetractionRecord::ReplacedDynamicElseOffset(index, o)]
        } else {
            Seq::empty()
        },
        LineV::Choice(ChoiceInstruction::TryMeElse(o)) => if o > 0 {
            seq![RetractionRecord::ModifiedTryMeElse(index, o)]
        } else {
            Seq::empty()
        },
        _ => Seq::empty(),
    }
}

/// Replaces a live `TryMeElse` or dynamic `Next` link with its stub form
/// (offset 0), journalling and returning the prior offset.  Lines already a
/// stub, and finalised `Fail` lines, are recognised and left untouched.
pub fn derelictize_try_me_else(
    code: &mut Vec<Line>,
    index: usize,
    retraction_info: &mut RetractionInfo,
) -> (r: Option<usize>)
    requires
        index < old(code)@.len(),
        derelict_applicable(cv(old(code)@)[index as int]),
    ensures
        r == derelict_result(cv(old(code)@)[index as int]),
        cv(final(code)@) == cv(old(code)@).update(
            index as int,
            derelict_line(cv(old(code)@)[index as int]),
        ),
        final(code)@.len() == old(code)@.len(),
        final(retraction_info).records@ == old(retraction_info).records@ + derelict_records(
            cv(old(code)@)[index as int],
            index,
        ),
        final(retraction_info).orig_code_extent == old(retraction_info).orig_code_extent,
{
    let ghost oldv = cv(old(code)@);
    let c = read_choice(code, index);
    match c {
        ChoiceInstruction::DynamicElse(b, d, NextOrFail::Next(o)) => {
            if o == 0 {
                proof {
                    assert(cv(code@) =~= oldv.update(index as int, derelict_line(oldv[index as int])));
                    assert(retraction_info.records@ =~= retraction_info.records@ + Seq::<
                        RetractionRecord,
                    >::empty());
                }
                None
            } else {
                retraction_info.push_record(
                    RetractionRecord::ReplacedDynamicElseOffset(index, o),
                );
                code[index] = Line::Choice(
                    ChoiceInstruction::DynamicElse(b, d, NextOrFail::Next(0)),
                );
                proof {
                    assert(retraction_info.records@ =~= old(retraction_info).records@
                        + derelict_records(oldv[index as int], index));
                }
                Some(o)
            }
        },
        ChoiceInstruction::DynamicInternalElse(b, d, NextOrFail::Next(o)) => {
            if o == 0 {
                proof {
                    assert(cv(code@) =~= oldv.update(index as int, derelict_line(oldv[index as int])));
                    assert(retraction_info.records@ =~= retraction_info.records@ + Seq::<
                        RetractionRecord,
                    >::empty());
                }
                None
            } else {
                retraction_info.push_record(
                    RetractionRecord::ReplacedDynamicElseOffset(index, o),
                );
                code[index] = Line::Choice(
                    ChoiceInstruction::DynamicInternalElse(b, d, NextOrFail::Next(0)),
                );
                proof {
                    assert(retraction_info.records@ =~= old(retraction_info).records@
                        + derelict_records(oldv[index as int], index));
                }
                Some(o)
            }
        },
        ChoiceInstruction::DynamicElse(_, _, NextOrFail::Fail(_)) => {
            proof {
                assert(cv(code@) =~= oldv.update(index as int, derelict_line(oldv[index as int])));
                assert(retraction_info.records@ =~= retraction_info.records@ + Seq::<
                    RetractionRecord,
                >::empty());
            }
            None
        },
        ChoiceInstruction::DynamicInternalElse(_, _, NextOrFail::Fail(_)) => {
            proof {
                assert(cv(code@) =~= oldv.update(index as int, derelict_line(oldv[index as int])));
                assert(retraction_info.records@ =~= retraction_info.records@ + Seq::<
                    RetractionRecord,
                >::empty());
            }
            None
        },
        ChoiceInstruction::TryMeElse(o) => {
            if o == 0 {
                proof {
                    assert(cv(code@) =~= oldv.update(index as int, derelict_line(oldv[index as int])));
                    assert(retraction_info.records@ =~= retraction_info.records@ + Seq::<
                        RetractionRecord,
                    >::empty());
                }
                None
            } else {
                retraction_info.push_record(RetractionRecord::ModifiedTryMeElse(index, o));
                code[index] = Line::Choice(ChoiceInstruction::TryMeElse(0));
                proof {
                    assert(retraction_info.records@ =~= old(retraction_info).records@
                        + derelict_records(oldv[index as int], index));
                }
                Some(o)
            }
        },
        _ => unreached(),
    }
}


/// Whether `internalize_choice_instr_at` accepts the code at `loc`: the
/// line is a choice instruction in one of the handled shapes, and a live
/// forward link stays inside the code vector.
pub open spec fn internalize_applicable(code: Seq<LineV>, loc: usize) -> bool {
    &&& (loc as int) < code.len()
    &&& match code[loc as int] {
        LineV::Choice(ChoiceInstruction::DynamicElse(_, _, NextOrFail::Fail(_))) => true,
        LineV::Choice(ChoiceInstruction::DynamicInternalElse(_, _, NextOrFail::Fail(_))) => true,
        LineV::Choice(ChoiceInstruction::DynamicElse(_, _, NextOrFail::Next(o))) => o == 0 || loc
            + o < code.len(),
        LineV::Choice(ChoiceInstruction::DynamicInternalElse(_, _, NextOrFail::Next(o))) => o == 0
            || loc + o < code.len(),
        LineV::Choice(ChoiceInstruction::TryMeElse(o)) => o == 0 || loc + o < code.len(),
        _ => false,
    }
}

/// The line after internalising: a stub or outer choice promoted into its
/// internal form.  A stub becomes a tail; a live link becomes a tail when
/// its target is the end-marker `RevJmpBy(0)` and a middle link otherwise.
pub open spec fn internalize_line(code: Seq<LineV>, loc: usize) -> LineV {
    match code[loc as int] {
        LineV::Choice(ChoiceInstruction::DynamicElse(b, d, NextOrFail::Next(o))) => if o == 0 {
            LineV::Choice(ChoiceInstruction::DynamicElse(b, d, NextOrFail::Fail(0)))
        } else if code[loc + o] matches LineV::RevJmpBy(0) {
            LineV::Choice(ChoiceInstruction::DynamicElse(b, d, NextOrFail::Fail(o)))
        } else {
            LineV::Choice(ChoiceInstruction::DynamicElse(b, d, NextOrFail::Next(o)))
        },
        LineV::Choice(ChoiceInstruction::DynamicInternalElse(b, d, NextOrFail::Next(o))) => if o
            == 0 {
            LineV::Choice(ChoiceInstruction::DynamicInternalElse(b, d, NextOrFail::Fail(0)))
        } else if code[loc + o] matches LineV::RevJmpBy(0) {
            LineV::Choice(ChoiceInstruction::DynamicInternalElse(b, d, NextOrFail::Fail(o)))
        } else {
            LineV::Choice(ChoiceInstruction::DynamicInternalElse(b, d, NextOrFail::Next(o)))
        },
        LineV::Choice(ChoiceInstruction::TryMeElse(o)) => if o == 0 {
            LineV::Choice(ChoiceInstruction::TrustMe(0))
        } else if code[loc + o] matches LineV::RevJmpBy(0) {
            LineV::Choice(ChoiceInstruction::TrustMe(o))
        } else {
            LineV::Choice(ChoiceInstruction::RetryMeElse(o))
        },
        l => l,
    }
}

/// The journal records that internalising appends.
pub open spec fn internalize_records(code: Seq<LineV>, loc: usize) -> Seq<RetractionRecord> {
    match code[loc as int] {
        LineV::Choice(ChoiceInstruction::DynamicElse(_, _, NextOrFail::Next(o))) => if o == 0 {
            seq![RetractionRecord::ReplacedDynamicElseOffset(loc, 0)]
        } else {
            seq![RetractionRecord::AppendedNextOrFail(loc, NextOrFail::Next(o))]
        },
        LineV::Choice(ChoiceInstruction::DynamicInternalElse(_, _, NextOrFail::Next(o))) => seq![
            RetractionRecord::ReplacedDynamicElseOffset(loc, o),
        ],
        LineV::Choice(ChoiceInstruction::TryMeElse(o)) => seq![
            RetractionRecord::ModifiedTryMeElse(loc, o),
        ],
        _ => Seq::empty(),
    }
}

/// Promotes a stub or outer choice instruction into its internal form: a
/// stub `TryMeElse` becomes `TrustMe`, a live `TryMeElse(o)` becomes
/// `RetryMeElse(o)` when the forward target is a real clause and
/// `TrustMe(o)` when the target is the end-marker `RevJmpBy(0)`; the
/// dynamic variants follow symmetric rules on their `Next`/`Fail` field.
pub fn internalize_choice_instr_at(
    code: &mut Vec<Line>,
    instr_loc: usize,
    retraction_info: &mut RetractionInfo,
)
    requires
        internalize_applicable(cv(old(code)@), instr_loc),
    ensures
        cv(final(code)@) == cv(old(code)@).update(
            instr_loc as int,
            internalize_line(cv(old(code)@), instr_loc),
        ),
        final(code)@.len() == old(code)@.len(),
        final(retraction_info).records@ == old(retraction_info).records@ + internalize_records(
            cv(old(code)@),
            instr_loc,
        ),
        final(retraction_info).orig_code_extent == old(retraction_info).orig_code_extent,
{
    let ghost oldv = cv(old(code)@);
    let n = code.len();
    let c = read_choice(code, instr_loc);
    match c {
        ChoiceInstruction::DynamicElse(_, _, NextOrFail::Fail(_)) => {
            proof {
                assert(cv(code@) =~= oldv.update(
                    instr_loc as int,
                    internalize_line(oldv, instr_loc),
                ));
                assert(retraction_info.records@ =~= retraction_info.records@ + Seq::<
                    RetractionRecord,
                >::empty());
            }
        },
        ChoiceInstruction::DynamicInternalElse(_, _, NextOrFail::Fail(_)) => {
            proof {
                assert(cv(code@) =~= oldv.update(
                    instr_loc as int,
                    internalize_line(oldv, instr_loc),
                ));
                assert(retraction_info.records@ =~= retraction_info.records@ + Seq::<
                    RetractionRecord,
                >::empty());
            }
        },
        ChoiceInstruction::DynamicElse(b, d, NextOrFail::Next(o)) => {
            if o == 0 {
                retraction_info.push_record(
                    RetractionRecord::ReplacedDynamicElseOffset(instr_loc, 0),
                );
                code[instr_loc] = Line::Choice(
                    ChoiceInstruction::DynamicElse(b, d, NextOrFail::Fail(0)),
                );
            } else {
                retraction_info.push_record(
                    RetractionRecord::AppendedNextOrFail(instr_loc, NextOrFail::Next(o)),
                );
                let is_end = match &code[instr_loc + o] {
                    Line::RevJmpBy(p) => *p == 0,
                    _ => false,
                };
                if is_end {
                    code[instr_loc] = Line::Choice(
                        ChoiceInstruction::DynamicElse(b, d, NextOrFail::Fail(o)),
                    );
                } else {
                    code[instr_loc] = Line::Choice(
                        ChoiceInstruction::DynamicElse(b, d, NextOrFail::Next(o)),
                    );
                }
            }
            proof {
                assert(retraction_info.records@ =~= old(retraction_info).records@
                    + internalize_records(oldv, instr_loc));
            }
        },
        ChoiceInstruction::DynamicInternalElse(b, d, NextOrFail::Next(o)) => {
            if o == 0 {
                retraction_info.push_record(
                    RetractionRecord::ReplacedDynamicElseOffset(instr_loc, 0),
                );
                code[instr_loc] = Line::Choice(
                    ChoiceInstruction::DynamicInternalElse(b, d, NextOrFail::Fail(0)),
                );
            } else {
                retraction_info.push_record(
                    RetractionRecord::ReplacedDynamicElseOffset(instr_loc, o),
                );
                let is_end = match &code[instr_loc + o] {
                    Line::RevJmpBy(p) => *p == 0,
                    _ => false,
                };
                if is_end {
                    code[instr_loc] = Line::Choice(
                        ChoiceInstruction::DynamicInternalElse(b, d, NextOrFail::Fail(o)),
                    );
                } else {
                    code[instr_loc] = Line::Choice(
                        ChoiceInstruction::DynamicInternalElse(b, d, NextOrFail::Next(o)),
                    );
                }
            }
            proof {
                assert(retraction_info.records@ =~= old(retraction_info).records@
                    + internalize_records(oldv, instr_loc));
            }
        },
        ChoiceInstruction::TryMeElse(o) => {
            retraction_info.push_record(RetractionRecord::ModifiedTryMeElse(instr_loc, o));
            if o == 0 {
                code[instr_loc] = Line::Choice(ChoiceInstruction::TrustMe(0));
            } else {
                let is_end = match &code[instr_loc + o] {
                    Line::RevJmpBy(p) => *p == 0,
                    _ => false,
                };
                if is_end {
                    code[instr_loc] = Line::Choice(ChoiceInstruction::TrustMe(o));
                } else {
                    code[instr_loc] = Line::Choice(ChoiceInstruction::RetryMeElse(o));
                }
            }
            proof {
                assert(retraction_info.records@ =~= old(retraction_info).records@
                    + internalize_records(oldv, instr_loc));
            }
        },
        _ => unreached(),
    }
}

/// The step function of the leading-choice traversal
/// (`blunt_leading_choice_instr`): follows live `TryMeElse` links and
/// `RevJmpBy` back-jumps until it reaches the instruction to restore as the
/// head of its chain.
pub open spec fn blunt_step(code: Seq<LineV>, i: int) -> WalkStep {
    if !(0 <= i < code.len()) {
        WalkStep::Stuck
    } else {
        match code[i] {
            LineV::Choice(ChoiceInstruction::RetryMeElse(_)) => WalkStep::Stop(i),
            LineV::Choice(ChoiceInstruction::DynamicElse(_, _, _)) => WalkStep::Stop(i),
            LineV::Choice(ChoiceInstruction::DynamicInternalElse(_, _, _)) => WalkStep::Stop(i),
            LineV::Choice(ChoiceInstruction::TrustMe(_)) => WalkStep::Stop(i),
            LineV::Choice(ChoiceInstruction::TryMeElse(o)) => if o == 0 {
                WalkStep::Stop(i)
            } else {
                WalkStep::Go(i + o)
            },
            LineV::RevJmpBy(o) => WalkStep::Go(i - o),
            _ => WalkStep::Stuck,
        }
    }
}

/// The leading-choice traversal from `start` reaches its stop.
pub open spec fn blunt_terminates(code: Seq<LineV>, start: int) -> bool {
    walk_terminates(|i: int| blunt_step(code, i), start)
}

/// Where the leading-choice traversal from `start` stops.
pub open spec fn blunt_result(code: Seq<LineV>, start: int) -> int {
    walk_result(|i: int| blunt_step(code, i), start)
}

/// The line after blunting the stop position: the restored head of the
/// chain.
pub open spec fn blunt_line(code: Seq<LineV>, s: int) -> LineV {
    match code[s] {
        LineV::Choice(ChoiceInstruction::RetryMeElse(o)) => LineV::Choice(
            ChoiceInstruction::TryMeElse(o),
        ),
        LineV::Choice(ChoiceInstruction::DynamicElse(b, d, NextOrFail::Fail(_))) => LineV::Choice(
            ChoiceInstruction::DynamicElse(b, d, NextOrFail::Next(0)),
        ),
        LineV::Choice(
            ChoiceInstruction::DynamicInternalElse(b, d, NextOrFail::Fail(_)),
        ) => LineV::Choice(ChoiceInstruction::DynamicInternalElse(b, d, NextOrFail::Next(0))),
        LineV::Choice(ChoiceInstruction::TrustMe(_)) => LineV::Choice(
            ChoiceInstruction::TryMeElse(0),
        ),
        l => l,
    }
}

/// The journal records that blunting appends.
pub open spec fn blunt_records(code: Seq<LineV>, s: int) -> Seq<RetractionRecord> {
    match code[s] {
        LineV::Choice(ChoiceInstruction::RetryMeElse(o)) => seq![
            RetractionRecord::ModifiedRetryMeElse(s as usize, o),
        ],
        LineV::Choice(ChoiceInstruction::DynamicElse(_, _, NextOrFail::Fail(o))) => seq![
            RetractionRecord::AppendedNextOrFail(s as usize, NextOrFail::Fail(o)),
        ],
        LineV::Choice(ChoiceInstruction::DynamicInternalElse(_, _, NextOrFail::Fail(o))) => seq![
            RetractionRecord::AppendedNextOrFail(s as usize, NextOrFail::Fail(o)),
        ],
        LineV::Choice(ChoiceInstruction::TrustMe(o)) => seq![
            RetractionRecord::AppendedTrustMe(s as usize, o, false),
        ],
        _ => Seq::empty(),
    }
}

/// The position that blunting returns: the restored head itself, or the
/// line after it when the head was (or became) a stub `TryMeElse(0)`.
pub open spec fn blunt_ret(code: Seq<LineV>, s: int) -> int {
    match code[s] {
        LineV::Choice(ChoiceInstruction::TrustMe(_)) => s + 1,
        LineV::Choice(ChoiceInstruction::TryMeElse(_)) => s + 1,
        _ => s,
    }
}

/// Every stop of the leading-choice traversal is at the stopped position
/// itself.
pub proof fn lemma_blunt_stops_at_self(code: Seq<LineV>, i: int, fuel: nat, r: int)
    requires
        walk(|j: int| blunt_step(code, j), i, fuel) == Some(r),
    ensures
        blunt_step(code, r) == WalkStep::Stop(r),
    decreases fuel,
{
    let step = |j: int| blunt_step(code, j);
    match step(i) {
        WalkStep::Stop(_) => {},
        WalkStep::Stuck => {},
        WalkStep::Go(nn) => {
            lemma_blunt_stops_at_self(code, nn, (fuel - 1) as nat, r);
        },
    }
}

/// Walks to the instruction that `blunt_leading_choice_instr` rewrites.
fn blunt_find(code: &Vec<Line>, start: usize) -> (r: usize)
    requires
        blunt_terminates(cv(code@), start as int),
    ensures
        r == blunt_result(cv(code@), start as int),
        r < code@.len(),
        blunt_step(cv(code@), r as int) == WalkStep::Stop(r as int),
        cv(code@)[r as int] is Choice,
{
    let ghost codev = cv(code@);
    let ghost step = |i: int| blunt_step(codev, i);
    let ghost mut fuel: nat = choose|f: nat| walk(step, start as int, f) is Some;
    proof {
        lemma_walk_complete(step, start as int, fuel);
    }
    let mut index = start;
    loop
        invariant
            walk(step, index as int, fuel) is Some,
            walk_terminates(step, index as int),
            walk_result(step, index as int) == walk_result(step, start as int),
            codev == cv(code@),
            step == (|i: int| blunt_step(codev, i)),
        decreases fuel,
    {
        proof {
            lemma_walk_complete(step, index as int, fuel);
            vstd::std_specs::vec::axiom_spec_len(code);
        }
        let next: usize;
        match &code[index] {
            Line::Choice(ChoiceInstruction::TryMeElse(o)) => {
                if *o == 0 {
                    proof {
                        lemma_blunt_stops_at_self(codev, index as int, fuel, index as int);
                    }
                    return index;
                }
                proof {
                    assert(step(index as int) == WalkStep::Go(index + (*o as int)));
                    assert(walk(step, index + (*o as int), (fuel - 1) as nat) is Some);
                    if !(index + (*o as int) < codev.len()) {
                        assert(step(index + (*o as int)) == WalkStep::Stuck);
                    }
                }
                next = index + *o;
            },
            Line::RevJmpBy(o) => {
                proof {
                    assert(step(index as int) == WalkStep::Go(index - (*o as int)));
                    assert(walk(step, index - (*o as int), (fuel - 1) as nat) is Some);
                    if !(0 <= index - (*o as int)) {
                        assert(step(index - (*o as int)) == WalkStep::Stuck);
                    }
                }
                next = index - *o;
            },
            Line::Choice(ChoiceInstruction::RetryMeElse(_)) => {
                return index;
            },
            Line::Choice(ChoiceInstruction::DynamicElse(_, _, _)) => {
                return index;
            },
            Line::Choice(ChoiceInstruction::DynamicInternalElse(_, _, _)) => {
                return index;
            },
            Line::Choice(ChoiceInstruction::TrustMe(_)) => {
                return index;
            },
            _ => {
                proof {
                    assert(step(index as int) == WalkStep::Stuck);
                }
                next = index;
            },
        }
        proof {
            assert(step(index as int) == WalkStep::Go(next as int));
            lemma_walk_go(step, index as int, next as int);
            assert(walk(step, next as int, (fuel - 1) as nat) is Some);
            fuel = (fuel - 1) as nat;
        }
        index = next;
    }
}

/// Converts the leading instruction of a sub-chain back into the head form:
/// a `RetryMeElse` becomes `TryMeElse`, a finalised dynamic `Fail` becomes
/// a stub `Next(0)`, a `TrustMe` becomes the stub `TryMeElse(0)`.  Used
/// when the first alternative of a predicate has been removed.
pub fn blunt_leading_choice_instr(
    code: &mut Vec<Line>,
    instr_loc: usize,
    retraction_info: &mut RetractionInfo,
) -> (r: usize)
    requires
        blunt_terminates(cv(old(code)@), instr_loc as int),
    ensures
        r == blunt_ret(cv(old(code)@), blunt_result(cv(old(code)@), instr_loc as int)),
        r <= old(code)@.len(),
        cv(final(code)@) == cv(old(code)@).update(
            blunt_result(cv(old(code)@), instr_loc as int),
            blunt_line(cv(old(code)@), blunt_result(cv(old(code)@), instr_loc as int)),
        ),
        final(code)@.len() == old(code)@.len(),
        final(retraction_info).records@ == old(retraction_info).records@ + blunt_records(
            cv(old(code)@),
            blunt_result(cv(old(code)@), instr_loc as int),
        ),
        final(retraction_info).orig_code_extent == old(retraction_info).orig_code_extent,
{
    let ghost oldv = cv(old(code)@);
    let n = code.len();
    let index = blunt_find(code, instr_loc);
    let c = read_choice(code, index);
    match c {
        ChoiceInstruction::RetryMeElse(o) => {
            retraction_info.push_record(RetractionRecord::ModifiedRetryMeElse(index, o));
            code[index] = Line::Choice(ChoiceInstruction::TryMeElse(o));
            proof {
                assert(retraction_info.records@ =~= old(retraction_info).records@ + blunt_records(
                    oldv,
                    index as int,
                ));
            }
            index
        },
        ChoiceInstruction::DynamicElse(b, d, nof) => {
            match nof {
                NextOrFail::Next(_) => {
                    proof {
                        assert(cv(code@) =~= oldv.update(index as int, blunt_line(oldv, index as int)));
                        assert(retraction_info.records@ =~= retraction_info.records@ + Seq::<
                            RetractionRecord,
                        >::empty());
                    }
                },
                NextOrFail::Fail(o) => {
                    retraction_info.push_record(
                        RetractionRecord::AppendedNextOrFail(index, NextOrFail::Fail(o)),
                    );
                    code[index] = Line::Choice(
                        ChoiceInstruction::DynamicElse(b, d, NextOrFail::Next(0)),
                    );
                    proof {
                        assert(retraction_info.records@ =~= old(retraction_info).records@
                            + blunt_records(oldv, index as int));
                    }
                },
            }
            index
        },
        ChoiceInstruction::DynamicInternalElse(b, d, nof) => {
            match nof {
                NextOrFail::Next(_) => {
                    proof {
                        assert(cv(code@) =~= oldv.update(index as int, blunt_line(oldv, index as int)));
                        assert(retraction_info.records@ =~= retraction_info.records@ + Seq::<
                            RetractionRecord,
                        >::empty());
                    }
                },
                NextOrFail::Fail(o) => {
                    retraction_info.push_record(
                        RetractionRecord::AppendedNextOrFail(index, NextOrFail::Fail(o)),
                    );
                    code[index] = Line::Choice(
                        ChoiceInstruction::DynamicInternalElse(b, d, NextOrFail::Next(0)),
                    );
                    proof {
                        assert(retraction_info.records@ =~= old(retraction_info).records@
                            + blunt_records(oldv, index as int));
                    }
                },
            }
            index
        },
        ChoiceInstruction::TrustMe(o) => {
            retraction_info.push_record(RetractionRecord::AppendedTrustMe(index, o, false));
            code[index] = Line::Choice(ChoiceInstruction::TryMeElse(0));
            proof {
                assert(retraction_info.records@ =~= old(retraction_info).records@ + blunt_records(
                    oldv,
                    index as int,
                ));
            }
            index + 1
        },
        ChoiceInstruction::TryMeElse(o) => {
            proof {
                assert(o == 0);
                assert(cv(code@) =~= oldv.update(index as int, blunt_line(oldv, index as int)));
                assert(retraction_info.records@ =~= retraction_info.records@ + Seq::<
                    RetractionRecord,
                >::empty());
            }
            index + 1
        },
    }
}


/// The step function of the threading traversal
/// (`thread_choice_instr_at_to`): follows forward links until it reaches
/// the instruction whose alternative must be re-pointed at the target:
/// the first choice instruction at or before the target, or a `RevJmpBy`
/// at or after it.
pub open spec fn thread_step(code: Seq<LineV>, target: int, i: int) -> WalkStep {
    if !(0 <= i < code.len()) {
        WalkStep::Stuck
    } else {
        match code[i] {
            LineV::Choice(ChoiceInstruction::TryMeElse(o)) => if target >= i {
                WalkStep::Stop(i)
            } else {
                WalkStep::Go(i + o)
            },
            LineV::Choice(ChoiceInstruction::RetryMeElse(o)) => if target >= i {
                WalkStep::Stop(i)
            } else {
                WalkStep::Go(i + o)
            },
            LineV::Choice(ChoiceInstruction::DynamicElse(_, _, NextOrFail::Next(o))) => if target
                >= i {
                WalkStep::Stop(i)
            } else {
                WalkStep::Go(i + o)
            },
            LineV::Choice(
                ChoiceInstruction::DynamicInternalElse(_, _, NextOrFail::Next(o)),
            ) => if target >= i {
                WalkStep::Stop(i)
            } else {
                WalkStep::Go(i + o)
            },
            LineV::RevJmpBy(_) => if i >= target {
                WalkStep::Stop(i)
            } else {
                WalkStep::Stuck
            },
            LineV::Choice(ChoiceInstruction::DynamicElse(_, _, NextOrFail::Fail(o))) => if target
                >= i {
                WalkStep::Stop(i)
            } else if o > 0 {
                WalkStep::Go(i + o)
            } else {
                WalkStep::Stuck
            },
            LineV::Choice(
                ChoiceInstruction::DynamicInternalElse(_, _, NextOrFail::Fail(o)),
            ) => if target >= i {
                WalkStep::Stop(i)
            } else if o > 0 {
                WalkStep::Go(i + o)
            } else {
                WalkStep::Stuck
            },
            LineV::Choice(ChoiceInstruction::TrustMe(o)) => if target >= i {
                WalkStep::Stop(i)
            } else if o > 0 {
                WalkStep::Go(i + o)
            } else {
                WalkStep::Stuck
            },
            _ => WalkStep::Stuck,
        }
    }
}

/// The threading traversal from `from` towards `target` reaches its stop.
pub open spec fn thread_terminates(code: Seq<LineV>, target: int, from: int) -> bool {
    walk_terminates(|i: int| thread_step(code, target, i), from)
}

/// Where the threading traversal from `from` towards `target` stops.
pub open spec fn thread_result(code: Seq<LineV>, target: int, from: int) -> int {
    walk_result(|i: int| thread_step(code, target, i), from)
}

/// The patched line at the threading stop: its alternative re-pointed at
/// the target, with the opcode chosen by whether the target is reachable
/// forward and whether the instruction is the last of its chain.
pub open spec fn thread_line(code: Seq<LineV>, target: int, s: int) -> LineV {
    match code[s] {
        LineV::Choice(ChoiceInstruction::TryMeElse(_)) => LineV::Choice(
            ChoiceInstruction::TryMeElse((target - s) as usize),
        ),
        LineV::Choice(ChoiceInstruction::RetryMeElse(_)) => LineV::Choice(
            ChoiceInstruction::RetryMeElse((target - s) as usize),
        ),
        LineV::Choice(ChoiceInstruction::DynamicElse(b, d, NextOrFail::Next(_))) => LineV::Choice(
            ChoiceInstruction::DynamicElse(b, d, NextOrFail::Next((target - s) as usize)),
        ),
        LineV::Choice(
            ChoiceInstruction::DynamicInternalElse(b, d, NextOrFail::Next(_)),
        ) => LineV::Choice(
            ChoiceInstruction::DynamicInternalElse(b, d, NextOrFail::Next((target - s) as usize)),
        ),
        LineV::RevJmpBy(_) => LineV::RevJmpBy((s - target) as usize),
        LineV::Choice(ChoiceInstruction::DynamicElse(b, d, NextOrFail::Fail(_))) => LineV::Choice(
            ChoiceInstruction::DynamicElse(b, d, NextOrFail::Next((target - s) as usize)),
        ),
        LineV::Choice(
            ChoiceInstruction::DynamicInternalElse(b, d, NextOrFail::Fail(_)),
        ) => LineV::Choice(
            ChoiceInstruction::DynamicInternalElse(b, d, NextOrFail::Next((target - s) as usize)),
        ),
        LineV::Choice(ChoiceInstruction::TrustMe(_)) => LineV::Choice(
            ChoiceInstruction::RetryMeElse((target - s) as usize),
        ),
        l => l,
    }
}

/// The journal records that threading appends.
pub open spec fn thread_records(code: Seq<LineV>, s: int) -> Seq<RetractionRecord> {
    match code[s] {
        LineV::Choice(ChoiceInstruction::TryMeElse(o)) => seq![
            RetractionRecord::ReplacedChoiceOffset(s as usize, o),
        ],
        LineV::Choice(ChoiceInstruction::RetryMeElse(o)) => seq![
            RetractionRecord::ReplacedChoiceOffset(s as usize, o),
        ],
        LineV::Choice(ChoiceInstruction::DynamicElse(_, _, NextOrFail::Next(o))) => seq![
            RetractionRecord::ReplacedDynamicElseOffset(s as usize, o),
        ],
        LineV::Choice(ChoiceInstruction::DynamicInternalElse(_, _, NextOrFail::Next(o))) => seq![
            RetractionRecord::ReplacedDynamicElseOffset(s as usize, o),
        ],
        LineV::RevJmpBy(o) => seq![RetractionRecord::ModifiedRevJmpBy(s as usize, o)],
        LineV::Choice(ChoiceInstruction::DynamicElse(_, _, NextOrFail::Fail(o))) => seq![
            RetractionRecord::AppendedNextOrFail(s as usize, NextOrFail::Fail(o)),
        ],
        LineV::Choice(ChoiceInstruction::DynamicInternalElse(_, _, NextOrFail::Fail(o))) => seq![
            RetractionRecord::AppendedNextOrFail(s as usize, NextOrFail::Fail(o)),
        ],
        LineV::Choice(ChoiceInstruction::TrustMe(o)) => seq![
            RetractionRecord::AppendedTrustMe(s as usize, o, false),
        ],
        _ => Seq::empty(),
    }
}

/// Every stop of the threading traversal is at the stopped position itself.
pub proof fn lemma_thread_stops_at_self(
    code: Seq<LineV>,
    target: int,
    i: int,
    fuel: nat,
    r: int,
)
    requires
        walk(|j: int| thread_step(code, target, j), i, fuel) == Some(r),
    ensures
        thread_step(code, target, r) == WalkStep::Stop(r),
    decreases fuel,
{
    let step = |j: int| thread_step(code, target, j);
    match step(i) {
        WalkStep::Stop(_) => {},
        WalkStep::Stuck => {},
        WalkStep::Go(nn) => {
            lemma_thread_stops_at_self(code, target, nn, (fuel - 1) as nat, r);
        },
    }
}

/// Walks to the instruction that `thread_choice_instr_at_to` patches.
fn thread_find(code: &Vec<Line>, instr_loc: usize, target_loc: usize) -> (r: usize)
    requires
        thread_terminates(cv(code@), target_loc as int, instr_loc as int),
    ensures
        r == thread_result(cv(code@), target_loc as int, instr_loc as int),
        r < code@.len(),
        thread_step(cv(code@), target_loc as int, r as int) == WalkStep::Stop(r as int),
{
    let ghost codev = cv(code@);
    let ghost step = |i: int| thread_step(codev, target_loc as int, i);
    let ghost mut fuel: nat = choose|f: nat| walk(step, instr_loc as int, f) is Some;
    proof {
        lemma_walk_complete(step, instr_loc as int, fuel);
    }
    let mut index = instr_loc;
    loop
        invariant
            walk(step, index as int, fuel) is Some,
            walk_terminates(step, index as int),
            walk_result(step, index as int) == walk_result(step, instr_loc as int),
            codev == cv(code@),
            step == (|i: int| thread_step(codev, target_loc as int, i)),
        decreases fuel,
    {
        proof {
            lemma_walk_complete(step, index as int, fuel);
            vstd::std_specs::vec::axiom_spec_len(code);
        }
        let next: usize;
        let o_step: usize;
        match &code[index] {
            Line::Choice(ChoiceInstruction::TryMeElse(o)) => {
                if target_loc >= index {
                    proof {
                        lemma_thread_stops_at_self(
                            codev,
                            target_loc as int,
                            index as int,
                            fuel,
                            index as int,
                        );
                    }
                    return index;
                }
                o_step = *o;
            },
            Line::Choice(ChoiceInstruction::RetryMeElse(o)) => {
                if target_loc >= index {
                    proof {
                        lemma_thread_stops_at_self(
                            codev,
                            target_loc as int,
                            index as int,
                            fuel,
                            index as int,
                        );
                    }
                    return index;
                }
                o_step = *o;
            },
            Line::Choice(ChoiceInstruction::DynamicElse(_, _, nof)) => {
                if target_loc >= index {
                    proof {
                        lemma_thread_stops_at_self(
                            codev,
                            target_loc as int,
                            index as int,
                            fuel,
                            index as int,
                        );
                    }
                    return index;
                }
                match nof {
                    NextOrFail::Next(o) => {
                        o_step = *o;
                    },
                    NextOrFail::Fail(o) => {
                        proof {
                            if *o == 0 {
                                assert(step(index as int) == WalkStep::Stuck);
                            }
                        }
                        o_step = *o;
                    },
                }
            },
            Line::Choice(ChoiceInstruction::DynamicInternalElse(_, _, nof)) => {
                if target_loc >= index {
                    proof {
                        lemma_thread_stops_at_self(
                            codev,
                            target_loc as int,
                            index as int,
                            fuel,
                            index as int,
                        );
                    }
                    return index;
                }
                match nof {
                    NextOrFail::Next(o) => {
                        o_step = *o;
                    },
                    NextOrFail::Fail(o) => {
                        proof {
                            if *o == 0 {
                                assert(step(index as int) == WalkStep::Stuck);
                            }
                        }
                        o_step = *o;
                    },
                }
            },
            Line::RevJmpBy(_) => {
                proof {
                    if !(index >= target_loc) {
                        assert(step(index as int) == WalkStep::Stuck);
                    }
                    lemma_thread_stops_at_self(
                        codev,
                        target_loc as int,
                        index as int,
                        fuel,
                        index as int,
                    );
                }
                return index;
            },
            Line::Choice(ChoiceInstruction::TrustMe(o)) => {
                if target_loc >= index {
                    proof {
                        lemma_thread_stops_at_self(
                            codev,
                            target_loc as int,
                            index as int,
                            fuel,
                            index as int,
                        );
                    }
                    return index;
                }
                proof {
                    if *o == 0 {
                        assert(step(index as int) == WalkStep::Stuck);
                    }
                }
                o_step = *o;
            },
            _ => {
                proof {
                    assert(step(index as int) == WalkStep::Stuck);
                }
                o_step = 0;
            },
        }
        proof {
            assert(step(index as int) == WalkStep::Go(index + (o_step as int)));
            assert(walk(step, index + (o_step as int), (fuel - 1) as nat) is Some);
            if !(index + (o_step as int) < codev.len()) {
                assert(step(index + (o_step as int)) == WalkStep::Stuck);
            }
        }
        next = index + o_step;
        proof {
            assert(step(index as int) == WalkStep::Go(next as int));
            lemma_walk_go(step, index as int, next as int);
            assert(walk(step, next as int, (fuel - 1) as nat) is Some);
            fuel = (fuel - 1) as nat;
        }
        index = next;
    }
}

/// Patches the chain so that the alternative following `instr_loc` is
/// `target_loc`: walks forward to the instruction owning that alternative,
/// then rewrites it with positional arithmetic — a forward link becomes
/// `target_loc` minus the instruction's position, a `RevJmpBy` the reverse
/// difference — choosing the opcode by the instruction's role in its chain.
pub fn thread_choice_instr_at_to(
    code: &mut Vec<Line>,
    instr_loc: usize,
    target_loc: usize,
    retraction_info: &mut RetractionInfo,
)
    requires
        thread_terminates(cv(old(code)@), target_loc as int, instr_loc as int),
    ensures
        cv(final(code)@) == cv(old(code)@).update(
            thread_result(cv(old(code)@), target_loc as int, instr_loc as int),
            thread_line(
                cv(old(code)@),
                target_loc as int,
                thread_result(cv(old(code)@), target_loc as int, instr_loc as int),
            ),
        ),
        final(code)@.len() == old(code)@.len(),
        final(retraction_info).records@ == old(retraction_info).records@ + thread_records(
            cv(old(code)@),
            thread_result(cv(old(code)@), target_loc as int, instr_loc as int),
        ),
        final(retraction_info).orig_code_extent == old(retraction_info).orig_code_extent,
{
    let ghost oldv = cv(old(code)@);
    let index = thread_find(code, instr_loc, target_loc);
    match &code[index] {
        Line::RevJmpBy(o) => {
            let o = *o;
            retraction_info.push_record(RetractionRecord::ModifiedRevJmpBy(index, o));
            code[index] = Line::RevJmpBy(index - target_loc);
            proof {
                assert(retraction_info.records@ =~= old(retraction_info).records@ + thread_records(
                    oldv,
                    index as int,
                ));
            }
            return ;
        },
        _ => {},
    }
    let c = read_choice(code, index);
    match c {
        ChoiceInstruction::TryMeElse(o) => {
            retraction_info.push_record(RetractionRecord::ReplacedChoiceOffset(index, o));
            code[index] = Line::Choice(ChoiceInstruction::TryMeElse(target_loc - index));
        },
        ChoiceInstruction::RetryMeElse(o) => {
            retraction_info.push_record(RetractionRecord::ReplacedChoiceOffset(index, o));
            code[index] = Line::Choice(ChoiceInstruction::RetryMeElse(target_loc - index));
        },
        ChoiceInstruction::DynamicElse(b, d, nof) => {
            match nof {
                NextOrFail::Next(o) => {
                    retraction_info.push_record(
                        RetractionRecord::ReplacedDynamicElseOffset(index, o),
                    );
                },
                NextOrFail::Fail(o) => {
                    retraction_info.push_record(
                        RetractionRecord::AppendedNextOrFail(index, NextOrFail::Fail(o)),
                    );
                },
            }
            code[index] = Line::Choice(
                ChoiceInstruction::DynamicElse(b, d, NextOrFail::Next(target_loc - index)),
            );
        },
        ChoiceInstruction::DynamicInternalElse(b, d, nof) => {
            match nof {
                NextOrFail::Next(o) => {
                    retraction_info.push_record(
                        RetractionRecord::ReplacedDynamicElseOffset(index, o),
                    );
                },
                NextOrFail::Fail(o) => {
                    retraction_info.push_record(
                        RetractionRecord::AppendedNextOrFail(index, NextOrFail::Fail(o)),
                    );
                },
            }
            code[index] = Line::Choice(
                ChoiceInstruction::DynamicInternalElse(b, d, NextOrFail::Next(target_loc - index)),
            );
        },
        ChoiceInstruction::TrustMe(o) => {
            retraction_info.push_record(RetractionRecord::AppendedTrustMe(index, o, false));
            code[index] = Line::Choice(ChoiceInstruction::RetryMeElse(target_loc - index));
        },
    }
    proof {
        assert(retraction_info.records@ =~= old(retraction_info).records@ + thread_records(
            oldv,
            index as int,
        ));
    }
}

/// Whether `find_dynamic_outer_choice_instr` accepts the code at
/// `index_loc`: an indexing block whose variable fall-through is a
/// `DynamicExternal` pointing at least two lines past an outer dynamic
/// choice pair.
pub open spec fn dynamic_outer_applicable(code: Seq<LineV>, index_loc: usize) -> bool {
    &&& (index_loc as int) < code.len()
    &&& code[index_loc as int] matches LineV::IndexingCode(ic)
        && ic.var_ptr matches IndexingCodePtr::DynamicExternal(v) && v >= 2 && index_loc + v - 2
        < code.len()
}

/// The position of the outer dynamic choice instruction belonging to the
/// indexing block at `index_loc`.
pub open spec fn dynamic_outer_result(code: Seq<LineV>, index_loc: usize) -> int {
    index_loc + code[index_loc as int]->IndexingCode_0.var_ptr->DynamicExternal_0 - 2
}

/// Reads the variable fall-through of the dynamic indexing block at
/// `index_loc` and returns the position two lines before its target: the
/// outer dynamic choice instruction of the block.
pub fn find_dynamic_outer_choice_instr(code: &Vec<Line>, index_loc: usize) -> (r: usize)
    requires
        dynamic_outer_applicable(cv(code@), index_loc),
    ensures
        r == dynamic_outer_result(cv(code@), index_loc),
{
    let n = code.len();
    match &code[index_loc] {
        Line::IndexingCode(ic) => {
            match ic.var_ptr {
                IndexingCodePtr::DynamicExternal(v) => index_loc + (v - 2),
                _ => unreached(),
            }
        },
        _ => unreached(),
    }
}

} // verus!
