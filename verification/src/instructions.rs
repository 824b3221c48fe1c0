//! The instruction model: tagged instruction lines and the code vector.
//!
//! The code vector is an ordered sequence of instruction lines, indexable by
//! position.  Positions are 0-based and stable under append; lines are never
//! deleted or shifted.  Choice-chain links are relative offsets; indexing
//! table entries are offsets measured from the position of their own
//! `SwitchOnTerm` line.

use vstd::prelude::*;

verus! {

/// Lifetime stamp of a dynamic clause: finite death instant, or still alive.
#[derive(Clone, Copy, Debug, PartialEq, Eq, Structural)]
pub enum Death {
    Finite(usize),
    Infinity,
}

/// Forward link of a dynamic choice instruction.  `Next(k)` threads to an
/// alternative `k` lines forward (`Next(0)` is a stub awaiting linkage);
/// `Fail(k)` is a finalised failure, with `k` retained for bookkeeping.
#[derive(Clone, Copy, Debug, PartialEq, Eq, Structural)]
pub enum NextOrFail {
    Next(usize),
    Fail(usize),
}

/// A choice instruction: the try/retry/trust threading that drives
/// backtracking.  The `usize` offsets are forward offsets in lines; offset 0
/// means "no next alternative" (a stub, or derelict, instruction).  The
/// dynamic variants carry the birth instant of their clause and its death
/// stamp.
#[derive(Clone, Copy, Debug, PartialEq, Eq, Structural)]
pub enum ChoiceInstruction {
    TryMeElse(usize),
    RetryMeElse(usize),
    TrustMe(usize),
    DynamicElse(usize, Death, NextOrFail),
    DynamicInternalElse(usize, Death, NextOrFail),
}

/// A target of an indexing-table entry.
///
/// As the variable fall-through of a `SwitchOnTerm`, `External(o)` and
/// `DynamicExternal(o)` are relative: they point `o` lines past the block,
/// like every chain link.  As a constant/structure sub-table entry they
/// hold the absolute position of the clause's guarding choice instruction,
/// so appends at the tail never invalidate older entries.
/// `DynamicExternal` marks a target whose reachability depends on clause
/// birth/death stamps.  `Internal(b)` selects run `b` of the indexing
/// block: an indexed-choice run used when several clauses share one key.
#[derive(Clone, Copy, Debug, PartialEq, Eq, Structural)]
pub enum IndexingCodePtr {
    External(usize),
    DynamicExternal(usize),
    Internal(usize),
}

/// One alternative of an indexed-choice run inside an indexing block.  The
/// offset is measured from the `SwitchOnTerm` line that owns the block.
#[derive(Clone, Copy, Debug, PartialEq, Eq, Structural)]
pub enum IndexedChoiceInstruction {
    Try(usize),
    Retry(usize),
    Trust(usize),
}

impl IndexedChoiceInstruction {
    /// The code offset that the alternative dispatches to.
    pub open spec fn spec_offset(self) -> usize {
        match self {
            IndexedChoiceInstruction::Try(o) => o,
            IndexedChoiceInstruction::Retry(o) => o,
            IndexedChoiceInstruction::Trust(o) => o,
        }
    }

    /// Returns the code offset that the alternative dispatches to.
    #[verifier::when_used_as_spec(spec_offset)]
    pub fn offset(self) -> (r: usize)
        ensures
            r == self.spec_offset(),
    {
        match self {
            IndexedChoiceInstruction::Try(o) => o,
            IndexedChoiceInstruction::Retry(o) => o,
            IndexedChoiceInstruction::Trust(o) => o,
        }
    }
}

/// An indexing block: the `SwitchOnTerm` dispatch line together with its
/// constant and structure sub-tables and its internal indexed-choice runs.
///
/// `arg` is the 1-based head argument on which the block dispatches.
/// `var_ptr` is the variable fall-through: where execution goes when the
/// dispatch argument is unbound, a relative offset from the block like
/// every chain link.  `constants` maps the principal functor of an atomic
/// first argument to its target; `structures` maps a (name, arity) pair
/// likewise; their entries, and the indexed-choice runs in `buckets`,
/// hold absolute code positions, so appends at the tail of the vector
/// never invalidate older entries.
#[derive(Clone, Debug)]
pub struct IndexingCode {
    pub arg: usize,
    pub var_ptr: IndexingCodePtr,
    pub constants: Vec<(u64, IndexingCodePtr)>,
    pub structures: Vec<(u64, usize, IndexingCodePtr)>,
    pub buckets: Vec<Vec<IndexedChoiceInstruction>>,
}

/// The mathematical view of an indexing block.
#[verifier::ext_equal]
pub struct IndexingCodeV {
    pub arg: usize,
    pub var_ptr: IndexingCodePtr,
    pub constants: Seq<(u64, IndexingCodePtr)>,
    pub structures: Seq<(u64, usize, IndexingCodePtr)>,
    pub buckets: Seq<Seq<IndexedChoiceInstruction>>,
}

impl View for IndexingCode {
    type V = IndexingCodeV;

    open spec fn view(&self) -> IndexingCodeV {
        IndexingCodeV {
            arg: self.arg,
            var_ptr: self.var_ptr,
            constants: self.constants@,
            structures: self.structures@,
            buckets: self.buckets@.map_values(|b: Vec<IndexedChoiceInstruction>| b@),
        }
    }
}

/// One line of the code vector.
///
/// `Choice` lines thread backtracking alternatives.  `RevJmpBy(o)` is the
/// only backward-motion instruction: an unconditional reverse jump of `o`
/// lines (`RevJmpBy(0)` marks the end of a threaded run).  `JmpBy(arity, o)`
/// is a forward jump used to chain sub-predicates compiled from an appendix
/// queue.  `IndexingCode` fronts an indexed sub-sequence.  All other
/// instruction kinds (fact, query, arithmetic, cut, control call) are opaque
/// to this core and are carried as `Body` lines with an opaque payload.
#[derive(Clone, Debug)]
pub enum Line {
    Choice(ChoiceInstruction),
    RevJmpBy(usize),
    JmpBy(usize, usize),
    IndexingCode(IndexingCode),
    Body(u64),
}

/// The mathematical view of a code line.
#[verifier::ext_equal]
pub enum LineV {
    Choice(ChoiceInstruction),
    RevJmpBy(usize),
    JmpBy(usize, usize),
    IndexingCode(IndexingCodeV),
    Body(u64),
}

impl View for Line {
    type V = LineV;

    open spec fn view(&self) -> LineV {
        match self {
            Line::Choice(c) => LineV::Choice(*c),
            Line::RevJmpBy(o) => LineV::RevJmpBy(*o),
            Line::JmpBy(a, o) => LineV::JmpBy(*a, *o),
            Line::IndexingCode(ic) => LineV::IndexingCode(ic@),
            Line::Body(t) => LineV::Body(*t),
        }
    }
}

/// The view of a whole code vector: the sequence of line views.
pub open spec fn cv(code: Seq<Line>) -> Seq<LineV> {
    code.map_values(|l: Line| l@)
}

pub broadcast proof fn lemma_cv_len(code: Seq<Line>)
    ensures
        #[trigger] cv(code).len() == code.len(),
{
}

pub broadcast proof fn lemma_cv_index(code: Seq<Line>, i: int)
    requires
        0 <= i < code.len(),
    ensures
        #[trigger] cv(code)[i] == code[i]@,
{
}

pub broadcast proof fn lemma_cv_update(code: Seq<Line>, i: int, l: Line)
    requires
        0 <= i < code.len(),
    ensures
        #[trigger] cv(code.update(i, l)) == cv(code).update(i, l@),
{
    assert(cv(code.update(i, l)) =~= cv(code).update(i, l@));
}

pub broadcast proof fn lemma_cv_push(code: Seq<Line>, l: Line)
    ensures
        #[trigger] cv(code.push(l)) == cv(code).push(l@),
{
    assert(cv(code.push(l)) =~= cv(code).push(l@));
}

pub broadcast proof fn lemma_cv_add(a: Seq<Line>, b: Seq<Line>)
    ensures
        #[trigger] cv(a + b) == cv(a) + cv(b),
{
    assert(cv(a + b) =~= cv(a) + cv(b));
}

pub broadcast group group_cv {
    lemma_cv_len,
    lemma_cv_index,
    lemma_cv_update,
    lemma_cv_push,
    lemma_cv_add,
}

/// Whether to add an incoming clause after or before the existing clauses:
/// `assertz` appends, `asserta` prepends.
#[derive(Clone, Copy, Debug, PartialEq, Eq, Structural)]
pub enum AppendOrPrepend {
    Append,
    Prepend,
}

impl AppendOrPrepend {
    pub open spec fn spec_is_append(self) -> bool {
        self is Append
    }

    #[verifier::when_used_as_spec(spec_is_append)]
    pub fn is_append(self) -> (r: bool)
        ensures
            r == self.spec_is_append(),
    {
        match self {
            AppendOrPrepend::Append => true,
            AppendOrPrepend::Prepend => false,
        }
    }
}

/// The entry point registered for a predicate in the code index: the
/// position invoked by `call/N`, or a marker that the predicate is undefined
/// (with `DynamicUndefined` recording that it is undefined but declared
/// dynamic).
#[derive(Clone, Copy, Debug, PartialEq, Eq, Structural)]
pub enum IndexPtr {
    DynamicUndefined,
    Undefined,
    Index(usize),
    DynamicIndex(usize),
}

/// Settings that drive the choice of opcodes when a clause block is emitted
/// and integrated.  `global_clock_tick` carries the machine clock when the
/// predicate is dynamic (its clauses then carry birth/death stamps);
/// `is_extensible` registers the skeleton for later assert/retract;
/// `non_counted_bt` exempts the predicate's choice points from certain
/// backtracking accounting.
#[derive(Clone, Copy, Debug, PartialEq, Eq, Structural)]
pub struct CodeGenSettings {
    pub global_clock_tick: Option<usize>,
    pub is_extensible: bool,
    pub non_counted_bt: bool,
}

impl CodeGenSettings {
    pub open spec fn spec_is_dynamic(self) -> bool {
        self.global_clock_tick is Some
    }

    #[verifier::when_used_as_spec(spec_is_dynamic)]
    pub fn is_dynamic(self) -> (r: bool)
        ensures
            r == self.spec_is_dynamic(),
    {
        match self.global_clock_tick {
            Option::Some(_) => true,
            Option::None => false,
        }
    }

    /// The outer leading choice instruction for a clause block: a
    /// `DynamicElse` stamped with the clock for a dynamic predicate, a plain
    /// `TryMeElse` otherwise.
    pub open spec fn spec_try_me_else(self, offset: usize) -> ChoiceInstruction {
        match self.global_clock_tick {
            Option::Some(tick) => ChoiceInstruction::DynamicElse(
                tick,
                Death::Infinity,
                NextOrFail::Next(offset),
            ),
            Option::None => ChoiceInstruction::TryMeElse(offset),
        }
    }

    #[verifier::when_used_as_spec(spec_try_me_else)]
    pub fn try_me_else(self, offset: usize) -> (r: ChoiceInstruction)
        ensures
            r == self.spec_try_me_else(offset),
    {
        match self.global_clock_tick {
            Option::Some(tick) => ChoiceInstruction::DynamicElse(
                tick,
                Death::Infinity,
                NextOrFail::Next(offset),
            ),
            Option::None => ChoiceInstruction::TryMeElse(offset),
        }
    }

    /// The inner (indexed sub-sequence) leading choice instruction.
    pub open spec fn spec_internal_try_me_else(self, offset: usize) -> ChoiceInstruction {
        match self.global_clock_tick {
            Option::Some(tick) => ChoiceInstruction::DynamicInternalElse(
                tick,
                Death::Infinity,
                NextOrFail::Next(offset),
            ),
            Option::None => ChoiceInstruction::TryMeElse(offset),
        }
    }

    #[verifier::when_used_as_spec(spec_internal_try_me_else)]
    pub fn internal_try_me_else(self, offset: usize) -> (r: ChoiceInstruction)
        ensures
            r == self.spec_internal_try_me_else(offset),
    {
        match self.global_clock_tick {
            Option::Some(tick) => ChoiceInstruction::DynamicInternalElse(
                tick,
                Death::Infinity,
                NextOrFail::Next(offset),
            ),
            Option::None => ChoiceInstruction::TryMeElse(offset),
        }
    }

    /// The outer trailing choice instruction: the finalised tail of a chain.
    pub open spec fn spec_trust_me(self) -> ChoiceInstruction {
        match self.global_clock_tick {
            Option::Some(tick) => ChoiceInstruction::DynamicElse(
                tick,
                Death::Infinity,
                NextOrFail::Fail(0),
            ),
            Option::None => ChoiceInstruction::TrustMe(0),
        }
    }

    #[verifier::when_used_as_spec(spec_trust_me)]
    pub fn trust_me(self) -> (r: ChoiceInstruction)
        ensures
            r == self.spec_trust_me(),
    {
        match self.global_clock_tick {
            Option::Some(tick) => ChoiceInstruction::DynamicElse(
                tick,
                Death::Infinity,
                NextOrFail::Fail(0),
            ),
            Option::None => ChoiceInstruction::TrustMe(0),
        }
    }

    /// The inner trailing choice instruction.
    pub open spec fn spec_internal_trust_me(self) -> ChoiceInstruction {
        match self.global_clock_tick {
            Option::Some(tick) => ChoiceInstruction::DynamicInternalElse(
                tick,
                Death::Infinity,
                NextOrFail::Fail(0),
            ),
            Option::None => ChoiceInstruction::TrustMe(0),
        }
    }

    #[verifier::when_used_as_spec(spec_internal_trust_me)]
    pub fn internal_trust_me(self) -> (r: ChoiceInstruction)
        ensures
            r == self.spec_internal_trust_me(),
    {
        match self.global_clock_tick {
            Option::Some(tick) => ChoiceInstruction::DynamicInternalElse(
                tick,
                Death::Infinity,
                NextOrFail::Fail(0),
            ),
            Option::None => ChoiceInstruction::TrustMe(0),
        }
    }
}

} // verus!
