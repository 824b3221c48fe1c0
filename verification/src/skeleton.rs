//! Predicate skeletons: per-predicate metadata parallel to the code vector.
//!
//! A skeleton exists for every (compilation target, name, arity) triple that
//! has been defined, and records, in definition order, each clause's start
//! position and first-argument index key, the parallel list of `$clause/2`
//! mirror start positions, the `asserta`/`assertz` boundary, and whether the
//! predicate is dynamic.

use vstd::prelude::*;

use crate::locs::locs_values;

verus! {

/// Where a predicate definition is stored: the user-level namespace, or a
/// named module.  Module names are interned atoms.
#[derive(Clone, Copy, Debug, PartialEq, Eq, Structural)]
pub enum CompilationTarget {
    User,
    Module(u64),
}

/// The interned atom naming the `builtins` module.
pub const BUILTINS_MODULE: u64 = 1;

/// The interned atom naming the `loader` module.
pub const LOADER_MODULE: u64 = 2;

/// The interned atom naming the `$clause` mirror predicate.
pub const CLAUSE_ATOM: u64 = 3;

/// A predicate's name and arity.  Names are interned atoms.
#[derive(Clone, Copy, Debug, PartialEq, Eq, Structural)]
pub struct PredicateKey {
    pub name: u64,
    pub arity: usize,
}

/// The first-argument discriminant of a clause.
///
/// `NoIndex` marks a non-indexable clause (variable head argument); the
/// other variants carry the 1-based argument number, the position of the
/// `SwitchOnTerm` block the clause is indexed under, and the principal
/// functor: an atomic constant, a list, or a (name, arity) structure.
#[derive(Clone, Copy, Debug, PartialEq, Eq, Structural)]
pub enum OptArgIndexKey {
    NoIndex,
    Constant(usize, usize, u64),
    List(usize, usize),
    Structure(usize, usize, u64, usize),
}

impl OptArgIndexKey {
    /// The argument number the clause is indexed on; 0 when non-indexable.
    pub open spec fn spec_arg_num(self) -> usize {
        match self {
            OptArgIndexKey::NoIndex => 0,
            OptArgIndexKey::Constant(arg_num, _, _) => arg_num,
            OptArgIndexKey::List(arg_num, _) => arg_num,
            OptArgIndexKey::Structure(arg_num, _, _, _) => arg_num,
        }
    }

    #[verifier::when_used_as_spec(spec_arg_num)]
    pub fn arg_num(self) -> (r: usize)
        ensures
            r == self.spec_arg_num(),
    {
        match self {
            OptArgIndexKey::NoIndex => 0,
            OptArgIndexKey::Constant(arg_num, _, _) => arg_num,
            OptArgIndexKey::List(arg_num, _) => arg_num,
            OptArgIndexKey::Structure(arg_num, _, _, _) => arg_num,
        }
    }

    /// Whether the clause carries an index key at all.
    pub open spec fn spec_is_indexed(self) -> bool {
        !(self is NoIndex)
    }

    #[verifier::when_used_as_spec(spec_is_indexed)]
    pub fn is_indexed(self) -> (r: bool)
        ensures
            r == self.spec_is_indexed(),
    {
        match self {
            OptArgIndexKey::NoIndex => false,
            _ => true,
        }
    }

    /// The position of the `SwitchOnTerm` block the clause is indexed under.
    pub open spec fn spec_switch_on_term_loc(self) -> Option<usize> {
        match self {
            OptArgIndexKey::NoIndex => None,
            OptArgIndexKey::Constant(_, loc, _) => Some(loc),
            OptArgIndexKey::List(_, loc) => Some(loc),
            OptArgIndexKey::Structure(_, loc, _, _) => Some(loc),
        }
    }

    #[verifier::when_used_as_spec(spec_switch_on_term_loc)]
    pub fn switch_on_term_loc(self) -> (r: Option<usize>)
        ensures
            r == self.spec_switch_on_term_loc(),
    {
        match self {
            OptArgIndexKey::NoIndex => None,
            OptArgIndexKey::Constant(_, loc, _) => Some(loc),
            OptArgIndexKey::List(_, loc) => Some(loc),
            OptArgIndexKey::Structure(_, loc, _, _) => Some(loc),
        }
    }

    /// The key with its recorded switch-table location replaced by `loc`.
    pub open spec fn spec_with_switch_on_term_loc(self, loc: usize) -> OptArgIndexKey {
        match self {
            OptArgIndexKey::NoIndex => OptArgIndexKey::NoIndex,
            OptArgIndexKey::Constant(arg_num, _, c) => OptArgIndexKey::Constant(arg_num, loc, c),
            OptArgIndexKey::List(arg_num, _) => OptArgIndexKey::List(arg_num, loc),
            OptArgIndexKey::Structure(arg_num, _, n, a) => OptArgIndexKey::Structure(
                arg_num,
                loc,
                n,
                a,
            ),
        }
    }

    /// Replaces the recorded switch-table location.
    pub fn set_switch_on_term_loc(&mut self, loc: usize)
        ensures
            *final(self) == old(self).spec_with_switch_on_term_loc(loc),
    {
        match *self {
            OptArgIndexKey::NoIndex => {},
            OptArgIndexKey::Constant(arg_num, _, c) => {
                *self = OptArgIndexKey::Constant(arg_num, loc, c);
            },
            OptArgIndexKey::List(arg_num, _) => {
                *self = OptArgIndexKey::List(arg_num, loc);
            },
            OptArgIndexKey::Structure(arg_num, _, n, a) => {
                *self = OptArgIndexKey::Structure(arg_num, loc, n, a);
            },
        }
    }

    /// The key with its recorded switch-table location shifted `n` lines
    /// towards the end of the code vector.
    pub open spec fn spec_shifted(self, n: usize) -> OptArgIndexKey {
        match self {
            OptArgIndexKey::NoIndex => OptArgIndexKey::NoIndex,
            OptArgIndexKey::Constant(arg_num, loc, c) => OptArgIndexKey::Constant(
                arg_num,
                (loc + n) as usize,
                c,
            ),
            OptArgIndexKey::List(arg_num, loc) => OptArgIndexKey::List(
                arg_num,
                (loc + n) as usize,
            ),
            OptArgIndexKey::Structure(arg_num, loc, n2, a) => OptArgIndexKey::Structure(
                arg_num,
                (loc + n) as usize,
                n2,
                a,
            ),
        }
    }

    /// Shifts the recorded switch-table location `n` lines towards the end
    /// of the code vector.
    pub fn shift(&mut self, n: usize)
        requires
            match old(self).spec_switch_on_term_loc() {
                Some(loc) => loc + n <= usize::MAX,
                None => true,
            },
        ensures
            *final(self) == old(self).spec_shifted(n),
    {
        match *self {
            OptArgIndexKey::NoIndex => {},
            OptArgIndexKey::Constant(arg_num, loc, c) => {
                *self = OptArgIndexKey::Constant(arg_num, loc + n, c);
            },
            OptArgIndexKey::List(arg_num, loc) => {
                *self = OptArgIndexKey::List(arg_num, loc + n);
            },
            OptArgIndexKey::Structure(arg_num, loc, n2, a) => {
                *self = OptArgIndexKey::Structure(arg_num, loc + n, n2, a);
            },
        }
    }
}

/// Per-clause skeleton entry: the clause's first-argument index key and the
/// position of its leading choice instruction (or of the clause body itself
/// when the clause is unindexed and leading).
#[derive(Clone, Copy, Debug, PartialEq, Eq, Structural)]
pub struct ClauseIndexInfo {
    pub opt_arg_index_key: OptArgIndexKey,
    pub clause_start: usize,
}

/// Summary of a skeleton consulted by the compiler driver.
#[derive(Clone, Copy, Debug, PartialEq, Eq, Structural)]
pub struct PredicateInfo {
    pub is_extensible: bool,
    pub is_dynamic: bool,
    pub is_multifile: bool,
    pub has_clauses: bool,
}

impl PredicateInfo {
    /// The summary used when no skeleton exists for a key.
    pub fn unknown() -> (r: PredicateInfo)
        ensures
            r == (PredicateInfo {
                is_extensible: false,
                is_dynamic: false,
                is_multifile: false,
                has_clauses: false,
            }),
    {
        PredicateInfo {
            is_extensible: false,
            is_dynamic: false,
            is_multifile: false,
            has_clauses: false,
        }
    }

    /// Whether new clauses of the predicate are added one at a time to the
    /// existing definition rather than recompiled as a whole.
    pub open spec fn spec_compile_incrementally(self) -> bool {
        self.is_dynamic && self.has_clauses
    }

    #[verifier::when_used_as_spec(spec_compile_incrementally)]
    pub fn compile_incrementally(self) -> (r: bool)
        ensures
            r == self.spec_compile_incrementally(),
    {
        self.is_dynamic && self.has_clauses
    }

    /// Whether a fresh definition in the current source must first retract
    /// the clauses that this source contributed earlier.
    pub open spec fn spec_must_retract_local_clauses(self) -> bool {
        self.is_extensible && self.has_clauses && !self.is_multifile
    }

    #[verifier::when_used_as_spec(spec_must_retract_local_clauses)]
    pub fn must_retract_local_clauses(self) -> (r: bool)
        ensures
            r == self.spec_must_retract_local_clauses(),
    {
        self.is_extensible && self.has_clauses && !self.is_multifile
    }
}

/// The mathematical view of a predicate skeleton.
pub struct PredicateSkeletonV {
    pub clauses: Seq<ClauseIndexInfo>,
    pub clause_clause_locs: Seq<usize>,
    pub clause_assert_margin: usize,
    pub is_dynamic: bool,
    pub is_multifile: bool,
}

/// Per-predicate metadata parallel to the code vector.
///
/// `clauses` lists the live clauses in definition order.
/// `clause_clause_locs` is the parallel list of `$clause/2` mirror start
/// positions.  `clause_assert_margin` is the boundary between
/// `asserta`-prepended clauses (below the margin) and `assertz`-appended
/// ones (at or above it).
#[derive(Debug)]
pub struct PredicateSkeleton {
    pub clauses: Vec<ClauseIndexInfo>,
    pub clause_clause_locs: slice_deque::SliceDeque<usize>,
    pub clause_assert_margin: usize,
    pub is_dynamic: bool,
    pub is_multifile: bool,
}

impl View for PredicateSkeleton {
    type V = PredicateSkeletonV;

    open spec fn view(&self) -> PredicateSkeletonV {
        PredicateSkeletonV {
            clauses: self.clauses@,
            clause_clause_locs: locs_values(&self.clause_clause_locs),
            clause_assert_margin: self.clause_assert_margin,
            is_dynamic: self.is_dynamic,
            is_multifile: self.is_multifile,
        }
    }
}

impl PredicateSkeleton {
    /// A fresh, empty, static skeleton.
    pub fn new() -> (r: PredicateSkeleton)
        ensures
            r@.clauses == Seq::<ClauseIndexInfo>::empty(),
            r@.clause_clause_locs == Seq::<usize>::empty(),
            r@.clause_assert_margin == 0,
            !r@.is_dynamic,
            !r@.is_multifile,
    {
        PredicateSkeleton {
            clauses: Vec::new(),
            clause_clause_locs: crate::locs::locs_new(),
            clause_assert_margin: 0,
            is_dynamic: false,
            is_multifile: false,
        }
    }

    /// The summary of this skeleton: an existing skeleton is extensible.
    pub fn predicate_info(&self) -> (r: PredicateInfo)
        ensures
            r == (PredicateInfo {
                is_extensible: true,
                is_dynamic: self@.is_dynamic,
                is_multifile: self@.is_multifile,
                has_clauses: self@.clauses.len() > 0,
            }),
    {
        PredicateInfo {
            is_extensible: true,
            is_dynamic: self.is_dynamic,
            is_multifile: self.is_multifile,
            has_clauses: self.clauses.len() > 0,
        }
    }
}

/// The start of the maximal run of clauses ending at `i - 1` that all carry
/// argument number `arg` (which is non-zero).
pub open spec fn spec_run_start(clauses: Seq<ClauseIndexInfo>, i: int, arg: usize) -> int
    decreases i,
{
    if i <= 0 {
        0
    } else if clauses[i - 1].opt_arg_index_key.spec_arg_num() == arg && arg != 0 {
        spec_run_start(clauses, i - 1, arg)
    } else {
        i
    }
}

/// The first index of the indexed sub-sequence containing the clause before
/// `target_pos`: scanning backwards from `target_pos - 1`, the first index
/// of the run over which the first-argument number is constant.  A clause
/// with argument number 0 (non-indexable) terminates a run.
pub open spec fn spec_lower_bound_of_target_clause(
    clauses: Seq<ClauseIndexInfo>,
    target_pos: int,
) -> int {
    if target_pos == 0 {
        0
    } else {
        let arg = clauses[target_pos - 1].opt_arg_index_key.spec_arg_num();
        if arg == 0 {
            target_pos - 1
        } else {
            spec_run_start(clauses, target_pos, arg)
        }
    }
}

/// Scans backwards from `target_pos - 1` while the first-argument key
/// number stays constant and non-zero; returns the first index in the run.
pub fn lower_bound_of_target_clause(skeleton: &PredicateSkeleton, target_pos: usize) -> (r: usize)
    requires
        target_pos <= skeleton@.clauses.len(),
    ensures
        r == spec_lower_bound_of_target_clause(skeleton@.clauses, target_pos as int),
        r <= target_pos,
{
    if target_pos == 0 {
        return 0;
    }
    let arg_num = skeleton.clauses[target_pos - 1].opt_arg_index_key.arg_num();
    if arg_num == 0 {
        return target_pos - 1;
    }
    let ghost clauses = skeleton@.clauses;
    let mut index = target_pos;
    while index > 0 && skeleton.clauses[index - 1].opt_arg_index_key.arg_num() == arg_num
        invariant
            0 <= index <= target_pos,
            target_pos <= clauses.len(),
            clauses == skeleton@.clauses,
            arg_num != 0,
            spec_run_start(clauses, target_pos as int, arg_num) == spec_run_start(
                clauses,
                index as int,
                arg_num,
            ),
        decreases index,
    {
        index = index - 1;
    }
    assert(spec_run_start(clauses, index as int, arg_num) == index);
    index
}

/// True iff removing the clause at `target_pos` would leave the indexed
/// sub-sequence before it and the sub-sequence starting at `target_pos + 1`
/// indexed on the same argument position, different from the removed
/// clause's own.
pub fn mergeable_indexed_subsequences(
    lower_bound: usize,
    target_pos: usize,
    skeleton: &PredicateSkeleton,
) -> (r: bool)
    requires
        lower_bound < skeleton@.clauses.len(),
        target_pos < skeleton@.clauses.len(),
    ensures
        r == spec_mergeable_indexed_subsequences(skeleton@.clauses, lower_bound as int,
            target_pos as int),
{
    let lower_bound_arg_num = skeleton.clauses[lower_bound].opt_arg_index_key.arg_num();
    let n = skeleton.clauses.len();
    if target_pos + 1 < n {
        let succ_arg_num = skeleton.clauses[target_pos + 1].opt_arg_index_key.arg_num();
        let target_arg_num = skeleton.clauses[target_pos].opt_arg_index_key.arg_num();
        return target_arg_num != succ_arg_num && lower_bound_arg_num == succ_arg_num;
    }
    false
}

/// Whether the sub-sequences on either side of `target_pos` can be merged
/// once the clause at `target_pos` is removed.
pub open spec fn spec_mergeable_indexed_subsequences(
    clauses: Seq<ClauseIndexInfo>,
    lower_bound: int,
    target_pos: int,
) -> bool {
    &&& target_pos + 1 < clauses.len()
    &&& clauses[target_pos].opt_arg_index_key.spec_arg_num() != clauses[target_pos
        + 1].opt_arg_index_key.spec_arg_num()
    &&& clauses[lower_bound].opt_arg_index_key.spec_arg_num() == clauses[target_pos
        + 1].opt_arg_index_key.spec_arg_num()
}

} // verus!
