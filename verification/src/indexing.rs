//! The indexing-table editor: merge, remove and re-point entries in
//! first-argument switch tables.
//!
//! A table entry's target is the absolute position of the choice
//! instruction guarding its clause, measured from the code vector origin,
//! so appends at the tail never invalidate older entries.  The variable
//! fall-through, by contrast, is a relative offset from the block, like
//! every chain link.  A list key dispatches like a structure under the
//! reserved `'.'/2` functor.

use vstd::prelude::*;
use vstd::pervasive::unreached;

use crate::chains::{inner_result, inner_terminates};
use crate::instructions::{
    cv, group_cv, AppendOrPrepend, ChoiceInstruction, IndexedChoiceInstruction, IndexingCode,
    IndexingCodePtr, IndexingCodeV, Line, LineV,
};
use crate::journal::{RetractionInfo, RetractionRecord};
use crate::skeleton::{ClauseIndexInfo, OptArgIndexKey};

verus! {

broadcast use group_cv;

/// The interned atom naming the list functor `'.'`, under which list keys
/// are dispatched as structures of arity 2.
pub const DOT_ATOM: u64 = 4;

/// The first position of the constants table holding key `k`.
pub open spec fn const_find(t: Seq<(u64, IndexingCodePtr)>, k: u64) -> Option<int>
    decreases t.len(),
{
    if t.len() == 0 {
        None
    } else if t[0].0 == k {
        Some(0)
    } else {
        match const_find(t.drop_first(), k) {
            Some(i) => Some(i + 1),
            None => None,
        }
    }
}

/// The first position of the structures table holding key `(n, a)`.
pub open spec fn struct_find(t: Seq<(u64, usize, IndexingCodePtr)>, n: u64, a: usize) -> Option<
    int,
>
    decreases t.len(),
{
    if t.len() == 0 {
        None
    } else if t[0].0 == n && t[0].1 == a {
        Some(0)
    } else {
        match struct_find(t.drop_first(), n, a) {
            Some(i) => Some(i + 1),
            None => None,
        }
    }
}

/// A found position indexes the matching entry, and nothing before it
/// matches; `None` means no entry matches.
pub proof fn lemma_const_find(t: Seq<(u64, IndexingCodePtr)>, k: u64)
    ensures
        match const_find(t, k) {
            Some(i) => 0 <= i < t.len() && t[i].0 == k && forall|j: int|
                0 <= j < i ==> t[j].0 != k,
            None => forall|j: int| 0 <= j < t.len() ==> t[j].0 != k,
        },
    decreases t.len(),
{
    if t.len() > 0 && t[0].0 != k {
        lemma_const_find(t.drop_first(), k);
        match const_find(t, k) {
            Some(i) => {
                assert(t.drop_first()[i - 1] == t[i]);
                assert forall|j: int| 0 <= j < i implies t[j].0 != k by {
                    if j >= 1 {
                        assert(t.drop_first()[j - 1] == t[j]);
                    }
                }
            },
            None => {
                assert forall|j: int| 0 <= j < t.len() implies t[j].0 != k by {
                    if j >= 1 {
                        assert(t.drop_first()[j - 1] == t[j]);
                    }
                }
            },
        }
    }
}

/// A found position indexes the matching entry, and nothing before it
/// matches; `None` means no entry matches.
pub proof fn lemma_struct_find(t: Seq<(u64, usize, IndexingCodePtr)>, n: u64, a: usize)
    ensures
        match struct_find(t, n, a) {
            Some(i) => 0 <= i < t.len() && t[i].0 == n && t[i].1 == a && forall|j: int|
                0 <= j < i ==> !(t[j].0 == n && t[j].1 == a),
            None => forall|j: int| 0 <= j < t.len() ==> !(t[j].0 == n && t[j].1 == a),
        },
    decreases t.len(),
{
    if t.len() > 0 && !(t[0].0 == n && t[0].1 == a) {
        lemma_struct_find(t.drop_first(), n, a);
        match struct_find(t, n, a) {
            Some(i) => {
                assert(t.drop_first()[i - 1] == t[i]);
                assert forall|j: int| 0 <= j < i implies !(t[j].0 == n && t[j].1 == a) by {
                    if j >= 1 {
                        assert(t.drop_first()[j - 1] == t[j]);
                    }
                }
            },
            None => {
                assert forall|j: int| 0 <= j < t.len() implies !(t[j].0 == n && t[j].1 == a) by {
                    if j >= 1 {
                        assert(t.drop_first()[j - 1] == t[j]);
                    }
                }
            },
        }
    }
}

/// The entry target for a clause guarded at offset `off` from the switch:
/// dynamic blocks take dynamic targets.
pub open spec fn mk_entry(dynamic: bool, off: usize) -> IndexingCodePtr {
    if dynamic {
        IndexingCodePtr::DynamicExternal(off)
    } else {
        IndexingCodePtr::External(off)
    }
}

/// An indexed-choice run extended with the alternative at `off`, at the
/// back for `Append` or at the front for `Prepend`, with the try/retry/
/// trust tags retagged so the first alternative tries, the middle ones
/// retry and the last trusts.
pub open spec fn bucket_merged(
    b: Seq<IndexedChoiceInstruction>,
    off: usize,
    append_or_prepend: AppendOrPrepend,
) -> Seq<IndexedChoiceInstruction> {
    if b.len() == 0 {
        seq![IndexedChoiceInstruction::Try(off)]
    } else if append_or_prepend is Append {
        b.update(
            b.len() - 1,
            IndexedChoiceInstruction::Retry(b.last().spec_offset()),
        ).push(IndexedChoiceInstruction::Trust(off))
    } else {
        seq![IndexedChoiceInstruction::Try(off)] + b.update(
            0,
            IndexedChoiceInstruction::Retry(b[0].spec_offset()),
        )
    }
}

/// The run left when the alternative at `off` leaves the run at `pos`,
/// with the end tags restored.
pub open spec fn bucket_removed(b: Seq<IndexedChoiceInstruction>, pos: int) -> Seq<
    IndexedChoiceInstruction,
> {
    let shorter = b.remove(pos);
    if shorter.len() == 0 {
        shorter
    } else {
        let fronted = shorter.update(0, IndexedChoiceInstruction::Try(shorter[0].spec_offset()));
        fronted.update(
            fronted.len() - 1,
            IndexedChoiceInstruction::Trust(fronted.last().spec_offset()),
        )
    }
}

/// The first position of the run whose alternative dispatches to `off`.
pub open spec fn bucket_find(b: Seq<IndexedChoiceInstruction>, off: usize) -> Option<int>
    decreases b.len(),
{
    if b.len() == 0 {
        None
    } else if b[0].spec_offset() == off {
        Some(0)
    } else {
        match bucket_find(b.drop_first(), off) {
            Some(i) => Some(i + 1),
            None => None,
        }
    }
}

/// A found position indexes the matching alternative.
pub proof fn lemma_bucket_find(b: Seq<IndexedChoiceInstruction>, off: usize)
    ensures
        match bucket_find(b, off) {
            Some(i) => 0 <= i < b.len() && b[i].spec_offset() == off && forall|j: int|
                0 <= j < i ==> b[j].spec_offset() != off,
            None => forall|j: int| 0 <= j < b.len() ==> b[j].spec_offset() != off,
        },
    decreases b.len(),
{
    if b.len() > 0 && b[0].spec_offset() != off {
        lemma_bucket_find(b.drop_first(), off);
        match bucket_find(b, off) {
            Some(i) => {
                assert(b.drop_first()[i - 1] == b[i]);
                assert forall|j: int| 0 <= j < i implies b[j].spec_offset() != off by {
                    if j >= 1 {
                        assert(b.drop_first()[j - 1] == b[j]);
                    }
                }
            },
            None => {
                assert forall|j: int| 0 <= j < b.len() implies b[j].spec_offset() != off by {
                    if j >= 1 {
                        assert(b.drop_first()[j - 1] == b[j]);
                    }
                }
            },
        }
    }
}


/// Finds key `k` in the constants table.
fn const_pos(t: &Vec<(u64, IndexingCodePtr)>, k: u64) -> (r: Option<usize>)
    ensures
        match r {
            Some(i) => const_find(t@, k) == Some(i as int),
            None => const_find(t@, k) is None,
        },
{
    proof {
        lemma_const_find(t@, k);
    }
    let mut idx: usize = 0;
    while idx < t.len()
        invariant
            idx <= t@.len(),
            forall|j: int| 0 <= j < idx ==> t@[j].0 != k,
        decreases t@.len() - idx,
    {
        if t[idx].0 == k {
            proof {
                lemma_const_find(t@, k);
            }
            return Some(idx);
        }
        idx = idx + 1;
    }
    None
}

/// Finds key `(n, a)` in the structures table.
fn struct_pos(t: &Vec<(u64, usize, IndexingCodePtr)>, n: u64, a: usize) -> (r: Option<usize>)
    ensures
        match r {
            Some(i) => struct_find(t@, n, a) == Some(i as int),
            None => struct_find(t@, n, a) is None,
        },
{
    proof {
        lemma_struct_find(t@, n, a);
    }
    let mut idx: usize = 0;
    while idx < t.len()
        invariant
            idx <= t@.len(),
            forall|j: int| 0 <= j < idx ==> !(t@[j].0 == n && t@[j].1 == a),
        decreases t@.len() - idx,
    {
        if t[idx].0 == n && t[idx].1 == a {
            proof {
                lemma_struct_find(t@, n, a);
            }
            return Some(idx);
        }
        idx = idx + 1;
    }
    None
}

/// Finds the alternative dispatching to `off` in an indexed-choice run.
fn bucket_pos(b: &Vec<IndexedChoiceInstruction>, off: usize) -> (r: Option<usize>)
    ensures
        match r {
            Some(i) => bucket_find(b@, off) == Some(i as int),
            None => bucket_find(b@, off) is None,
        },
{
    proof {
        lemma_bucket_find(b@, off);
    }
    let mut idx: usize = 0;
    while idx < b.len()
        invariant
            idx <= b@.len(),
            forall|j: int| 0 <= j < idx ==> b@[j].spec_offset() != off,
        decreases b@.len() - idx,
    {
        if b[idx].offset() == off {
            proof {
                lemma_bucket_find(b@, off);
            }
            return Some(idx);
        }
        idx = idx + 1;
    }
    None
}

/// The discriminant a key dispatches under in the structures table: its
/// (name, arity) pair, with a list key under the reserved `'.'/2`.
pub open spec fn struct_key(key: OptArgIndexKey) -> (u64, usize) {
    match key {
        OptArgIndexKey::Structure(_, _, n, a) => (n, a),
        _ => (DOT_ATOM, 2),
    }
}

/// Whether `merge_clause_index` accepts the block for this key: an
/// existing internal entry for the key must point at a run of the block.
pub open spec fn merge_applicable(icv: IndexingCodeV, key: OptArgIndexKey) -> bool {
    match key {
        OptArgIndexKey::NoIndex => false,
        OptArgIndexKey::Constant(_, _, c) => match const_find(icv.constants, c) {
            Some(i) => match icv.constants[i].1 {
                IndexingCodePtr::Internal(b) => b < icv.buckets.len(),
                _ => true,
            },
            None => true,
        },
        _ => {
            let (n, a) = struct_key(key);
            match struct_find(icv.structures, n, a) {
                Some(i) => match icv.structures[i].2 {
                    IndexingCodePtr::Internal(b) => b < icv.buckets.len(),
                    _ => true,
                },
                None => true,
            }
        },
    }
}

/// The block after merging an entry for `key` whose clause is guarded at
/// the absolute position `clause_loc`: a fresh key gains a direct entry at
/// the demanded end of the table; a key already present has its entry
/// grown into (or extended as) an internal indexed-choice run.
pub open spec fn merge_spec(
    icv: IndexingCodeV,
    key: OptArgIndexKey,
    clause_loc: usize,
    append_or_prepend: AppendOrPrepend,
) -> IndexingCodeV {
    let dynamic = icv.var_ptr is DynamicExternal;
    match key {
        OptArgIndexKey::Constant(_, _, c) => match const_find(icv.constants, c) {
            None => IndexingCodeV {
                constants: if append_or_prepend is Append {
                    icv.constants.push((c, mk_entry(dynamic, clause_loc)))
                } else {
                    seq![(c, mk_entry(dynamic, clause_loc))] + icv.constants
                },
                ..icv
            },
            Some(i) => match icv.constants[i].1 {
                IndexingCodePtr::Internal(b) => IndexingCodeV {
                    buckets: icv.buckets.update(
                        b as int,
                        bucket_merged(icv.buckets[b as int], clause_loc, append_or_prepend),
                    ),
                    ..icv
                },
                IndexingCodePtr::External(o0) => IndexingCodeV {
                    constants: icv.constants.update(
                        i,
                        (c, IndexingCodePtr::Internal(icv.buckets.len() as usize)),
                    ),
                    buckets: icv.buckets.push(
                        bucket_merged(
                            seq![IndexedChoiceInstruction::Try(o0)],
                            clause_loc,
                            append_or_prepend,
                        ),
                    ),
                    ..icv
                },
                IndexingCodePtr::DynamicExternal(o0) => IndexingCodeV {
                    constants: icv.constants.update(
                        i,
                        (c, IndexingCodePtr::Internal(icv.buckets.len() as usize)),
                    ),
                    buckets: icv.buckets.push(
                        bucket_merged(
                            seq![IndexedChoiceInstruction::Try(o0)],
                            clause_loc,
                            append_or_prepend,
                        ),
                    ),
                    ..icv
                },
            },
        },
        _ => {
            let (n, a) = struct_key(key);
            match struct_find(icv.structures, n, a) {
                None => IndexingCodeV {
                    structures: if append_or_prepend is Append {
                        icv.structures.push((n, a, mk_entry(dynamic, clause_loc)))
                    } else {
                        seq![(n, a, mk_entry(dynamic, clause_loc))] + icv.structures
                    },
                    ..icv
                },
                Some(i) => match icv.structures[i].2 {
                    IndexingCodePtr::Internal(b) => IndexingCodeV {
                        buckets: icv.buckets.update(
                            b as int,
                            bucket_merged(icv.buckets[b as int], clause_loc, append_or_prepend),
                        ),
                        ..icv
                    },
                    IndexingCodePtr::External(o0) => IndexingCodeV {
                        structures: icv.structures.update(
                            i,
                            (n, a, IndexingCodePtr::Internal(icv.buckets.len() as usize)),
                        ),
                        buckets: icv.buckets.push(
                            bucket_merged(
                                seq![IndexedChoiceInstruction::Try(o0)],
                                clause_loc,
                                append_or_prepend,
                            ),
                        ),
                        ..icv
                    },
                    IndexingCodePtr::DynamicExternal(o0) => IndexingCodeV {
                        structures: icv.structures.update(
                            i,
                            (n, a, IndexingCodePtr::Internal(icv.buckets.len() as usize)),
                        ),
                        buckets: icv.buckets.push(
                            bucket_merged(
                                seq![IndexedChoiceInstruction::Try(o0)],
                                clause_loc,
                                append_or_prepend,
                            ),
                        ),
                        ..icv
                    },
                },
            }
        },
    }
}

/// Extends an indexed-choice run in place per `bucket_merged`.
fn grow_bucket(b: &mut Vec<IndexedChoiceInstruction>, off: usize, append_or_prepend: AppendOrPrepend)
    ensures
        final(b)@ == bucket_merged(old(b)@, off, append_or_prepend),
{
    let n = b.len();
    if n == 0 {
        b.push(IndexedChoiceInstruction::Try(off));
        proof {
            assert(b@ =~= bucket_merged(old(b)@, off, append_or_prepend));
        }
        return ;
    }
    match append_or_prepend {
        AppendOrPrepend::Append => {
            let last_off = b[n - 1].offset();
            b[n - 1] = IndexedChoiceInstruction::Retry(last_off);
            b.push(IndexedChoiceInstruction::Trust(off));
            proof {
                assert(b@ =~= bucket_merged(old(b)@, off, append_or_prepend));
            }
        },
        AppendOrPrepend::Prepend => {
            let first_off = b[0].offset();
            b[0] = IndexedChoiceInstruction::Retry(first_off);
            b.insert(0, IndexedChoiceInstruction::Try(off));
            proof {
                assert(b@ =~= bucket_merged(old(b)@, off, append_or_prepend));
            }
        },
    }
}

/// Inserts an entry for the discriminant of `key` into the constant or
/// structure sub-table of the indexing block at `index_loc`, preserving
/// the insertion order demanded by `Append`/`Prepend`.  `clause_loc` is
/// the absolute position of the choice instruction guarding the clause.
pub fn merge_clause_index(
    code: &mut Vec<Line>,
    index_loc: usize,
    key: OptArgIndexKey,
    clause_loc: usize,
    append_or_prepend: AppendOrPrepend,
)
    requires
        index_loc < old(code)@.len(),
        cv(old(code)@)[index_loc as int] is IndexingCode,
        merge_applicable(cv(old(code)@)[index_loc as int]->IndexingCode_0, key),
    ensures
        cv(final(code)@) == cv(old(code)@).update(
            index_loc as int,
            LineV::IndexingCode(
                merge_spec(
                    cv(old(code)@)[index_loc as int]->IndexingCode_0,
                    key,
                    clause_loc,
                    append_or_prepend,
                ),
            ),
        ),
        final(code)@.len() == old(code)@.len(),
{
    let ghost oldv = cv(old(code)@);
    let ghost icv0 = oldv[index_loc as int]->IndexingCode_0;
    let line = crate::chains::take_line(code, index_loc);
    let mut ic: IndexingCode = match line {
        Line::IndexingCode(ic) => ic,
        _ => unreached(),
    };
    proof {
        assert(ic@ == icv0);
    }
    let dynamic = match ic.var_ptr {
        IndexingCodePtr::DynamicExternal(_) => true,
        _ => false,
    };
    let entry = if dynamic {
        IndexingCodePtr::DynamicExternal(clause_loc)
    } else {
        IndexingCodePtr::External(clause_loc)
    };
    match key {
        OptArgIndexKey::Constant(_, _, c) => {
            match const_pos(&ic.constants, c) {
                None => {
                    match append_or_prepend {
                        AppendOrPrepend::Append => {
                            ic.constants.push((c, entry));
                        },
                        AppendOrPrepend::Prepend => {
                            ic.constants.insert(0, (c, entry));
                            proof {
                                assert(ic.constants@ =~= seq![(c, mk_entry(dynamic, clause_loc))]
                                    + icv0.constants);
                            }
                        },
                    }
                },
                Some(i) => {
                    proof {
                        lemma_const_find(ic.constants@, c);
                    }
                    let cur = ic.constants[i].1;
                    match cur {
                        IndexingCodePtr::Internal(b) => {
                            proof {
                                assert(icv0.constants[i as int].1 == IndexingCodePtr::Internal(b));
                                assert(b < icv0.buckets.len());
                            }
                            let mut tmp: Vec<IndexedChoiceInstruction> = Vec::new();
                            core::mem::swap(&mut tmp, &mut ic.buckets[b]);
                            grow_bucket(&mut tmp, clause_loc, append_or_prepend);
                            core::mem::swap(&mut tmp, &mut ic.buckets[b]);
                            proof {
                                assert(ic.buckets@.map_values(
                                    |bb: Vec<IndexedChoiceInstruction>| bb@,
                                ) =~= icv0.buckets.update(
                                    b as int,
                                    bucket_merged(
                                        icv0.buckets[b as int],
                                        clause_loc,
                                        append_or_prepend,
                                    ),
                                ));
                            }
                        },
                        _ => {
                            let o0 = match cur {
                                IndexingCodePtr::External(o0) => o0,
                                IndexingCodePtr::DynamicExternal(o0) => o0,
                                _ => unreached(),
                            };
                            let b = ic.buckets.len();
                            ic.constants[i] = (c, IndexingCodePtr::Internal(b));
                            let mut fresh: Vec<IndexedChoiceInstruction> = Vec::new();
                            fresh.push(IndexedChoiceInstruction::Try(o0));
                            grow_bucket(&mut fresh, clause_loc, append_or_prepend);
                            ic.buckets.push(fresh);
                            proof {
                                assert(ic.buckets@.map_values(
                                    |bb: Vec<IndexedChoiceInstruction>| bb@,
                                ) =~= icv0.buckets.push(
                                    bucket_merged(
                                        seq![IndexedChoiceInstruction::Try(o0)],
                                        clause_loc,
                                        append_or_prepend,
                                    ),
                                ));
                            }
                        },
                    }
                },
            }
        },
        _ => {
            let (n, a): (u64, usize) = match key {
                OptArgIndexKey::Structure(_, _, n, a) => (n, a),
                _ => (DOT_ATOM, 2),
            };
            match struct_pos(&ic.structures, n, a) {
                None => {
                    match append_or_prepend {
                        AppendOrPrepend::Append => {
                            ic.structures.push((n, a, entry));
                        },
                        AppendOrPrepend::Prepend => {
                            ic.structures.insert(0, (n, a, entry));
                            proof {
                                assert(ic.structures@ =~= seq![
                                    (n, a, mk_entry(dynamic, clause_loc)),
                                ] + icv0.structures);
                            }
                        },
                    }
                },
                Some(i) => {
                    proof {
                        lemma_struct_find(ic.structures@, n, a);
                    }
                    let cur = ic.structures[i].2;
                    match cur {
                        IndexingCodePtr::Internal(b) => {
                            proof {
                                assert(b < ic.buckets@.len());
                            }
                            let mut tmp: Vec<IndexedChoiceInstruction> = Vec::new();
                            core::mem::swap(&mut tmp, &mut ic.buckets[b]);
                            proof {
                                assert(b < ic.buckets@.len());
                            }
                            grow_bucket(&mut tmp, clause_loc, append_or_prepend);
                            core::mem::swap(&mut tmp, &mut ic.buckets[b]);
                            proof {
                                assert(ic.buckets@.map_values(
                                    |bb: Vec<IndexedChoiceInstruction>| bb@,
                                ) =~= icv0.buckets.update(
                                    b as int,
                                    bucket_merged(
                                        icv0.buckets[b as int],
                                        clause_loc,
                                        append_or_prepend,
                                    ),
                                ));
                            }
                        },
                        _ => {
                            let o0 = match cur {
                                IndexingCodePtr::External(o0) => o0,
                                IndexingCodePtr::DynamicExternal(o0) => o0,
                                _ => unreached(),
                            };
                            let b = ic.buckets.len();
                            ic.structures[i] = (n, a, IndexingCodePtr::Internal(b));
                            let mut fresh: Vec<IndexedChoiceInstruction> = Vec::new();
                            fresh.push(IndexedChoiceInstruction::Try(o0));
                            grow_bucket(&mut fresh, clause_loc, append_or_prepend);
                            ic.buckets.push(fresh);
                            proof {
                                assert(ic.buckets@.map_values(
                                    |bb: Vec<IndexedChoiceInstruction>| bb@,
                                ) =~= icv0.buckets.push(
                                    bucket_merged(
                                        seq![IndexedChoiceInstruction::Try(o0)],
                                        clause_loc,
                                        append_or_prepend,
                                    ),
                                ));
                            }
                        },
                    }
                },
            }
        },
    }
    code[index_loc] = Line::IndexingCode(ic);
    proof {
        assert(cv(code@) =~= oldv.update(
            index_loc as int,
            LineV::IndexingCode(merge_spec(icv0, key, clause_loc, append_or_prepend)),
        ));
    }
}


/// Whether `remove_index` accepts the block for this key: an internal
/// entry must point at a run of the block.
pub open spec fn remove_applicable(icv: IndexingCodeV, key: OptArgIndexKey) -> bool {
    match key {
        OptArgIndexKey::NoIndex => true,
        OptArgIndexKey::Constant(_, _, c) => match const_find(icv.constants, c) {
            Some(i) => match icv.constants[i].1 {
                IndexingCodePtr::Internal(b) => b < icv.buckets.len(),
                _ => true,
            },
            None => true,
        },
        _ => {
            let (n, a) = struct_key(key);
            match struct_find(icv.structures, n, a) {
                Some(i) => match icv.structures[i].2 {
                    IndexingCodePtr::Internal(b) => b < icv.buckets.len(),
                    _ => true,
                },
                None => true,
            }
        },
    }
}

/// The entry left for a key after the alternative guarded at `clause_loc`
/// leaves its indexed-choice run: the shrunk run, a direct entry when one
/// alternative remains, or nothing.
pub open spec fn shrunk_entry(
    icv: IndexingCodeV,
    b: usize,
    clause_loc: usize,
) -> Option<IndexingCodePtr> {
    match bucket_find(icv.buckets[b as int], clause_loc) {
        None => Some(IndexingCodePtr::Internal(b)),
        Some(p) => {
            let left = bucket_removed(icv.buckets[b as int], p);
            if left.len() == 0 {
                None
            } else if left.len() == 1 {
                Some(mk_entry(icv.var_ptr is DynamicExternal, left[0].spec_offset()))
            } else {
                Some(IndexingCodePtr::Internal(b))
            }
        },
    }
}

/// The block after deleting the entry whose target is the clause guarded
/// at the absolute position `clause_loc`, under `key`.  A direct entry is
/// deleted outright; an alternative leaves its run, and a run left with a
/// single alternative collapses back into a direct entry.
pub open spec fn remove_spec(icv: IndexingCodeV, key: OptArgIndexKey, clause_loc: usize) -> IndexingCodeV {
    match key {
        OptArgIndexKey::NoIndex => icv,
        OptArgIndexKey::Constant(_, _, c) => match const_find(icv.constants, c) {
            None => icv,
            Some(i) => match icv.constants[i].1 {
                IndexingCodePtr::External(o) => if o == clause_loc {
                    IndexingCodeV { constants: icv.constants.remove(i), ..icv }
                } else {
                    icv
                },
                IndexingCodePtr::DynamicExternal(o) => if o == clause_loc {
                    IndexingCodeV { constants: icv.constants.remove(i), ..icv }
                } else {
                    icv
                },
                IndexingCodePtr::Internal(b) => {
                    let bucket2 = match bucket_find(icv.buckets[b as int], clause_loc) {
                        Some(p) => bucket_removed(icv.buckets[b as int], p),
                        None => icv.buckets[b as int],
                    };
                    let icv2 = IndexingCodeV {
                        buckets: icv.buckets.update(b as int, bucket2),
                        ..icv
                    };
                    match shrunk_entry(icv, b, clause_loc) {
                        None => IndexingCodeV { constants: icv2.constants.remove(i), ..icv2 },
                        Some(e) => IndexingCodeV {
                            constants: icv2.constants.update(i, (c, e)),
                            ..icv2
                        },
                    }
                },
            },
        },
        _ => {
            let (n, a) = struct_key(key);
            match struct_find(icv.structures, n, a) {
                None => icv,
                Some(i) => match icv.structures[i].2 {
                    IndexingCodePtr::External(o) => if o == clause_loc {
                        IndexingCodeV { structures: icv.structures.remove(i), ..icv }
                    } else {
                        icv
                    },
                    IndexingCodePtr::DynamicExternal(o) => if o == clause_loc {
                        IndexingCodeV { structures: icv.structures.remove(i), ..icv }
                    } else {
                        icv
                    },
                    IndexingCodePtr::Internal(b) => {
                        let bucket2 = match bucket_find(icv.buckets[b as int], clause_loc) {
                            Some(p) => bucket_removed(icv.buckets[b as int], p),
                            None => icv.buckets[b as int],
                        };
                        let icv2 = IndexingCodeV {
                            buckets: icv.buckets.update(b as int, bucket2),
                            ..icv
                        };
                        match shrunk_entry(icv, b, clause_loc) {
                            None => IndexingCodeV {
                                structures: icv2.structures.remove(i),
                                ..icv2
                            },
                            Some(e) => IndexingCodeV {
                                structures: icv2.structures.update(i, (n, a, e)),
                                ..icv2
                            },
                        }
                    },
                },
            }
        },
    }
}

/// Shrinks an indexed-choice run in place per `bucket_removed`.
fn shrink_bucket(b: &mut Vec<IndexedChoiceInstruction>, pos: usize)
    requires
        pos < old(b)@.len(),
    ensures
        final(b)@ == bucket_removed(old(b)@, pos as int),
{
    b.remove(pos);
    let n = b.len();
    if n > 0 {
        let first_off = b[0].offset();
        b[0] = IndexedChoiceInstruction::Try(first_off);
        let last_off = b[n - 1].offset();
        b[n - 1] = IndexedChoiceInstruction::Trust(last_off);
        proof {
            assert(b@ =~= bucket_removed(old(b)@, pos as int));
        }
    } else {
        proof {
            assert(b@ =~= bucket_removed(old(b)@, pos as int));
        }
    }
}

/// Deletes from the indexing block at `index_loc` the entry (or run
/// alternative) whose target is the clause guarded at the absolute
/// position `clause_loc`, under the discriminant of `key`.
pub fn remove_index(
    code: &mut Vec<Line>,
    index_loc: usize,
    key: OptArgIndexKey,
    clause_loc: usize,
)
    requires
        index_loc < old(code)@.len(),
        cv(old(code)@)[index_loc as int] is IndexingCode,
        remove_applicable(cv(old(code)@)[index_loc as int]->IndexingCode_0, key),
    ensures
        cv(final(code)@) == cv(old(code)@).update(
            index_loc as int,
            LineV::IndexingCode(
                remove_spec(cv(old(code)@)[index_loc as int]->IndexingCode_0, key, clause_loc),
            ),
        ),
        final(code)@.len() == old(code)@.len(),
{
    let ghost oldv = cv(old(code)@);
    let ghost icv0 = oldv[index_loc as int]->IndexingCode_0;
    let line = crate::chains::take_line(code, index_loc);
    let mut ic: IndexingCode = match line {
        Line::IndexingCode(ic) => ic,
        _ => unreached(),
    };
    proof {
        assert(ic@ == icv0);
    }
    let dynamic = match ic.var_ptr {
        IndexingCodePtr::DynamicExternal(_) => true,
        _ => false,
    };
    match key {
        OptArgIndexKey::NoIndex => {},
        OptArgIndexKey::Constant(_, _, c) => {
            match const_pos(&ic.constants, c) {
                None => {},
                Some(i) => {
                    proof {
                        lemma_const_find(ic.constants@, c);
                    }
                    let cur = ic.constants[i].1;
                    match cur {
                        IndexingCodePtr::External(o) => {
                            if o == clause_loc {
                                ic.constants.remove(i);
                            }
                        },
                        IndexingCodePtr::DynamicExternal(o) => {
                            if o == clause_loc {
                                ic.constants.remove(i);
                            }
                        },
                        IndexingCodePtr::Internal(b) => {
                            let mut tmp: Vec<IndexedChoiceInstruction> = Vec::new();
                            core::mem::swap(&mut tmp, &mut ic.buckets[b]);
                            match bucket_pos(&tmp, clause_loc) {
                                None => {
                                    core::mem::swap(&mut tmp, &mut ic.buckets[b]);
                                    proof {
                                        assert(ic.buckets@.map_values(
                                            |bb: Vec<IndexedChoiceInstruction>| bb@,
                                        ) =~= icv0.buckets.update(
                                            b as int,
                                            icv0.buckets[b as int],
                                        ));
                                    }
                                },
                                Some(p) => {
                                    proof {
                                        lemma_bucket_find(tmp@, clause_loc);
                                    }
                                    shrink_bucket(&mut tmp, p);
                                    let left = tmp.len();
                                    let first = if left == 1 {
                                        Some(tmp[0].offset())
                                    } else {
                                        None
                                    };
                                    core::mem::swap(&mut tmp, &mut ic.buckets[b]);
                                    proof {
                                        assert(ic.buckets@.map_values(
                                            |bb: Vec<IndexedChoiceInstruction>| bb@,
                                        ) =~= icv0.buckets.update(
                                            b as int,
                                            bucket_removed(
                                                icv0.buckets[b as int],
                                                bucket_find(
                                                    icv0.buckets[b as int],
                                                    clause_loc,
                                                ).unwrap(),
                                            ),
                                        ));
                                    }
                                    if left == 0 {
                                        ic.constants.remove(i);
                                    } else if left == 1 {
                                        let e = if dynamic {
                                            IndexingCodePtr::DynamicExternal(first.unwrap())
                                        } else {
                                            IndexingCodePtr::External(first.unwrap())
                                        };
                                        ic.constants[i] = (c, e);
                                    }
                                },
                            }
                        },
                    }
                },
            }
        },
        _ => {
            let (n, a): (u64, usize) = match key {
                OptArgIndexKey::Structure(_, _, n, a) => (n, a),
                _ => (DOT_ATOM, 2),
            };
            match struct_pos(&ic.structures, n, a) {
                None => {},
                Some(i) => {
                    proof {
                        lemma_struct_find(ic.structures@, n, a);
                    }
                    let cur = ic.structures[i].2;
                    match cur {
                        IndexingCodePtr::External(o) => {
                            if o == clause_loc {
                                ic.structures.remove(i);
                            }
                        },
                        IndexingCodePtr::DynamicExternal(o) => {
                            if o == clause_loc {
                                ic.structures.remove(i);
                            }
                        },
                        IndexingCodePtr::Internal(b) => {
                            let mut tmp: Vec<IndexedChoiceInstruction> = Vec::new();
                            core::mem::swap(&mut tmp, &mut ic.buckets[b]);
                            match bucket_pos(&tmp, clause_loc) {
                                None => {
                                    core::mem::swap(&mut tmp, &mut ic.buckets[b]);
                                    proof {
                                        assert(ic.buckets@.map_values(
                                            |bb: Vec<IndexedChoiceInstruction>| bb@,
                                        ) =~= icv0.buckets.update(
                                            b as int,
                                            icv0.buckets[b as int],
                                        ));
                                    }
                                },
                                Some(p) => {
                                    proof {
                                        lemma_bucket_find(tmp@, clause_loc);
                                    }
                                    shrink_bucket(&mut tmp, p);
                                    let left = tmp.len();
                                    let first = if left == 1 {
                                        Some(tmp[0].offset())
                                    } else {
                                        None
                                    };
                                    core::mem::swap(&mut tmp, &mut ic.buckets[b]);
                                    proof {
                                        assert(ic.buckets@.map_values(
                                            |bb: Vec<IndexedChoiceInstruction>| bb@,
                                        ) =~= icv0.buckets.update(
                                            b as int,
                                            bucket_removed(
                                                icv0.buckets[b as int],
                                                bucket_find(
                                                    icv0.buckets[b as int],
                                                    clause_loc,
                                                ).unwrap(),
                                            ),
                                        ));
                                    }
                                    if left == 0 {
                                        ic.structures.remove(i);
                                    } else if left == 1 {
                                        let e = if dynamic {
                                            IndexingCodePtr::DynamicExternal(first.unwrap())
                                        } else {
                                            IndexingCodePtr::External(first.unwrap())
                                        };
                                        ic.structures[i] = (n, a, e);
                                    }
                                },
                            }
                        },
                    }
                },
            }
        },
    }
    code[index_loc] = Line::IndexingCode(ic);
    proof {
        assert(cv(code@) =~~= oldv.update(
            index_loc as int,
            LineV::IndexingCode(remove_spec(icv0, key, clause_loc)),
        ));
    }
}

/// Whether the line at `index_loc` is an indexing block whose variable
/// fall-through can be re-pointed.
pub open spec fn switch_var_applicable(code: Seq<LineV>, index_loc: usize) -> bool {
    &&& (index_loc as int) < code.len()
    &&& code[index_loc as int] matches LineV::IndexingCode(ic) && !(ic.var_ptr is Internal)
}

/// The variable fall-through of the indexing block at `index_loc`.
pub open spec fn switch_var(code: Seq<LineV>, index_loc: usize) -> IndexingCodePtr {
    code[index_loc as int]->IndexingCode_0.var_ptr
}

/// The block with its variable fall-through re-pointed `offset` lines past
/// the block, keeping its static or dynamic form.
pub open spec fn switch_var_set(icv: IndexingCodeV, offset: usize) -> IndexingCodeV {
    IndexingCodeV {
        var_ptr: match icv.var_ptr {
            IndexingCodePtr::DynamicExternal(_) => IndexingCodePtr::DynamicExternal(offset),
            _ => IndexingCodePtr::External(offset),
        },
        ..icv
    }
}

/// Replaces the variable fall-through of the `SwitchOnTerm` at `index_loc`
/// with `offset` (measured from the block), journalling the old target.
pub fn set_switch_var_offset(
    code: &mut Vec<Line>,
    index_loc: usize,
    offset: usize,
    retraction_info: &mut RetractionInfo,
)
    requires
        switch_var_applicable(cv(old(code)@), index_loc),
    ensures
        cv(final(code)@) == cv(old(code)@).update(
            index_loc as int,
            LineV::IndexingCode(
                switch_var_set(cv(old(code)@)[index_loc as int]->IndexingCode_0, offset),
            ),
        ),
        final(code)@.len() == old(code)@.len(),
        final(retraction_info).records@ == old(retraction_info).records@.push(
            RetractionRecord::ReplacedSwitchOnTermVarIndex(
                index_loc,
                switch_var(cv(old(code)@), index_loc),
            ),
        ),
        final(retraction_info).orig_code_extent == old(retraction_info).orig_code_extent,
{
    let ghost oldv = cv(old(code)@);
    let ghost icv0 = oldv[index_loc as int]->IndexingCode_0;
    let line = crate::chains::take_line(code, index_loc);
    let mut ic: IndexingCode = match line {
        Line::IndexingCode(ic) => ic,
        _ => unreached(),
    };
    proof {
        assert(ic@ == icv0);
    }
    let old_v = ic.var_ptr;
    match old_v {
        IndexingCodePtr::DynamicExternal(_) => {
            ic.var_ptr = IndexingCodePtr::DynamicExternal(offset);
        },
        IndexingCodePtr::External(_) => {
            ic.var_ptr = IndexingCodePtr::External(offset);
        },
        IndexingCodePtr::Internal(_) => {
            unreached()
        },
    }
    retraction_info.push_record(
        RetractionRecord::ReplacedSwitchOnTermVarIndex(index_loc, old_v),
    );
    code[index_loc] = Line::IndexingCode(ic);
    proof {
        assert(cv(code@) =~= oldv.update(
            index_loc as int,
            LineV::IndexingCode(switch_var_set(icv0, offset)),
        ));
    }
}

/// Whether the variable fall-through of the block at `index_loc` already
/// lands on a choice instruction that can dispatch further.
pub open spec fn var_lands_on_choice(code: Seq<LineV>, index_loc: usize) -> bool {
    let v = match switch_var(code, index_loc) {
        IndexingCodePtr::External(v) => v,
        IndexingCodePtr::DynamicExternal(v) => v,
        IndexingCodePtr::Internal(v) => v,
    };
    match code[index_loc + v] {
        LineV::Choice(ChoiceInstruction::TryMeElse(_)) => true,
        LineV::Choice(ChoiceInstruction::DynamicElse(_, _, _)) => true,
        LineV::Choice(ChoiceInstruction::DynamicInternalElse(_, _, _)) => true,
        _ => false,
    }
}

/// Like `set_switch_var_offset`, but a no-op when the line the fall-through
/// points at is already such a choice instruction — this avoids shadowing
/// an existing internal dispatch.
pub fn set_switch_var_offset_to_choice_instr(
    code: &mut Vec<Line>,
    index_loc: usize,
    offset: usize,
    retraction_info: &mut RetractionInfo,
)
    requires
        switch_var_applicable(cv(old(code)@), index_loc),
        ({
            let v = match switch_var(cv(old(code)@), index_loc) {
                IndexingCodePtr::External(v) => v,
                IndexingCodePtr::DynamicExternal(v) => v,
                IndexingCodePtr::Internal(v) => v,
            };
            index_loc + v < old(code)@.len()
        }),
    ensures
        var_lands_on_choice(cv(old(code)@), index_loc) ==> {
            &&& cv(final(code)@) == cv(old(code)@)
            &&& final(retraction_info).records@ == old(retraction_info).records@
        },
        !var_lands_on_choice(cv(old(code)@), index_loc) ==> {
            &&& cv(final(code)@) == cv(old(code)@).update(
                index_loc as int,
                LineV::IndexingCode(
                    switch_var_set(cv(old(code)@)[index_loc as int]->IndexingCode_0, offset),
                ),
            )
            &&& final(retraction_info).records@ == old(retraction_info).records@.push(
                RetractionRecord::ReplacedSwitchOnTermVarIndex(
                    index_loc,
                    switch_var(cv(old(code)@), index_loc),
                ),
            )
        },
        final(code)@.len() == old(code)@.len(),
        final(retraction_info).orig_code_extent == old(retraction_info).orig_code_extent,
{
    let n = code.len();
    let v: usize = match &code[index_loc] {
        Line::IndexingCode(ic) => {
            match ic.var_ptr {
                IndexingCodePtr::External(v) => v,
                IndexingCodePtr::DynamicExternal(v) => v,
                IndexingCodePtr::Internal(_) => unreached(),
            }
        },
        _ => unreached(),
    };
    let lands: bool = match &code[index_loc + v] {
        Line::Choice(ChoiceInstruction::TryMeElse(_)) => true,
        Line::Choice(ChoiceInstruction::DynamicElse(_, _, _)) => true,
        Line::Choice(ChoiceInstruction::DynamicInternalElse(_, _, _)) => true,
        _ => false,
    };
    if !lands {
        set_switch_var_offset(code, index_loc, offset, retraction_info);
    }
}


/// Whether `remove_index_from_subsequence` accepts the code for this key.
pub open spec fn rsub_applicable(code: Seq<LineV>, key: OptArgIndexKey, clause_start: usize) -> bool {
    match key.spec_switch_on_term_loc() {
        None => true,
        Some(index_loc) => {
            &&& inner_terminates(code, index_loc as int, clause_start as int)
            &&& (index_loc as int) < code.len()
            &&& code[index_loc as int] is IndexingCode
            &&& 0 <= inner_result(code, index_loc as int, clause_start as int)
            &&& remove_applicable(code[index_loc as int]->IndexingCode_0, key)
        },
    }
}

/// The code after the clause's entry leaves its indexing table.
pub open spec fn rsub_code(code: Seq<LineV>, key: OptArgIndexKey, clause_start: usize) -> Seq<
    LineV,
> {
    match key.spec_switch_on_term_loc() {
        None => code,
        Some(index_loc) => code.update(
            index_loc as int,
            LineV::IndexingCode(
                remove_spec(
                    code[index_loc as int]->IndexingCode_0,
                    key,
                    inner_result(code, index_loc as int, clause_start as int) as usize,
                ),
            ),
        ),
    }
}

/// The journal records of `remove_index_from_subsequence`.
pub open spec fn rsub_records(code: Seq<LineV>, key: OptArgIndexKey, clause_start: usize) -> Seq<
    RetractionRecord,
> {
    match key.spec_switch_on_term_loc() {
        None => Seq::empty(),
        Some(index_loc) => seq![
            RetractionRecord::RemovedIndex(
                index_loc,
                key,
                inner_result(code, index_loc as int, clause_start as int) as usize,
            ),
        ],
    }
}

/// Deletes a clause's entry from the indexing table its key records: the
/// entry's target is found by walking in to the clause's guarding choice
/// instruction from `clause_start`.  A clause without a key leaves no
/// entry to delete.
pub fn remove_index_from_subsequence(
    code: &mut Vec<Line>,
    key: OptArgIndexKey,
    clause_start: usize,
    retraction_info: &mut RetractionInfo,
)
    requires
        rsub_applicable(cv(old(code)@), key, clause_start),
    ensures
        cv(final(code)@) == rsub_code(cv(old(code)@), key, clause_start),
        final(code)@.len() == old(code)@.len(),
        final(retraction_info).records@ == old(retraction_info).records@ + rsub_records(
            cv(old(code)@),
            key,
            clause_start,
        ),
        final(retraction_info).orig_code_extent == old(retraction_info).orig_code_extent,
{
    let ghost oldv = cv(old(code)@);
    match key.switch_on_term_loc() {
        Some(index_loc) => {
            let guard = crate::chains::find_inner_choice_instr(code, clause_start, index_loc);
            remove_index(code, index_loc, key, guard);
            retraction_info.push_record(
                RetractionRecord::RemovedIndex(index_loc, key, guard),
            );
            proof {
                assert(retraction_info.records@ =~= old(retraction_info).records@ + rsub_records(
                    oldv,
                    key,
                    clause_start,
                ));
            }
        },
        None => {
            proof {
                assert(retraction_info.records@ =~= retraction_info.records@ + Seq::<
                    RetractionRecord,
                >::empty());
            }
        },
    }
}

/// The result of `merge_indices` over the clause positions `i` (inclusive)
/// to `end` (exclusive): the code, the clause entries and the journal
/// records produced by migrating each indexed clause's entry into the
/// table at `target_index_loc`, stopping early at the first unindexed
/// clause.  `None` when a step of the migration is undefined.
pub open spec fn merge_indices_spec(
    code: Seq<LineV>,
    target_index_loc: usize,
    i: int,
    end: int,
    clauses: Seq<ClauseIndexInfo>,
) -> Option<(Seq<LineV>, Seq<ClauseIndexInfo>, Seq<RetractionRecord>)>
    decreases end - i,
{
    if i >= end {
        Some((code, clauses, Seq::empty()))
    } else if !(0 <= i < clauses.len()) {
        None
    } else {
        match clauses[i].opt_arg_index_key.spec_switch_on_term_loc() {
            None => Some((code, clauses, Seq::empty())),
            Some(index_loc) => {
                if !(inner_terminates(code, index_loc as int, clauses[i].clause_start as int)
                    && (target_index_loc as int) < code.len() && code[target_index_loc as int]
                    is IndexingCode) {
                    None
                } else {
                    let clause_loc = inner_result(
                        code,
                        index_loc as int,
                        clauses[i].clause_start as int,
                    );
                    let key2 = clauses[i].opt_arg_index_key.spec_with_switch_on_term_loc(
                        target_index_loc,
                    );
                    if !merge_applicable(code[target_index_loc as int]->IndexingCode_0, key2) {
                        None
                    } else {
                        let code2 = code.update(
                            target_index_loc as int,
                            LineV::IndexingCode(
                                merge_spec(
                                    code[target_index_loc as int]->IndexingCode_0,
                                    key2,
                                    clause_loc as usize,
                                    AppendOrPrepend::Append,
                                ),
                            ),
                        );
                        let clauses2 = clauses.update(
                            i,
                            ClauseIndexInfo {
                                opt_arg_index_key: key2,
                                clause_start: clauses[i].clause_start,
                            },
                        );
                        let rec = RetractionRecord::AddedIndex(key2, clause_loc as usize);
                        match merge_indices_spec(code2, target_index_loc, i + 1, end, clauses2) {
                            Some(rest) => Some(
                                (rest.0, rest.1, seq![rec] + rest.2),
                            ),
                            None => None,
                        }
                    }
                }
            },
        }
    }
}

/// Migrates the indexing-table entries of the clauses at positions `start`
/// to `end` (exclusive) into the table at `target_index_loc`, re-pointing
/// each clause's key at that table and journalling each added entry;
/// stops at the first unindexed clause.
pub fn merge_indices(
    code: &mut Vec<Line>,
    target_index_loc: usize,
    start: usize,
    end: usize,
    clauses: &mut Vec<ClauseIndexInfo>,
    retraction_info: &mut RetractionInfo,
)
    requires
        start <= end <= old(clauses)@.len(),
        merge_indices_spec(
            cv(old(code)@),
            target_index_loc,
            start as int,
            end as int,
            old(clauses)@,
        ) is Some,
    ensures
        ({
            let result = merge_indices_spec(
                cv(old(code)@),
                target_index_loc,
                start as int,
                end as int,
                old(clauses)@,
            ).unwrap();
            &&& cv(final(code)@) == result.0
            &&& final(clauses)@ == result.1
            &&& final(retraction_info).records@ == old(retraction_info).records@ + result.2
        }),
        final(code)@.len() == old(code)@.len(),
        final(clauses)@.len() == old(clauses)@.len(),
        final(retraction_info).orig_code_extent == old(retraction_info).orig_code_extent,
{
    let ghost full = merge_indices_spec(
        cv(old(code)@),
        target_index_loc,
        start as int,
        end as int,
        old(clauses)@,
    ).unwrap();
    let mut i = start;
    let mut done = false;
    while i < end && !done
        invariant
            start <= i <= end <= clauses@.len(),
            done ==> merge_indices_spec(cv(code@), target_index_loc, i as int, end as int, clauses@)
                == Some((cv(code@), clauses@, Seq::<RetractionRecord>::empty())),
            clauses@.len() == old(clauses)@.len(),
            code@.len() == old(code)@.len(),
            merge_indices_spec(cv(code@), target_index_loc, i as int, end as int, clauses@)
                is Some,
            ({
                let rest = merge_indices_spec(
                    cv(code@),
                    target_index_loc,
                    i as int,
                    end as int,
                    clauses@,
                ).unwrap();
                &&& rest.0 == full.0
                &&& rest.1 == full.1
                &&& retraction_info.records@ + rest.2 == old(retraction_info).records@ + full.2
            }),
            retraction_info.orig_code_extent == old(retraction_info).orig_code_extent,
        decreases end - i + if done { 0int } else { 1int },
    {
        let key = clauses[i].opt_arg_index_key;
        match key.switch_on_term_loc() {
            None => {
                done = true;
            },
            Some(index_loc) => {
                let clause_start = clauses[i].clause_start;
                let ghost pre_code = cv(code@);
                let ghost pre_clauses = clauses@;
                let ghost pre_records = retraction_info.records@;
                let clause_loc = crate::chains::find_inner_choice_instr(
                    code,
                    clause_start,
                    index_loc,
                );
                let mut entry = clauses[i];
                entry.opt_arg_index_key.set_switch_on_term_loc(target_index_loc);
                clauses[i] = entry;
                merge_clause_index(
                    code,
                    target_index_loc,
                    entry.opt_arg_index_key,
                    clause_loc,
                    AppendOrPrepend::Append,
                );
                retraction_info.push_record(
                    RetractionRecord::AddedIndex(entry.opt_arg_index_key, clause_loc),
                );
                proof {
                    let rest_pre = merge_indices_spec(
                        pre_code,
                        target_index_loc,
                        i as int,
                        end as int,
                        pre_clauses,
                    ).unwrap();
                    let rest_post = merge_indices_spec(
                        cv(code@),
                        target_index_loc,
                        i as int + 1,
                        end as int,
                        clauses@,
                    ).unwrap();
                    assert(clauses@ =~= pre_clauses.update(
                        i as int,
                        ClauseIndexInfo {
                            opt_arg_index_key:
                                pre_clauses[i as int].opt_arg_index_key
                                .spec_with_switch_on_term_loc(target_index_loc),
                            clause_start: pre_clauses[i as int].clause_start,
                        },
                    ));
                    assert(rest_pre.2 =~= seq![
                        RetractionRecord::AddedIndex(
                            entry.opt_arg_index_key,
                            clause_loc,
                        ),
                    ] + rest_post.2);
                    assert(retraction_info.records@ + rest_post.2 =~= pre_records + rest_pre.2);
                }
                i = i + 1;
            },
        }
    }
    proof {
        let rest = merge_indices_spec(
            cv(code@),
            target_index_loc,
            i as int,
            end as int,
            clauses@,
        ).unwrap();
        assert(retraction_info.records@ =~= retraction_info.records@ + Seq::<
            RetractionRecord,
        >::empty());
    }
}

} // verus!
