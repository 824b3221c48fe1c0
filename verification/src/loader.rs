//! The loader: submitting predicate batches to the compiler driver.
//!
//! Reading terms from a stream is an external concern; the loader receives
//! one batch of clauses at a time — the generated code for the batch, the
//! key metadata of its first clause, and the `$clause/2` mirror sources of
//! a dynamic predicate — and decides between a fresh compilation and
//! incremental addition, keeping the mirror predicate in step.

use vstd::prelude::*;
use vstd::pervasive::unreached;

use crate::compile::{
    appendix_spec, compile_shift_ok, incr_chain_plan, pairs_view, queue_view, CompiledBlock,
    PredicateQueue, SessionError, TopLevel,
};
use crate::instructions::{cv, group_cv, AppendOrPrepend, CodeGenSettings};
use crate::journal::RetractionRecord;
use crate::locs::{locs_len, locs_pop_back, locs_pop_front, locs_push_back, locs_push_front};
use crate::machine::{
    append_plan, lemma_prefix_chain, lemma_skel_find, lemma_skel_find_stable,
    lemma_skel_find_stable_other, skel_find, skeleton_pos, LoadState,
};
use crate::skeleton::{
    ClauseIndexInfo, CompilationTarget, PredicateInfo, PredicateKey, PredicateSkeleton,
    BUILTINS_MODULE, CLAUSE_ATOM,
};

verus! {

broadcast use group_cv;

/// The mirror predicate's target for a user-level predicate: the
/// `builtins` module; a module predicate mirrors within its own module.
pub open spec fn spec_clause_clause_target(
    compilation_target: CompilationTarget,
) -> CompilationTarget {
    match compilation_target {
        CompilationTarget::User => CompilationTarget::Module(BUILTINS_MODULE),
        CompilationTarget::Module(m) => CompilationTarget::Module(m),
    }
}

/// One load batch: the machine state, the batch's generated code and
/// appendix, the key metadata of its first clause, and the `$clause/2`
/// mirror sources of its clauses.
#[derive(Debug)]
pub struct Loader {
    pub load_state: LoadState,
    pub predicates: PredicateQueue,
    pub first_clause_name: Option<u64>,
    pub first_clause_arity: usize,
    pub clause_clauses: Vec<(CompiledBlock, Vec<TopLevel>)>,
    pub non_counted_bt: bool,
}

/// The key the batch defines, from its first clause.
pub open spec fn submit_key(l: &Loader) -> PredicateKey {
    PredicateKey { name: l.first_clause_name.unwrap(), arity: l.first_clause_arity }
}

/// The summary of the predicate the batch defines, as the driver reads it.
pub open spec fn submit_pinfo(l: &Loader) -> PredicateInfo {
    match skel_find(
        l.load_state.skeletons@,
        l.predicates.compilation_target,
        submit_key(l),
    ) {
        Some(si) => PredicateInfo {
            is_extensible: true,
            is_dynamic: l.load_state.skeletons@[si].skeleton@.is_dynamic,
            is_multifile: l.load_state.skeletons@[si].skeleton@.is_multifile,
            has_clauses: l.load_state.skeletons@[si].skeleton@.clauses.len() > 0,
        },
        None => PredicateInfo {
            is_extensible: false,
            is_dynamic: false,
            is_multifile: false,
            has_clauses: false,
        },
    }
}

/// The summary of the local shadow the loading target holds for the key.
pub open spec fn submit_linfo(l: &Loader) -> PredicateInfo {
    match crate::machine::local_find(
        l.load_state.local_skeletons@,
        l.load_state.compilation_target,
        l.predicates.compilation_target,
        submit_key(l),
    ) {
        Some(li) => PredicateInfo {
            is_extensible: true,
            is_dynamic: l.load_state.local_skeletons@[li].skeleton@.is_dynamic,
            is_multifile: l.load_state.local_skeletons@[li].skeleton@.is_multifile,
            has_clauses: l.load_state.local_skeletons@[li].skeleton@.clauses.len() > 0
                || l.load_state.local_skeletons@[li].skeleton@.clause_clause_locs.len() > 0,
        },
        None => PredicateInfo {
            is_extensible: false,
            is_dynamic: false,
            is_multifile: false,
            has_clauses: false,
        },
    }
}

/// Whether the batch is added clause by clause to the live definition: a
/// dynamic predicate with clauses, defined in the loading target itself or
/// declared multifile by it.
pub open spec fn submit_incremental(l: &Loader) -> bool {
    if l.load_state.compilation_target == l.predicates.compilation_target {
        submit_pinfo(l).spec_compile_incrementally()
    } else {
        submit_linfo(l).is_multifile && submit_pinfo(l).spec_compile_incrementally()
    }
}

/// The result of draining the batch's appendix queue.
pub open spec fn submit_appendix(l: &Loader) -> Result<Seq<crate::instructions::LineV>, SessionError> {
    appendix_spec(
        l.predicates.block@.code,
        queue_view(l.predicates.queue@),
        l.predicates.block@.jmp_by_locs,
    ).unwrap()
}

/// The plan of the `$clause/2` mirror step that an incremental dynamic
/// submission performs after integrating its one-clause block: one mirror
/// fact is compiled per drained pair, onto the integrated code, at the
/// ticked clock.
pub open spec fn submit_mirror_plan(l: &Loader) -> Option<
    Result<(Seq<crate::instructions::LineV>, crate::skeleton::PredicateSkeletonV), SessionError>,
> {
    let pt = l.predicates.compilation_target;
    let key = submit_key(l);
    let si = skel_find(l.load_state.skeletons@, pt, key).unwrap();
    let skel = l.load_state.skeletons@[si].skeleton@;
    let aplan = append_plan(
        cv(l.load_state.code@),
        submit_appendix(l).unwrap(),
        crate::compile::skel_appended(
            skel,
            l.predicates.block@.clauses.last(),
            l.load_state.code@.len() as usize,
        ),
        l.load_state.global_clock,
    ).unwrap();
    let mk = PredicateKey { name: CLAUSE_ATOM, arity: 2 };
    let cct = spec_clause_clause_target(pt);
    let mi = skel_find(l.load_state.skeletons@, cct, mk).unwrap();
    incr_chain_plan(
        aplan.code,
        l.load_state.skeletons@[mi].skeleton@,
        pairs_view(l.clause_clauses@),
        0,
        (l.load_state.global_clock + 1) as usize,
        true,
    )
}

/// Whether a cross-target submission deserves the "overwriting multifile
/// predicate" warning: the batch overwrites a predicate declared multifile
/// in its own target while the loading target never declared it multifile
/// itself.
pub fn needs_multifile_overwrite_warning(
    loading_target: &CompilationTarget,
    predicates_target: &CompilationTarget,
    local_info: &PredicateInfo,
    predicate_info: &PredicateInfo,
) -> (r: bool)
    ensures
        r == (*loading_target != *predicates_target && !local_info.is_extensible
            && predicate_info.is_multifile),
{
    *loading_target != *predicates_target && !local_info.is_extensible
        && predicate_info.is_multifile
}

/// What a batch submission demands of its inputs: the appendix drain is
/// defined, the key is not the reserved mirror functor, the clock can
/// tick, a fresh dynamic compilation carries no mirror pairs while an
/// incremental one's mirror step is defined and succeeds on the
/// integrated state, locally contributed clauses need not be retracted
/// first,
/// a definition left in another target is not dynamic, and the incremental
/// or fresh integration of the generated block is defined on this state.
pub open spec fn submit_requires(l: &Loader) -> bool {
    let pt = l.predicates.compilation_target;
    let defined = appendix_spec(
        l.predicates.block@.code,
        queue_view(l.predicates.queue@),
        l.predicates.block@.jmp_by_locs,
    ) is Some;
    match l.first_clause_name {
        None => true,
        Some(name) => {
            let key = submit_key(l);
            let pinfo = submit_pinfo(l);
            let linfo = submit_linfo(l);
            let do_incremental = submit_incremental(l);
            &&& defined
            &&& name != CLAUSE_ATOM
            &&& l.load_state.global_clock + 1 <= usize::MAX
            &&& (pinfo.is_dynamic && !do_incremental ==> l.clause_clauses@.len() == 0)
            &&& !linfo.spec_must_retract_local_clauses()
            &&& ({
                let ares = submit_appendix(l);
                &&& (do_incremental && ares is Ok ==> {
                    let si = skel_find(l.load_state.skeletons@, pt, key).unwrap();
                    let skel = l.load_state.skeletons@[si].skeleton@;
                    &&& l.predicates.block@.clauses.len() == 1
                    &&& skel.clause_assert_margin + 1 <= usize::MAX
                    &&& skel.clauses.len() == skel.clause_clause_locs.len()
                    &&& crate::machine::append_plan(
                        cv(l.load_state.code@),
                        ares.unwrap(),
                        crate::compile::skel_appended(
                            skel,
                            l.predicates.block@.clauses.last(),
                            l.load_state.code@.len() as usize,
                        ),
                        l.load_state.global_clock,
                    ) is Some
                    &&& (l.clause_clauses@.len() > 0 ==> {
                        let mk = PredicateKey { name: CLAUSE_ATOM, arity: 2 };
                        let cct = spec_clause_clause_target(pt);
                        &&& skel_find(l.load_state.skeletons@, cct, mk) is Some
                        &&& skel.clause_clause_locs.len() + 1 >= l.clause_clauses@.len()
                        &&& submit_mirror_plan(l) is Some
                        &&& submit_mirror_plan(l).unwrap() is Ok
                    })
                })
                &&& (!do_incremental ==> {
                    &&& (l.load_state.compilation_target != pt ==> !pinfo.is_dynamic)
                    &&& (ares is Ok ==> compile_shift_ok(
                        l.predicates.block@.clauses,
                        l.load_state.code@.len() as usize,
                    ) && l.load_state.code@.len() + ares.unwrap().len() + 1 <= usize::MAX)
                })
            })
        },
    }
}

/// Adds one clause block to the predicate registered at table position
/// `mi`, relating the outcome to the single-step chain plan.
#[verifier::rlimit(100)]
#[verifier::spinoff_prover]
fn incr_step(
    ls: &mut LoadState,
    key2: PredicateKey,
    block: CompiledBlock,
    queue: Vec<TopLevel>,
    target2: CompilationTarget,
    aop: AppendOrPrepend,
    Ghost(mi): Ghost<int>,
) -> (r: Result<(), SessionError>)
    requires
        skel_find(old(ls).skeletons@, target2, key2) == Some(mi),
        incr_chain_plan(
            cv(old(ls).code@),
            old(ls).skeletons@[mi].skeleton@,
            seq![(block@, queue_view(queue@))],
            0,
            old(ls).global_clock,
            aop.spec_is_append(),
        ) is Some,
    ensures
        final(ls).compilation_target == old(ls).compilation_target,
        final(ls).global_clock == old(ls).global_clock,
        final(ls).skeletons@.len() == old(ls).skeletons@.len(),
        forall|j: int|
            0 <= j < old(ls).skeletons@.len() && j != mi ==> final(ls).skeletons@[j] == old(ls).skeletons@[j],
        final(ls).skeletons@[mi].target == old(ls).skeletons@[mi].target,
        final(ls).skeletons@[mi].key == old(ls).skeletons@[mi].key,
        final(ls).retraction_info.records@.take(old(ls).retraction_info.records@.len() as int)
            == old(ls).retraction_info.records@,
        final(ls).retraction_info.records@.len() >= old(ls).retraction_info.records@.len(),
        final(ls).code@.len() >= old(ls).code@.len(),
        ({
            let single = incr_chain_plan(
                cv(old(ls).code@),
                old(ls).skeletons@[mi].skeleton@,
                seq![(block@, queue_view(queue@))],
                0,
                old(ls).global_clock,
                aop.spec_is_append(),
            ).unwrap();
            match r {
                Err(e) => single == Err::<
                    (Seq<crate::instructions::LineV>, crate::skeleton::PredicateSkeletonV),
                    SessionError,
                >(e),
                Ok(_) => single is Ok && cv(final(ls).code@) == single.unwrap().0 && final(ls).skeletons@[mi].skeleton@ == single.unwrap().1,
            }
        }),
        r is Ok ==> final(ls).skeletons@[mi].skeleton@.clause_clause_locs == if aop
            .spec_is_append() {
            old(ls).skeletons@[mi].skeleton@.clause_clause_locs.push(
                old(ls).code@.len() as usize,
            )
        } else {
            seq![old(ls).code@.len() as usize] + old(ls).skeletons@[mi].skeleton@.clause_clause_locs
        },
        r is Ok ==> final(ls).skeletons@[mi].skeleton@.clauses.len() == old(ls).skeletons@[mi].skeleton@.clauses.len() + 1,
{
    let ghost pre_code = cv(ls.code@);
    let ghost pre_skel = ls.skeletons@[mi].skeleton@;
    let ghost bv = block@;
    let ghost qv = queue_view(queue@);
    proof {
        reveal_with_fuel(incr_chain_plan, 3);
        lemma_skel_find(ls.skeletons@, target2, key2);
    }
    let r = ls.incremental_compile_clause(key2, block, queue, target2, false, aop);
    proof {
        reveal_with_fuel(incr_chain_plan, 3);
        let single = incr_chain_plan(
            pre_code,
            pre_skel,
            seq![(bv, qv)],
            0,
            old(ls).global_clock,
            aop.spec_is_append(),
        ).unwrap();
        let res = appendix_spec(bv.code, qv, bv.jmp_by_locs).unwrap();
        let s1 = seq![(bv, qv)];
        assert(s1[0] == (bv, qv));
        assert(s1.len() == 1);
        match r {
            Err(_) => {},
            Ok(_) => {
                assert(res is Ok);
                assert(pre_skel.clauses.len() > 0);
                assert(bv.clauses.len() >= 1);
                assert(pre_skel.clauses.len() == pre_skel.clause_clause_locs.len());
                let cii = bv.clauses.last();
                let code_len = pre_code.len() as usize;
                if aop.spec_is_append() {
                    let ap = crate::machine::append_plan(
                        pre_code,
                        res.unwrap(),
                        crate::compile::skel_appended(pre_skel, cii, code_len),
                        old(ls).global_clock,
                    ).unwrap();
                    assert(cv(ls.code@) == ap.code);
                    let skel2 = crate::skeleton::PredicateSkeletonV {
                        clauses: pre_skel.clauses.push(ap.new_entry),
                        clause_clause_locs: pre_skel.clause_clause_locs.push(code_len),
                        clause_assert_margin: pre_skel.clause_assert_margin,
                        is_dynamic: pre_skel.is_dynamic,
                        is_multifile: pre_skel.is_multifile,
                    };
                    assert(ls.skeletons@[mi].skeleton@ == skel2);
                    assert(incr_chain_plan(
                        ap.code,
                        skel2,
                        s1,
                        1,
                        old(ls).global_clock,
                        aop.spec_is_append(),
                    ) == Some(Ok::<
                        (
                            Seq<crate::instructions::LineV>,
                            crate::skeleton::PredicateSkeletonV,
                        ),
                        SessionError,
                    >((ap.code, skel2))));
                    assert(single == Ok::<
                        (
                            Seq<crate::instructions::LineV>,
                            crate::skeleton::PredicateSkeletonV,
                        ),
                        SessionError,
                    >((cv(ls.code@), ls.skeletons@[mi].skeleton@)));
                } else {
                    let pp = crate::machine::prepend_plan(
                        pre_code,
                        res.unwrap(),
                        crate::compile::skel_prepended(pre_skel, cii, code_len),
                        old(ls).global_clock,
                    ).unwrap();
                    assert(cv(ls.code@) == pp.code);
                    let skel2 = crate::skeleton::PredicateSkeletonV {
                        clauses: match pp.new_head_start {
                            Some(ns) => (seq![cii] + pre_skel.clauses).update(
                                0,
                                pp.entry0,
                            ).update(
                                1,
                                ClauseIndexInfo {
                                    opt_arg_index_key:
                                        pre_skel.clauses[0].opt_arg_index_key,
                                    clause_start: ns,
                                },
                            ),
                            None => (seq![cii] + pre_skel.clauses).update(0, pp.entry0),
                        },
                        clause_clause_locs: seq![code_len] + pre_skel.clause_clause_locs,
                        clause_assert_margin: (pre_skel.clause_assert_margin + 1) as usize,
                        is_dynamic: pre_skel.is_dynamic,
                        is_multifile: pre_skel.is_multifile,
                    };
                    assert(ls.skeletons@[mi].skeleton@ == skel2);
                    assert(incr_chain_plan(
                        pp.code,
                        skel2,
                        s1,
                        1,
                        old(ls).global_clock,
                        aop.spec_is_append(),
                    ) == Some(Ok::<
                        (
                            Seq<crate::instructions::LineV>,
                            crate::skeleton::PredicateSkeletonV,
                        ),
                        SessionError,
                    >((pp.code, skel2))));
                    assert(single == Ok::<
                        (
                            Seq<crate::instructions::LineV>,
                            crate::skeleton::PredicateSkeletonV,
                        ),
                        SessionError,
                    >((cv(ls.code@), ls.skeletons@[mi].skeleton@)));
                }
            },
        }
    }
    r
}

impl Loader {
    /// One round of the mirror compilation: takes the pair at `idx`,
    /// submits it, and advances the chain plan by one step.
    #[verifier::rlimit(100)]
    #[verifier::spinoff_prover]
    fn mirror_round(
        &mut self,
        idx: usize,
        key: PredicateKey,
        compilation_target: CompilationTarget,
        append_or_prepend: AppendOrPrepend,
        Ghost(pv): Ghost<
            Seq<(crate::compile::CompiledBlockV, Seq<Option<crate::compile::CompiledBlockV>>)>,
        >,
        Ghost(skels0): Ghost<Seq<crate::machine::SkeletonEntry>>,
        Ghost(mi): Ghost<int>,
        Ghost(mlocs0): Ghost<Seq<usize>>,
        Ghost(full): Ghost<
            Result<
                (Seq<crate::instructions::LineV>, crate::skeleton::PredicateSkeletonV),
                SessionError,
            >,
        >,
        Ghost(r0): Ghost<Seq<crate::journal::RetractionRecord>>,
    ) -> (r: Result<(), SessionError>)
        requires
            idx < pv.len(),
            old(self).clause_clauses@.len() == pv.len(),
            (
                old(self).clause_clauses@[idx as int].0@,
                queue_view(old(self).clause_clauses@[idx as int].1@),
            ) == pv[idx as int],
            old(self).load_state.skeletons@.len() == skels0.len(),
            0 <= mi < skels0.len(),
            forall|j: int|
                0 <= j < skels0.len() && j != mi ==> old(self).load_state.skeletons@[j]
                    == skels0[j],
            old(self).load_state.skeletons@[mi].target == spec_clause_clause_target(
                compilation_target,
            ),
            old(self).load_state.skeletons@[mi].key == (PredicateKey {
                name: CLAUSE_ATOM,
                arity: 2,
            }),
            skel_find(
                skels0,
                spec_clause_clause_target(compilation_target),
                PredicateKey { name: CLAUSE_ATOM, arity: 2 },
            ) == Some(mi),
            incr_chain_plan(
                cv(old(self).load_state.code@),
                old(self).load_state.skeletons@[mi].skeleton@,
                pv,
                idx as int,
                old(self).load_state.global_clock,
                append_or_prepend.spec_is_append(),
            ) == Some(full),
            old(self).load_state.retraction_info.records@.take(r0.len() as int) == r0,
            old(self).load_state.retraction_info.records@.len() >= r0.len(),
            mlocs0.len() + idx == old(self).load_state.skeletons@[mi].skeleton@.clause_clause_locs.len(),
            append_or_prepend.spec_is_append() ==> old(self).load_state.skeletons@[mi].skeleton@.clause_clause_locs.take(mlocs0.len() as int)
                == mlocs0,
            !append_or_prepend.spec_is_append() ==> old(self).load_state.skeletons@[mi].skeleton@.clause_clause_locs.skip(idx as int) == mlocs0,
        ensures
            final(self).load_state.compilation_target == old(self).load_state.compilation_target,
            final(self).load_state.global_clock == old(self).load_state.global_clock,
            final(self).load_state.retraction_info.records@.take(r0.len() as int) == r0,
            final(self).load_state.retraction_info.records@.len() >= r0.len(),
            final(self).load_state.skeletons@.len() == skels0.len(),
            forall|j: int|
                0 <= j < skels0.len() && j != mi ==> final(self).load_state.skeletons@[j]
                    == skels0[j],
            final(self).load_state.skeletons@[mi].target == spec_clause_clause_target(
                compilation_target,
            ),
            final(self).load_state.skeletons@[mi].key == (PredicateKey {
                name: CLAUSE_ATOM,
                arity: 2,
            }),
            match r {
                Err(e) => {
                    &&& full == Err::<
                        (
                            Seq<crate::instructions::LineV>,
                            crate::skeleton::PredicateSkeletonV,
                        ),
                        SessionError,
                    >(e)
                    &&& final(self).clause_clauses@.len() == 0
                },
                Ok(_) => {
                    &&& final(self).clause_clauses@.len() == pv.len()
                    &&& (forall|j: int|
                        0 <= j < pv.len() && j != idx ==> final(self).clause_clauses@[j]
                            == old(self).clause_clauses@[j])
                    &&& incr_chain_plan(
                        cv(final(self).load_state.code@),
                        final(self).load_state.skeletons@[mi].skeleton@,
                        pv,
                        idx + 1,
                        old(self).load_state.global_clock,
                        append_or_prepend.spec_is_append(),
                    ) == Some(full)
                    &&& final(self).load_state.skeletons@[mi].skeleton@.clauses.len() == old(self).load_state.skeletons@[mi].skeleton@.clauses.len() + 1
                    &&& final(self).load_state.skeletons@[mi].skeleton@.clause_clause_locs.len()
                        == mlocs0.len() + idx + 1
                    &&& (append_or_prepend.spec_is_append() ==> final(self).load_state.skeletons@[mi].skeleton@.clause_clause_locs.take(
                        mlocs0.len() as int,
                    ) == mlocs0)
                    &&& (!append_or_prepend.spec_is_append() ==> final(self).load_state.skeletons@[mi].skeleton@.clause_clause_locs.skip(
                        (idx + 1) as int,
                    ) == mlocs0)
                },
            },
    {
        let cc_target = match compilation_target {
            CompilationTarget::User => CompilationTarget::Module(BUILTINS_MODULE),
            CompilationTarget::Module(m) => CompilationTarget::Module(m),
        };
        let mirror_key = PredicateKey { name: CLAUSE_ATOM, arity: 2 };
            let ghost pre_code = cv(self.load_state.code@);
            let ghost pre_skel = self.load_state.skeletons@[mi].skeleton@;
            let ghost pre_recs = self.load_state.retraction_info.records@;
            let mut pair = (
                CompiledBlock { code: Vec::new(), clauses: Vec::new(), jmp_by_locs: Vec::new() },
                Vec::new(),
            );
            core::mem::swap(&mut pair, &mut self.clause_clauses[idx]);
            let (block, queue) = pair;
            let ghost pidx = idx as int;
            proof {
                reveal_with_fuel(incr_chain_plan, 2);
                assert((block@, queue_view(queue@)) == pv[pidx]);
                assert(seq![(block@, queue_view(queue@))] =~= seq![pv[pidx]]);
                crate::machine::lemma_skel_find_stable(
                    skels0,
                    self.load_state.skeletons@,
                    cc_target,
                    mirror_key,
                    mi,
                );
                crate::compile::lemma_incr_chain_step(
                    pre_code,
                    pre_skel,
                    pv,
                    pidx,
                    self.load_state.global_clock,
                    append_or_prepend.spec_is_append(),
                );
                if incr_chain_plan(
                    pre_code,
                    pre_skel,
                    seq![pv[pidx]],
                    0,
                    self.load_state.global_clock,
                    append_or_prepend.spec_is_append(),
                ) is None {
                    assert(false);
                }
            }
            match incr_step(
                &mut self.load_state,
                mirror_key,
                block,
                queue,
                cc_target,
                append_or_prepend,
                Ghost(mi),
            ) {
                Ok(_) => {},
                Err(e) => {
                    // the first failing pair decides the batch
                    self.clause_clauses = Vec::new();
                    proof {
                        reveal_with_fuel(incr_chain_plan, 2);
                        lemma_prefix_chain(
                            r0,
                            pre_recs,
                            self.load_state.retraction_info.records@,
                        );
                        crate::compile::lemma_incr_chain_step(
                            pre_code,
                            pre_skel,
                            pv,
                            idx as int,
                            self.load_state.global_clock,
                            append_or_prepend.spec_is_append(),
                        );
                    }
                    return Err(e);
                },
            }
            proof {
                reveal_with_fuel(incr_chain_plan, 2);
                lemma_prefix_chain(r0, pre_recs, self.load_state.retraction_info.records@);
                let single = incr_chain_plan(
                    pre_code,
                    pre_skel,
                    seq![pv[pidx]],
                    0,
                    self.load_state.global_clock,
                    append_or_prepend.spec_is_append(),
                ).unwrap();
                assert(single is Ok);
                assert(cv(self.load_state.code@) == single.unwrap().0);
                assert(self.load_state.skeletons@[mi].skeleton@ == single.unwrap().1);
                if append_or_prepend.spec_is_append() {
                    assert(self.load_state.skeletons@[mi].skeleton@.clause_clause_locs.take(
                        mlocs0.len() as int,
                    ) =~= mlocs0);
                } else {
                    assert(self.load_state.skeletons@[mi].skeleton@.clause_clause_locs.skip(
                        (idx + 1) as int,
                    ) =~= mlocs0);
                }
            }
        Ok(())
    }

    /// Compiles the `$clause/2` mirror clauses of the batch — one
    /// `$clause(Head, Body)` fact per pair — into the mirror predicate's
    /// skeleton on the demanded side, then rewrites the mirror's new
    /// locations so that they mirror the source predicate's own
    /// locations, in the same order.
    #[verifier::rlimit(100)]
    #[verifier::spinoff_prover]
    pub fn compile_clause_clauses(
        &mut self,
        key: PredicateKey,
        compilation_target: CompilationTarget,
        append_or_prepend: AppendOrPrepend,
    ) -> (r: Result<(), SessionError>)
        requires
            key.name != CLAUSE_ATOM,
            ({
                let pv = pairs_view(old(self).clause_clauses@);
                let cc_target = spec_clause_clause_target(compilation_target);
                let mirror_key = PredicateKey { name: CLAUSE_ATOM, arity: 2 };
                pv.len() > 0 ==> {
                    &&& skel_find(old(self).load_state.skeletons@, cc_target, mirror_key)
                        is Some
                    &&& skel_find(old(self).load_state.skeletons@, compilation_target, key)
                        is Some
                    &&& ({
                        let si = skel_find(
                            old(self).load_state.skeletons@,
                            compilation_target,
                            key,
                        ).unwrap();
                        old(self).load_state.skeletons@[si].skeleton@.clause_clause_locs.len()
                            >= pv.len()
                    })
                    &&& ({
                        let mi = skel_find(
                            old(self).load_state.skeletons@,
                            cc_target,
                            mirror_key,
                        ).unwrap();
                        incr_chain_plan(
                            cv(old(self).load_state.code@),
                            old(self).load_state.skeletons@[mi].skeleton@,
                            pv,
                            0,
                            old(self).load_state.global_clock,
                            append_or_prepend.spec_is_append(),
                        ) is Some
                    })
                }
            }),
        ensures
            final(self).load_state.compilation_target == old(self).load_state.compilation_target,
            final(self).load_state.global_clock == old(self).load_state.global_clock,
            final(self).load_state.retraction_info.records@.take(
                old(self).load_state.retraction_info.records@.len() as int,
            ) == old(self).load_state.retraction_info.records@,
            final(self).load_state.retraction_info.records@.len() >= old(self).load_state.retraction_info.records@.len(),
            final(self).clause_clauses@.len() == 0,
            old(self).clause_clauses@.len() == 0 ==> {
                &&& final(self).load_state.skeletons == old(self).load_state.skeletons
                &&& final(self).load_state.code == old(self).load_state.code
                &&& final(self).load_state.code_index == old(self).load_state.code_index
                &&& r is Ok
            },
            old(self).clause_clauses@.len() > 0 ==> ({
                let pv = pairs_view(old(self).clause_clauses@);
                let cc_target = spec_clause_clause_target(compilation_target);
                let mirror_key = PredicateKey { name: CLAUSE_ATOM, arity: 2 };
                let mi = skel_find(
                    old(self).load_state.skeletons@,
                    cc_target,
                    mirror_key,
                ).unwrap();
                let si = skel_find(
                    old(self).load_state.skeletons@,
                    compilation_target,
                    key,
                ).unwrap();
                let mskel = old(self).load_state.skeletons@[mi].skeleton@;
                let src_locs = old(self).load_state.skeletons@[si].skeleton@.clause_clause_locs;
                let plan = incr_chain_plan(
                    cv(old(self).load_state.code@),
                    mskel,
                    pv,
                    0,
                    old(self).load_state.global_clock,
                    append_or_prepend.spec_is_append(),
                ).unwrap();
                &&& (r is Ok <==> plan is Ok)
                &&& (r is Err ==> plan == Err::<
                    (Seq<crate::instructions::LineV>, crate::skeleton::PredicateSkeletonV),
                    SessionError,
                >(r->Err_0))
                &&& (r is Ok ==> {
                    // the mirror gained one `$clause/2` fact per pair on
                    // the demanded side
                    &&& cv(final(self).load_state.code@) == plan.unwrap().0
                    &&& final(self).load_state.skeletons@.len() == old(self).load_state.skeletons@.len()
                    &&& forall|j: int|
                        0 <= j < old(self).load_state.skeletons@.len() && j != mi ==> final(self).load_state.skeletons@[j] == old(self).load_state.skeletons@[j]
                    &&& final(self).load_state.skeletons@[mi].target == cc_target
                    &&& final(self).load_state.skeletons@[mi].key == mirror_key
                    &&& final(self).load_state.skeletons@[mi].skeleton@.clauses
                        == plan.unwrap().1.clauses
                    &&& final(self).load_state.skeletons@[mi].skeleton@.clauses.len()
                        == mskel.clauses.len() + pv.len()
                    // and its new locations mirror the source's own
                    &&& final(self).load_state.skeletons@[mi].skeleton@.clause_clause_locs
                        == if append_or_prepend.spec_is_append() {
                        mskel.clause_clause_locs + src_locs.subrange(
                            src_locs.len() - pv.len(),
                            src_locs.len() as int,
                        )
                    } else {
                        src_locs.subrange(0, pv.len() as int) + mskel.clause_clause_locs
                    }
                    // synchrony: a mirror in step with its source before
                    // the batch is in step after it
                    &&& (mskel.clauses.len() + pv.len() == src_locs.len() ==> final(self).load_state.skeletons@[mi].skeleton@.clauses.len() == final(self).load_state.skeletons@[si].skeleton@.clause_clause_locs.len())
                })
            }),
    {
        let cc_target = match compilation_target {
            CompilationTarget::User => CompilationTarget::Module(BUILTINS_MODULE),
            CompilationTarget::Module(m) => CompilationTarget::Module(m),
        };
        let mirror_key = PredicateKey { name: CLAUSE_ATOM, arity: 2 };
        let ghost r0 = self.load_state.retraction_info.records@;
        let n_pairs = self.clause_clauses.len();
        if n_pairs == 0 {
            proof {
                assert(r0.take(r0.len() as int) =~= r0);
            }
            return Ok(());
        }
        let ghost pv = pairs_view(self.clause_clauses@);
        let ghost code0 = cv(self.load_state.code@);
        let ghost skels0 = self.load_state.skeletons@;
        proof {
            lemma_skel_find(skels0, cc_target, mirror_key);
            lemma_skel_find(skels0, compilation_target, key);
        }
        let ghost mi = skel_find(skels0, cc_target, mirror_key).unwrap();
        let ghost full = incr_chain_plan(
            code0,
            skels0[mi].skeleton@,
            pv,
            0,
            self.load_state.global_clock,
            append_or_prepend.spec_is_append(),
        ).unwrap();
        let ghost mlocs0 = skels0[mi].skeleton@.clause_clause_locs;
        let mut idx: usize = 0;
        while idx < n_pairs
            invariant
                idx <= n_pairs,
                n_pairs == pv.len(),
                self.clause_clauses@.len() == n_pairs,
                forall|j: int|
                    idx <= j < n_pairs ==> (
                        #[trigger] self.clause_clauses@[j].0@,
                        queue_view(self.clause_clauses@[j].1@),
                    ) == pv[j],
                self.load_state.skeletons@.len() == skels0.len(),
                0 <= mi < skels0.len(),
                forall|j: int|
                    0 <= j < skels0.len() && j != mi ==> self.load_state.skeletons@[j]
                        == skels0[j],
                self.load_state.skeletons@[mi].target == cc_target,
                self.load_state.skeletons@[mi].key == mirror_key,
                skel_find(skels0, cc_target, mirror_key) == Some(mi),
                skel_find(skels0, compilation_target, key) is Some,
                key.name != CLAUSE_ATOM,
                cc_target == spec_clause_clause_target(compilation_target),
                mirror_key == (PredicateKey { name: CLAUSE_ATOM, arity: 2 }),
                n_pairs == old(self).clause_clauses@.len(),
                n_pairs > 0,
                pv == pairs_view(old(self).clause_clauses@),
                code0 == cv(old(self).load_state.code@),
                skels0 == old(self).load_state.skeletons@,
                mlocs0 == skels0[mi].skeleton@.clause_clause_locs,
                incr_chain_plan(
                    code0,
                    skels0[mi].skeleton@,
                    pv,
                    0,
                    old(self).load_state.global_clock,
                    append_or_prepend.spec_is_append(),
                ) == Some(full),
                incr_chain_plan(
                    cv(self.load_state.code@),
                    self.load_state.skeletons@[mi].skeleton@,
                    pv,
                    idx as int,
                    self.load_state.global_clock,
                    append_or_prepend.spec_is_append(),
                ) == Some(full),
                self.load_state.compilation_target == old(self).load_state.compilation_target,
                self.load_state.global_clock == old(self).load_state.global_clock,
                self.load_state.retraction_info.records@.take(r0.len() as int) == r0,
                self.load_state.retraction_info.records@.len() >= r0.len(),
                r0 == old(self).load_state.retraction_info.records@,
                self.load_state.skeletons@[mi].skeleton@.clauses.len()
                    == skels0[mi].skeleton@.clauses.len() + idx,
                self.load_state.skeletons@[mi].skeleton@.clause_clause_locs.len()
                    == mlocs0.len() + idx,
                append_or_prepend.spec_is_append()
                    ==> self.load_state.skeletons@[mi].skeleton@.clause_clause_locs.take(
                    mlocs0.len() as int,
                ) == mlocs0,
                !append_or_prepend.spec_is_append()
                    ==> self.load_state.skeletons@[mi].skeleton@.clause_clause_locs.skip(
                    idx as int,
                ) == mlocs0,
            decreases n_pairs - idx,
        {
            match self.mirror_round(
                idx,
                key,
                compilation_target,
                append_or_prepend,
                Ghost(pv),
                Ghost(skels0),
                Ghost(mi),
                Ghost(mlocs0),
                Ghost(full),
                Ghost(r0),
            ) {
                Ok(_) => {},
                Err(e) => {
                    return Err(e);
                },
            }
            idx = idx + 1;
        }
        proof {
            reveal_with_fuel(incr_chain_plan, 1);
            assert(incr_chain_plan(
                cv(self.load_state.code@),
                self.load_state.skeletons@[mi].skeleton@,
                pv,
                n_pairs as int,
                self.load_state.global_clock,
                append_or_prepend.spec_is_append(),
            ) == Some(Ok::<
                (Seq<crate::instructions::LineV>, crate::skeleton::PredicateSkeletonV),
                SessionError,
            >((cv(self.load_state.code@), self.load_state.skeletons@[mi].skeleton@))));
            assert(full == Ok::<
                (Seq<crate::instructions::LineV>, crate::skeleton::PredicateSkeletonV),
                SessionError,
            >((cv(self.load_state.code@), self.load_state.skeletons@[mi].skeleton@)));
        }
        self.clause_clauses = Vec::new();
        // carry the source predicate's own locations over into the mirror
        let ghost si0 = skel_find(skels0, compilation_target, key).unwrap();
        proof {
            lemma_skel_find(skels0, compilation_target, key);
            lemma_skel_find(skels0, cc_target, mirror_key);
            assert(skels0[si0].key == key);
            assert(si0 != mi);
            crate::machine::lemma_skel_find_stable_other(
                skels0,
                self.load_state.skeletons@,
                compilation_target,
                key,
                si0,
                mi,
            );
        }
        let si = match skeleton_pos(&self.load_state.skeletons, compilation_target, key) {
            Some(si) => si,
            None => unreached(),
        };
        proof {
            assert(si == si0);
            assert(self.load_state.skeletons@[si as int] == skels0[si0]);
        }
        let src_len = locs_len(&self.load_state.skeletons[si].skeleton.clause_clause_locs);
        if src_len < n_pairs {
            unreached()
        }
        let ghost src_locs = crate::locs::locs_values(
            &self.load_state.skeletons[si as int].skeleton.clause_clause_locs,
        );
        let mut src: Vec<usize> = Vec::new();
        proof {
            if append_or_prepend.spec_is_append() {
                assert(Seq::<usize>::empty() =~= src_locs.subrange(
                    (src_len - n_pairs) as int,
                    (src_len - n_pairs) as int,
                ));
            } else {
                assert(Seq::<usize>::empty() =~= src_locs.subrange(0, 0));
            }
        }
        let mut k: usize = 0;
        while k < n_pairs
            invariant
                k <= n_pairs <= src_len,
                src_len == src_locs.len(),
                src_locs == crate::locs::locs_values(
                    &self.load_state.skeletons[si as int].skeleton.clause_clause_locs,
                ),
                si < self.load_state.skeletons@.len(),
                src@ == if append_or_prepend.spec_is_append() {
                    src_locs.subrange((src_len - n_pairs) as int, (src_len - n_pairs + k) as int)
                } else {
                    src_locs.subrange(0, k as int)
                },
            decreases n_pairs - k,
        {
            let v = if append_or_prepend.is_append() {
                crate::locs::locs_get(
                    &self.load_state.skeletons[si].skeleton.clause_clause_locs,
                    src_len - n_pairs + k,
                )
            } else {
                crate::locs::locs_get(
                    &self.load_state.skeletons[si].skeleton.clause_clause_locs,
                    k,
                )
            };
            src.push(v);
            k = k + 1;
            proof {
                if append_or_prepend.spec_is_append() {
                    assert(src@ =~= src_locs.subrange(
                        (src_len - n_pairs) as int,
                        (src_len - n_pairs + k) as int,
                    ));
                } else {
                    assert(src@ =~= src_locs.subrange(0, k as int));
                }
            }
        }
        proof {
            crate::machine::lemma_skel_find_stable(
                skels0,
                self.load_state.skeletons@,
                cc_target,
                mirror_key,
                mi,
            );
        }
        let mip = match skeleton_pos(&self.load_state.skeletons, cc_target, mirror_key) {
            Some(m) => m,
            None => unreached(),
        };
        proof {
            assert(mip == mi);
        }
        let mut mskel = PredicateSkeleton::new();
        core::mem::swap(&mut mskel, &mut self.load_state.skeletons[mip].skeleton);
        let ghost mlocs1 = crate::locs::locs_values(&mskel.clause_clause_locs);
        let ghost mcl = mskel.clauses@;
        if append_or_prepend.is_append() {
            let mut p: usize = 0;
            while p < n_pairs
                invariant
                    p <= n_pairs,
                    mlocs1.len() == mlocs0.len() + n_pairs,
                    mlocs1.take(mlocs0.len() as int) == mlocs0,
                    mskel.clauses@ == mcl,
                    crate::locs::locs_values(&mskel.clause_clause_locs) == mlocs1.take(
                        (mlocs1.len() - p) as int,
                    ),
                decreases n_pairs - p,
            {
                let _ = crate::locs::locs_pop_back(&mut mskel.clause_clause_locs);
                p = p + 1;
                proof {
                    assert(crate::locs::locs_values(&mskel.clause_clause_locs) =~= mlocs1.take(
                        (mlocs1.len() - p) as int,
                    ));
                }
            }
            proof {
                assert(crate::locs::locs_values(&mskel.clause_clause_locs) =~= mlocs0);
            }
            let mut q: usize = 0;
            while q < n_pairs
                invariant
                    q <= n_pairs == src@.len(),
                    crate::locs::locs_values(&mskel.clause_clause_locs) == mlocs0 + src@.take(
                        q as int,
                    ),
                    mskel.clauses@ == mcl,
                decreases n_pairs - q,
            {
                crate::locs::locs_push_back(&mut mskel.clause_clause_locs, src[q]);
                q = q + 1;
                proof {
                    assert(crate::locs::locs_values(&mskel.clause_clause_locs) =~= mlocs0
                        + src@.take(q as int));
                }
            }
            proof {
                assert(crate::locs::locs_values(&mskel.clause_clause_locs) =~= mlocs0 + src@);
            }
        } else {
            let mut p: usize = 0;
            while p < n_pairs
                invariant
                    p <= n_pairs,
                    mlocs1.len() == mlocs0.len() + n_pairs,
                    mlocs1.skip(n_pairs as int) == mlocs0,
                    mskel.clauses@ == mcl,
                    crate::locs::locs_values(&mskel.clause_clause_locs) == mlocs1.skip(
                        p as int,
                    ),
                decreases n_pairs - p,
            {
                let _ = crate::locs::locs_pop_front(&mut mskel.clause_clause_locs);
                p = p + 1;
                proof {
                    assert(crate::locs::locs_values(&mskel.clause_clause_locs) =~= mlocs1.skip(
                        p as int,
                    ));
                }
            }
            proof {
                assert(crate::locs::locs_values(&mskel.clause_clause_locs) =~= mlocs0);
            }
            let mut q: usize = 0;
            while q < n_pairs
                invariant
                    q <= n_pairs == src@.len(),
                    crate::locs::locs_values(&mskel.clause_clause_locs) == src@.subrange(
                        (n_pairs - q) as int,
                        n_pairs as int,
                    ) + mlocs0,
                    mskel.clauses@ == mcl,
                decreases n_pairs - q,
            {
                crate::locs::locs_push_front(&mut mskel.clause_clause_locs, src[n_pairs - 1 - q]);
                q = q + 1;
                proof {
                    assert(crate::locs::locs_values(&mskel.clause_clause_locs) =~= src@.subrange(
                        (n_pairs - q) as int,
                        n_pairs as int,
                    ) + mlocs0);
                }
            }
            proof {
                assert(crate::locs::locs_values(&mskel.clause_clause_locs) =~= src@ + mlocs0);
            }
        }
        core::mem::swap(&mut mskel, &mut self.load_state.skeletons[mip].skeleton);
        proof {
            assert(self.load_state.skeletons@[mi].skeleton@.clauses == mcl);
            if append_or_prepend.spec_is_append() {
                assert(self.load_state.skeletons@[mi].skeleton@.clause_clause_locs =~= mlocs0
                    + src_locs.subrange(
                    (src_len - n_pairs) as int,
                    src_len as int,
                ));
            } else {
                assert(self.load_state.skeletons@[mi].skeleton@.clause_clause_locs
                    =~= src_locs.subrange(0, n_pairs as int) + mlocs0);
            }
        }
        Ok(())
    }

    /// Submits the batch: determines the predicate's key from its first
    /// clause, decides between incremental addition (a dynamic predicate
    /// with a live definition, in the loading target or declared multifile
    /// by it) and a fresh compilation (first removing a non-multifile
    /// definition left in another target), ticks the global clock after
    /// committing to a dynamic predicate, and keeps the `$clause/2`
    /// mirror in step.
    #[verifier::rlimit(100)]
    #[verifier::spinoff_prover]
    pub fn compile_and_submit(&mut self) -> (r: Result<(), SessionError>)
        requires
            submit_requires(old(self)),
        ensures
            (r == Err::<(), SessionError>(SessionError::NamelessEntry)) <==> old(self).first_clause_name is None,
            final(self).load_state.retraction_info.records@.take(
                old(self).load_state.retraction_info.records@.len() as int,
            ) == old(self).load_state.retraction_info.records@,
            final(self).load_state.compilation_target == old(self).load_state.compilation_target,
            old(self).first_clause_name is None ==> final(self).load_state == old(self).load_state,
            old(self).first_clause_name is Some ==> {
                &&& (r is Ok <==> submit_appendix(old(self)) is Ok)
                &&& final(self).load_state.global_clock == if submit_pinfo(old(self)).is_dynamic
                    && r is Ok {
                    old(self).load_state.global_clock + 1
                } else {
                    old(self).load_state.global_clock as int
                }
                &&& (r is Ok && !submit_incremental(old(self)) ==> cv(
                    final(self).load_state.code@,
                ) == cv(old(self).load_state.code@) + submit_appendix(old(self)).unwrap())
                &&& (r is Ok && submit_incremental(old(self)) ==> ({
                    let key = submit_key(old(self));
                    let pt = old(self).predicates.compilation_target;
                    let si = skel_find(old(self).load_state.skeletons@, pt, key).unwrap();
                    let skel = old(self).load_state.skeletons@[si].skeleton@;
                    let aplan = crate::machine::append_plan(
                        cv(old(self).load_state.code@),
                        submit_appendix(old(self)).unwrap(),
                        crate::compile::skel_appended(
                            skel,
                            old(self).predicates.block@.clauses.last(),
                            old(self).load_state.code@.len() as usize,
                        ),
                        old(self).load_state.global_clock,
                    ).unwrap();
                    &&& final(self).load_state.skeletons@[si as int].skeleton@.clauses
                        == skel.clauses.push(aplan.new_entry)
                    &&& (old(self).clause_clauses@.len() == 0 ==> cv(
                        final(self).load_state.code@,
                    ) == aplan.code)
                    &&& (old(self).clause_clauses@.len() > 0 ==> ({
                        // the drained pairs were mirrored on top of the
                        // integrated block
                        let mk = PredicateKey { name: CLAUSE_ATOM, arity: 2 };
                        let cct = spec_clause_clause_target(pt);
                        let mi = skel_find(old(self).load_state.skeletons@, cct, mk).unwrap();
                        let mskel = old(self).load_state.skeletons@[mi].skeleton@;
                        let n = old(self).clause_clauses@.len() as int;
                        let mres = submit_mirror_plan(old(self)).unwrap().unwrap();
                        let src_locs = skel.clause_clause_locs.push(
                            old(self).load_state.code@.len() as usize,
                        );
                        &&& cv(final(self).load_state.code@) == mres.0
                        &&& final(self).load_state.skeletons@[mi].skeleton@.clauses
                            == mres.1.clauses
                        &&& final(self).load_state.skeletons@[mi].skeleton@.clauses.len()
                            == mskel.clauses.len() + n
                        &&& final(self).load_state.skeletons@[mi].skeleton@.clause_clause_locs
                            == mskel.clause_clause_locs + src_locs.subrange(
                            src_locs.len() - n,
                            src_locs.len() as int,
                        )
                    }))
                }))
                &&& (submit_pinfo(old(self)).is_dynamic && r is Ok ==> final(self).clause_clauses@.len() == 0)
            },
    {
        let name = match self.first_clause_name {
            None => {
                return Err(SessionError::NamelessEntry);
            },
            Some(n) => n,
        };
        let key = PredicateKey { name, arity: self.first_clause_arity };
        let pt = self.predicates.compilation_target;
        let lt = self.load_state.compilation_target;
        let ghost r0 = self.load_state.retraction_info.records@;
        proof {
            lemma_skel_find(self.load_state.skeletons@, pt, key);
            crate::machine::lemma_local_find(
                self.load_state.local_skeletons@,
                lt,
                pt,
                key,
            );
            assert(r0.take(r0.len() as int) =~= r0);
        }
        let predicate_info: PredicateInfo = match skeleton_pos(
            &self.load_state.skeletons,
            pt,
            key,
        ) {
            Some(si) => self.load_state.skeletons[si].skeleton.predicate_info(),
            None => PredicateInfo::unknown(),
        };
        let local_info: PredicateInfo = match crate::machine::local_skeleton_pos(
            &self.load_state.local_skeletons,
            lt,
            pt,
            key,
        ) {
            Some(li) => {
                // a local shadow records what this source contributed as
                // mirror locations, not as clause entries
                let lskel = &self.load_state.local_skeletons[li].skeleton;
                PredicateInfo {
                    is_extensible: true,
                    is_dynamic: lskel.is_dynamic,
                    is_multifile: lskel.is_multifile,
                    has_clauses: lskel.clauses.len() > 0 || crate::locs::locs_len(
                        &lskel.clause_clause_locs,
                    ) > 0,
                }
            },
            None => PredicateInfo::unknown(),
        };
        let do_incremental = if lt == pt {
            predicate_info.compile_incrementally()
        } else {
            local_info.is_multifile && predicate_info.compile_incrementally()
        };
        if do_incremental {
            let mut predicates = PredicateQueue {
                compilation_target: pt,
                block: CompiledBlock { code: Vec::new(), clauses: Vec::new(), jmp_by_locs: Vec::new() },
                queue: Vec::new(),
            };
            core::mem::swap(&mut predicates, &mut self.predicates);
            let PredicateQueue { compilation_target: _, block, queue } = predicates;
            match self.load_state.incremental_compile_clause(
                key,
                block,
                queue,
                pt,
                self.non_counted_bt,
                AppendOrPrepend::Append,
            ) {
                Ok(_) => {},
                Err(e) => {
                    proof {
                        crate::compile::lemma_appendix_err(
                            old(self).predicates.block@.code,
                            queue_view(old(self).predicates.queue@),
                            old(self).predicates.block@.jmp_by_locs,
                        );
                    }
                    return Err(e);
                },
            }
        } else {
            if lt != pt && !local_info.is_extensible {
                // a definition this batch overwrites was left in another
                // target without a multifile declaration: remove it
                proof {
                    lemma_skel_find(self.load_state.skeletons@, pt, key);
                }
                match skeleton_pos(&self.load_state.skeletons, pt, key) {
                    Some(ri_pos) => {
                        let entry = self.load_state.skeletons.remove(ri_pos);
                        self.load_state.retraction_info.push_record(
                            RetractionRecord::RemovedSkeleton(pt, key, entry.skeleton),
                        );
                    },
                    None => {},
                }
            }
            let settings = CodeGenSettings {
                global_clock_tick: if predicate_info.is_dynamic {
                    Some(self.load_state.global_clock)
                } else {
                    None
                },
                is_extensible: predicate_info.is_extensible,
                non_counted_bt: self.non_counted_bt,
            };
            let mut predicates = PredicateQueue {
                compilation_target: pt,
                block: CompiledBlock { code: Vec::new(), clauses: Vec::new(), jmp_by_locs: Vec::new() },
                queue: Vec::new(),
            };
            core::mem::swap(&mut predicates, &mut self.predicates);
            let ghost r_pre = self.load_state.retraction_info.records@;
            match self.load_state.compile(key, predicates, settings) {
                Ok(_) => {},
                Err(e) => {
                    proof {
                        assert(r_pre.take(r0.len() as int) =~= r0);
                        lemma_prefix_chain(
                            r0,
                            r_pre,
                            self.load_state.retraction_info.records@,
                        );
                        crate::compile::lemma_appendix_err(
                            old(self).predicates.block@.code,
                            queue_view(old(self).predicates.queue@),
                            old(self).predicates.block@.jmp_by_locs,
                        );
                    }
                    return Err(e);
                },
            }
            proof {
                assert(r_pre.take(r0.len() as int) =~= r0);
                lemma_prefix_chain(r0, r_pre, self.load_state.retraction_info.records@);
            }
        }
        let ghost r1 = self.load_state.retraction_info.records@;
        if predicate_info.is_dynamic {
            self.load_state.global_clock = self.load_state.global_clock + 1;
            proof {
                if self.clause_clauses@.len() > 0 {
                    let l0 = old(self);
                    let pt0 = l0.predicates.compilation_target;
                    let key0 = submit_key(l0);
                    let si = skel_find(l0.load_state.skeletons@, pt0, key0).unwrap();
                    let skel = l0.load_state.skeletons@[si].skeleton@;
                    let mk = PredicateKey { name: CLAUSE_ATOM, arity: 2 };
                    let cct = spec_clause_clause_target(pt0);
                    let mi0 = skel_find(l0.load_state.skeletons@, cct, mk).unwrap();
                    lemma_skel_find(l0.load_state.skeletons@, pt0, key0);
                    lemma_skel_find(l0.load_state.skeletons@, cct, mk);
                    assert(si != mi0);
                    lemma_skel_find_stable(
                        l0.load_state.skeletons@,
                        self.load_state.skeletons@,
                        pt0,
                        key0,
                        si,
                    );
                    lemma_skel_find_stable_other(
                        l0.load_state.skeletons@,
                        self.load_state.skeletons@,
                        cct,
                        mk,
                        mi0,
                        si,
                    );
                    assert(self.load_state.skeletons@[mi0].skeleton@ == l0.load_state.skeletons@[mi0].skeleton@);
                    assert(self.load_state.skeletons@[si].skeleton@.clause_clause_locs.len()
                        == skel.clause_clause_locs.len() + 1);
                    assert(incr_chain_plan(
                        cv(self.load_state.code@),
                        self.load_state.skeletons@[mi0].skeleton@,
                        pairs_view(self.clause_clauses@),
                        0,
                        self.load_state.global_clock,
                        true,
                    ) == submit_mirror_plan(l0));
                }
            }
            match self.compile_clause_clauses(key, pt, AppendOrPrepend::Append) {
                Ok(_) => {},
                Err(e) => {
                    // the mirror batch is either empty or, by the
                    // submission contract, planned to succeed: a failure
                    // cannot reach this arm
                    proof {
                        if old(self).clause_clauses@.len() > 0 {
                            assert(submit_mirror_plan(old(self)).unwrap() is Ok);
                        }
                        assert(false);
                    }
                    return Err(e);
                },
            }

            proof {
                lemma_prefix_chain(
                    r0,
                    r1,
                    self.load_state.retraction_info.records@,
                );
            }
        }
        Ok(())
    }
}

/// Compiles one batch of a boot source into the machine.  Reading and
/// parsing the source stream is the embedder's concern: the stream is
/// consumed batch by batch, and each batch is submitted here with the
/// full submission behaviour — key determination, incremental or fresh
/// integration, the clock tick and the `$clause/2` mirror step.
pub fn bootstrapping_compile(loader: &mut Loader) -> (r: Result<(), SessionError>)
    requires
        submit_requires(old(loader)),
    ensures
        (r == Err::<(), SessionError>(SessionError::NamelessEntry)) <==> old(loader).first_clause_name is None,
        final(loader).load_state.retraction_info.records@.take(
            old(loader).load_state.retraction_info.records@.len() as int,
        ) == old(loader).load_state.retraction_info.records@,
        final(loader).load_state.compilation_target == old(loader).load_state.compilation_target,
        old(loader).first_clause_name is None ==> final(loader).load_state == old(loader).load_state,
        old(loader).first_clause_name is Some ==> {
            &&& (r is Ok <==> submit_appendix(old(loader)) is Ok)
            &&& final(loader).load_state.global_clock == if submit_pinfo(
                old(loader),
            ).is_dynamic && r is Ok {
                old(loader).load_state.global_clock + 1
            } else {
                old(loader).load_state.global_clock as int
            }
            &&& (r is Ok && !submit_incremental(old(loader)) ==> cv(
                final(loader).load_state.code@,
            ) == cv(old(loader).load_state.code@) + submit_appendix(old(loader)).unwrap())
        },
{
    loader.compile_and_submit()
}

} // verus!
