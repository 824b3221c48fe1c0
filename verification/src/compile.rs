//! The compiler driver: integrating blocks of generated code into the
//! machine.
//!
//! Term-to-code generation is an external collaborator: the driver receives
//! ready-made instruction blocks — a block of `n > 1` clauses begins with
//! `TryMeElse` (or its dynamic form), intermediate clauses with
//! `RetryMeElse`, the last with `TrustMe`; a block of one clause begins
//! with a stub `TryMeElse(0)`; indexed blocks are fronted by a
//! `SwitchOnTerm` — together with the skeleton entries the generator
//! produced and the positions of `JmpBy` lines awaiting the appendix
//! queue.

use vstd::prelude::*;
use vstd::pervasive::unreached;

use crate::instructions::{
    cv, group_cv, AppendOrPrepend, ChoiceInstruction, CodeGenSettings, IndexPtr, Line, LineV,
};
use crate::journal::RetractionRecord;
use crate::machine::{
    append_plan, ci_find, get_or_insert_code_index, lemma_ci_find, lemma_prefix_chain,
    lemma_skel_find, prepend_plan, set_code_index, skel_find, skeleton_pos, splice_tail,
    LoadState, SkeletonEntry,
};
use crate::skeleton::{ClauseIndexInfo, CompilationTarget, PredicateKey, PredicateSkeleton};

verus! {

broadcast use group_cv;

/// An error surfaced by a compile session.
#[derive(Clone, Copy, Debug, PartialEq, Eq, Structural)]
pub enum SessionError {
    /// The leading clause has neither atom head nor compound head.
    NamelessEntry,
    /// A query was found where a clause was required.
    ExpectedRel,
}

/// A block of instruction lines emitted by the external code generator for
/// one predicate, fact or rule, together with the skeleton entries of its
/// clauses (with positions relative to the block) and the positions of its
/// `JmpBy` lines awaiting the appendix queue.
#[derive(Debug)]
pub struct CompiledBlock {
    pub code: Vec<Line>,
    pub clauses: Vec<ClauseIndexInfo>,
    pub jmp_by_locs: Vec<usize>,
}

/// The view of a compiled block.
pub struct CompiledBlockV {
    pub code: Seq<LineV>,
    pub clauses: Seq<ClauseIndexInfo>,
    pub jmp_by_locs: Seq<usize>,
}

impl View for CompiledBlock {
    type V = CompiledBlockV;

    open spec fn view(&self) -> CompiledBlockV {
        CompiledBlockV {
            code: cv(self.code@),
            clauses: self.clauses@,
            jmp_by_locs: self.jmp_by_locs@,
        }
    }
}

/// A canonical top-level form produced by the external preprocessor.
#[derive(Debug)]
pub enum TopLevel {
    Query,
    Predicate(CompiledBlock),
    Fact(CompiledBlock),
    Rule(CompiledBlock),
}

/// The block a top-level form compiles to, or `None` for a query.
pub open spec fn spec_relation_block(tl: &TopLevel) -> Option<CompiledBlockV> {
    match tl {
        TopLevel::Query => None,
        TopLevel::Predicate(b) => Some(b@),
        TopLevel::Fact(b) => Some(b@),
        TopLevel::Rule(b) => Some(b@),
    }
}

/// Accepts the code of a fact, rule or predicate; a query is an error
/// here.
pub fn compile_relation(tl: &TopLevel) -> (r: Result<&CompiledBlock, SessionError>)
    ensures
        match r {
            Ok(b) => spec_relation_block(tl) == Some(b@),
            Err(e) => spec_relation_block(tl) is None && e == SessionError::ExpectedRel,
        },
{
    match tl {
        TopLevel::Query => Err(SessionError::ExpectedRel),
        TopLevel::Predicate(b) => Ok(b),
        TopLevel::Fact(b) => Ok(b),
        TopLevel::Rule(b) => Ok(b),
    }
}

/// Copies the lines of a block.
fn copy_lines(block: &Vec<Line>) -> (r: Vec<Line>)
    ensures
        cv(r@) == cv(block@),
        r@.len() == block@.len(),
{
    let mut r: Vec<Line> = Vec::new();
    let mut i: usize = 0;
    while i < block.len()
        invariant
            i <= block@.len(),
            cv(r@) == cv(block@).take(i as int),
            r@.len() == i,
        decreases block@.len() - i,
    {
        let line = crate::machine::read_line(block, i);
        r.push(line);
        i = i + 1;
        proof {
            assert(cv(r@) =~= cv(block@).take(i as int));
        }
    }
    proof {
        assert(cv(r@) =~= cv(block@));
    }
    r
}

/// The result of draining the appendix queue into `codev` with the given
/// worklist of `JmpBy` positions: the final code, or the error raised on a
/// query; `None` when the drain is undefined (a worklist position not
/// holding a `JmpBy`, a worklist longer than the queue, or an overflowing
/// position).
pub open spec fn appendix_spec(
    codev: Seq<LineV>,
    queue: Seq<Option<CompiledBlockV>>,
    worklist: Seq<usize>,
) -> Option<Result<Seq<LineV>, SessionError>>
    decreases queue.len(),
{
    if worklist.len() == 0 {
        Some(Ok(codev))
    } else if queue.len() == 0 {
        None
    } else {
        let off = worklist[0];
        if !((off as int) < codev.len() && codev[off as int] is JmpBy && codev.len() - off
            <= usize::MAX) {
            None
        } else {
            let patched = codev.update(
                off as int,
                LineV::JmpBy(codev[off as int]->JmpBy_0, (codev.len() - off) as usize),
            );
            match queue[0] {
                None => Some(Err(SessionError::ExpectedRel)),
                Some(block) => {
                    if !((forall|k: int|
                        0 <= k < block.jmp_by_locs.len() ==> block.jmp_by_locs[k] + patched.len()
                            <= usize::MAX) && patched.len() + block.code.len() <= usize::MAX) {
                        None
                    } else {
                        appendix_spec(
                            patched + block.code,
                            queue.drop_first(),
                            worklist.drop_first() + block.jmp_by_locs.map_values(
                                |o: usize| (o + patched.len()) as usize,
                            ),
                        )
                    }
                },
            }
        }
    }
}

/// The only error the appendix drain raises is finding a query where a
/// clause was required.
pub proof fn lemma_appendix_err(
    codev: Seq<LineV>,
    queue: Seq<Option<CompiledBlockV>>,
    worklist: Seq<usize>,
)
    requires
        appendix_spec(codev, queue, worklist) is Some,
        appendix_spec(codev, queue, worklist).unwrap() is Err,
    ensures
        appendix_spec(codev, queue, worklist).unwrap() == Err::<Seq<LineV>, SessionError>(
            SessionError::ExpectedRel,
        ),
    decreases queue.len(),
{
    if worklist.len() == 0 {
    } else if queue.len() == 0 {
    } else {
        let off = worklist[0];
        if (off as int) < codev.len() && codev[off as int] is JmpBy && codev.len() - off
            <= usize::MAX {
            let patched = codev.update(
                off as int,
                LineV::JmpBy(codev[off as int]->JmpBy_0, (codev.len() - off) as usize),
            );
            match queue[0] {
                None => {},
                Some(block) => {
                    if (forall|k: int|
                        0 <= k < block.jmp_by_locs.len() ==> block.jmp_by_locs[k] + patched.len()
                            <= usize::MAX) && patched.len() + block.code.len() <= usize::MAX {
                        lemma_appendix_err(
                            patched + block.code,
                            queue.drop_first(),
                            worklist.drop_first() + block.jmp_by_locs.map_values(
                                |o: usize| (o + patched.len()) as usize,
                            ),
                        );
                    }
                },
            }
        }
    }
}

/// The queue seen as the blocks of its entries (`None` for a query).
pub open spec fn queue_view(queue: Seq<TopLevel>) -> Seq<Option<CompiledBlockV>> {
    queue.map_values(|tl: TopLevel| spec_relation_block(&tl))
}

/// Drains the appendix queue: each auxiliary predicate produced by the
/// preprocessor is compiled in isolation and appended behind the code,
/// with the pending `JmpBy` of the code patched to jump to it; auxiliary
/// predicates may queue further `JmpBy` positions of their own.
pub fn compile_appendix(
    code: &mut Vec<Line>,
    queue: Vec<TopLevel>,
    jmp_by_locs: Vec<usize>,
    non_counted_bt: bool,
) -> (r: Result<(), SessionError>)
    requires
        appendix_spec(cv(old(code)@), queue_view(queue@), jmp_by_locs@) is Some,
    ensures
        ({
            let result = appendix_spec(cv(old(code)@), queue_view(queue@), jmp_by_locs@).unwrap();
            match r {
                Ok(_) => result == Ok::<Seq<LineV>, SessionError>(cv(final(code)@)),
                Err(e) => result == Err::<Seq<LineV>, SessionError>(e),
            }
        }),
        final(code)@.len() >= old(code)@.len(),
{
    let ghost full = appendix_spec(cv(old(code)@), queue_view(queue@), jmp_by_locs@).unwrap();
    let ghost q0 = queue_view(queue@);
    let ghost w0 = jmp_by_locs@;
    let mut worklist: Vec<usize> = Vec::new();
    let mut c0: usize = 0;
    while c0 < jmp_by_locs.len()
        invariant
            c0 <= jmp_by_locs@.len(),
            worklist@ == jmp_by_locs@.take(c0 as int),
        decreases jmp_by_locs@.len() - c0,
    {
        worklist.push(jmp_by_locs[c0]);
        c0 = c0 + 1;
        proof {
            assert(worklist@ =~= jmp_by_locs@.take(c0 as int));
        }
    }
    proof {
        assert(worklist@ =~= jmp_by_locs@);
    }
    let mut head: usize = 0;
    let mut qi: usize = 0;
    proof {
        assert(queue_view(queue@).skip(0) =~= queue_view(queue@));
        assert(worklist@.skip(0) =~= worklist@);
    }
    loop
        invariant
            head <= worklist@.len(),
            qi <= queue@.len(),
            old(code)@.len() <= code@.len(),
            q0 == queue_view(queue@),
            w0 == jmp_by_locs@,
            appendix_spec(cv(old(code)@), q0, w0) == Some(full),
            appendix_spec(
                cv(code@),
                queue_view(queue@).skip(qi as int),
                worklist@.skip(head as int),
            ) == Some(full),
        decreases queue@.len() - qi + if head < worklist@.len() {
            1int
        } else {
            0int
        },
    {
        if head >= worklist.len() {
            proof {
                assert(worklist@.skip(head as int) =~= Seq::<usize>::empty());
                assert(full == Ok::<Seq<LineV>, SessionError>(cv(code@)));
                assert(q0 == queue_view(queue@));
                assert(w0 == jmp_by_locs@);
                assert(appendix_spec(cv(old(code)@), q0, w0) == Some(full));
                assert(appendix_spec(cv(old(code)@), queue_view(queue@), jmp_by_locs@)
                    == Some(full));
            }
            return Ok(());
        }
        let ghost cv0 = cv(code@);
        let ghost qs = queue_view(queue@).skip(qi as int);
        let ghost ws = worklist@.skip(head as int);
        let qlen = queue.len();
        proof {
            assert(ws[0] == worklist@[head as int]);
            if qi >= queue@.len() {
                assert(qs =~= Seq::<Option<CompiledBlockV>>::empty());
            }
            assert(qs.len() > 0);
        }
        let jmp_by_offset = worklist[head];
        head = head + 1;
        let code_len = code.len();
        let arity: usize = match &code[jmp_by_offset] {
            Line::JmpBy(a, _) => *a,
            _ => unreached(),
        };
        code[jmp_by_offset] = Line::JmpBy(arity, code_len - jmp_by_offset);
        let ghost patched = cv(code@);
        proof {
            assert(patched =~= cv0.update(
                jmp_by_offset as int,
                LineV::JmpBy(cv0[jmp_by_offset as int]->JmpBy_0, (cv0.len() - jmp_by_offset) as usize),
            ));
            assert(qs[0] == queue_view(queue@)[qi as int]);
            assert(queue_view(queue@)[qi as int] == spec_relation_block(&queue@[qi as int]));
        }
        let decl = match compile_relation(&queue[qi]) {
            Ok(b) => b,
            Err(e) => {
                proof {
                    assert(appendix_spec(cv0, qs, ws) == Some(full));
                    assert(full == Err::<Seq<LineV>, SessionError>(SessionError::ExpectedRel));
                }
                return Err(e);
            },
        };
        let ghost declv = decl@;
        qi = qi + 1;
        proof {
            assert(appendix_spec(cv0, qs, ws) == Some(full));
            assert(forall|k2: int|
                0 <= k2 < declv.jmp_by_locs.len() ==> declv.jmp_by_locs[k2] + patched.len()
                    <= usize::MAX);
            assert(patched.len() + declv.code.len() <= usize::MAX);
        }
        let ghost wpre = worklist@;
        let mut k: usize = 0;
        let base = code.len();
        while k < decl.jmp_by_locs.len()
            invariant
                k <= decl.jmp_by_locs@.len(),
                base == code@.len(),
                cv(code@) == patched,
                declv == decl@,
                qs[0] == Some(declv),
                forall|k2: int|
                    0 <= k2 < declv.jmp_by_locs.len() ==> declv.jmp_by_locs[k2] + patched.len()
                        <= usize::MAX,
                worklist@ == wpre + decl.jmp_by_locs@.subrange(0, k as int).map_values(
                    |o: usize| (o + base) as usize,
                ),
            decreases decl.jmp_by_locs@.len() - k,
        {
            let off = decl.jmp_by_locs[k];
            proof {
                assert(declv.jmp_by_locs[k as int] + patched.len() <= usize::MAX);
            }
            worklist.push(off + base);
            k = k + 1;
            proof {
                assert(worklist@ =~= wpre + decl.jmp_by_locs@.subrange(0, k as int).map_values(
                    |o: usize| (o + base) as usize,
                ));
            }
        }
        let newlines = copy_lines(&decl.code);
        splice_tail(code, newlines, 0);
        proof {
            assert(decl.jmp_by_locs@.subrange(0, decl.jmp_by_locs@.len() as int)
                =~= decl.jmp_by_locs@);
            assert(cv(code@) =~= patched + declv.code);
            assert(queue_view(queue@).skip(qi as int) =~= qs.drop_first());
            assert(worklist@.skip(head as int) =~= ws.drop_first()
                + declv.jmp_by_locs.map_values(|o: usize| (o + patched.len()) as usize));
        }
    }
}

/// The code and skeleton of one clause compiled in isolation.
#[derive(Debug)]
pub struct StandaloneCompileResult {
    pub clause_code: Vec<Line>,
    pub standalone_skeleton: Vec<ClauseIndexInfo>,
}

/// Compiles one clause standalone: drains the clause's appendix queue into
/// its generated block and hands back the block with the skeleton entries
/// the generator produced.
pub fn compile_standalone_clause(
    clause: CompiledBlock,
    queue: Vec<TopLevel>,
    non_counted_bt: bool,
) -> (r: Result<StandaloneCompileResult, SessionError>)
    requires
        appendix_spec(clause@.code, queue_view(queue@), clause@.jmp_by_locs) is Some,
    ensures
        ({
            let result = appendix_spec(clause@.code, queue_view(queue@), clause@.jmp_by_locs)
                .unwrap();
            match r {
                Ok(sc) => result == Ok::<Seq<LineV>, SessionError>(cv(sc.clause_code@))
                    && sc.standalone_skeleton@ == clause@.clauses,
                Err(e) => result == Err::<Seq<LineV>, SessionError>(e),
            }
        }),
{
    let CompiledBlock { code, clauses, jmp_by_locs } = clause;
    let mut clause_code = code;
    match compile_appendix(&mut clause_code, queue, jmp_by_locs, non_counted_bt) {
        Ok(_) => Ok(
            StandaloneCompileResult { clause_code, standalone_skeleton: clauses },
        ),
        Err(e) => Err(e),
    }
}

/// Whether replacing the entry point of (target, key) deserves the
/// "overwriting" warning: an already-defined predicate outside the
/// protected `builtins` and `loader` modules is being overwritten.
pub fn needs_overwrite_warning(
    compilation_target: &CompilationTarget,
    code_ptr: IndexPtr,
    key: &PredicateKey,
) -> (r: bool)
    ensures
        r == spec_needs_overwrite_warning(*compilation_target, code_ptr),
{
    match compilation_target {
        CompilationTarget::Module(m) => {
            if *m == crate::skeleton::BUILTINS_MODULE || *m == crate::skeleton::LOADER_MODULE {
                return false;
            }
        },
        CompilationTarget::User => {},
    }
    match code_ptr {
        IndexPtr::DynamicUndefined => false,
        IndexPtr::Undefined => false,
        _ => true,
    }
}

/// The warning discipline: protected modules and undefined entries are
/// silent.
pub open spec fn spec_needs_overwrite_warning(
    compilation_target: CompilationTarget,
    code_ptr: IndexPtr,
) -> bool {
    &&& !(compilation_target == CompilationTarget::Module(crate::skeleton::BUILTINS_MODULE))
    &&& !(compilation_target == CompilationTarget::Module(crate::skeleton::LOADER_MODULE))
    &&& !(code_ptr is DynamicUndefined)
    &&& !(code_ptr is Undefined)
}


/// A batch of clauses of one predicate awaiting compilation: the block the
/// external generator emitted for the whole batch, its appendix queue, and
/// the compilation target the predicate is stored under.
#[derive(Debug)]
pub struct PredicateQueue {
    pub compilation_target: CompilationTarget,
    pub block: CompiledBlock,
    pub queue: Vec<TopLevel>,
}

/// The plan of `LoadState::compile` once the appendix queue has drained
/// into code `res`: the skeleton entries shifted to their absolute
/// positions, the parallel mirror locations, and the entry point.
pub open spec fn compile_shift_ok(
    clauses: Seq<ClauseIndexInfo>,
    code_len: usize,
) -> bool {
    forall|i: int|
        0 <= i < clauses.len() ==> #[trigger] clauses[i].clause_start + code_len <= usize::MAX
            && (match clauses[i].opt_arg_index_key.spec_switch_on_term_loc() {
            Some(loc) => loc + code_len <= usize::MAX,
            None => true,
        })
}

/// The skeleton entries of a fresh block, re-based at `code_len`.
pub open spec fn shifted_clauses(
    clauses: Seq<ClauseIndexInfo>,
    code_len: usize,
) -> Seq<ClauseIndexInfo> {
    clauses.map_values(
        |c: ClauseIndexInfo| ClauseIndexInfo {
            opt_arg_index_key: c.opt_arg_index_key.spec_shifted(code_len),
            clause_start: (c.clause_start + code_len) as usize,
        },
    )
}

/// The mirror locations of a fresh block: its clauses' absolute starts.
pub open spec fn shifted_locs(clauses: Seq<ClauseIndexInfo>, code_len: usize) -> Seq<usize> {
    clauses.map_values(|c: ClauseIndexInfo| (c.clause_start + code_len) as usize)
}

impl LoadState {
    /// Registers a fresh skeleton for (target, key), journalling the
    /// registration.
    pub fn add_extensible_predicate(
        &mut self,
        key: PredicateKey,
        skeleton: PredicateSkeleton,
        compilation_target: CompilationTarget,
    )
        ensures
            final(self).skeletons@ == old(self).skeletons@.push(
                SkeletonEntry { target: compilation_target, key, skeleton },
            ),
            final(self).retraction_info.records@ == old(self).retraction_info.records@.push(
                RetractionRecord::AddedExtensiblePredicate(compilation_target, key),
            ),
            final(self).retraction_info.orig_code_extent == old(
                self,
            ).retraction_info.orig_code_extent,
            final(self).code == old(self).code,
            final(self).local_skeletons == old(self).local_skeletons,
            final(self).code_index == old(self).code_index,
            final(self).compilation_target == old(self).compilation_target,
            final(self).global_clock == old(self).global_clock,
    {
        self.skeletons.push(SkeletonEntry { target: compilation_target, key, skeleton });
        self.retraction_info.push_record(
            RetractionRecord::AddedExtensiblePredicate(compilation_target, key),
        );
    }

    /// Registers a fresh local shadow skeleton for (local target, target,
    /// key), journalling the registration.
    pub fn add_local_extensible_predicate(
        &mut self,
        compilation_target: CompilationTarget,
        key: PredicateKey,
        skeleton: PredicateSkeleton,
    )
        ensures
            final(self).local_skeletons@ == old(self).local_skeletons@.push(
                crate::machine::LocalSkeletonEntry {
                    local_target: old(self).compilation_target,
                    target: compilation_target,
                    key,
                    skeleton,
                },
            ),
            final(self).retraction_info.records@ == old(self).retraction_info.records@.push(
                RetractionRecord::AddedLocalExtensiblePredicate(
                    old(self).compilation_target,
                    compilation_target,
                    key,
                ),
            ),
            final(self).retraction_info.orig_code_extent == old(
                self,
            ).retraction_info.orig_code_extent,
            final(self).code == old(self).code,
            final(self).skeletons == old(self).skeletons,
            final(self).code_index == old(self).code_index,
            final(self).compilation_target == old(self).compilation_target,
            final(self).global_clock == old(self).global_clock,
    {
        let local_target = self.compilation_target;
        self.local_skeletons.push(
            crate::machine::LocalSkeletonEntry {
                local_target,
                target: compilation_target,
                key,
                skeleton,
            },
        );
        self.retraction_info.push_record(
            RetractionRecord::AddedLocalExtensiblePredicate(
                local_target,
                compilation_target,
                key,
            ),
        );
    }

    /// Compiles a predicate batch: drains the appendix into the generated
    /// block, re-bases the block's skeleton entries at the end of the code
    /// vector, splices the block there, extends (or registers) the
    /// predicate's skeleton and its local shadow, and registers the entry
    /// point — one line past a leading stub `TryMeElse(0)`.
    #[verifier::rlimit(100)]
    #[verifier::spinoff_prover]
    pub fn compile(
        &mut self,
        key: PredicateKey,
        predicates: PredicateQueue,
        settings: CodeGenSettings,
    ) -> (r: Result<(), SessionError>)
        requires
            appendix_spec(
                predicates.block@.code,
                queue_view(predicates.queue@),
                predicates.block@.jmp_by_locs,
            ) is Some,
            ({
                let res = appendix_spec(
                    predicates.block@.code,
                    queue_view(predicates.queue@),
                    predicates.block@.jmp_by_locs,
                ).unwrap();
                res is Ok ==> {
                    &&& compile_shift_ok(predicates.block@.clauses, old(self).code@.len() as usize)
                    &&& old(self).code@.len() + res.unwrap().len() + 1 <= usize::MAX
                }
            }),
        ensures
            final(self).compilation_target == old(self).compilation_target,
            final(self).global_clock == old(self).global_clock,
            final(self).code@.len() >= old(self).code@.len(),
            final(self).retraction_info.records@.take(
                old(self).retraction_info.records@.len() as int,
            ) == old(self).retraction_info.records@,
            final(self).retraction_info.records@.len() >= old(
                self,
            ).retraction_info.records@.len(),
            final(self).retraction_info.orig_code_extent == old(
                self,
            ).retraction_info.orig_code_extent,
            ({
                let res = appendix_spec(
                    predicates.block@.code,
                    queue_view(predicates.queue@),
                    predicates.block@.jmp_by_locs,
                ).unwrap();
                let t1 = if ci_find(
                    old(self).code_index@,
                    predicates.compilation_target,
                    key,
                ) is Some {
                    old(self).code_index@
                } else {
                    old(self).code_index@.push(
                        crate::machine::CodeIndexEntry {
                            target: predicates.compilation_target,
                            key,
                            ptr: IndexPtr::Undefined,
                        },
                    )
                };
                let slot = ci_find(t1, predicates.compilation_target, key).unwrap();
                match r {
                    Err(e) => res == Err::<Seq<LineV>, SessionError>(e) && final(self).code
                        == old(self).code && final(self).skeletons == old(self).skeletons
                        && final(self).local_skeletons == old(self).local_skeletons
                        && final(self).code_index@ == t1,
                    Ok(_) => {
                        &&& res is Ok
                        &&& cv(final(self).code@) == cv(old(self).code@) + res.unwrap()
                        &&& ({
                            // the entry point: one line past a leading stub
                            let bump: int = if settings.is_extensible && res.unwrap().len() > 0
                                && res.unwrap()[0] == LineV::Choice(
                                ChoiceInstruction::TryMeElse(0),
                            ) {
                                1
                            } else {
                                0
                            };
                            let ptr = if settings.spec_is_dynamic() {
                                IndexPtr::DynamicIndex((old(self).code@.len() + bump) as usize)
                            } else {
                                IndexPtr::Index((old(self).code@.len() + bump) as usize)
                            };
                            final(self).code_index@ == t1.update(
                                slot,
                                crate::machine::CodeIndexEntry {
                                    target: predicates.compilation_target,
                                    key,
                                    ptr,
                                },
                            )
                        })
                        &&& (!settings.is_extensible ==> final(self).skeletons == old(
                            self,
                        ).skeletons && final(self).local_skeletons == old(self).local_skeletons)
                        &&& (settings.is_extensible ==> {
                            let shifted = shifted_clauses(
                                predicates.block@.clauses,
                                old(self).code@.len() as usize,
                            );
                            let locs = shifted_locs(
                                predicates.block@.clauses,
                                old(self).code@.len() as usize,
                            );
                            match skel_find(
                                old(self).skeletons@,
                                predicates.compilation_target,
                                key,
                            ) {
                                Some(si) => {
                                    &&& forall|j: int|
                                        0 <= j < old(self).skeletons@.len() && j != si
                                            ==> final(self).skeletons@[j] == old(
                                            self,
                                        ).skeletons@[j]
                                    &&& final(self).skeletons@[si].target == old(
                                        self,
                                    ).skeletons@[si].target
                                    &&& final(self).skeletons@[si].key == old(
                                        self,
                                    ).skeletons@[si].key
                                    &&& final(self).skeletons@[si].skeleton@.clause_assert_margin
                                        == old(
                                        self,
                                    ).skeletons@[si].skeleton@.clause_assert_margin
                                    &&& final(self).skeletons@[si].skeleton@.is_dynamic == old(
                                        self,
                                    ).skeletons@[si].skeleton@.is_dynamic
                                    &&& final(self).skeletons@[si].skeleton@.is_multifile
                                        == old(self).skeletons@[si].skeleton@.is_multifile
                                    &&& final(self).skeletons@.len()
                                        == old(self).skeletons@.len()
                                    &&& final(self).skeletons@[si].skeleton@.clauses == old(
                                        self,
                                    ).skeletons@[si].skeleton@.clauses + shifted
                                    &&& final(self).skeletons@[si].skeleton@.clause_clause_locs
                                        == old(
                                        self,
                                    ).skeletons@[si].skeleton@.clause_clause_locs + locs
                                },
                                None => {
                                    &&& forall|j: int|
                                        0 <= j < old(self).skeletons@.len()
                                            ==> final(self).skeletons@[j] == old(
                                            self,
                                        ).skeletons@[j]
                                    &&& final(self).skeletons@.len()
                                        == old(self).skeletons@.len() + 1
                                    &&& final(self).skeletons@.last().target
                                        == predicates.compilation_target
                                    &&& final(self).skeletons@.last().key == key
                                    &&& final(self).skeletons@.last().skeleton@.clauses
                                        == shifted
                                    &&& final(self).skeletons@
                                        .last().skeleton@.clause_clause_locs == locs
                                    &&& final(self).skeletons@.last().skeleton@.is_dynamic
                                        == settings.spec_is_dynamic()
                                    &&& final(self).skeletons@
                                        .last().skeleton@.clause_assert_margin == 0
                                    &&& !final(self).skeletons@.last().skeleton@.is_multifile
                                },
                            }
                        })
                        &&& (settings.is_extensible ==> {
                            let locs = shifted_locs(
                                predicates.block@.clauses,
                                old(self).code@.len() as usize,
                            );
                            match crate::machine::local_find(
                                old(self).local_skeletons@,
                                old(self).compilation_target,
                                predicates.compilation_target,
                                key,
                            ) {
                                Some(li) => {
                                    &&& forall|j: int|
                                        0 <= j < old(self).local_skeletons@.len() && j != li
                                            ==> final(self).local_skeletons@[j] == old(
                                            self,
                                        ).local_skeletons@[j]
                                    &&& final(self).local_skeletons@.len() == old(
                                        self,
                                    ).local_skeletons@.len()
                                    &&& final(self).local_skeletons@[li]
                                        .skeleton@.clause_clause_locs == old(
                                        self,
                                    ).local_skeletons@[li].skeleton@.clause_clause_locs + locs
                                },
                                None => {
                                    &&& final(self).local_skeletons@.len() == old(
                                        self,
                                    ).local_skeletons@.len() + 1
                                    &&& final(self).local_skeletons@.last().local_target
                                        == old(self).compilation_target
                                    &&& final(self).local_skeletons@.last().target
                                        == predicates.compilation_target
                                    &&& final(self).local_skeletons@.last().key == key
                                    &&& final(self).local_skeletons@
                                        .last().skeleton@.clause_clause_locs == locs
                                    &&& final(self).local_skeletons@
                                        .last().skeleton@.clauses == Seq::<
                                        ClauseIndexInfo,
                                    >::empty()
                                },
                            }
                        })
                    },
                }
            }),
    {
        let ghost res = appendix_spec(
            predicates.block@.code,
            queue_view(predicates.queue@),
            predicates.block@.jmp_by_locs,
        ).unwrap();
        let PredicateQueue { compilation_target: pred_target, block, queue } = predicates;
        let CompiledBlock { code: block_code, clauses: block_clauses, jmp_by_locs } = block;
        proof {
            lemma_ci_find(self.code_index@, pred_target, key);
        }
        let ci_pos = get_or_insert_code_index(&mut self.code_index, pred_target, key);
        let code_len = self.code.len();
        let mut code_ptr = code_len;
        let mut code = block_code;
        match compile_appendix(&mut code, queue, jmp_by_locs, settings.non_counted_bt) {
            Ok(_) => {},
            Err(e) => {
                return Err(e);
            },
        }
        if settings.is_extensible {
            let mut shifted: Vec<ClauseIndexInfo> = Vec::new();
            let mut locs: Vec<usize> = Vec::new();
            let mut i: usize = 0;
            while i < block_clauses.len()
                invariant
                    i <= block_clauses@.len(),
                    compile_shift_ok(block_clauses@, code_len),
                    shifted@ == shifted_clauses(block_clauses@, code_len).take(i as int),
                    locs@ == shifted_locs(block_clauses@, code_len).take(i as int),
                decreases block_clauses@.len() - i,
            {
                let mut entry = block_clauses[i];
                entry.opt_arg_index_key.shift(code_len);
                entry.clause_start = entry.clause_start + code_len;
                shifted.push(entry);
                locs.push(entry.clause_start);
                i = i + 1;
                proof {
                    assert(shifted@ =~= shifted_clauses(block_clauses@, code_len).take(i as int));
                    assert(locs@ =~= shifted_locs(block_clauses@, code_len).take(i as int));
                }
            }
            proof {
                assert(shifted@ =~= shifted_clauses(block_clauses@, code_len));
                assert(locs@ =~= shifted_locs(block_clauses@, code_len));
            }
            if code.len() > 0 {
                let bump = match &code[0] {
                    Line::Choice(crate::instructions::ChoiceInstruction::TryMeElse(0)) => true,
                    _ => false,
                };
                if bump {
                    code_ptr = code_ptr + 1;
                }
            }
            proof {
                lemma_skel_find(self.skeletons@, pred_target, key);
            }
            match skeleton_pos(&self.skeletons, pred_target, key) {
                Some(si) => {
                    let mut skel = PredicateSkeleton::new();
                    core::mem::swap(&mut skel, &mut self.skeletons[si].skeleton);
                    let skel_len = skel.clauses.len();
                    self.retraction_info.push_record(
                        RetractionRecord::SkeletonClauseTruncateBack(
                            pred_target,
                            key,
                            skel_len,
                        ),
                    );
                    let mut j: usize = 0;
                    let ghost pre_clauses = skel.clauses@;
                    let ghost pre_locs = crate::locs::locs_values(&skel.clause_clause_locs);
                    let ghost pre_margin = skel@.clause_assert_margin;
                    let ghost pre_dyn = skel@.is_dynamic;
                    let ghost pre_multi = skel@.is_multifile;
                    while j < shifted.len()
                        invariant
                            j <= shifted@.len(),
                            skel.clauses@ == pre_clauses + shifted@.take(j as int),
                            crate::locs::locs_values(&skel.clause_clause_locs) == pre_locs
                                + locs@.take(j as int),
                            skel@.clause_assert_margin == pre_margin,
                            skel@.is_dynamic == pre_dyn,
                            skel@.is_multifile == pre_multi,
                            locs@.len() == shifted@.len(),
                        decreases shifted@.len() - j,
                    {
                        skel.clauses.push(shifted[j]);
                        crate::locs::locs_push_back(&mut skel.clause_clause_locs, locs[j]);
                        j = j + 1;
                        proof {
                            assert(skel.clauses@ =~= pre_clauses + shifted@.take(j as int));
                            assert(crate::locs::locs_values(&skel.clause_clause_locs)
                                =~= pre_locs + locs@.take(j as int));
                        }
                    }
                    proof {
                        assert(skel.clauses@ =~= pre_clauses + shifted@);
                        assert(crate::locs::locs_values(&skel.clause_clause_locs) =~= pre_locs
                            + locs@);
                    }
                    core::mem::swap(&mut skel, &mut self.skeletons[si].skeleton);
                },
                None => {
                    let mut skel = PredicateSkeleton::new();
                    skel.is_dynamic = settings.is_dynamic();
                    let mut j: usize = 0;
                    while j < shifted.len()
                        invariant
                            j <= shifted@.len(),
                            skel.clauses@ == shifted@.take(j as int),
                            crate::locs::locs_values(&skel.clause_clause_locs) == locs@.take(
                                j as int,
                            ),
                            skel.clause_assert_margin == 0,
                            skel.is_dynamic == settings.spec_is_dynamic(),
                            !skel.is_multifile,
                            locs@.len() == shifted@.len(),
                        decreases shifted@.len() - j,
                    {
                        skel.clauses.push(shifted[j]);
                        crate::locs::locs_push_back(&mut skel.clause_clause_locs, locs[j]);
                        j = j + 1;
                        proof {
                            assert(skel.clauses@ =~= shifted@.take(j as int));
                            assert(crate::locs::locs_values(&skel.clause_clause_locs)
                                =~= locs@.take(j as int));
                        }
                    }
                    proof {
                        assert(skel.clauses@ =~= shifted@);
                        assert(crate::locs::locs_values(&skel.clause_clause_locs) =~= locs@);
                    }
                    self.add_extensible_predicate(key, skel, pred_target);
                },
            }
            let lt = self.compilation_target;
            proof {
                crate::machine::lemma_local_find(self.local_skeletons@, lt, pred_target, key);
            }
            match crate::machine::local_skeleton_pos(
                &self.local_skeletons,
                lt,
                pred_target,
                key,
            ) {
                Some(li) => {
                    proof {
                        crate::machine::lemma_local_find(
                            self.local_skeletons@,
                            lt,
                            pred_target,
                            key,
                        );
                    }
                    let mut lskel = PredicateSkeleton::new();
                    core::mem::swap(&mut lskel, &mut self.local_skeletons[li].skeleton);
                    let llen = crate::locs::locs_len(&lskel.clause_clause_locs);
                    self.retraction_info.push_record(
                        RetractionRecord::SkeletonLocalClauseTruncateBack(
                            lt,
                            pred_target,
                            key,
                            llen,
                        ),
                    );
                    let ghost pre_llocs = crate::locs::locs_values(&lskel.clause_clause_locs);
                    let mut j: usize = 0;
                    while j < locs.len()
                        invariant
                            j <= locs@.len(),
                            crate::locs::locs_values(&lskel.clause_clause_locs) == pre_llocs
                                + locs@.take(j as int),
                        decreases locs@.len() - j,
                    {
                        crate::locs::locs_push_back(&mut lskel.clause_clause_locs, locs[j]);
                        j = j + 1;
                        proof {
                            assert(crate::locs::locs_values(&lskel.clause_clause_locs)
                                =~= pre_llocs + locs@.take(j as int));
                        }
                    }
                    proof {
                        assert(crate::locs::locs_values(&lskel.clause_clause_locs)
                            =~= pre_llocs + locs@);
                    }
                    core::mem::swap(&mut lskel, &mut self.local_skeletons[li].skeleton);
                },
                None => {
                    let mut lskel = PredicateSkeleton::new();
                    let mut j: usize = 0;
                    while j < locs.len()
                        invariant
                            j <= locs@.len(),
                            crate::locs::locs_values(&lskel.clause_clause_locs) == locs@.take(
                                j as int,
                            ),
                            lskel.clauses@ == Seq::<ClauseIndexInfo>::empty(),
                        decreases locs@.len() - j,
                    {
                        crate::locs::locs_push_back(&mut lskel.clause_clause_locs, locs[j]);
                        j = j + 1;
                        proof {
                            assert(crate::locs::locs_values(&lskel.clause_clause_locs)
                                =~= locs@.take(j as int));
                        }
                    }
                    proof {
                        assert(crate::locs::locs_values(&lskel.clause_clause_locs) =~= locs@);
                    }
                    self.add_local_extensible_predicate(pred_target, key, lskel);
                },
            }
        }
        let new_ptr = if settings.is_dynamic() {
            IndexPtr::DynamicIndex(code_ptr)
        } else {
            IndexPtr::Index(code_ptr)
        };
        proof {
            lemma_ci_find(self.code_index@, pred_target, key);
        }
        set_code_index(&mut self.retraction_info, &mut self.code_index, ci_pos, new_ptr);
        splice_tail(&mut self.code, code, 0);
        proof {
            assert(final(self).retraction_info.records@.take(
                old(self).retraction_info.records@.len() as int,
            ) =~= old(self).retraction_info.records@);
        }
        Ok(())
    }
}


/// The skeleton view after the incoming clause's entry is pushed at the
/// back, with its mirror location.
pub open spec fn skel_appended(
    skel: crate::skeleton::PredicateSkeletonV,
    cii: ClauseIndexInfo,
    code_len: usize,
) -> crate::skeleton::PredicateSkeletonV {
    crate::skeleton::PredicateSkeletonV {
        clauses: skel.clauses.push(cii),
        clause_clause_locs: skel.clause_clause_locs.push(code_len),
        clause_assert_margin: skel.clause_assert_margin,
        is_dynamic: skel.is_dynamic,
        is_multifile: skel.is_multifile,
    }
}

/// The skeleton view after the incoming clause's entry is pushed at the
/// front, with its mirror location; the assert margin grows.
pub open spec fn skel_prepended(
    skel: crate::skeleton::PredicateSkeletonV,
    cii: ClauseIndexInfo,
    code_len: usize,
) -> crate::skeleton::PredicateSkeletonV {
    crate::skeleton::PredicateSkeletonV {
        clauses: seq![cii] + skel.clauses,
        clause_clause_locs: seq![code_len] + skel.clause_clause_locs,
        clause_assert_margin: (skel.clause_assert_margin + 1) as usize,
        is_dynamic: skel.is_dynamic,
        is_multifile: skel.is_multifile,
    }
}

impl LoadState {
    /// Adds one clause to an existing predicate definition (`assertz` or
    /// `asserta`): the clause is compiled standalone, its skeleton entry
    /// joins the predicate's skeleton at the demanded end, and the
    /// generated code is integrated by `append_compiled_clause` or
    /// `prepend_compiled_clause`.  A predicate without a live definition
    /// is compiled afresh instead.
    #[verifier::rlimit(100)]
    #[verifier::spinoff_prover]
    pub fn incremental_compile_clause(
        &mut self,
        key: PredicateKey,
        clause: CompiledBlock,
        queue: Vec<TopLevel>,
        compilation_target: CompilationTarget,
        non_counted_bt: bool,
        append_or_prepend: AppendOrPrepend,
    ) -> (r: Result<(), SessionError>)
        requires
            appendix_spec(clause@.code, queue_view(queue@), clause@.jmp_by_locs) is Some,
            ({
                let res = appendix_spec(clause@.code, queue_view(queue@), clause@.jmp_by_locs)
                    .unwrap();
                match skel_find(old(self).skeletons@, compilation_target, key) {
                    Some(si) => {
                        let skel = old(self).skeletons@[si].skeleton@;
                        if skel.clauses.len() > 0 {
                            res is Ok ==> {
                                &&& clause@.clauses.len() >= 1
                                &&& skel.clause_assert_margin + 1 <= usize::MAX
                                &&& skel.clauses.len() == skel.clause_clause_locs.len()
                                &&& (append_or_prepend.spec_is_append() ==> append_plan(
                                    cv(old(self).code@),
                                    res.unwrap(),
                                    skel_appended(
                                        skel,
                                        clause@.clauses.last(),
                                        old(self).code@.len() as usize,
                                    ),
                                    old(self).global_clock,
                                ) is Some)
                                &&& (!append_or_prepend.spec_is_append() ==> prepend_plan(
                                    cv(old(self).code@),
                                    res.unwrap(),
                                    skel_prepended(
                                        skel,
                                        clause@.clauses.last(),
                                        old(self).code@.len() as usize,
                                    ),
                                    old(self).global_clock,
                                ) is Some)
                            }
                        } else {
                            res is Ok ==> compile_shift_ok(
                                clause@.clauses,
                                old(self).code@.len() as usize,
                            ) && old(self).code@.len() + res.unwrap().len() + 1 <= usize::MAX
                        }
                    },
                    None => res is Ok ==> compile_shift_ok(
                        clause@.clauses,
                        old(self).code@.len() as usize,
                    ) && old(self).code@.len() + res.unwrap().len() + 1 <= usize::MAX,
                }
            }),
        ensures
            final(self).compilation_target == old(self).compilation_target,
            final(self).global_clock == old(self).global_clock,
            final(self).code@.len() >= old(self).code@.len(),
            final(self).retraction_info.records@.take(
                old(self).retraction_info.records@.len() as int,
            ) == old(self).retraction_info.records@,
            final(self).retraction_info.records@.len() >= old(
                self,
            ).retraction_info.records@.len(),
            final(self).retraction_info.orig_code_extent == old(
                self,
            ).retraction_info.orig_code_extent,
            r is Ok <==> appendix_spec(
                clause@.code,
                queue_view(queue@),
                clause@.jmp_by_locs,
            ).unwrap() is Ok,
            r is Err ==> appendix_spec(
                clause@.code,
                queue_view(queue@),
                clause@.jmp_by_locs,
            ).unwrap() == Err::<Seq<LineV>, SessionError>(r->Err_0),
            r is Err ==> final(self).skeletons == old(self).skeletons && final(self).code
                == old(self).code,
            ({
                let res = appendix_spec(clause@.code, queue_view(queue@), clause@.jmp_by_locs)
                    .unwrap();
                match skel_find(old(self).skeletons@, compilation_target, key) {
                    Some(si) => {
                        old(self).skeletons@[si].skeleton@.clauses.len() > 0 && res is Ok && r
                            is Ok ==> {
                            let skel = old(self).skeletons@[si].skeleton@;
                            let cii = clause@.clauses.last();
                            let code_len = old(self).code@.len() as usize;
                            &&& final(self).skeletons@.len() == old(self).skeletons@.len()
                            &&& forall|j: int|
                                0 <= j < old(self).skeletons@.len() && j != si ==> final(self).skeletons@[j] == old(self).skeletons@[j]
                            &&& final(self).skeletons@[si].target == old(
                                self,
                            ).skeletons@[si].target
                            &&& final(self).skeletons@[si].key == old(self).skeletons@[si].key
                            &&& final(self).skeletons@[si].skeleton@.clause_assert_margin == if
                            append_or_prepend.spec_is_append() {
                                skel.clause_assert_margin as int
                            } else {
                                skel.clause_assert_margin + 1
                            }
                            &&& final(self).skeletons@[si].skeleton@.clause_clause_locs == if
                            append_or_prepend.spec_is_append() {
                                skel.clause_clause_locs.push(code_len)
                            } else {
                                seq![code_len] + skel.clause_clause_locs
                            }
                            &&& ({
                                let t1 = if ci_find(
                                    old(self).code_index@,
                                    compilation_target,
                                    key,
                                ) is Some {
                                    old(self).code_index@
                                } else {
                                    old(self).code_index@.push(
                                        crate::machine::CodeIndexEntry {
                                            target: compilation_target,
                                            key,
                                            ptr: IndexPtr::Undefined,
                                        },
                                    )
                                };
                                let slot = ci_find(t1, compilation_target, key).unwrap();
                                if append_or_prepend.spec_is_append() {
                                    let aplan = append_plan(
                                        cv(old(self).code@),
                                        res.unwrap(),
                                        skel_appended(skel, cii, code_len),
                                        old(self).global_clock,
                                    ).unwrap();
                                    &&& final(self).skeletons@[si].skeleton@.clauses
                                        == skel.clauses.push(aplan.new_entry)
                                    &&& cv(final(self).code@) == aplan.code
                                    &&& final(self).code_index@ == match aplan.result {
                                        Some(p) => t1.update(
                                            slot,
                                            crate::machine::CodeIndexEntry {
                                                target: compilation_target,
                                                key,
                                                ptr: p,
                                            },
                                        ),
                                        None => t1,
                                    }
                                } else {
                                    let pplan = prepend_plan(
                                        cv(old(self).code@),
                                        res.unwrap(),
                                        skel_prepended(skel, cii, code_len),
                                        old(self).global_clock,
                                    ).unwrap();
                                    &&& final(self).skeletons@[si].skeleton@.clauses == match
                                    pplan.new_head_start {
                                        Some(ns) => (seq![cii] + skel.clauses).update(
                                            0,
                                            pplan.entry0,
                                        ).update(
                                            1,
                                            ClauseIndexInfo {
                                                opt_arg_index_key:
                                                    skel.clauses[0].opt_arg_index_key,
                                                clause_start: ns,
                                            },
                                        ),
                                        None => (seq![cii] + skel.clauses).update(
                                            0,
                                            pplan.entry0,
                                        ),
                                    }
                                    &&& cv(final(self).code@) == pplan.code
                                    &&& final(self).code_index@ == t1.update(
                                        slot,
                                        crate::machine::CodeIndexEntry {
                                            target: compilation_target,
                                            key,
                                            ptr: pplan.result,
                                        },
                                    )
                                }
                            })
                            &&& final(self).skeletons@[si].skeleton@.is_dynamic
                                == skel.is_dynamic
                            &&& final(self).skeletons@[si].skeleton@.is_multifile
                                == skel.is_multifile
                        }
                    },
                    None => true,
                }
            }),
            // the fresh paths: a predicate without live clauses, or one not
            // yet registered, takes the batch whole as `compile` does, and
            // a prepended batch counts below the assert margin
            ({
                let res = appendix_spec(clause@.code, queue_view(queue@), clause@.jmp_by_locs)
                    .unwrap();
                let shifted = shifted_clauses(clause@.clauses, old(self).code@.len() as usize);
                let locs = shifted_locs(clause@.clauses, old(self).code@.len() as usize);
                match skel_find(old(self).skeletons@, compilation_target, key) {
                    Some(si) => {
                        let skel = old(self).skeletons@[si].skeleton@;
                        skel.clauses.len() == 0 && res is Ok && r is Ok ==> {
                            &&& cv(final(self).code@) == cv(old(self).code@) + res.unwrap()
                            &&& final(self).skeletons@.len() == old(self).skeletons@.len()
                            &&& forall|j: int|
                                0 <= j < old(self).skeletons@.len() && j != si ==> final(self).skeletons@[j] == old(self).skeletons@[j]
                            &&& final(self).skeletons@[si].target == old(
                                self,
                            ).skeletons@[si].target
                            &&& final(self).skeletons@[si].key == old(self).skeletons@[si].key
                            &&& final(self).skeletons@[si].skeleton@.clauses == skel.clauses
                                + shifted
                            &&& final(self).skeletons@[si].skeleton@.clause_clause_locs
                                == skel.clause_clause_locs + locs
                            &&& final(self).skeletons@[si].skeleton@.is_dynamic
                                == skel.is_dynamic
                            &&& final(self).skeletons@[si].skeleton@.is_multifile
                                == skel.is_multifile
                            &&& (append_or_prepend.spec_is_append() ==> final(self).skeletons@[si].skeleton@.clause_assert_margin == skel.clause_assert_margin)
                            &&& (!append_or_prepend.spec_is_append()
                                && skel.clause_assert_margin + skel.clauses.len()
                                + shifted.len() <= usize::MAX ==> final(self).skeletons@[si].skeleton@.clause_assert_margin == skel.clause_assert_margin
                                + skel.clauses.len() + shifted.len())
                        }
                    },
                    None => res is Ok && r is Ok ==> {
                        &&& cv(final(self).code@) == cv(old(self).code@) + res.unwrap()
                        &&& final(self).skeletons@.len() == old(self).skeletons@.len() + 1
                        &&& forall|j: int|
                            0 <= j < old(self).skeletons@.len() ==> final(self).skeletons@[j]
                                == old(self).skeletons@[j]
                        &&& final(self).skeletons@.last().target == compilation_target
                        &&& final(self).skeletons@.last().key == key
                        &&& final(self).skeletons@.last().skeleton@.clauses == shifted
                        &&& final(self).skeletons@.last().skeleton@.clause_clause_locs == locs
                        &&& !final(self).skeletons@.last().skeleton@.is_dynamic
                        &&& !final(self).skeletons@.last().skeleton@.is_multifile
                        &&& (append_or_prepend.spec_is_append() ==> final(self).skeletons@.last().skeleton@.clause_assert_margin == 0)
                        &&& (!append_or_prepend.spec_is_append() && shifted.len() <= usize::MAX
                            ==> final(self).skeletons@.last().skeleton@.clause_assert_margin
                            == shifted.len())
                    },
                }
            }),
    {
        let ghost res = appendix_spec(clause@.code, queue_view(queue@), clause@.jmp_by_locs)
            .unwrap();
        let ghost clause_v = clause@;
        self.record_incremental_compile(key, compilation_target, append_or_prepend);
        let ghost r0 = self.retraction_info.records@;
        proof {
            lemma_skel_find(self.skeletons@, compilation_target, key);
            assert(r0.take(old(self).retraction_info.records@.len() as int) =~= old(
                self,
            ).retraction_info.records@);
        }
        let si_opt = skeleton_pos(&self.skeletons, compilation_target, key);
        let incremental: bool = match si_opt {
            Some(si) => self.skeletons[si].skeleton.clauses.len() > 0,
            None => false,
        };
        let is_dynamic: bool = match si_opt {
            Some(si) => self.skeletons[si].skeleton.is_dynamic,
            None => false,
        };
        let settings = CodeGenSettings {
            global_clock_tick: if is_dynamic {
                Some(self.global_clock)
            } else {
                None
            },
            is_extensible: true,
            non_counted_bt,
        };
        if !incremental {
            let predicate_queue = PredicateQueue {
                compilation_target,
                block: clause,
                queue,
            };
            let r = self.compile(key, predicate_queue, settings);
            proof {
                crate::machine::lemma_prefix_chain(
                    old(self).retraction_info.records@,
                    r0,
                    self.retraction_info.records@,
                );
                if r is Ok && res is Ok {
                    match skel_find(old(self).skeletons@, compilation_target, key) {
                        Some(si) => {
                            crate::machine::lemma_skel_find_stable(
                                old(self).skeletons@,
                                self.skeletons@,
                                compilation_target,
                                key,
                                si,
                            );
                        },
                        None => {
                            lemma_skel_find(old(self).skeletons@, compilation_target, key);
                            lemma_skel_find(self.skeletons@, compilation_target, key);
                            assert(skel_find(self.skeletons@, compilation_target, key)
                                == Some(old(self).skeletons@.len() as int));
                        },
                    }
                }
            }
            let prepending = match append_or_prepend {
                AppendOrPrepend::Append => false,
                AppendOrPrepend::Prepend => true,
            };
            if prepending && r.is_ok() {
                self.count_fresh_clauses_below_margin(compilation_target, key);
            }
            return r;
        }
        let si = match si_opt {
            Some(si) => si,
            None => unreached(),
        };
        let mut standalone = match compile_standalone_clause(clause, queue, non_counted_bt) {
            Ok(sc) => sc,
            Err(e) => {
                return Err(e);
            },
        };
        let code_len = self.code.len();
        let cii = match standalone.standalone_skeleton.pop() {
            Some(cii) => cii,
            None => unreached(),
        };
        let mut skel = PredicateSkeleton::new();
        core::mem::swap(&mut skel, &mut self.skeletons[si].skeleton);
        match append_or_prepend {
            AppendOrPrepend::Append => {
                skel.clauses.push(cii);
                crate::locs::locs_push_back(&mut skel.clause_clause_locs, code_len);
                self.retraction_info.push_record(
                    RetractionRecord::SkeletonClausePopBack(compilation_target, key),
                );
                let ghost r1 = self.retraction_info.records@;
                let result = crate::machine::append_compiled_clause(
                    &mut self.code,
                    standalone.clause_code,
                    &mut skel,
                    &mut self.retraction_info,
                    self.global_clock,
                );
                let ghost r2 = self.retraction_info.records@;
                proof {
                    assert(r1.take(r0.len() as int) =~= r0);
                    crate::machine::lemma_prefix_chain(r0, r1, r2);
                    crate::machine::lemma_prefix_chain(
                        old(self).retraction_info.records@,
                        r0,
                        r2,
                    );
                }
                self.local_clause_loc_push(compilation_target, key, code_len, true);
                let ghost r3 = self.retraction_info.records@;
                let ghost aplan = crate::machine::append_plan(
                    cv(old(self).code@),
                    res.unwrap(),
                    skel_appended(
                        old(self).skeletons@[si as int].skeleton@,
                        clause_v.clauses.last(),
                        old(self).code@.len() as usize,
                    ),
                    old(self).global_clock,
                ).unwrap();
                let ghost t1 = self.code_index@;
                proof {
                    assert(r3.take(r2.len() as int) =~= r2);
                    crate::machine::lemma_prefix_chain(
                        old(self).retraction_info.records@,
                        r2,
                        r3,
                    );
                    lemma_ci_find(self.code_index@, compilation_target, key);
                    assert(result == aplan.result);
                    assert(cv(self.code@) == aplan.code);
                }
                let ci_pos = get_or_insert_code_index(
                    &mut self.code_index,
                    compilation_target,
                    key,
                );
                let ghost t2 = self.code_index@;
                proof {
                    lemma_ci_find(t2, compilation_target, key);
                    assert(ci_find(t2, compilation_target, key) == Some(ci_pos as int));
                }
                match result {
                    Some(new_code_ptr) => {
                        set_code_index(
                            &mut self.retraction_info,
                            &mut self.code_index,
                            ci_pos,
                            new_code_ptr,
                        );
                        proof {
                            assert(self.retraction_info.records@.take(r3.len() as int) =~= r3);
                            crate::machine::lemma_prefix_chain(
                                old(self).retraction_info.records@,
                                r3,
                                self.retraction_info.records@,
                            );
                        }
                    },
                    None => {},
                }
                core::mem::swap(&mut skel, &mut self.skeletons[si].skeleton);
                proof {
                    assert(self.skeletons@[si as int].skeleton@.clauses =~= old(
                        self,
                    ).skeletons@[si as int].skeleton@.clauses.push(aplan.new_entry));
                }
                Ok(())
            },
            AppendOrPrepend::Prepend => {
                skel.clauses.insert(0, cii);
                crate::locs::locs_push_front(&mut skel.clause_clause_locs, code_len);
                skel.clause_assert_margin = skel.clause_assert_margin + 1;
                self.retraction_info.push_record(
                    RetractionRecord::SkeletonClausePopFront(compilation_target, key),
                );
                let ghost r1 = self.retraction_info.records@;
                let new_code_ptr = crate::machine::prepend_compiled_clause(
                    &mut self.code,
                    compilation_target,
                    key,
                    standalone.clause_code,
                    &mut skel,
                    &mut self.retraction_info,
                    self.global_clock,
                );
                let ghost r2 = self.retraction_info.records@;
                proof {
                    assert(r1.take(r0.len() as int) =~= r0);
                    crate::machine::lemma_prefix_chain(r0, r1, r2);
                    crate::machine::lemma_prefix_chain(
                        old(self).retraction_info.records@,
                        r0,
                        r2,
                    );
                }
                self.local_clause_loc_push(compilation_target, key, code_len, false);
                let ghost r3 = self.retraction_info.records@;
                let ghost pplan = crate::machine::prepend_plan(
                    cv(old(self).code@),
                    res.unwrap(),
                    skel_prepended(
                        old(self).skeletons@[si as int].skeleton@,
                        clause_v.clauses.last(),
                        old(self).code@.len() as usize,
                    ),
                    old(self).global_clock,
                ).unwrap();
                let ghost t1 = self.code_index@;
                proof {
                    assert(r3.take(r2.len() as int) =~= r2);
                    crate::machine::lemma_prefix_chain(
                        old(self).retraction_info.records@,
                        r2,
                        r3,
                    );
                    lemma_ci_find(self.code_index@, compilation_target, key);
                    assert(new_code_ptr == pplan.result);
                    assert(cv(self.code@) == pplan.code);
                }
                let ci_pos = get_or_insert_code_index(
                    &mut self.code_index,
                    compilation_target,
                    key,
                );
                let ghost t2 = self.code_index@;
                proof {
                    lemma_ci_find(t2, compilation_target, key);
                    assert(ci_find(t2, compilation_target, key) == Some(ci_pos as int));
                }
                set_code_index(
                    &mut self.retraction_info,
                    &mut self.code_index,
                    ci_pos,
                    new_code_ptr,
                );
                proof {
                    assert(self.retraction_info.records@.take(r3.len() as int) =~= r3);
                    crate::machine::lemma_prefix_chain(
                        old(self).retraction_info.records@,
                        r3,
                        self.retraction_info.records@,
                    );
                }
                core::mem::swap(&mut skel, &mut self.skeletons[si].skeleton);
                Ok(())
            },
        }
    }

    /// Mirrors a clause's location into the local shadow skeleton,
    /// journalling the extension; registers a fresh shadow when none
    /// exists.
    fn local_clause_loc_push(
        &mut self,
        compilation_target: CompilationTarget,
        key: PredicateKey,
        code_len: usize,
        at_back: bool,
    )
        ensures
            final(self).retraction_info.records@.take(
                old(self).retraction_info.records@.len() as int,
            ) == old(self).retraction_info.records@,
            final(self).retraction_info.records@.len() >= old(
                self,
            ).retraction_info.records@.len(),
            final(self).retraction_info.orig_code_extent == old(
                self,
            ).retraction_info.orig_code_extent,
            final(self).code == old(self).code,
            final(self).skeletons == old(self).skeletons,
            final(self).code_index == old(self).code_index,
            final(self).compilation_target == old(self).compilation_target,
            final(self).global_clock == old(self).global_clock,
    {
        let lt = self.compilation_target;
        proof {
            crate::machine::lemma_local_find(self.local_skeletons@, lt, compilation_target, key);
        }
        match crate::machine::local_skeleton_pos(
            &self.local_skeletons,
            lt,
            compilation_target,
            key,
        ) {
            Some(li) => {
                proof {
                    crate::machine::lemma_local_find(
                        self.local_skeletons@,
                        lt,
                        compilation_target,
                        key,
                    );
                }
                let mut lskel = PredicateSkeleton::new();
                core::mem::swap(&mut lskel, &mut self.local_skeletons[li].skeleton);
                if at_back {
                    self.retraction_info.push_record(
                        RetractionRecord::SkeletonLocalClauseClausePopBack(
                            lt,
                            compilation_target,
                            key,
                        ),
                    );
                    crate::locs::locs_push_back(&mut lskel.clause_clause_locs, code_len);
                } else {
                    self.retraction_info.push_record(
                        RetractionRecord::SkeletonLocalClauseClausePopFront(
                            lt,
                            compilation_target,
                            key,
                        ),
                    );
                    crate::locs::locs_push_front(&mut lskel.clause_clause_locs, code_len);
                }
                core::mem::swap(&mut lskel, &mut self.local_skeletons[li].skeleton);
                proof {
                    assert(self.retraction_info.records@.take(
                        old(self).retraction_info.records@.len() as int,
                    ) =~= old(self).retraction_info.records@);
                }
            },
            None => {
                let mut lskel = PredicateSkeleton::new();
                if at_back {
                    crate::locs::locs_push_back(&mut lskel.clause_clause_locs, code_len);
                } else {
                    crate::locs::locs_push_front(&mut lskel.clause_clause_locs, code_len);
                }
                self.add_local_extensible_predicate(compilation_target, key, lskel);
                proof {
                    assert(self.retraction_info.records@.take(
                        old(self).retraction_info.records@.len() as int,
                    ) =~= old(self).retraction_info.records@);
                }
            },
        }
    }
}


/// A batch of clause blocks with their appendix queues, as views.
pub open spec fn pairs_view(
    pairs: Seq<(CompiledBlock, Vec<TopLevel>)>,
) -> Seq<(CompiledBlockV, Seq<Option<CompiledBlockV>>)> {
    pairs.map_values(|p: (CompiledBlock, Vec<TopLevel>)| (p.0@, queue_view(p.1@)))
}

/// The result of adding the clause blocks `items[i..]` one by one to a
/// live definition, each at the demanded end: the final code and the
/// final skeleton, or the first error a clause's appendix drain raises;
/// `None` when a step's integration is undefined on the state it reaches.
#[verifier::opaque]
pub open spec fn incr_chain_plan(
    codev: Seq<LineV>,
    skel: crate::skeleton::PredicateSkeletonV,
    items: Seq<(CompiledBlockV, Seq<Option<CompiledBlockV>>)>,
    i: int,
    clock: usize,
    append: bool,
) -> Option<Result<(Seq<LineV>, crate::skeleton::PredicateSkeletonV), SessionError>>
    decreases items.len() - i,
{
    if i >= items.len() {
        Some(Ok((codev, skel)))
    } else if !(0 <= i) {
        None
    } else {
        let bv = items[i].0;
        let qv = items[i].1;
        if appendix_spec(bv.code, qv, bv.jmp_by_locs) is None {
            None
        } else {
            match appendix_spec(bv.code, qv, bv.jmp_by_locs).unwrap() {
                Err(e) => Some(Err(e)),
                Ok(rcode) => {
                    if !(bv.clauses.len() >= 1 && skel.clauses.len() > 0
                        && skel.clause_assert_margin + 1 <= usize::MAX && skel.clauses.len()
                        == skel.clause_clause_locs.len() && codev.len() <= usize::MAX) {
                        None
                    } else {
                        let cii = bv.clauses.last();
                        let code_len = codev.len() as usize;
                        if append {
                            match crate::machine::append_plan(
                                codev,
                                rcode,
                                skel_appended(skel, cii, code_len),
                                clock,
                            ) {
                                None => None,
                                Some(ap) => incr_chain_plan(
                                    ap.code,
                                    crate::skeleton::PredicateSkeletonV {
                                        clauses: skel.clauses.push(ap.new_entry),
                                        clause_clause_locs: skel.clause_clause_locs.push(
                                            code_len,
                                        ),
                                        clause_assert_margin: skel.clause_assert_margin,
                                        is_dynamic: skel.is_dynamic,
                                        is_multifile: skel.is_multifile,
                                    },
                                    items,
                                    i + 1,
                                    clock,
                                    append,
                                ),
                            }
                        } else {
                            match crate::machine::prepend_plan(
                                codev,
                                rcode,
                                skel_prepended(skel, cii, code_len),
                                clock,
                            ) {
                                None => None,
                                Some(pp) => incr_chain_plan(
                                    pp.code,
                                    crate::skeleton::PredicateSkeletonV {
                                        clauses: match pp.new_head_start {
                                            Some(ns) => (seq![cii] + skel.clauses).update(
                                                0,
                                                pp.entry0,
                                            ).update(
                                                1,
                                                ClauseIndexInfo {
                                                    opt_arg_index_key:
                                                        skel.clauses[0].opt_arg_index_key,
                                                    clause_start: ns,
                                                },
                                            ),
                                            None => (seq![cii] + skel.clauses).update(
                                                0,
                                                pp.entry0,
                                            ),
                                        },
                                        clause_clause_locs: seq![code_len]
                                            + skel.clause_clause_locs,
                                        clause_assert_margin: (skel.clause_assert_margin
                                            + 1) as usize,
                                        is_dynamic: skel.is_dynamic,
                                        is_multifile: skel.is_multifile,
                                    },
                                    items,
                                    i + 1,
                                    clock,
                                    append,
                                ),
                            }
                        }
                    }
                },
            }
        }
    }
}

/// One chain step equals the singleton plan: adding the clause at `i` to
/// the state and continuing is the whole plan from `i`.
pub proof fn lemma_incr_chain_step(
    codev: Seq<LineV>,
    skel: crate::skeleton::PredicateSkeletonV,
    items: Seq<(CompiledBlockV, Seq<Option<CompiledBlockV>>)>,
    i: int,
    clock: usize,
    append: bool,
)
    requires
        0 <= i < items.len(),
    ensures
        ({
            let single = incr_chain_plan(codev, skel, seq![items[i]], 0, clock, append);
            match single {
                None => incr_chain_plan(codev, skel, items, i, clock, append) is None,
                Some(step) => match step {
                    Err(e) => incr_chain_plan(codev, skel, items, i, clock, append) == Some(
                        Err::<
                            (Seq<LineV>, crate::skeleton::PredicateSkeletonV),
                            SessionError,
                        >(e),
                    ),
                    Ok(st) => incr_chain_plan(codev, skel, items, i, clock, append)
                        == incr_chain_plan(st.0, st.1, items, i + 1, clock, append),
                },
            }
        }),
{
    reveal_with_fuel(incr_chain_plan, 3);
    let s1 = seq![items[i]];
    assert(s1[0] == items[i]);
    assert(s1.len() == 1);
    let bv = items[i].0;
    let qv = items[i].1;
    if appendix_spec(bv.code, qv, bv.jmp_by_locs) is None {
    } else {
        match appendix_spec(bv.code, qv, bv.jmp_by_locs).unwrap() {
            Err(_) => {},
            Ok(rcode) => {
                if !(bv.clauses.len() >= 1 && skel.clauses.len() > 0
                    && skel.clause_assert_margin + 1 <= usize::MAX && skel.clauses.len()
                    == skel.clause_clause_locs.len() && codev.len() <= usize::MAX) {
                } else {
                    let cii = bv.clauses.last();
                    let code_len = codev.len() as usize;
                    if append {
                        match crate::machine::append_plan(
                            codev,
                            rcode,
                            skel_appended(skel, cii, code_len),
                            clock,
                        ) {
                            None => {},
                            Some(ap) => {
                                let skel2 = crate::skeleton::PredicateSkeletonV {
                                    clauses: skel.clauses.push(ap.new_entry),
                                    clause_clause_locs: skel.clause_clause_locs.push(code_len),
                                    clause_assert_margin: skel.clause_assert_margin,
                                    is_dynamic: skel.is_dynamic,
                                    is_multifile: skel.is_multifile,
                                };
                                assert(incr_chain_plan(ap.code, skel2, s1, 1, clock, append)
                                    == Some(Ok::<
                                    (Seq<LineV>, crate::skeleton::PredicateSkeletonV),
                                    SessionError,
                                >((ap.code, skel2))));
                            },
                        }
                    } else {
                        match crate::machine::prepend_plan(
                            codev,
                            rcode,
                            skel_prepended(skel, cii, code_len),
                            clock,
                        ) {
                            None => {},
                            Some(pp) => {
                                let skel2 = crate::skeleton::PredicateSkeletonV {
                                    clauses: match pp.new_head_start {
                                        Some(ns) => (seq![cii] + skel.clauses).update(
                                            0,
                                            pp.entry0,
                                        ).update(
                                            1,
                                            ClauseIndexInfo {
                                                opt_arg_index_key:
                                                    skel.clauses[0].opt_arg_index_key,
                                                clause_start: ns,
                                            },
                                        ),
                                        None => (seq![cii] + skel.clauses).update(
                                            0,
                                            pp.entry0,
                                        ),
                                    },
                                    clause_clause_locs: seq![code_len]
                                        + skel.clause_clause_locs,
                                    clause_assert_margin: (skel.clause_assert_margin
                                        + 1) as usize,
                                    is_dynamic: skel.is_dynamic,
                                    is_multifile: skel.is_multifile,
                                };
                                assert(incr_chain_plan(pp.code, skel2, s1, 1, clock, append)
                                    == Some(Ok::<
                                    (Seq<LineV>, crate::skeleton::PredicateSkeletonV),
                                    SessionError,
                                >((pp.code, skel2))));
                            },
                        }
                    }
                }
            },
        }
    }
}

impl LoadState {
    /// Counts a freshly compiled definition's clauses below the assert
    /// margin: a whole definition entered by `asserta` is prepended, so
    /// the margin must cover it even though the fresh compilation itself
    /// never moves the margin.
    fn count_fresh_clauses_below_margin(
        &mut self,
        compilation_target: CompilationTarget,
        key: PredicateKey,
    )
        ensures
            final(self).code == old(self).code,
            final(self).local_skeletons == old(self).local_skeletons,
            final(self).code_index == old(self).code_index,
            final(self).retraction_info == old(self).retraction_info,
            final(self).compilation_target == old(self).compilation_target,
            final(self).global_clock == old(self).global_clock,
            final(self).skeletons@.len() == old(self).skeletons@.len(),
            ({
                match skel_find(old(self).skeletons@, compilation_target, key) {
                    Some(si) => {
                        &&& forall|j: int|
                            0 <= j < old(self).skeletons@.len() && j != si ==> final(self).skeletons@[j] == old(self).skeletons@[j]
                        &&& final(self).skeletons@[si].target == old(
                            self,
                        ).skeletons@[si].target
                        &&& final(self).skeletons@[si].key == old(self).skeletons@[si].key
                        &&& final(self).skeletons@[si].skeleton@.clauses == old(
                            self,
                        ).skeletons@[si].skeleton@.clauses
                        &&& final(self).skeletons@[si].skeleton@.clause_clause_locs == old(
                            self,
                        ).skeletons@[si].skeleton@.clause_clause_locs
                        &&& final(self).skeletons@[si].skeleton@.is_dynamic == old(
                            self,
                        ).skeletons@[si].skeleton@.is_dynamic
                        &&& final(self).skeletons@[si].skeleton@.is_multifile == old(
                            self,
                        ).skeletons@[si].skeleton@.is_multifile
                        &&& (old(self).skeletons@[si].skeleton@.clause_assert_margin + old(
                            self,
                        ).skeletons@[si].skeleton@.clauses.len() <= usize::MAX ==> final(self).skeletons@[si].skeleton@.clause_assert_margin == old(
                            self,
                        ).skeletons@[si].skeleton@.clause_assert_margin + old(
                            self,
                        ).skeletons@[si].skeleton@.clauses.len())
                    },
                    None => final(self).skeletons == old(self).skeletons,
                }
            }),
    {
        proof {
            lemma_skel_find(self.skeletons@, compilation_target, key);
        }
        match skeleton_pos(&self.skeletons, compilation_target, key) {
            None => {},
            Some(si) => {
                let mut sk = PredicateSkeleton::new();
                core::mem::swap(&mut sk, &mut self.skeletons[si].skeleton);
                let added = sk.clauses.len();
                if added <= usize::MAX - sk.clause_assert_margin {
                    sk.clause_assert_margin = sk.clause_assert_margin + added;
                }
                core::mem::swap(&mut sk, &mut self.skeletons[si].skeleton);
            },
        }
    }
}

} // verus!
