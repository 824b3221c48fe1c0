use wam_compile::compile::{
    needs_overwrite_warning, CompiledBlock, PredicateQueue, SessionError, TopLevel,
};
use wam_compile::instructions::{
    AppendOrPrepend, ChoiceInstruction, CodeGenSettings, Death, IndexPtr, IndexingCode,
    IndexingCodePtr, Line, NextOrFail,
};
use wam_compile::journal::RetractionInfo;
use wam_compile::machine::LoadState;
use wam_compile::skeleton::{
    ClauseIndexInfo, CompilationTarget, OptArgIndexKey, PredicateKey, PredicateSkeleton,
    BUILTINS_MODULE, LOADER_MODULE,
};
use wam_compile::walk::{lookup_constant, walk_chain};

fn fresh_state() -> LoadState {
    LoadState {
        compilation_target: CompilationTarget::User,
        code: Vec::new(),
        skeletons: Vec::new(),
        local_skeletons: Vec::new(),
        code_index: Vec::new(),
        retraction_info: RetractionInfo::new(0),
        global_clock: 0,
    }
}

fn switch_line(var: usize, constants: Vec<(u64, IndexingCodePtr)>) -> Line {
    Line::IndexingCode(IndexingCode {
        arg: 1,
        var_ptr: IndexingCodePtr::External(var),
        constants,
        structures: Vec::new(),
        buckets: Vec::new(),
    })
}

const P_NAME: u64 = 100;

fn p_key() -> PredicateKey {
    PredicateKey { name: P_NAME, arity: 1 }
}

fn static_settings() -> CodeGenSettings {
    CodeGenSettings { global_clock_tick: None, is_extensible: true, non_counted_bt: false }
}

/// The block a code generator emits for `p(1). p(2). p(3).`, indexed on
/// the first argument: a stub outer choice, the switch, and three guarded
/// clause bodies.
fn p123_block() -> CompiledBlock {
    let code = vec![
        Line::Choice(ChoiceInstruction::TryMeElse(0)),
        switch_line(
            1,
            vec![
                (1, IndexingCodePtr::External(2)),
                (2, IndexingCodePtr::External(4)),
                (3, IndexingCodePtr::External(6)),
            ],
        ),
        Line::Choice(ChoiceInstruction::TryMeElse(2)),
        Line::Body(1),
        Line::Choice(ChoiceInstruction::RetryMeElse(2)),
        Line::Body(2),
        Line::Choice(ChoiceInstruction::TrustMe(0)),
        Line::Body(3),
    ];
    let clauses = vec![
        ClauseIndexInfo {
            opt_arg_index_key: OptArgIndexKey::Constant(1, 1, 1),
            clause_start: 2,
        },
        ClauseIndexInfo {
            opt_arg_index_key: OptArgIndexKey::Constant(1, 1, 2),
            clause_start: 4,
        },
        ClauseIndexInfo {
            opt_arg_index_key: OptArgIndexKey::Constant(1, 1, 3),
            clause_start: 6,
        },
    ];
    CompiledBlock { code, clauses, jmp_by_locs: Vec::new() }
}

fn compile_p123(st: &mut LoadState) {
    let predicates = PredicateQueue {
        compilation_target: CompilationTarget::User,
        block: p123_block(),
        queue: Vec::new(),
    };
    st.compile(p_key(), predicates, static_settings()).unwrap();
}

#[test]
fn static_compile_builds_skeleton_and_index() {
    let mut st = fresh_state();
    compile_p123(&mut st);
    assert_eq!(st.skeletons.len(), 1);
    let skel = &st.skeletons[0].skeleton;
    assert_eq!(skel.clauses.len(), 3);
    for c in skel.clauses.iter() {
        assert_eq!(c.opt_arg_index_key.arg_num(), 1);
    }
    assert_eq!(skel.clauses[0].clause_start, 2);
    assert_eq!(skel.clauses[1].clause_start, 4);
    assert_eq!(skel.clauses[2].clause_start, 6);
    assert_eq!(skel.clause_assert_margin, 0);
    // the entry point skips the stub outer choice
    assert_eq!(st.code_index.len(), 1);
    assert_eq!(st.code_index[0].ptr, IndexPtr::Index(1));
    // constant dispatch reaches each clause
    assert_eq!(lookup_constant(&st.code, 1, 1), vec![2]);
    assert_eq!(lookup_constant(&st.code, 1, 2), vec![4]);
    assert_eq!(lookup_constant(&st.code, 1, 3), vec![6]);
}

#[test]
fn static_compile_chain_visits_all_clauses_in_order() {
    let mut st = fresh_state();
    compile_p123(&mut st);
    let visits = walk_chain(&st.code, 1, 0, 100);
    assert_eq!(visits, vec![2, 4, 6]);
}

#[test]
fn retract_middle_clause_rethreads_chain() {
    let mut st = fresh_state();
    compile_p123(&mut st);
    let journal_before = st.retraction_info.records.len();
    let loc = st.retract_clause(p_key(), 1);
    // the removed clause's mirror location was its clause start
    assert_eq!(loc, 4);
    let skel = &st.skeletons[0].skeleton;
    assert_eq!(skel.clauses.len(), 2);
    assert_eq!(skel.clauses[0].clause_start, 2);
    assert_eq!(skel.clauses[1].clause_start, 6);
    // the chain now visits the two survivors in order
    assert_eq!(walk_chain(&st.code, 1, 0, 100), vec![2, 6]);
    // the indexing table has forgotten the removed key
    assert_eq!(lookup_constant(&st.code, 1, 1), vec![2]);
    assert_eq!(lookup_constant(&st.code, 1, 2), Vec::<usize>::new());
    assert_eq!(lookup_constant(&st.code, 1, 3), vec![6]);
    // every rewrite was journalled
    assert!(st.retraction_info.records.len() > journal_before);
}

#[test]
fn retract_first_clause_moves_entry_point() {
    let mut st = fresh_state();
    compile_p123(&mut st);
    let _ = st.retract_clause(p_key(), 0);
    let skel = &st.skeletons[0].skeleton;
    assert_eq!(skel.clauses.len(), 2);
    assert_eq!(walk_chain(&st.code, 1, 0, 100), vec![4, 6]);
    assert_eq!(lookup_constant(&st.code, 1, 1), Vec::<usize>::new());
}

#[test]
fn retract_all_clauses_one_by_one() {
    let mut st = fresh_state();
    compile_p123(&mut st);
    let _ = st.retract_clause(p_key(), 2);
    assert_eq!(walk_chain(&st.code, 1, 0, 100), vec![2, 4]);
    let _ = st.retract_clause(p_key(), 1);
    assert_eq!(st.skeletons[0].skeleton.clauses.len(), 1);
    // the sole survivor is dispatched directly, past its derelict guard
    match st.code[2] {
        Line::Choice(ChoiceInstruction::TryMeElse(0)) => {},
        _ => panic!("expected the derelict guard"),
    }
    match &st.code[1] {
        Line::IndexingCode(ic) => assert_eq!(ic.var_ptr, IndexingCodePtr::External(2)),
        _ => panic!("expected the indexing block"),
    }
    assert_eq!(lookup_constant(&st.code, 1, 1), vec![2]);
}

#[test]
fn compile_relation_rejects_query() {
    let r = wam_compile::compile::compile_relation(&TopLevel::Query);
    assert_eq!(r.err(), Some(SessionError::ExpectedRel));
}

#[test]
fn appendix_patches_jmp_by_targets() {
    let mut code = vec![
        Line::Body(7),
        Line::JmpBy(2, 0),
        Line::Body(8),
    ];
    let aux = CompiledBlock {
        code: vec![Line::Body(9)],
        clauses: Vec::new(),
        jmp_by_locs: Vec::new(),
    };
    let queue = vec![TopLevel::Predicate(aux)];
    wam_compile::compile::compile_appendix(&mut code, queue, vec![1], false).unwrap();
    // the pending jump now reaches the auxiliary code appended at the tail
    assert_eq!(code.len(), 4);
    match code[1] {
        Line::JmpBy(2, o) => assert_eq!(o, 2),
        _ => panic!("expected a forward jump"),
    }
    match code[3] {
        Line::Body(9) => {},
        _ => panic!("expected the auxiliary body"),
    }
}

#[test]
fn appendix_rejects_query_in_queue() {
    let mut code = vec![Line::JmpBy(0, 0)];
    let queue = vec![TopLevel::Query];
    let r = wam_compile::compile::compile_appendix(&mut code, queue, vec![0], false);
    assert_eq!(r.err(), Some(SessionError::ExpectedRel));
}

#[test]
fn overwrite_warning_discipline() {
    let key = p_key();
    // undefined entries and protected modules are silent
    assert!(!needs_overwrite_warning(&CompilationTarget::User, IndexPtr::Undefined, &key));
    assert!(!needs_overwrite_warning(
        &CompilationTarget::User,
        IndexPtr::DynamicUndefined,
        &key,
    ));
    assert!(!needs_overwrite_warning(
        &CompilationTarget::Module(BUILTINS_MODULE),
        IndexPtr::Index(3),
        &key,
    ));
    assert!(!needs_overwrite_warning(
        &CompilationTarget::Module(LOADER_MODULE),
        IndexPtr::Index(3),
        &key,
    ));
    // a live definition elsewhere is overwritten loudly
    assert!(needs_overwrite_warning(&CompilationTarget::User, IndexPtr::Index(3), &key));
    assert!(needs_overwrite_warning(
        &CompilationTarget::Module(77),
        IndexPtr::DynamicIndex(3),
        &key,
    ));
}

#[test]
fn skeleton_lower_bound_scans_key_runs() {
    let mut skel = PredicateSkeleton::new();
    skel.clauses.push(ClauseIndexInfo {
        opt_arg_index_key: OptArgIndexKey::Constant(1, 10, 1),
        clause_start: 2,
    });
    skel.clauses.push(ClauseIndexInfo {
        opt_arg_index_key: OptArgIndexKey::Constant(1, 10, 2),
        clause_start: 4,
    });
    skel.clauses.push(ClauseIndexInfo {
        opt_arg_index_key: OptArgIndexKey::NoIndex,
        clause_start: 6,
    });
    skel.clauses.push(ClauseIndexInfo {
        opt_arg_index_key: OptArgIndexKey::Constant(2, 20, 3),
        clause_start: 8,
    });
    assert_eq!(wam_compile::skeleton::lower_bound_of_target_clause(&skel, 0), 0);
    assert_eq!(wam_compile::skeleton::lower_bound_of_target_clause(&skel, 2), 0);
    // an unindexed clause terminates a run
    assert_eq!(wam_compile::skeleton::lower_bound_of_target_clause(&skel, 3), 2);
    assert_eq!(wam_compile::skeleton::lower_bound_of_target_clause(&skel, 4), 3);
}

#[test]
fn mergeable_needs_equal_outer_keys_and_distinct_removed_key() {
    let mut skel = PredicateSkeleton::new();
    for (arg, c, start) in [(1u64, 1u64, 2usize), (2, 2, 4), (1, 3, 6)] {
        skel.clauses.push(ClauseIndexInfo {
            opt_arg_index_key: OptArgIndexKey::Constant(arg as usize, 10, c),
            clause_start: start,
        });
    }
    assert!(wam_compile::skeleton::mergeable_indexed_subsequences(0, 1, &skel));
    assert!(!wam_compile::skeleton::mergeable_indexed_subsequences(0, 2, &skel));
}
