use wam_compile::compile::{CompiledBlock, PredicateQueue, SessionError, TopLevel};
use wam_compile::indexing::{merge_clause_index, remove_index};
use wam_compile::instructions::{
    AppendOrPrepend, ChoiceInstruction, CodeGenSettings, Death, IndexPtr, IndexingCode,
    IndexingCodePtr, Line, NextOrFail,
};
use wam_compile::journal::RetractionInfo;
use wam_compile::laws::replay_code;
use wam_compile::loader::{bootstrapping_compile, Loader};
use wam_compile::machine::{LoadState, SkeletonEntry};
use wam_compile::locs::{locs_get, locs_len};
use wam_compile::skeleton::{
    ClauseIndexInfo, CompilationTarget, OptArgIndexKey, PredicateKey, PredicateSkeleton,
    BUILTINS_MODULE, CLAUSE_ATOM,
};
use wam_compile::walk::{lookup_constant, walk_chain};

fn fresh_state() -> LoadState {
    LoadState {
        compilation_target: CompilationTarget::User,
        code: Vec::new(),
        skeletons: Vec::new(),
        local_skeletons: Vec::new(),
        code_index: Vec::new(),
        retraction_info: RetractionInfo::new(0),
        global_clock: 0,
    }
}

fn switch_line(var: usize, constants: Vec<(u64, IndexingCodePtr)>) -> Line {
    Line::IndexingCode(IndexingCode {
        arg: 1,
        var_ptr: IndexingCodePtr::External(var),
        constants,
        structures: Vec::new(),
        buckets: Vec::new(),
    })
}

const Q_NAME: u64 = 101;
const D_NAME: u64 = 102;
const R_NAME: u64 = 103;

/// The block a generator emits for one indexed clause with atomic first
/// argument `c` guarding one body line, relative to position `base` of
/// the code vector.
fn one_clause_block(c: u64, body: u64, base: usize) -> CompiledBlock {
    let code = vec![
        Line::Choice(ChoiceInstruction::TryMeElse(0)),
        switch_line(2, vec![(c, IndexingCodePtr::External(base + 2))]),
        Line::Choice(ChoiceInstruction::TryMeElse(0)),
        Line::Body(body),
    ];
    let clauses = vec![
        ClauseIndexInfo {
            opt_arg_index_key: OptArgIndexKey::Constant(1, 1, c),
            clause_start: 2,
        },
    ];
    CompiledBlock { code, clauses, jmp_by_locs: Vec::new() }
}

fn assert_one(
    st: &mut LoadState,
    key: PredicateKey,
    c: u64,
    body: u64,
    end: AppendOrPrepend,
) {
    let base = st.code.len();
    st.incremental_compile_clause(
        key,
        one_clause_block(c, body, base),
        Vec::new(),
        CompilationTarget::User,
        false,
        end,
    )
    .unwrap();
}

#[test]
fn asserta_assertz_order_and_margin() {
    let mut st = fresh_state();
    let key = PredicateKey { name: Q_NAME, arity: 1 };
    // an empty predicate, then asserta a, assertz b, asserta c
    let empty = PredicateQueue {
        compilation_target: CompilationTarget::User,
        block: CompiledBlock { code: Vec::new(), clauses: Vec::new(), jmp_by_locs: Vec::new() },
        queue: Vec::new(),
    };
    st.compile(
        key,
        empty,
        CodeGenSettings { global_clock_tick: None, is_extensible: true, non_counted_bt: false },
    )
    .unwrap();
    assert_eq!(st.skeletons[0].skeleton.clauses.len(), 0);
    assert_one(&mut st, key, 10, 1, AppendOrPrepend::Prepend);
    assert_eq!(st.skeletons[0].skeleton.clauses.len(), 1);
    assert_one(&mut st, key, 11, 2, AppendOrPrepend::Append);
    assert_one(&mut st, key, 12, 3, AppendOrPrepend::Prepend);
    let skel = &st.skeletons[0].skeleton;
    assert_eq!(skel.clauses.len(), 3);
    // both clauses that entered by asserta count below the margin,
    // the fresh-compiled first one included
    assert_eq!(skel.clause_assert_margin, 2);
    // the chain visits the prepended clause first, then the two others in
    // definition order
    let entry = match st.code_index[0].ptr {
        IndexPtr::Index(p) => p,
        _ => panic!("expected a static entry point"),
    };
    let visits = walk_chain(&st.code, entry, 0, 100);
    assert_eq!(visits.len(), 3);
    assert_eq!(visits[0], skel.clauses[0].clause_start);
    assert_eq!(visits[1], skel.clauses[1].clause_start);
    assert_eq!(visits[2], skel.clauses[2].clause_start);
}

#[test]
fn dynamic_retract_stamps_death_and_skips_execution() {
    let mut st = fresh_state();
    let key = PredicateKey { name: D_NAME, arity: 1 };
    // a dynamic predicate, declared before its first clause
    let mut skel = PredicateSkeleton::new();
    skel.is_dynamic = true;
    st.skeletons.push(SkeletonEntry { target: CompilationTarget::User, key, skeleton: skel });
    st.global_clock = 5;
    // assertz d(1) at clock 5: an unindexed dynamic clause
    let block = CompiledBlock {
        code: vec![
            Line::Choice(ChoiceInstruction::DynamicElse(5, Death::Infinity, NextOrFail::Next(0))),
            Line::Body(1),
        ],
        clauses: vec![
            ClauseIndexInfo { opt_arg_index_key: OptArgIndexKey::NoIndex, clause_start: 0 },
        ],
        jmp_by_locs: Vec::new(),
    };
    st.incremental_compile_clause(
        key,
        block,
        Vec::new(),
        CompilationTarget::User,
        false,
        AppendOrPrepend::Append,
    )
    .unwrap();
    assert_eq!(st.code_index[0].ptr, IndexPtr::DynamicIndex(0));
    assert_eq!(walk_chain(&st.code, 0, 5, 100), vec![0]);
    // retract at clock 7: no rewiring, only a death stamp
    st.global_clock = 7;
    let loc = st.retract_dynamic_clause(key, 0);
    assert_eq!(loc, 0);
    assert_eq!(st.skeletons[0].skeleton.clauses.len(), 0);
    match st.code[0] {
        Line::Choice(ChoiceInstruction::DynamicElse(b, d, _)) => {
            assert_eq!(b, 5);
            assert_eq!(d, Death::Finite(7));
        },
        _ => panic!("expected the stamped dynamic guard"),
    }
    // execution at any instant from the stamp on never reaches the clause
    assert_eq!(walk_chain(&st.code, 0, 7, 100), Vec::<usize>::new());
    assert_eq!(walk_chain(&st.code, 0, 9, 100), Vec::<usize>::new());
    // before the stamp it was alive
    assert_eq!(walk_chain(&st.code, 0, 6, 100), vec![0]);
}

#[test]
fn shared_key_grows_and_shrinks_indexed_run() {
    let mut code = vec![switch_line(9, vec![(7, IndexingCodePtr::External(5))])];
    let key = OptArgIndexKey::Constant(1, 0, 7);
    merge_clause_index(&mut code, 0, key, 9, AppendOrPrepend::Append);
    assert_eq!(lookup_constant(&code, 0, 7), vec![5, 9]);
    merge_clause_index(&mut code, 0, key, 13, AppendOrPrepend::Prepend);
    assert_eq!(lookup_constant(&code, 0, 7), vec![13, 5, 9]);
    remove_index(&mut code, 0, key, 5);
    assert_eq!(lookup_constant(&code, 0, 7), vec![13, 9]);
    remove_index(&mut code, 0, key, 13);
    // a run left with one alternative collapses to a direct entry
    assert_eq!(lookup_constant(&code, 0, 7), vec![9]);
    remove_index(&mut code, 0, key, 9);
    assert_eq!(lookup_constant(&code, 0, 7), Vec::<usize>::new());
}

#[test]
fn append_then_retract_restores_skeleton() {
    let mut st = fresh_state();
    let key = PredicateKey { name: Q_NAME, arity: 1 };
    let block = CompiledBlock {
        code: vec![
            Line::Choice(ChoiceInstruction::TryMeElse(0)),
            switch_line(
                1,
                vec![(1, IndexingCodePtr::External(2)), (2, IndexingCodePtr::External(4))],
            ),
            Line::Choice(ChoiceInstruction::TryMeElse(2)),
            Line::Body(1),
            Line::Choice(ChoiceInstruction::TrustMe(0)),
            Line::Body(2),
        ],
        clauses: vec![
            ClauseIndexInfo {
                opt_arg_index_key: OptArgIndexKey::Constant(1, 1, 1),
                clause_start: 2,
            },
            ClauseIndexInfo {
                opt_arg_index_key: OptArgIndexKey::Constant(1, 1, 2),
                clause_start: 4,
            },
        ],
        jmp_by_locs: Vec::new(),
    };
    let predicates = PredicateQueue {
        compilation_target: CompilationTarget::User,
        block,
        queue: Vec::new(),
    };
    st.compile(
        key,
        predicates,
        CodeGenSettings { global_clock_tick: None, is_extensible: true, non_counted_bt: false },
    )
    .unwrap();
    let starts_before: Vec<usize> =
        st.skeletons[0].skeleton.clauses.iter().map(|c| c.clause_start).collect();
    let margin_before = st.skeletons[0].skeleton.clause_assert_margin;
    assert_one(&mut st, key, 3, 3, AppendOrPrepend::Append);
    assert_eq!(st.skeletons[0].skeleton.clauses.len(), 3);
    let _ = st.retract_clause(key, 2);
    let skel = &st.skeletons[0].skeleton;
    let starts_after: Vec<usize> = skel.clauses.iter().map(|c| c.clause_start).collect();
    assert_eq!(starts_after, starts_before);
    assert_eq!(skel.clause_assert_margin, margin_before);
    assert_eq!(walk_chain(&st.code, 1, 0, 100), vec![2, 4]);
}

#[test]
fn nameless_batch_is_rejected() {
    let loader_state = fresh_state();
    let mut loader = Loader {
        load_state: loader_state,
        predicates: PredicateQueue {
            compilation_target: CompilationTarget::User,
            block: CompiledBlock { code: Vec::new(), clauses: Vec::new(), jmp_by_locs: Vec::new() },
            queue: Vec::new(),
        },
        first_clause_name: None,
        first_clause_arity: 0,
        clause_clauses: Vec::new(),
        non_counted_bt: false,
    };
    assert_eq!(loader.compile_and_submit().err(), Some(SessionError::NamelessEntry));
}

#[test]
fn boot_batch_compiles_through_the_loader() {
    let key = PredicateKey { name: R_NAME, arity: 1 };
    let block = CompiledBlock {
        code: vec![
            Line::Choice(ChoiceInstruction::TryMeElse(2)),
            Line::Body(1),
            Line::Choice(ChoiceInstruction::TrustMe(0)),
            Line::Body(2),
        ],
        clauses: vec![
            ClauseIndexInfo { opt_arg_index_key: OptArgIndexKey::NoIndex, clause_start: 0 },
            ClauseIndexInfo { opt_arg_index_key: OptArgIndexKey::NoIndex, clause_start: 2 },
        ],
        jmp_by_locs: Vec::new(),
    };
    let mut loader = Loader {
        load_state: fresh_state(),
        predicates: PredicateQueue {
            compilation_target: CompilationTarget::User,
            block,
            queue: Vec::new(),
        },
        first_clause_name: Some(R_NAME),
        first_clause_arity: 1,
        clause_clauses: Vec::new(),
        non_counted_bt: false,
    };
    bootstrapping_compile(&mut loader).unwrap();
    // the batch was not declared extensible, so no skeleton is registered,
    // but the entry point is live
    assert_eq!(loader.load_state.code_index.len(), 1);
    assert_eq!(loader.load_state.code_index[0].ptr, IndexPtr::Index(0));
    assert_eq!(walk_chain(&loader.load_state.code, 0, 0, 100), vec![0, 2]);
}

#[test]
fn retract_leading_unindexed_clause_moves_entry() {
    let mut st = fresh_state();
    let key = PredicateKey { name: R_NAME, arity: 1 };
    let block = CompiledBlock {
        code: vec![
            Line::Choice(ChoiceInstruction::TryMeElse(2)),
            Line::Body(1),
            Line::Choice(ChoiceInstruction::TrustMe(0)),
            Line::Body(2),
        ],
        clauses: vec![
            ClauseIndexInfo { opt_arg_index_key: OptArgIndexKey::NoIndex, clause_start: 0 },
            ClauseIndexInfo { opt_arg_index_key: OptArgIndexKey::NoIndex, clause_start: 2 },
        ],
        jmp_by_locs: Vec::new(),
    };
    let predicates = PredicateQueue {
        compilation_target: CompilationTarget::User,
        block,
        queue: Vec::new(),
    };
    st.compile(
        key,
        predicates,
        CodeGenSettings { global_clock_tick: None, is_extensible: true, non_counted_bt: false },
    )
    .unwrap();
    let _ = st.retract_clause(key, 0);
    assert_eq!(st.skeletons[0].skeleton.clauses.len(), 1);
    // the derelicted head is a stub and the entry point moved past the
    // blunted successor
    match st.code[0] {
        Line::Choice(ChoiceInstruction::TryMeElse(0)) => {},
        _ => panic!("expected the derelicted head"),
    }
    match st.code[2] {
        Line::Choice(ChoiceInstruction::TryMeElse(0)) => {},
        _ => panic!("expected the blunted successor"),
    }
    assert_eq!(st.code_index[0].ptr, IndexPtr::Index(3));
}

/// Two indexed sub-runs with an alien-keyed clause between them: removing
/// it merges the runs into the lower run's indexing table.
#[test]
fn retract_merges_neighbouring_indexed_runs() {
    let mut st = fresh_state();
    let key = PredicateKey { name: 108, arity: 2 };
    let block = CompiledBlock {
        code: vec![
            Line::Choice(ChoiceInstruction::TryMeElse(8)),
            switch_line(2, vec![(10, IndexingCodePtr::External(2))]),
            Line::Choice(ChoiceInstruction::TryMeElse(0)),
            Line::Body(1),
            Line::RevJmpBy(0),
            Line::Body(99),
            Line::Body(99),
            Line::Body(99),
            Line::Choice(ChoiceInstruction::RetryMeElse(6)),
            switch_line(2, vec![(20, IndexingCodePtr::External(10))]),
            Line::Choice(ChoiceInstruction::TryMeElse(0)),
            Line::Body(2),
            Line::RevJmpBy(0),
            Line::Body(99),
            Line::Choice(ChoiceInstruction::TrustMe(0)),
            switch_line(2, vec![(30, IndexingCodePtr::External(16))]),
            Line::Choice(ChoiceInstruction::TryMeElse(0)),
            Line::Body(3),
            Line::RevJmpBy(0),
        ],
        clauses: vec![
            ClauseIndexInfo {
                opt_arg_index_key: OptArgIndexKey::Constant(1, 1, 10),
                clause_start: 2,
            },
            ClauseIndexInfo {
                opt_arg_index_key: OptArgIndexKey::Constant(2, 9, 20),
                clause_start: 10,
            },
            ClauseIndexInfo {
                opt_arg_index_key: OptArgIndexKey::Constant(1, 15, 30),
                clause_start: 16,
            },
        ],
        jmp_by_locs: Vec::new(),
    };
    let predicates = PredicateQueue {
        compilation_target: CompilationTarget::User,
        block,
        queue: Vec::new(),
    };
    st.compile(
        key,
        predicates,
        CodeGenSettings { global_clock_tick: None, is_extensible: true, non_counted_bt: false },
    )
    .unwrap();
    let _ = st.retract_clause(key, 1);
    let skel = &st.skeletons[0].skeleton;
    assert_eq!(skel.clauses.len(), 2);
    // the upper run's entry migrated into the surviving table
    assert_eq!(lookup_constant(&st.code, 1, 10), vec![2]);
    assert_eq!(lookup_constant(&st.code, 1, 30), vec![16]);
    assert_eq!(skel.clauses[1].opt_arg_index_key, OptArgIndexKey::Constant(1, 1, 30));
    // the chain now runs from the lower run straight into the upper one
    assert_eq!(st.code_index[0].ptr, IndexPtr::Index(1));
    assert_eq!(walk_chain(&st.code, 1, 0, 100), vec![2, 16]);
}

/// A predicate stored under one module while another is being loaded
/// leaves a local shadow in the loading module's name.
#[test]
fn module_compile_leaves_local_shadow() {
    let mut st = fresh_state();
    st.compilation_target = CompilationTarget::Module(60);
    let key = PredicateKey { name: 109, arity: 1 };
    let block = CompiledBlock {
        code: vec![Line::Choice(ChoiceInstruction::TryMeElse(0)), Line::Body(1)],
        clauses: vec![
            ClauseIndexInfo { opt_arg_index_key: OptArgIndexKey::NoIndex, clause_start: 0 },
        ],
        jmp_by_locs: Vec::new(),
    };
    let predicates = PredicateQueue {
        compilation_target: CompilationTarget::Module(50),
        block,
        queue: Vec::new(),
    };
    st.compile(
        key,
        predicates,
        CodeGenSettings { global_clock_tick: None, is_extensible: true, non_counted_bt: false },
    )
    .unwrap();
    // the definition lives under its own module
    assert_eq!(st.skeletons.len(), 1);
    assert_eq!(st.skeletons[0].target, CompilationTarget::Module(50));
    assert_eq!(st.skeletons[0].skeleton.clauses.len(), 1);
    // the loading module holds only the shadow of what it contributed
    assert_eq!(st.local_skeletons.len(), 1);
    assert_eq!(st.local_skeletons[0].local_target, CompilationTarget::Module(60));
    assert_eq!(st.local_skeletons[0].target, CompilationTarget::Module(50));
    assert_eq!(st.local_skeletons[0].skeleton.clauses.len(), 0);
    assert_eq!(st.code_index[0].target, CompilationTarget::Module(50));
}

/// Retracting and then replaying the journal in reverse restores the code
/// vector line for line.
#[test]
fn journal_replay_restores_code() {
    let mut st = fresh_state();
    let key = PredicateKey { name: R_NAME, arity: 1 };
    let block = CompiledBlock {
        code: vec![
            Line::Choice(ChoiceInstruction::TryMeElse(2)),
            Line::Body(1),
            Line::Choice(ChoiceInstruction::RetryMeElse(2)),
            Line::Body(2),
            Line::Choice(ChoiceInstruction::TrustMe(0)),
            Line::Body(3),
        ],
        clauses: vec![
            ClauseIndexInfo { opt_arg_index_key: OptArgIndexKey::NoIndex, clause_start: 0 },
            ClauseIndexInfo { opt_arg_index_key: OptArgIndexKey::NoIndex, clause_start: 2 },
            ClauseIndexInfo { opt_arg_index_key: OptArgIndexKey::NoIndex, clause_start: 4 },
        ],
        jmp_by_locs: Vec::new(),
    };
    let predicates = PredicateQueue {
        compilation_target: CompilationTarget::User,
        block,
        queue: Vec::new(),
    };
    st.compile(
        key,
        predicates,
        CodeGenSettings { global_clock_tick: None, is_extensible: true, non_counted_bt: false },
    )
    .unwrap();
    let snapshot = format!("{:?}", st.code);
    let mark = st.retraction_info.records.len();
    let _ = st.retract_clause(key, 1);
    assert_ne!(format!("{:?}", st.code), snapshot);
    replay_code(&mut st.code, &st.retraction_info.records, mark);
    assert_eq!(format!("{:?}", st.code), snapshot);
}

/// The same, for the removal of the leading clause of the predicate.
#[test]
fn journal_replay_restores_code_after_leading_retract() {
    let mut st = fresh_state();
    let key = PredicateKey { name: R_NAME, arity: 1 };
    let block = CompiledBlock {
        code: vec![
            Line::Choice(ChoiceInstruction::TryMeElse(2)),
            Line::Body(1),
            Line::Choice(ChoiceInstruction::TrustMe(0)),
            Line::Body(2),
        ],
        clauses: vec![
            ClauseIndexInfo { opt_arg_index_key: OptArgIndexKey::NoIndex, clause_start: 0 },
            ClauseIndexInfo { opt_arg_index_key: OptArgIndexKey::NoIndex, clause_start: 2 },
        ],
        jmp_by_locs: Vec::new(),
    };
    let predicates = PredicateQueue {
        compilation_target: CompilationTarget::User,
        block,
        queue: Vec::new(),
    };
    st.compile(
        key,
        predicates,
        CodeGenSettings { global_clock_tick: None, is_extensible: true, non_counted_bt: false },
    )
    .unwrap();
    let snapshot = format!("{:?}", st.code);
    let mark = st.retraction_info.records.len();
    let _ = st.retract_clause(key, 0);
    replay_code(&mut st.code, &st.retraction_info.records, mark);
    assert_eq!(format!("{:?}", st.code), snapshot);
}

/// A non-multifile definition left in another module is removed and
/// journalled before the new batch is compiled in its place.
#[test]
fn cross_target_overwrite_removes_foreign_skeleton() {
    let mut st = fresh_state();
    st.compilation_target = CompilationTarget::Module(60);
    let key = PredicateKey { name: 110, arity: 1 };
    // the foreign definition lives under module 50
    let foreign = PredicateQueue {
        compilation_target: CompilationTarget::Module(50),
        block: CompiledBlock {
            code: vec![Line::Choice(ChoiceInstruction::TryMeElse(0)), Line::Body(1)],
            clauses: vec![
                ClauseIndexInfo { opt_arg_index_key: OptArgIndexKey::NoIndex, clause_start: 0 },
            ],
            jmp_by_locs: Vec::new(),
        },
        queue: Vec::new(),
    };
    {
        // loaded earlier by module 50 itself
        let saved = st.compilation_target;
        st.compilation_target = CompilationTarget::Module(50);
        st.compile(
            key,
            foreign,
            CodeGenSettings {
                global_clock_tick: None,
                is_extensible: true,
                non_counted_bt: false,
            },
        )
        .unwrap();
        st.compilation_target = saved;
    }
    assert_eq!(st.skeletons.len(), 1);
    let journal_before = st.retraction_info.records.len();
    // module 60 now submits its own batch for the same key
    let base = st.code.len();
    let mut loader = Loader {
        load_state: st,
        predicates: PredicateQueue {
            compilation_target: CompilationTarget::Module(50),
            block: CompiledBlock {
                code: vec![
                    Line::Choice(ChoiceInstruction::TryMeElse(2)),
                    Line::Body(7),
                    Line::Choice(ChoiceInstruction::TrustMe(0)),
                    Line::Body(8),
                ],
                clauses: vec![
                    ClauseIndexInfo {
                        opt_arg_index_key: OptArgIndexKey::NoIndex,
                        clause_start: 0,
                    },
                    ClauseIndexInfo {
                        opt_arg_index_key: OptArgIndexKey::NoIndex,
                        clause_start: 2,
                    },
                ],
                jmp_by_locs: Vec::new(),
            },
            queue: Vec::new(),
        },
        first_clause_name: Some(110),
        first_clause_arity: 1,
        clause_clauses: Vec::new(),
        non_counted_bt: false,
    };
    loader.compile_and_submit().unwrap();
    let st = loader.load_state;
    // the old skeleton was removed (and retained in the journal) before
    // the new definition was registered in its place
    assert_eq!(st.skeletons.len(), 1);
    assert_eq!(st.skeletons[0].skeleton.clauses.len(), 2);
    assert_eq!(st.skeletons[0].skeleton.clauses[0].clause_start, base);
    assert!(st.retraction_info.records.len() > journal_before);
    assert_eq!(walk_chain(&st.code, base, 0, 100), vec![base, base + 2]);
}

fn dynamic_fact_block(birth: usize, body: u64) -> CompiledBlock {
    CompiledBlock {
        code: vec![
            Line::Choice(ChoiceInstruction::DynamicElse(birth, Death::Infinity, NextOrFail::Next(0))),
            Line::Body(body),
        ],
        clauses: vec![
            ClauseIndexInfo { opt_arg_index_key: OptArgIndexKey::NoIndex, clause_start: 0 },
        ],
        jmp_by_locs: Vec::new(),
    }
}

#[test]
fn mirror_batch_tracks_source_locations() {
    let mut st = fresh_state();
    st.global_clock = 1;
    let src_key = PredicateKey { name: D_NAME, arity: 1 };
    let mut src_skel = PredicateSkeleton::new();
    src_skel.is_dynamic = true;
    st.skeletons.push(SkeletonEntry {
        target: CompilationTarget::User,
        key: src_key,
        skeleton: src_skel,
    });
    let mirror_key = PredicateKey { name: CLAUSE_ATOM, arity: 2 };
    let mut mirror_skel = PredicateSkeleton::new();
    mirror_skel.is_dynamic = true;
    st.skeletons.push(SkeletonEntry {
        target: CompilationTarget::Module(BUILTINS_MODULE),
        key: mirror_key,
        skeleton: mirror_skel,
    });
    // three dynamic source clauses enter, two lines of code each
    for body in [1u64, 2, 3] {
        st.incremental_compile_clause(
            src_key,
            dynamic_fact_block(1, body),
            Vec::new(),
            CompilationTarget::User,
            false,
            AppendOrPrepend::Append,
        )
        .unwrap();
    }
    assert_eq!(locs_len(&st.skeletons[0].skeleton.clause_clause_locs), 3);
    // the loader holds the batch's three drained `$clause/2` pairs
    let mut loader = Loader {
        load_state: st,
        predicates: PredicateQueue {
            compilation_target: CompilationTarget::User,
            block: CompiledBlock { code: Vec::new(), clauses: Vec::new(), jmp_by_locs: Vec::new() },
            queue: Vec::new(),
        },
        first_clause_name: Some(D_NAME),
        first_clause_arity: 1,
        clause_clauses: vec![
            (dynamic_fact_block(1, 11), Vec::new()),
            (dynamic_fact_block(1, 12), Vec::new()),
            (dynamic_fact_block(1, 13), Vec::new()),
        ],
        non_counted_bt: false,
    };
    loader
        .compile_clause_clauses(src_key, CompilationTarget::User, AppendOrPrepend::Append)
        .unwrap();
    assert!(loader.clause_clauses.is_empty());
    // one mirror fact entered per pair
    let mirror = &loader.load_state.skeletons[1].skeleton;
    assert_eq!(mirror.clauses.len(), 3);
    // and the mirror's locations are the source's own, in order, not the
    // positions where the mirror facts themselves were compiled
    let source = &loader.load_state.skeletons[0].skeleton;
    assert_eq!(locs_len(&mirror.clause_clause_locs), 3);
    for i in 0..3 {
        assert_eq!(
            locs_get(&mirror.clause_clause_locs, i),
            locs_get(&source.clause_clause_locs, i),
        );
        assert_eq!(locs_get(&source.clause_clause_locs, i), 2 * i);
    }
}
