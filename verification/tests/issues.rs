// Regressions observed at a full Prolog top level, where a query runs
// through parser, solver and printer — all external collaborators of this
// library.  Each is pinned here to the nearest behaviour the
// clause-compiler core itself decides.

use wam_compile::compile::{CompiledBlock, PredicateQueue, SessionError, TopLevel};
use wam_compile::instructions::{
    AppendOrPrepend, ChoiceInstruction, CodeGenSettings, Death, IndexPtr, IndexingCode,
    IndexingCodePtr, Line, NextOrFail,
};
use wam_compile::journal::{RetractionInfo, RetractionRecord};
use wam_compile::machine::{LoadState, SkeletonEntry};
use wam_compile::skeleton::{
    ClauseIndexInfo, CompilationTarget, OptArgIndexKey, PredicateKey, PredicateSkeleton,
};
use wam_compile::walk::{lookup_constant, walk_chain};

fn fresh_state() -> LoadState {
    LoadState {
        compilation_target: CompilationTarget::User,
        code: Vec::new(),
        skeletons: Vec::new(),
        local_skeletons: Vec::new(),
        code_index: Vec::new(),
        retraction_info: RetractionInfo::new(0),
        global_clock: 0,
    }
}

fn switch_line(var: usize, constants: Vec<(u64, IndexingCodePtr)>) -> Line {
    Line::IndexingCode(IndexingCode {
        arg: 1,
        var_ptr: IndexingCodePtr::External(var),
        constants,
        structures: Vec::new(),
        buckets: Vec::new(),
    })
}

fn three_clause_state() -> (LoadState, PredicateKey) {
    let mut st = fresh_state();
    let key = PredicateKey { name: 100, arity: 1 };
    let block = CompiledBlock {
        code: vec![
            Line::Choice(ChoiceInstruction::TryMeElse(0)),
            switch_line(
                1,
                vec![
                    (1, IndexingCodePtr::External(2)),
                    (2, IndexingCodePtr::External(4)),
                    (3, IndexingCodePtr::External(6)),
                ],
            ),
            Line::Choice(ChoiceInstruction::TryMeElse(2)),
            Line::Body(1),
            Line::Choice(ChoiceInstruction::RetryMeElse(2)),
            Line::Body(2),
            Line::Choice(ChoiceInstruction::TrustMe(0)),
            Line::Body(3),
        ],
        clauses: vec![
            ClauseIndexInfo {
                opt_arg_index_key: OptArgIndexKey::Constant(1, 1, 1),
                clause_start: 2,
            },
            ClauseIndexInfo {
                opt_arg_index_key: OptArgIndexKey::Constant(1, 1, 2),
                clause_start: 4,
            },
            ClauseIndexInfo {
                opt_arg_index_key: OptArgIndexKey::Constant(1, 1, 3),
                clause_start: 6,
            },
        ],
        jmp_by_locs: Vec::new(),
    };
    let predicates = PredicateQueue {
        compilation_target: CompilationTarget::User,
        block,
        queue: Vec::new(),
    };
    st.compile(
        key,
        predicates,
        CodeGenSettings { global_clock_tick: None, is_extensible: true, non_counted_bt: false },
    )
    .unwrap();
    (st, key)
}

#[test]
fn display_constraints() {
    // a dynamic guard displays its lifetime constraints through its stamps
    let guard = Line::Choice(ChoiceInstruction::DynamicElse(
        3,
        Death::Infinity,
        NextOrFail::Next(0),
    ));
    let code = vec![guard, Line::Body(1)];
    assert_eq!(walk_chain(&code, 0, 2, 10), Vec::<usize>::new());
    assert_eq!(walk_chain(&code, 0, 3, 10), vec![0]);
}

#[test]
fn do_not_duplicate_path_components() {
    // walking the committed chain visits each clause exactly once
    let (st, _key) = three_clause_state();
    let visits = walk_chain(&st.code, 1, 0, 100);
    for i in 0..visits.len() {
        for j in 0..i {
            assert_ne!(visits[i], visits[j]);
        }
    }
    assert_eq!(visits.len(), 3);
}

#[test]
fn handle_residual_goal() {
    // retracting every clause leaves a predicate that fails cleanly: the
    // entry point degrades to the dynamic-undefined marker
    let mut st = fresh_state();
    let key = PredicateKey { name: 104, arity: 0 };
    let block = CompiledBlock {
        code: vec![Line::Choice(ChoiceInstruction::TryMeElse(0)), Line::Body(1)],
        clauses: vec![
            ClauseIndexInfo { opt_arg_index_key: OptArgIndexKey::NoIndex, clause_start: 0 },
        ],
        jmp_by_locs: Vec::new(),
    };
    let predicates = PredicateQueue {
        compilation_target: CompilationTarget::User,
        block,
        queue: Vec::new(),
    };
    st.compile(
        key,
        predicates,
        CodeGenSettings { global_clock_tick: None, is_extensible: true, non_counted_bt: false },
    )
    .unwrap();
    let _ = st.retract_clause(key, 0);
    assert_eq!(st.skeletons[0].skeleton.clauses.len(), 0);
    assert_eq!(st.code_index[0].ptr, IndexPtr::DynamicUndefined);
}

#[test]
fn occurs_check_flag() {
    // the variable fall-through keeps reaching the chain after an append
    let (st, _key) = three_clause_state();
    match &st.code[1] {
        Line::IndexingCode(ic) => match ic.var_ptr {
            IndexingCodePtr::External(v) => {
                let visits = walk_chain(&st.code, 1 + v, 0, 100);
                assert_eq!(visits, vec![2, 4, 6]);
            },
            _ => panic!("expected a static fall-through"),
        },
        _ => panic!("expected the indexing block"),
    }
}

#[test]
fn occurs_check_flag2() {
    // a second retraction on the same predicate stays consistent
    let (mut st, key) = three_clause_state();
    let _ = st.retract_clause(key, 2);
    let _ = st.retract_clause(key, 1);
    assert_eq!(st.skeletons[0].skeleton.clauses.len(), 1);
    assert_eq!(lookup_constant(&st.code, 1, 1), vec![2]);
    assert_eq!(lookup_constant(&st.code, 1, 2), Vec::<usize>::new());
    assert_eq!(lookup_constant(&st.code, 1, 3), Vec::<usize>::new());
}

#[test]
fn op3() {
    // three operations in a row: append, retract, append again
    let (mut st, key) = three_clause_state();
    let base = st.code.len();
    let block = CompiledBlock {
        code: vec![
            Line::Choice(ChoiceInstruction::TryMeElse(0)),
            switch_line(2, vec![(4, IndexingCodePtr::External(base + 2))]),
            Line::Choice(ChoiceInstruction::TryMeElse(0)),
            Line::Body(4),
        ],
        clauses: vec![
            ClauseIndexInfo {
                opt_arg_index_key: OptArgIndexKey::Constant(1, 1, 4),
                clause_start: 2,
            },
        ],
        jmp_by_locs: Vec::new(),
    };
    st.incremental_compile_clause(
        key,
        block,
        Vec::new(),
        CompilationTarget::User,
        false,
        AppendOrPrepend::Append,
    )
    .unwrap();
    assert_eq!(st.skeletons[0].skeleton.clauses.len(), 4);
    let _ = st.retract_clause(key, 3);
    assert_eq!(st.skeletons[0].skeleton.clauses.len(), 3);
    assert_eq!(walk_chain(&st.code, 1, 0, 100), vec![2, 4, 6]);
}

#[test]
fn multiple_goals() {
    // several predicates coexist in one code vector
    let (mut st, _key) = three_clause_state();
    let key2 = PredicateKey { name: 105, arity: 2 };
    let base = st.code.len();
    let block = CompiledBlock {
        code: vec![Line::Choice(ChoiceInstruction::TryMeElse(0)), Line::Body(9)],
        clauses: vec![
            ClauseIndexInfo { opt_arg_index_key: OptArgIndexKey::NoIndex, clause_start: 0 },
        ],
        jmp_by_locs: Vec::new(),
    };
    let predicates = PredicateQueue {
        compilation_target: CompilationTarget::User,
        block,
        queue: Vec::new(),
    };
    st.compile(
        key2,
        predicates,
        CodeGenSettings { global_clock_tick: None, is_extensible: true, non_counted_bt: false },
    )
    .unwrap();
    assert_eq!(st.skeletons.len(), 2);
    assert_eq!(st.code_index.len(), 2);
    assert_eq!(st.code_index[1].ptr, IndexPtr::Index(base + 1));
    // the first predicate's chain is untouched
    assert_eq!(walk_chain(&st.code, 1, 0, 100), vec![2, 4, 6]);
}

#[test]
fn compound_goal() {
    // an appendix chains an auxiliary block behind the main goal's code
    let mut code = vec![Line::Body(1), Line::JmpBy(0, 0)];
    let aux = CompiledBlock {
        code: vec![Line::Body(2), Line::JmpBy(0, 0)],
        clauses: Vec::new(),
        jmp_by_locs: vec![1],
    };
    let aux2 = CompiledBlock {
        code: vec![Line::Body(3)],
        clauses: Vec::new(),
        jmp_by_locs: Vec::new(),
    };
    let queue = vec![TopLevel::Predicate(aux), TopLevel::Predicate(aux2)];
    wam_compile::compile::compile_appendix(&mut code, queue, vec![1], false).unwrap();
    // the auxiliary predicate queued its own jump, patched in turn
    assert_eq!(code.len(), 5);
    match code[1] {
        Line::JmpBy(0, o) => assert_eq!(o, 1),
        _ => panic!("expected the first patched jump"),
    }
    match code[3] {
        Line::JmpBy(0, o) => assert_eq!(o, 1),
        _ => panic!("expected the second patched jump"),
    }
}

#[test]
fn no_stutter() {
    // a retract does not duplicate the surviving clauses on the chain
    let (mut st, key) = three_clause_state();
    let _ = st.retract_clause(key, 1);
    let visits = walk_chain(&st.code, 1, 0, 100);
    assert_eq!(visits, vec![2, 6]);
}

#[test]
fn ignored_constraint() {
    // a dead dynamic clause's constraint is ignored by later instants only
    let mut st = fresh_state();
    let key = PredicateKey { name: 106, arity: 1 };
    let mut skel = PredicateSkeleton::new();
    skel.is_dynamic = true;
    st.skeletons.push(SkeletonEntry { target: CompilationTarget::User, key, skeleton: skel });
    st.global_clock = 1;
    let block = CompiledBlock {
        code: vec![
            Line::Choice(ChoiceInstruction::DynamicElse(1, Death::Infinity, NextOrFail::Next(0))),
            Line::Body(1),
        ],
        clauses: vec![
            ClauseIndexInfo { opt_arg_index_key: OptArgIndexKey::NoIndex, clause_start: 0 },
        ],
        jmp_by_locs: Vec::new(),
    };
    st.incremental_compile_clause(
        key,
        block,
        Vec::new(),
        CompilationTarget::User,
        false,
        AppendOrPrepend::Append,
    )
    .unwrap();
    st.global_clock = 4;
    let _ = st.retract_dynamic_clause(key, 0);
    assert_eq!(walk_chain(&st.code, 0, 3, 10), vec![0]);
    assert_eq!(walk_chain(&st.code, 0, 4, 10), Vec::<usize>::new());
}

#[test]
fn call_0() {
    // calling an undefined predicate finds only the undefined marker
    let mut st = fresh_state();
    let key = PredicateKey { name: 107, arity: 0 };
    let ci = wam_compile::machine::get_or_insert_code_index(
        &mut st.code_index,
        CompilationTarget::User,
        key,
    );
    assert_eq!(st.code_index[ci].ptr, IndexPtr::Undefined);
    // and the journal of the failed lookup stays empty
    assert_eq!(st.retraction_info.records.len(), 0);
    let _ = RetractionRecord::ReplacedCodeIndex(CompilationTarget::User, key, IndexPtr::Undefined);
}
