//! Chain walks as execution sees them: following a predicate's choice
//! chain from its entry point, and dispatching on a bound first argument
//! through an indexing table.

use vstd::prelude::*;

use crate::indexing::const_find;
use crate::instructions::{
    cv, group_cv, ChoiceInstruction, Death, IndexedChoiceInstruction, IndexingCodePtr, Line,
    LineV, NextOrFail,
};

verus! {

broadcast use group_cv;

/// The clause guards that dispatch on an atomic first argument `c` reaches
/// through the indexing block at `index_loc`: one direct target, the whole
/// indexed-choice run of a shared key, or none.
pub open spec fn lookup_spec(codev: Seq<LineV>, index_loc: usize, c: u64) -> Seq<usize> {
    if !((index_loc as int) < codev.len()) {
        Seq::empty()
    } else {
        match codev[index_loc as int] {
            LineV::IndexingCode(ic) => match const_find(ic.constants, c) {
                None => Seq::empty(),
                Some(i) => match ic.constants[i].1 {
                    IndexingCodePtr::External(o) => seq![o],
                    IndexingCodePtr::DynamicExternal(o) => seq![o],
                    IndexingCodePtr::Internal(b) => if (b as int) < ic.buckets.len() {
                        ic.buckets[b as int].map_values(
                            |x: IndexedChoiceInstruction| x.spec_offset(),
                        )
                    } else {
                        Seq::empty()
                    },
                },
            },
            _ => Seq::empty(),
        }
    }
}

/// Whether a dynamic clause born at `b` with death stamp `d` is live at
/// instant `clock`: the clock lies inside the birth/death interval.
pub open spec fn spec_alive(b: usize, d: Death, clock: usize) -> bool {
    b <= clock && match d {
        Death::Infinity => true,
        Death::Finite(t) => clock < t,
    }
}

/// The positions of the live clause guards that execution visits walking
/// the choice chain from `pos` at instant `clock`, in order, within
/// `fuel` steps: follow the variable fall-through of an indexing block,
/// visit a static guard and take its forward link, visit a dynamic guard
/// only while its birth/death interval contains the clock, follow
/// `RevJmpBy` backwards, and stop on a stub, a tail, an end marker or any
/// line outside the chain.
pub open spec fn walk_chain_spec(
    codev: Seq<LineV>,
    pos: int,
    clock: usize,
    fuel: nat,
) -> Seq<usize>
    decreases fuel,
{
    if fuel == 0 {
        Seq::empty()
    } else if !(0 <= pos < codev.len()) {
        Seq::empty()
    } else {
        match codev[pos] {
            LineV::IndexingCode(ic) => match ic.var_ptr {
                IndexingCodePtr::External(v) => walk_chain_spec(
                    codev,
                    pos + v,
                    clock,
                    (fuel - 1) as nat,
                ),
                IndexingCodePtr::DynamicExternal(v) => walk_chain_spec(
                    codev,
                    pos + v,
                    clock,
                    (fuel - 1) as nat,
                ),
                IndexingCodePtr::Internal(_) => Seq::empty(),
            },
            LineV::Choice(ChoiceInstruction::TryMeElse(o)) => seq![pos as usize] + if o == 0 {
                Seq::empty()
            } else {
                walk_chain_spec(codev, pos + o, clock, (fuel - 1) as nat)
            },
            LineV::Choice(ChoiceInstruction::RetryMeElse(o)) => seq![pos as usize] + if o == 0 {
                Seq::empty()
            } else {
                walk_chain_spec(codev, pos + o, clock, (fuel - 1) as nat)
            },
            LineV::Choice(ChoiceInstruction::TrustMe(_)) => seq![pos as usize],
            LineV::Choice(ChoiceInstruction::DynamicElse(b, d, nof)) => (if spec_alive(
                b,
                d,
                clock,
            ) {
                seq![pos as usize]
            } else {
                Seq::empty()
            }) + match nof {
                NextOrFail::Next(k) => if k == 0 {
                    Seq::empty()
                } else {
                    walk_chain_spec(codev, pos + k, clock, (fuel - 1) as nat)
                },
                NextOrFail::Fail(_) => Seq::empty(),
            },
            LineV::Choice(ChoiceInstruction::DynamicInternalElse(b, d, nof)) => (if spec_alive(
                b,
                d,
                clock,
            ) {
                seq![pos as usize]
            } else {
                Seq::empty()
            }) + match nof {
                NextOrFail::Next(k) => if k == 0 {
                    Seq::empty()
                } else {
                    walk_chain_spec(codev, pos + k, clock, (fuel - 1) as nat)
                },
                NextOrFail::Fail(_) => Seq::empty(),
            },
            LineV::RevJmpBy(o) => if o == 0 {
                Seq::empty()
            } else {
                walk_chain_spec(codev, pos - o, clock, (fuel - 1) as nat)
            },
            _ => Seq::empty(),
        }
    }
}

/// Walks the choice chain from `start` as execution would at instant
/// `clock`, collecting the positions of the live clause guards it visits,
/// in order.  A clause whose birth/death interval does not contain the
/// clock is skipped.  The walk gives up after `fuel` steps.
pub fn walk_chain(code: &Vec<Line>, start: usize, clock: usize, fuel: usize) -> (r: Vec<usize>)
    ensures
        r@ == walk_chain_spec(cv(code@), start as int, clock, fuel as nat),
{
    let ghost codev = cv(code@);
    let mut visits: Vec<usize> = Vec::new();
    let mut pos = start;
    let mut steps: usize = 0;
    while steps < fuel
        invariant
            steps <= fuel,
            codev == cv(code@),
            walk_chain_spec(codev, start as int, clock, fuel as nat) == visits@
                + walk_chain_spec(codev, pos as int, clock, (fuel - steps) as nat),
        decreases fuel - steps,
    {
        let ghost rem = (fuel - steps) as nat;
        let ghost pre = visits@;
        steps = steps + 1;
        if pos >= code.len() {
            proof {
                assert(walk_chain_spec(codev, pos as int, clock, rem) =~= Seq::<usize>::empty());
                assert(pre + Seq::<usize>::empty() =~= pre);
            }
            return visits;
        }
        let n = code.len();
        match &code[pos] {
            Line::IndexingCode(ic) => {
                match ic.var_ptr {
                    IndexingCodePtr::External(v) => {
                        if v > usize::MAX - pos {
                            proof {
                                assert(walk_chain_spec(codev, pos + v, clock, (rem - 1) as nat)
                                    =~= Seq::<usize>::empty());
                                assert(pre + Seq::<usize>::empty() =~= pre);
                            }
                            return visits;
                        }
                        pos = pos + v;
                    },
                    IndexingCodePtr::DynamicExternal(v) => {
                        if v > usize::MAX - pos {
                            proof {
                                assert(walk_chain_spec(codev, pos + v, clock, (rem - 1) as nat)
                                    =~= Seq::<usize>::empty());
                                assert(pre + Seq::<usize>::empty() =~= pre);
                            }
                            return visits;
                        }
                        pos = pos + v;
                    },
                    IndexingCodePtr::Internal(_) => {
                        proof {
                            assert(pre + Seq::<usize>::empty() =~= pre);
                        }
                        return visits;
                    },
                }
            },
            Line::Choice(ChoiceInstruction::TryMeElse(o)) => {
                visits.push(pos);
                if *o == 0 || *o > usize::MAX - pos {
                    proof {
                        if *o != 0 {
                            assert(walk_chain_spec(codev, pos + *o, clock, (rem - 1) as nat)
                                =~= Seq::<usize>::empty());
                        }
                        assert(visits@ =~= pre + seq![pos]);
                        assert(pre + (seq![pos] + Seq::<usize>::empty()) =~= visits@);
                    }
                    return visits;
                }
                proof {
                    assert(visits@ =~= pre + seq![pos]);
                }
                pos = pos + *o;
            },
            Line::Choice(ChoiceInstruction::RetryMeElse(o)) => {
                visits.push(pos);
                if *o == 0 || *o > usize::MAX - pos {
                    proof {
                        if *o != 0 {
                            assert(walk_chain_spec(codev, pos + *o, clock, (rem - 1) as nat)
                                =~= Seq::<usize>::empty());
                        }
                        assert(visits@ =~= pre + seq![pos]);
                        assert(pre + (seq![pos] + Seq::<usize>::empty()) =~= visits@);
                    }
                    return visits;
                }
                proof {
                    assert(visits@ =~= pre + seq![pos]);
                }
                pos = pos + *o;
            },
            Line::Choice(ChoiceInstruction::TrustMe(_)) => {
                visits.push(pos);
                proof {
                    assert(visits@ =~= pre + seq![pos]);
                }
                return visits;
            },
            Line::Choice(ChoiceInstruction::DynamicElse(b, d, nof)) => {
                let alive = *b <= clock && match d {
                    Death::Infinity => true,
                    Death::Finite(t) => clock < *t,
                };
                if alive {
                    visits.push(pos);
                }
                let ghost head: Seq<usize> = if alive {
                    seq![pos]
                } else {
                    Seq::empty()
                };
                proof {
                    assert(visits@ =~= pre + head);
                }
                match nof {
                    NextOrFail::Next(k) => {
                        if *k == 0 || *k > usize::MAX - pos {
                            proof {
                                if *k != 0 {
                                    assert(walk_chain_spec(
                                        codev,
                                        pos + *k,
                                        clock,
                                        (rem - 1) as nat,
                                    ) =~= Seq::<usize>::empty());
                                }
                                assert(pre + (head + Seq::<usize>::empty()) =~= visits@);
                            }
                            return visits;
                        }
                        proof {
                            assert(pre + (head + walk_chain_spec(
                                codev,
                                pos + *k,
                                clock,
                                (rem - 1) as nat,
                            )) =~= visits@ + walk_chain_spec(
                                codev,
                                pos + *k,
                                clock,
                                (rem - 1) as nat,
                            ));
                        }
                        pos = pos + *k;
                    },
                    NextOrFail::Fail(_) => {
                        proof {
                            assert(pre + (head + Seq::<usize>::empty()) =~= visits@);
                        }
                        return visits;
                    },
                }
            },
            Line::Choice(ChoiceInstruction::DynamicInternalElse(b, d, nof)) => {
                let alive = *b <= clock && match d {
                    Death::Infinity => true,
                    Death::Finite(t) => clock < *t,
                };
                if alive {
                    visits.push(pos);
                }
                let ghost head: Seq<usize> = if alive {
                    seq![pos]
                } else {
                    Seq::empty()
                };
                proof {
                    assert(visits@ =~= pre + head);
                }
                match nof {
                    NextOrFail::Next(k) => {
                        if *k == 0 || *k > usize::MAX - pos {
                            proof {
                                if *k != 0 {
                                    assert(walk_chain_spec(
                                        codev,
                                        pos + *k,
                                        clock,
                                        (rem - 1) as nat,
                                    ) =~= Seq::<usize>::empty());
                                }
                                assert(pre + (head + Seq::<usize>::empty()) =~= visits@);
                            }
                            return visits;
                        }
                        proof {
                            assert(pre + (head + walk_chain_spec(
                                codev,
                                pos + *k,
                                clock,
                                (rem - 1) as nat,
                            )) =~= visits@ + walk_chain_spec(
                                codev,
                                pos + *k,
                                clock,
                                (rem - 1) as nat,
                            ));
                        }
                        pos = pos + *k;
                    },
                    NextOrFail::Fail(_) => {
                        proof {
                            assert(pre + (head + Seq::<usize>::empty()) =~= visits@);
                        }
                        return visits;
                    },
                }
            },
            Line::RevJmpBy(o) => {
                if *o == 0 {
                    proof {
                        assert(pre + Seq::<usize>::empty() =~= pre);
                    }
                    return visits;
                }
                if *o > pos {
                    proof {
                        assert(walk_chain_spec(codev, pos - *o, clock, (rem - 1) as nat)
                            =~= Seq::<usize>::empty());
                        assert(pre + Seq::<usize>::empty() =~= pre);
                    }
                    return visits;
                }
                pos = pos - *o;
            },
            _ => {
                proof {
                    assert(pre + Seq::<usize>::empty() =~= pre);
                }
                return visits;
            },
        }
    }
    proof {
        assert(walk_chain_spec(codev, pos as int, clock, (fuel - steps) as nat) =~= Seq::<
            usize,
        >::empty());
        assert(visits@ + Seq::<usize>::empty() =~= visits@);
    }
    visits
}

/// Resolves the indexing-table entry for an atomic first argument `c` in
/// the block at `index_loc`: the absolute position of the clause guard the
/// dispatch reaches, or the guards of the whole indexed-choice run for a
/// shared key, or nothing when the key has no entry.
pub fn lookup_constant(code: &Vec<Line>, index_loc: usize, c: u64) -> (r: Vec<usize>)
    ensures
        r@ == lookup_spec(cv(code@), index_loc, c),
{
    let mut targets: Vec<usize> = Vec::new();
    if index_loc >= code.len() {
        proof {
            assert(targets@ =~= lookup_spec(cv(code@), index_loc, c));
        }
        return targets;
    }
    match &code[index_loc] {
        Line::IndexingCode(ic) => {
            proof {
                crate::indexing::lemma_const_find(ic.constants@, c);
            }
            let n = ic.constants.len();
            let mut i: usize = 0;
            let mut found: Option<usize> = None;
            let mut scanning = true;
            while i < n && scanning
                invariant
                    i <= n == ic.constants@.len(),
                    scanning == (found is None),
                    match found {
                        None => forall|j: int| 0 <= j < i ==> ic.constants@[j].0 != c,
                        Some(p) => p == i && i < n && ic.constants@[p as int].0 == c && forall|
                            j: int,
                        | 0 <= j < p ==> ic.constants@[j].0 != c,
                    },
                decreases n - i + if scanning {
                    1int
                } else {
                    0int
                },
            {
                if ic.constants[i].0 == c {
                    found = Some(i);
                    scanning = false;
                } else {
                    i = i + 1;
                }
            }
            let entry: Option<IndexingCodePtr> = match found {
                Some(p) => {
                    proof {
                        crate::indexing::lemma_const_find(ic.constants@, c);
                        assert(const_find(ic.constants@, c) == Some(p as int));
                    }
                    Some(ic.constants[p].1)
                },
                None => {
                    proof {
                        crate::indexing::lemma_const_find(ic.constants@, c);
                        assert(const_find(ic.constants@, c) is None);
                    }
                    None
                },
            };
            match entry {
                None => {
                    proof {
                        assert(targets@ =~= lookup_spec(cv(code@), index_loc, c));
                    }
                },
                Some(IndexingCodePtr::External(o)) => {
                    targets.push(o);
                    proof {
                        assert(targets@ =~= lookup_spec(cv(code@), index_loc, c));
                    }
                },
                Some(IndexingCodePtr::DynamicExternal(o)) => {
                    targets.push(o);
                    proof {
                        assert(targets@ =~= lookup_spec(cv(code@), index_loc, c));
                    }
                },
                Some(IndexingCodePtr::Internal(b)) => {
                    if b < ic.buckets.len() {
                        let ghost bucket = ic.buckets@[b as int]@;
                        let m = ic.buckets[b].len();
                        let mut k: usize = 0;
                        while k < m
                            invariant
                                b < ic.buckets@.len(),
                                m == bucket.len(),
                                bucket == ic.buckets@[b as int]@,
                                k <= m,
                                targets@ == bucket.map_values(
                                    |x: IndexedChoiceInstruction| x.spec_offset(),
                                ).take(k as int),
                            decreases m - k,
                        {
                            targets.push(ic.buckets[b][k].offset());
                            k = k + 1;
                            proof {
                                assert(targets@ =~= bucket.map_values(
                                    |x: IndexedChoiceInstruction| x.spec_offset(),
                                ).take(k as int));
                            }
                        }
                        proof {
                            assert(targets@ =~= lookup_spec(cv(code@), index_loc, c));
                        }
                    } else {
                        proof {
                            assert(targets@ =~= lookup_spec(cv(code@), index_loc, c));
                        }
                    }
                },
            }
        },
        _ => {
            proof {
                assert(targets@ =~= lookup_spec(cv(code@), index_loc, c));
            }
        },
    }
    targets
}


/// Whether the chain walk from `p` runs entirely inside the code it was
/// given: every step lands in bounds until the walk finishes (or its fuel
/// runs out).  A walk with this property is insensitive to what lies
/// before or after the code, which makes a freshly generated block's walk
/// meaningful wherever the block is spliced.
pub open spec fn walk_within(block: Seq<LineV>, p: int, clock: usize, fuel: nat) -> bool
    decreases fuel,
{
    if fuel == 0 {
        true
    } else if !(0 <= p < block.len()) {
        false
    } else {
        match block[p] {
            LineV::IndexingCode(ic) => match ic.var_ptr {
                IndexingCodePtr::External(v) => walk_within(block, p + v, clock, (fuel - 1) as nat),
                IndexingCodePtr::DynamicExternal(v) => walk_within(
                    block,
                    p + v,
                    clock,
                    (fuel - 1) as nat,
                ),
                IndexingCodePtr::Internal(_) => true,
            },
            LineV::Choice(ChoiceInstruction::TryMeElse(o)) => o == 0 || walk_within(
                block,
                p + o,
                clock,
                (fuel - 1) as nat,
            ),
            LineV::Choice(ChoiceInstruction::RetryMeElse(o)) => o == 0 || walk_within(
                block,
                p + o,
                clock,
                (fuel - 1) as nat,
            ),
            LineV::Choice(ChoiceInstruction::TrustMe(_)) => true,
            LineV::Choice(ChoiceInstruction::DynamicElse(_, _, nof)) => match nof {
                NextOrFail::Next(k) => k == 0 || walk_within(block, p + k, clock, (fuel - 1) as nat),
                NextOrFail::Fail(_) => true,
            },
            LineV::Choice(ChoiceInstruction::DynamicInternalElse(_, _, nof)) => match nof {
                NextOrFail::Next(k) => k == 0 || walk_within(block, p + k, clock, (fuel - 1) as nat),
                NextOrFail::Fail(_) => true,
            },
            LineV::RevJmpBy(o) => o == 0 || walk_within(block, p - o, clock, (fuel - 1) as nat),
            _ => true,
        }
    }
}

/// A chain walk that runs inside its block is translation invariant: the
/// walk of the block spliced behind any prefix visits the same guards,
/// each shifted by the prefix's length.
pub proof fn lemma_walk_chain_shift(
    prefix: Seq<LineV>,
    block: Seq<LineV>,
    p: int,
    clock: usize,
    fuel: nat,
)
    requires
        walk_within(block, p, clock, fuel),
        0 <= p,
        prefix.len() + block.len() <= usize::MAX,
    ensures
        walk_chain_spec(prefix + block, prefix.len() + p, clock, fuel) == walk_chain_spec(
            block,
            p,
            clock,
            fuel,
        ).map_values(|x: usize| (prefix.len() + x) as usize),
    decreases fuel,
{
    let full = prefix + block;
    let shift = |x: usize| (prefix.len() + x) as usize;
    if fuel == 0 {
        assert(walk_chain_spec(full, prefix.len() + p, clock, fuel) =~= walk_chain_spec(
            block,
            p,
            clock,
            fuel,
        ).map_values(shift));
    } else {
        assert(full[prefix.len() + p] == block[p]);
        match block[p] {
            LineV::IndexingCode(ic) => {
                match ic.var_ptr {
                    IndexingCodePtr::External(v) => {
                        lemma_walk_chain_shift(prefix, block, p + v, clock, (fuel - 1) as nat);
                    },
                    IndexingCodePtr::DynamicExternal(v) => {
                        lemma_walk_chain_shift(prefix, block, p + v, clock, (fuel - 1) as nat);
                    },
                    IndexingCodePtr::Internal(_) => {
                        assert(walk_chain_spec(full, prefix.len() + p, clock, fuel)
                            =~= walk_chain_spec(block, p, clock, fuel).map_values(shift));
                    },
                }
            },
            LineV::Choice(ChoiceInstruction::TryMeElse(o)) => {
                if o != 0 {
                    lemma_walk_chain_shift(prefix, block, p + o, clock, (fuel - 1) as nat);
                }
                assert(walk_chain_spec(full, prefix.len() + p, clock, fuel) =~= walk_chain_spec(
                    block,
                    p,
                    clock,
                    fuel,
                ).map_values(shift));
            },
            LineV::Choice(ChoiceInstruction::RetryMeElse(o)) => {
                if o != 0 {
                    lemma_walk_chain_shift(prefix, block, p + o, clock, (fuel - 1) as nat);
                }
                assert(walk_chain_spec(full, prefix.len() + p, clock, fuel) =~= walk_chain_spec(
                    block,
                    p,
                    clock,
                    fuel,
                ).map_values(shift));
            },
            LineV::Choice(ChoiceInstruction::TrustMe(_)) => {
                assert(walk_chain_spec(full, prefix.len() + p, clock, fuel) =~= walk_chain_spec(
                    block,
                    p,
                    clock,
                    fuel,
                ).map_values(shift));
            },
            LineV::Choice(ChoiceInstruction::DynamicElse(_, _, nof)) => {
                match nof {
                    NextOrFail::Next(k) => {
                        if k != 0 {
                            lemma_walk_chain_shift(
                                prefix,
                                block,
                                p + k,
                                clock,
                                (fuel - 1) as nat,
                            );
                        }
                    },
                    NextOrFail::Fail(_) => {},
                }
                assert(walk_chain_spec(full, prefix.len() + p, clock, fuel) =~= walk_chain_spec(
                    block,
                    p,
                    clock,
                    fuel,
                ).map_values(shift));
            },
            LineV::Choice(ChoiceInstruction::DynamicInternalElse(_, _, nof)) => {
                match nof {
                    NextOrFail::Next(k) => {
                        if k != 0 {
                            lemma_walk_chain_shift(
                                prefix,
                                block,
                                p + k,
                                clock,
                                (fuel - 1) as nat,
                            );
                        }
                    },
                    NextOrFail::Fail(_) => {},
                }
                assert(walk_chain_spec(full, prefix.len() + p, clock, fuel) =~= walk_chain_spec(
                    block,
                    p,
                    clock,
                    fuel,
                ).map_values(shift));
            },
            LineV::RevJmpBy(o) => {
                if o != 0 && fuel > 1 {
                    assert(walk_within(block, p - o, clock, (fuel - 1) as nat));
                    assert(0 <= p - o < block.len());
                    lemma_walk_chain_shift(prefix, block, p - o, clock, (fuel - 1) as nat);
                }
                if o != 0 && fuel == 1 {
                    assert(walk_chain_spec(block, p - o, clock, 0) =~= Seq::<usize>::empty());
                    assert(walk_chain_spec(full, prefix.len() + p - o, clock, 0) =~= Seq::<
                        usize,
                    >::empty());
                }
                assert(walk_chain_spec(full, prefix.len() + p, clock, fuel) =~= walk_chain_spec(
                    block,
                    p,
                    clock,
                    fuel,
                ).map_values(shift));
            },
            _ => {
                assert(walk_chain_spec(full, prefix.len() + p, clock, fuel) =~= walk_chain_spec(
                    block,
                    p,
                    clock,
                    fuel,
                ).map_values(shift));
            },
        }
    }
}

} // verus!
