//! The scheduler: assigns each gate a level such that a gate's level strictly
//! exceeds the level of every gate whose output it reads through a
//! combinational (non-registered) edge. Gates of one level depend only on
//! earlier levels, primary inputs and registered wires, so one level's gates
//! can be evaluated in any order, or in parallel. The assignment is computed
//! once per circuit and reused across every cycle.
use vstd::prelude::*;

use crate::circuit::{Circuit, CircuitError};

verus! {

/// Gate `i` combinationally depends on gate `j`: gate `j` is not a flip-flop
/// and gate `i` reads its output wire. A flip-flop's output carries the
/// previous cycle's value, so reading it creates no dependency.
pub open spec fn dep(c: Circuit, i: int, j: int) -> bool {
    &&& 0 <= j < c.ng()
    &&& !((#[trigger] c.gates@[j].kind) is Dff)
    &&& c.gates@[i].inputs@.contains(c.gates@[j].output)
}

/// Under partial assignment `lv`, gate `i` could be scheduled: every gate it
/// combinationally depends on has a level already.
pub open spec fn ready(c: Circuit, lv: Seq<Option<usize>>, i: int) -> bool {
    forall|j: int| dep(c, i, j) ==> (#[trigger] lv[j]) is Some
}

/// One scheduling round: every still-unassigned gate whose dependencies are
/// all assigned receives level `k`.
pub open spec fn round_step(c: Circuit, lv: Seq<Option<usize>>, k: usize) -> Seq<Option<usize>> {
    Seq::new(
        lv.len(),
        |i: int|
            if lv[i] is Some {
                lv[i]
            } else if ready(c, lv, i) {
                Some(k)
            } else {
                Option::None
            },
    )
}

/// The partial assignment after `k` scheduling rounds, starting from nothing
/// assigned. Round `t` hands out level `t`.
pub open spec fn rounds(c: Circuit, k: nat) -> Seq<Option<usize>>
    decreases k,
{
    if k == 0 {
        Seq::new(c.ng() as nat, |i: int| Option::<usize>::None)
    } else {
        round_step(c, rounds(c, (k - 1) as nat), (k - 1) as usize)
    }
}

/// The level assignment of a circuit: what `ng` scheduling rounds reach.
/// `ng` rounds always suffice, since a round that assigns nothing changes
/// nothing afterwards.
pub open spec fn spec_levels(c: Circuit) -> Seq<Option<usize>> {
    rounds(c, c.ng() as nat)
}

/// The combinational subgraph is acyclic: levelization reaches every gate.
pub open spec fn comb_acyclic(c: Circuit) -> bool {
    forall|i: int| 0 <= i < c.ng() ==> (#[trigger] spec_levels(c)[i]) is Some
}

/// `v` is the circuit's level assignment, one level per gate.
pub open spec fn is_level_assignment(c: Circuit, v: Seq<usize>) -> bool {
    &&& v.len() == c.ng()
    &&& forall|i: int| 0 <= i < c.ng() ==> #[trigger] spec_levels(c)[i] == Some(v[i])
}

pub proof fn lemma_rounds_len(c: Circuit, k: nat)
    ensures
        rounds(c, k).len() == c.ng(),
    decreases k,
{
    if k > 0 {
        lemma_rounds_len(c, (k - 1) as nat);
    }
}

/// A level handed out by round `t` is `t` itself, so every assigned level is
/// below the number of rounds run.
pub proof fn lemma_level_bound(c: Circuit, k: nat, i: int)
    requires
        k <= usize::MAX,
        0 <= i < c.ng(),
        rounds(c, k)[i] is Some,
    ensures
        rounds(c, k)[i]->0 < k,
    decreases k,
{
    lemma_rounds_len(c, k);
    if k > 0 {
        lemma_rounds_len(c, (k - 1) as nat);
        if rounds(c, (k - 1) as nat)[i] is Some {
            lemma_level_bound(c, (k - 1) as nat, i);
        }
    }
}

/// Along any combinational dependency, the dependent gate's level strictly
/// exceeds the producer's, at every round.
pub proof fn lemma_rounds_topo(c: Circuit, k: nat, i: int, j: int)
    requires
        k <= usize::MAX,
        0 <= i < c.ng(),
        dep(c, i, j),
        rounds(c, k)[i] is Some,
    ensures
        rounds(c, k)[j] is Some,
        rounds(c, k)[j]->0 < rounds(c, k)[i]->0,
    decreases k,
{
    lemma_rounds_len(c, k);
    if k > 0 {
        let prev = rounds(c, (k - 1) as nat);
        lemma_rounds_len(c, (k - 1) as nat);
        if prev[i] is Some {
            lemma_rounds_topo(c, (k - 1) as nat, i, j);
        } else {
            // gate i was assigned in this round, so it was ready: j is
            // assigned in `prev`, with a level below k - 1.
            assert(ready(c, prev, i));
            assert(prev[j] is Some);
            lemma_level_bound(c, (k - 1) as nat, j);
        }
    }
}

/// Law: a circuit's level assignment is a valid topological order of the
/// combinational subgraph — every gate's level strictly exceeds the level of
/// each gate whose output it reads through a non-registered edge.
pub proof fn lemma_levels_topological(c: Circuit, v: Seq<usize>, i: int, j: int)
    requires
        is_level_assignment(c, v),
        0 <= i < c.ng(),
        dep(c, i, j),
    ensures
        v[j] < v[i],
{
    lemma_gate_count_bound(c);
    lemma_rounds_topo(c, c.ng() as nat, i, j);
}

/// A circuit's gates sit in a vector, so their count fits a `usize`.
pub proof fn lemma_gate_count_bound(c: Circuit)
    ensures
        c.ng() <= usize::MAX,
{
    broadcast use vstd::std_specs::vec::axiom_spec_len;

    assert(vstd::std_specs::vec::spec_vec_len(&c.gates) == c.gates@.len());
}

/// Law: levelization is a function of the circuit alone — two level
/// assignments of the same circuit are equal, however and in whatever order
/// they were computed.
pub proof fn lemma_levelize_idempotent(c: Circuit, v1: Seq<usize>, v2: Seq<usize>)
    requires
        is_level_assignment(c, v1),
        is_level_assignment(c, v2),
    ensures
        v1 == v2,
{
    assert forall|i: int| 0 <= i < v1.len() implies v1[i] == v2[i] by {
        assert(spec_levels(c)[i] == Some(v1[i]));
        assert(spec_levels(c)[i] == Some(v2[i]));
    }
    assert(v1 =~= v2);
}

/// Computes the level assignment of a circuit by repeated rounds: each round
/// schedules every gate whose combinational dependencies are already
/// scheduled. A circuit whose combinational subgraph has a cycle leaves some
/// gate forever unscheduled and is reported as such; the validator rejects
/// such a circuit before evaluation.
#[verifier::loop_isolation(false)]
pub fn levelize(c: &Circuit) -> (r: Result<Vec<usize>, CircuitError>)
    ensures
        r is Ok <==> comb_acyclic(*c),
        r is Ok ==> is_level_assignment(*c, r->Ok_0@),
        r is Err ==> r == Err::<Vec<usize>, CircuitError>(CircuitError::CombinationalCycle),
{
    let n = c.gates.len();
    let mut lv: Vec<Option<usize>> = Vec::new();
    let mut t: usize = 0;
    while t < n
        invariant
            lv@.len() == t,
            t <= n,
            forall|s: int| 0 <= s < t ==> (#[trigger] lv@[s]) is None,
        decreases n - t,
    {
        lv.push(Option::None);
        t += 1;
    }
    proof {
        lemma_rounds_len(*c, 0);
        assert(lv@ =~= rounds(*c, 0));
    }
    let mut k: usize = 0;
    while k < n
        invariant
            n == c.ng(),
            k <= n,
            lv@ == rounds(*c, k as nat),
            lv@.len() == n,
        decreases n - k,
    {
        let ghost old_lv = lv@;
        let mut nlv: Vec<Option<usize>> = Vec::new();
        let mut i: usize = 0;
        while i < n
            invariant
                n == c.ng(),
                k < n,
                lv@ == old_lv,
                lv@.len() == n,
                i <= n,
                nlv@ =~= round_step(*c, lv@, k).subrange(0, i as int),
            decreases n - i,
        {
            if lv[i].is_some() {
                let v = lv[i];
                nlv.push(v);
            } else {
                let mut rdy = true;
                let mut j: usize = 0;
                while j < n
                    invariant
                        n == c.ng(),
                        i < n,
                        lv@ == old_lv,
                        lv@.len() == n,
                        j <= n,
                        rdy == (forall|jj: int|
                            0 <= jj < j ==> (dep(*c, i as int, jj) ==> (#[trigger] lv@[jj])
                                is Some)),
                    decreases n - j,
                {
                    if !c.gates[j].kind.is_dff() && c.gates[i].reads(c.gates[j].output) && lv[j]
                        .is_none() {
                        rdy = false;
                    }
                    j += 1;
                }
                assert(rdy == ready(*c, lv@, i as int)) by {
                    if rdy {
                        assert forall|jj: int| dep(*c, i as int, jj) implies (#[trigger] lv@[jj])
                            is Some by {
                            assert(0 <= jj < n);
                        }
                    }
                }
                if rdy {
                    nlv.push(Option::Some(k));
                } else {
                    nlv.push(Option::None);
                }
            }
            proof {
                assert(nlv@ =~= round_step(*c, lv@, k).subrange(0, i + 1 as int));
            }
            i += 1;
        }
        proof {
            assert(nlv@ =~= round_step(*c, lv@, k));
        }
        lv = nlv;
        k += 1;
        proof {
            assert(lv@ == rounds(*c, k as nat));
        }
    }
    assert(lv@ == spec_levels(*c));
    let mut out: Vec<usize> = Vec::new();
    let mut i: usize = 0;
    while i < n
        invariant
            n == c.ng(),
            i <= n,
            lv@ == spec_levels(*c),
            lv@.len() == n,
            out@.len() == i,
            forall|s: int| 0 <= s < i ==> #[trigger] spec_levels(*c)[s] == Some(out@[s]),
        decreases n - i,
    {
        match lv[i] {
            Option::Some(l) => {
                out.push(l);
            },
            Option::None => {
                assert(!comb_acyclic(*c));
                return Err(CircuitError::CombinationalCycle);
            },
        }
        i += 1;
    }
    assert(comb_acyclic(*c));
    Ok(out)
}

} // verus!
