//! The plaintext evaluator and the sequential runner. A pass walks the
//! levels in increasing order and evaluates every gate of a level; a
//! flip-flop gate stages its result as its output wire's next-cycle value
//! instead of writing it. The runner seeds each cycle's store from the
//! supplied primary inputs and the registers committed by the previous
//! cycle, runs one pass, snapshots the primary outputs, and commits the
//! staged register values.
use vstd::prelude::*;

use crate::circuit::Circuit;
use crate::scheduler::is_level_assignment;
use crate::values::{
    eval_gate, matches_mode, mode_default, spec_eval_gate, EvalError, Mode, PtxtType,
};

verus! {

/// A store of one value per wire, all unassigned.
pub open spec fn all_uninit(n: int) -> Seq<PtxtType> {
    Seq::new(n as nat, |i: int| PtxtType::Uninit)
}

/// The operand values gate `g` reads from the store.
pub open spec fn gate_ins(c: Circuit, g: int, store: Seq<PtxtType>) -> Seq<PtxtType> {
    c.gates@[g].inputs@.map_values(|w: usize| store[w as int])
}

/// One gate applied to the pass state `(store, staged next values)`: a
/// flip-flop stages its result, every other gate writes its output wire.
pub open spec fn apply_gate(c: Circuit, g: int, st: (Seq<PtxtType>, Seq<PtxtType>)) -> Result<
    (Seq<PtxtType>, Seq<PtxtType>),
    EvalError,
> {
    match spec_eval_gate(c.gates@[g].kind, gate_ins(c, g, st.0)) {
        Result::Err(e) => Result::Err(e),
        Result::Ok(v) => if c.gates@[g].kind is Dff {
            Result::Ok((st.0, st.1.update(c.gates@[g].output as int, v)))
        } else {
            Result::Ok((st.0.update(c.gates@[g].output as int, v), st.1))
        },
    }
}

/// The pass state after the gates of level `k` with index below `i` have
/// run, starting from `st`. A fault stops the pass: later gates leave it.
pub open spec fn level_fold(
    c: Circuit,
    lv: Seq<usize>,
    k: int,
    i: int,
    st: Result<(Seq<PtxtType>, Seq<PtxtType>), EvalError>,
) -> Result<(Seq<PtxtType>, Seq<PtxtType>), EvalError>
    decreases i,
{
    if i <= 0 {
        st
    } else {
        let prev = level_fold(c, lv, k, i - 1, st);
        if lv[i - 1] as int == k {
            match prev {
                Result::Err(e) => Result::Err(e),
                Result::Ok(s) => apply_gate(c, i - 1, s),
            }
        } else {
            prev
        }
    }
}

/// The pass state after all levels below `k` have run.
pub open spec fn pass_fold(
    c: Circuit,
    lv: Seq<usize>,
    k: int,
    st0: Result<(Seq<PtxtType>, Seq<PtxtType>), EvalError>,
) -> Result<(Seq<PtxtType>, Seq<PtxtType>), EvalError>
    decreases k,
{
    if k <= 0 {
        st0
    } else {
        level_fold(c, lv, k - 1, c.ng(), pass_fold(c, lv, k - 1, st0))
    }
}

/// One full evaluation pass over a seeded store: every level in increasing
/// order, within a level every gate in index order (any order would reach
/// the same state, since one level's gates read only earlier levels'
/// outputs). Yields the final store and the staged next-cycle register
/// values, or the first fault.
pub open spec fn spec_pass(c: Circuit, lv: Seq<usize>, store0: Seq<PtxtType>) -> Result<
    (Seq<PtxtType>, Seq<PtxtType>),
    EvalError,
> {
    pass_fold(c, lv, c.ng(), Result::Ok((store0, all_uninit(c.nw()))))
}

/// Relates the exec pass state (a fault flag and two vectors) to the spec
/// fold state.
pub open spec fn st_match(
    fault: Option<EvalError>,
    store: Seq<PtxtType>,
    next: Seq<PtxtType>,
    st: Result<(Seq<PtxtType>, Seq<PtxtType>), EvalError>,
) -> bool {
    match fault {
        Option::None => st == Result::Ok::<(Seq<PtxtType>, Seq<PtxtType>), EvalError>(
            (store, next),
        ),
        Option::Some(e) => st == Result::Err::<(Seq<PtxtType>, Seq<PtxtType>), EvalError>(e),
    }
}

/// Evaluates every gate of the circuit, level by level, over a seeded
/// store. Returns the final store and the staged register values; the exact
/// semantics, fault included, is `spec_pass`.
#[verifier::loop_isolation(false)]
pub fn eval_pass(c: &Circuit, lv: &Vec<usize>, store: Vec<PtxtType>) -> (r: Result<
    (Vec<PtxtType>, Vec<PtxtType>),
    EvalError,
>)
    requires
        c.structure_ok(),
        is_level_assignment(*c, lv@),
        store@.len() == c.nw(),
    ensures
        r is Ok ==> r->Ok_0.0@.len() == c.nw() && r->Ok_0.1@.len() == c.nw(),
        (match r {
            Result::Ok(p) => spec_pass(*c, lv@, store@) == Result::Ok::<
                (Seq<PtxtType>, Seq<PtxtType>),
                EvalError,
            >((p.0@, p.1@)),
            Result::Err(e) => spec_pass(*c, lv@, store@) == Result::Err::<
                (Seq<PtxtType>, Seq<PtxtType>),
                EvalError,
            >(e),
        }),
{
    let n = c.gates.len();
    let nw = c.wire_names.len();
    let ghost st0 = Result::Ok::<(Seq<PtxtType>, Seq<PtxtType>), EvalError>(
        (store@, all_uninit(c.nw())),
    );
    let mut st = store;
    let mut next: Vec<PtxtType> = Vec::new();
    let mut t: usize = 0;
    while t < nw
        invariant
            t <= nw,
            next@.len() == t,
            forall|s: int| 0 <= s < t ==> next@[s] is Uninit,
        decreases nw - t,
    {
        next.push(PtxtType::Uninit);
        t += 1;
    }
    proof {
        assert(next@ =~= all_uninit(c.nw()));
    }
    let mut fault: Option<EvalError> = Option::None;
    let mut k: usize = 0;
    while k < n
        invariant
            k <= n,
            st@.len() == nw,
            next@.len() == nw,
            st_match(fault, st@, next@, pass_fold(*c, lv@, k as int, st0)),
        decreases n - k,
    {
        let mut i: usize = 0;
        while i < n
            invariant
                i <= n,
                k < n,
                st@.len() == nw,
                next@.len() == nw,
                st_match(
                    fault,
                    st@,
                    next@,
                    level_fold(*c, lv@, k as int, i as int, pass_fold(*c, lv@, k as int, st0)),
                ),
            decreases n - i,
        {
            if lv[i] == k && fault.is_none() {
                assert(c.gate_indices_ok(i as int));
                let gk = c.gates[i].kind;
                let m = c.gates[i].inputs.len();
                let mut ins: Vec<PtxtType> = Vec::new();
                let mut j: usize = 0;
                while j < m
                    invariant
                        j <= m,
                        m == c.gates@[i as int].inputs@.len(),
                        i < n,
                        st@.len() == nw,
                        ins@ =~= gate_ins(*c, i as int, st@).subrange(0, j as int),
                    decreases m - j,
                {
                    let w = c.gates[i].inputs[j];
                    ins.push(st[w]);
                    proof {
                        assert(gate_ins(*c, i as int, st@)[j as int] == st@[c.gates@[i as int].inputs@[j as int] as int]);
                        assert(ins@ =~= gate_ins(*c, i as int, st@).subrange(0, j + 1 as int));
                    }
                    j += 1;
                }
                proof {
                    assert(ins@ =~= gate_ins(*c, i as int, st@));
                }
                let ghost pre = (st@, next@);
                match eval_gate(gk, &ins) {
                    Result::Ok(v) => {
                        let out = c.gates[i].output;
                        if gk.is_dff() {
                            next[out] = v;
                        } else {
                            st[out] = v;
                        }
                        proof {
                            assert(apply_gate(*c, i as int, pre) == Result::Ok::<
                                (Seq<PtxtType>, Seq<PtxtType>),
                                EvalError,
                            >((st@, next@)));
                        }
                    },
                    Result::Err(e) => {
                        fault = Option::Some(e);
                    },
                }
            }
            i += 1;
        }
        k += 1;
    }
    proof {
        assert(pass_fold(*c, lv@, n as int, st0) == spec_pass(*c, lv@, store@));
    }
    match fault {
        Option::None => Result::Ok((st, next)),
        Option::Some(e) => Result::Err(e),
    }
}

/// The register values before the first cycle: every registered wire holds
/// the mode's reset value (false or zero), every other wire none.
pub open spec fn initial_regs(c: Circuit, m: Mode) -> Seq<PtxtType> {
    Seq::new(
        c.nw() as nat,
        |w: int|
            if c.is_reg_wire(w) {
                mode_default(m)
            } else {
                PtxtType::Uninit
            },
    )
}

/// The value the supplied input pairs bind a name to; a later pair for the
/// same name overrides an earlier one.
pub open spec fn lookup(pairs: Seq<(String, PtxtType)>, name: Seq<char>) -> Option<PtxtType>
    decreases pairs.len(),
{
    if pairs.len() == 0 {
        Option::None
    } else if pairs.last().0@ == name {
        Option::Some(pairs.last().1)
    } else {
        lookup(pairs.drop_last(), name)
    }
}

/// A value the input pairs bind a name to carries the mode every supplied
/// value carries.
pub proof fn lemma_lookup_moded(pairs: Seq<(String, PtxtType)>, name: Seq<char>, m: Mode)
    requires
        inputs_well_moded(pairs, m),
        lookup(pairs, name) is Some,
    ensures
        matches_mode(lookup(pairs, name)->0, m),
    decreases pairs.len(),
{
    if pairs.len() > 0 && pairs.last().0@ != name {
        assert(inputs_well_moded(pairs.drop_last(), m)) by {
            assert(forall|i: int|
                0 <= i < pairs.drop_last().len() ==> (#[trigger] pairs.drop_last()[i]) == pairs[i]);
        }
        lemma_lookup_moded(pairs.drop_last(), name, m);
    }
}

/// The store a cycle starts from: registered wires carry the committed
/// register values, every other primary input carries its supplied value or
/// the mode's default when the input map omits it, and every remaining wire
/// is unassigned.
pub open spec fn seed(
    c: Circuit,
    pairs: Seq<(String, PtxtType)>,
    regs: Seq<PtxtType>,
    m: Mode,
) -> Seq<PtxtType> {
    Seq::new(
        c.nw() as nat,
        |w: int|
            if c.is_reg_wire(w) {
                regs[w]
            } else if c.is_primary_input(w) {
                match lookup(pairs, c.wire_names@[w]@) {
                    Option::Some(v) => v,
                    Option::None => mode_default(m),
                }
            } else {
                PtxtType::Uninit
            },
    )
}

/// Every supplied input value carries the run's mode.
pub open spec fn inputs_well_moded(pairs: Seq<(String, PtxtType)>, m: Mode) -> bool {
    forall|i: int| 0 <= i < pairs.len() ==> matches_mode((#[trigger] pairs[i]).1, m)
}

/// One cycle: seed, pass, snapshot the primary outputs, commit the staged
/// register values.
pub open spec fn spec_cycle(
    c: Circuit,
    lv: Seq<usize>,
    pairs: Seq<(String, PtxtType)>,
    m: Mode,
    regs: Seq<PtxtType>,
) -> Result<(Seq<PtxtType>, Seq<PtxtType>), EvalError> {
    match spec_pass(c, lv, seed(c, pairs, regs, m)) {
        Result::Err(e) => Result::Err(e),
        Result::Ok(sn) => Result::Ok(
            (
                c.primary_outputs@.map_values(|w: usize| sn.0[w as int]),
                Seq::new(
                    c.nw() as nat,
                    |w: int|
                        if c.is_reg_wire(w) {
                            sn.1[w]
                        } else {
                            PtxtType::Uninit
                        },
                ),
            ),
        ),
    }
}

/// The per-cycle primary-output snapshots of `t` further cycles starting
/// from register state `regs`.
pub open spec fn spec_run_from(
    c: Circuit,
    lv: Seq<usize>,
    pairs: Seq<(String, PtxtType)>,
    m: Mode,
    regs: Seq<PtxtType>,
    t: nat,
) -> Result<Seq<Seq<PtxtType>>, EvalError>
    decreases t,
{
    if t == 0 {
        Result::Ok(Seq::empty())
    } else {
        match spec_cycle(c, lv, pairs, m, regs) {
            Result::Err(e) => Result::Err(e),
            Result::Ok(p) => match spec_run_from(c, lv, pairs, m, p.1, (t - 1) as nat) {
                Result::Err(e) => Result::Err(e),
                Result::Ok(rest) => Result::Ok(seq![p.0] + rest),
            },
        }
    }
}

/// A whole run: the supplied inputs must all carry the run's mode, registers
/// reset to the mode's default, then `t` cycles in sequence.
pub open spec fn spec_run(
    c: Circuit,
    lv: Seq<usize>,
    pairs: Seq<(String, PtxtType)>,
    m: Mode,
    t: nat,
) -> Result<Seq<Seq<PtxtType>>, EvalError> {
    if !inputs_well_moded(pairs, m) {
        Result::Err(EvalError::TypeMismatch)
    } else {
        spec_run_from(c, lv, pairs, m, initial_regs(c, m), t)
    }
}

/// The register state visible at the start of cycle `t` of a run.
pub open spec fn regs_before_cycle(
    c: Circuit,
    lv: Seq<usize>,
    pairs: Seq<(String, PtxtType)>,
    m: Mode,
    t: nat,
) -> Seq<PtxtType>
    decreases t,
{
    if t == 0 {
        initial_regs(c, m)
    } else {
        match spec_cycle(c, lv, pairs, m, regs_before_cycle(c, lv, pairs, m, (t - 1) as nat)) {
            Result::Ok(p) => p.1,
            Result::Err(_) => Seq::empty(),
        }
    }
}

/// Law: sequential correctness. The value of a registered wire visible at
/// the start of cycle `t + 1` is exactly the next-state value staged for it
/// during cycle `t`'s pass.
pub proof fn lemma_register_handoff(
    c: Circuit,
    lv: Seq<usize>,
    pairs: Seq<(String, PtxtType)>,
    m: Mode,
    t: nat,
    w: int,
) ensures
    0 <= w < c.nw() && c.is_reg_wire(w) && spec_pass(
        c,
        lv,
        seed(c, pairs, regs_before_cycle(c, lv, pairs, m, t), m),
    ) is Ok ==> regs_before_cycle(c, lv, pairs, m, t + 1)[w] == spec_pass(
        c,
        lv,
        seed(c, pairs, regs_before_cycle(c, lv, pairs, m, t), m),
    )->Ok_0.1[w],
{
}

/// Law: default fill. A primary input wire that is not registered and that
/// the supplied input map does not name is seeded with the mode's default:
/// false in boolean mode, zero in the arithmetic modes.
pub proof fn lemma_default_fill(
    c: Circuit,
    pairs: Seq<(String, PtxtType)>,
    regs: Seq<PtxtType>,
    m: Mode,
    w: int,
) requires
    0 <= w < c.nw(),
    c.is_primary_input(w),
    !c.is_reg_wire(w),
    lookup(pairs, c.wire_names@[w]@) is None,
 ensures
    seed(c, pairs, regs, m)[w] == mode_default(m),
{
}

/// Compares two strings character by character.
#[verifier::loop_isolation(false)]
pub fn str_eq(a: &str, b: &str) -> (r: bool)
    ensures
        r == (a@ == b@),
{
    let la = a.unicode_len();
    let lb = b.unicode_len();
    if la != lb {
        assert(a@ != b@);
        return false;
    }
    let mut i: usize = 0;
    while i < la
        invariant
            i <= la,
            la == a@.len(),
            la == b@.len(),
            forall|s: int| 0 <= s < i ==> a@[s] == b@[s],
        decreases la - i,
    {
        if a.get_char(i) != b.get_char(i) {
            assert(a@ != b@);
            return false;
        }
        i += 1;
    }
    proof {
        assert(a@ =~= b@);
    }
    true
}

/// Finds the value the input pairs bind a wire name to; a later pair for
/// the same name overrides an earlier one.
#[verifier::loop_isolation(false)]
pub fn lookup_input(pairs: &Vec<(String, PtxtType)>, name: &str) -> (r: Option<PtxtType>)
    ensures
        r == lookup(pairs@, name@),
{
    let mut r: Option<PtxtType> = Option::None;
    let mut i: usize = 0;
    while i < pairs.len()
        invariant
            i <= pairs@.len(),
            r == lookup(pairs@.subrange(0, i as int), name@),
        decreases pairs@.len() - i,
    {
        proof {
            assert(pairs@.subrange(0, i + 1 as int).drop_last() =~= pairs@.subrange(0, i as int));
        }
        if str_eq(pairs[i].0.as_str(), name) {
            r = Option::Some(pairs[i].1);
        }
        i += 1;
    }
    proof {
        assert(pairs@.subrange(0, pairs@.len() as int) =~= pairs@);
    }
    r
}

/// Builds the store one cycle starts from; the exact contents is `seed`.
#[verifier::loop_isolation(false)]
pub fn build_seed(
    c: &Circuit,
    pairs: &Vec<(String, PtxtType)>,
    regs: &Vec<PtxtType>,
    m: Mode,
) -> (r: Vec<PtxtType>)
    requires
        regs@.len() == c.nw(),
    ensures
        r@ == seed(*c, pairs@, regs@, m),
{
    let nw = c.wire_names.len();
    let mut r: Vec<PtxtType> = Vec::new();
    let mut w: usize = 0;
    while w < nw
        invariant
            w <= nw,
            r@.len() == w,
            forall|s: int| 0 <= s < w ==> r@[s] == seed(*c, pairs@, regs@, m)[s],
        decreases nw - w,
    {
        let v: PtxtType = if c.is_registered(w) {
            regs[w]
        } else if c.is_input(w) {
            match lookup_input(pairs, c.wire_names[w].as_str()) {
                Option::Some(v) => v,
                Option::None => m.default_value(),
            }
        } else {
            PtxtType::Uninit
        };
        r.push(v);
        w += 1;
    }
    proof {
        assert(r@ =~= seed(*c, pairs@, regs@, m));
    }
    r
}

/// Runs a validated circuit for `cycles` cycles in the given mode with the
/// given primary-input values, constant across cycles. Registered wires
/// start at the mode's reset value; after each cycle the staged register
/// values are committed and the primary outputs are snapshotted. Returns
/// one output vector per cycle, in primary-output declaration order; the
/// exact semantics, faults included, is `spec_run`.
#[verifier::loop_isolation(false)]
pub fn run_sequential(
    c: &Circuit,
    lv: &Vec<usize>,
    pairs: &Vec<(String, PtxtType)>,
    m: Mode,
    cycles: usize,
) -> (r: Result<Vec<Vec<PtxtType>>, EvalError>)
    requires
        c.structure_ok(),
        is_level_assignment(*c, lv@),
        cycles >= 1,
    ensures
        (match r {
            Result::Ok(o) => spec_run(*c, lv@, pairs@, m, cycles as nat) == Result::Ok::<
                Seq<Seq<PtxtType>>,
                EvalError,
            >(o@.map_values(|v: Vec<PtxtType>| v@)),
            Result::Err(e) => spec_run(*c, lv@, pairs@, m, cycles as nat) == Result::Err::<
                Seq<Seq<PtxtType>>,
                EvalError,
            >(e),
        }),
{
    let nw = c.wire_names.len();
    // the run's configuration is rejected before evaluation when a supplied
    // value does not carry the run's mode
    let mut i: usize = 0;
    while i < pairs.len()
        invariant
            i <= pairs@.len(),
            forall|s: int| 0 <= s < i ==> matches_mode((#[trigger] pairs@[s]).1, m),
        decreases pairs@.len() - i,
    {
        if !pairs[i].1.matches_mode(m) {
            assert(!inputs_well_moded(pairs@, m));
            return Result::Err(EvalError::TypeMismatch);
        }
        i += 1;
    }
    assert(inputs_well_moded(pairs@, m));
    // reset registers
    let mut regs: Vec<PtxtType> = Vec::new();
    let mut w: usize = 0;
    while w < nw
        invariant
            w <= nw,
            regs@.len() == w,
            forall|s: int| 0 <= s < w ==> regs@[s] == initial_regs(*c, m)[s],
        decreases nw - w,
    {
        if c.is_registered(w) {
            regs.push(m.default_value());
        } else {
            regs.push(PtxtType::Uninit);
        }
        w += 1;
    }
    proof {
        assert(regs@ =~= initial_regs(*c, m));
    }
    let mut outs: Vec<Vec<PtxtType>> = Vec::new();
    let mut done: usize = 0;
    while done < cycles
        invariant
            done <= cycles,
            regs@.len() == nw,
            outs@.len() == done,
            spec_run_from(*c, lv@, pairs@, m, initial_regs(*c, m), cycles as nat) == (match
                spec_run_from(*c, lv@, pairs@, m, regs@, (cycles - done) as nat) {
                Result::Err(e) => Result::Err::<Seq<Seq<PtxtType>>, EvalError>(e),
                Result::Ok(rest) => Result::Ok::<Seq<Seq<PtxtType>>, EvalError>(
                    outs@.map_values(|v: Vec<PtxtType>| v@) + rest,
                ),
            }),
        decreases cycles - done,
    {
        let store = build_seed(c, pairs, &regs, m);
        let ghost regs_pre = regs@;
        match eval_pass(c, lv, store) {
            Result::Err(e) => {
                assert(spec_cycle(*c, lv@, pairs@, m, regs_pre) == Result::Err::<
                    (Seq<PtxtType>, Seq<PtxtType>),
                    EvalError,
                >(e));
                return Result::Err(e);
            },
            Result::Ok(p) => {
                let (st, next) = p;
                // snapshot primary outputs
                let mut snap: Vec<PtxtType> = Vec::new();
                let mut j: usize = 0;
                while j < c.primary_outputs.len()
                    invariant
                        j <= c.primary_outputs@.len(),
                        st@.len() == nw,
                        snap@ =~= c.primary_outputs@.map_values(|ww: usize| st@[ww as int])
                            .subrange(0, j as int),
                    decreases c.primary_outputs@.len() - j,
                {
                    let ww = c.primary_outputs[j];
                    snap.push(st[ww]);
                    proof {
                        assert(snap@ =~= c.primary_outputs@.map_values(|ww: usize| st@[ww as int])
                            .subrange(0, j + 1 as int));
                    }
                    j += 1;
                }
                proof {
                    assert(snap@ =~= c.primary_outputs@.map_values(|ww: usize| st@[ww as int]));
                }
                // commit staged register values
                let mut nregs: Vec<PtxtType> = Vec::new();
                let mut w2: usize = 0;
                while w2 < nw
                    invariant
                        w2 <= nw,
                        next@.len() == nw,
                        nregs@.len() == w2,
                        forall|s: int|
                            0 <= s < w2 ==> nregs@[s] == (if c.is_reg_wire(s) {
                                next@[s]
                            } else {
                                PtxtType::Uninit
                            }),
                    decreases nw - w2,
                {
                    if c.is_registered(w2) {
                        nregs.push(next[w2]);
                    } else {
                        nregs.push(PtxtType::Uninit);
                    }
                    w2 += 1;
                }
                let ghost cyc = spec_cycle(*c, lv@, pairs@, m, regs_pre);
                proof {
                    assert(cyc == Result::Ok::<(Seq<PtxtType>, Seq<PtxtType>), EvalError>(
                        (snap@, nregs@),
                    )) by {
                        assert(nregs@ =~= Seq::new(
                            c.nw() as nat,
                            |ww: int|
                                if c.is_reg_wire(ww) {
                                    next@[ww]
                                } else {
                                    PtxtType::Uninit
                                },
                        ));
                    }
                }
                regs = nregs;
                let ghost outs_pre = outs@.map_values(|v: Vec<PtxtType>| v@);
                outs.push(snap);
                proof {
                    assert(outs@.map_values(|v: Vec<PtxtType>| v@) =~= outs_pre.push(snap@));
                    let rem = (cycles - done) as nat;
                    assert(spec_run_from(*c, lv@, pairs@, m, regs_pre, rem) == (match
                        spec_run_from(*c, lv@, pairs@, m, regs@, (rem - 1) as nat) {
                        Result::Err(e) => Result::Err::<Seq<Seq<PtxtType>>, EvalError>(e),
                        Result::Ok(rest) => Result::Ok::<Seq<Seq<PtxtType>>, EvalError>(
                            seq![snap@] + rest,
                        ),
                    }));
                    if spec_run_from(*c, lv@, pairs@, m, regs@, (rem - 1) as nat) is Ok {
                        let rest = spec_run_from(*c, lv@, pairs@, m, regs@, (rem - 1) as nat)->Ok_0;
                        assert(outs_pre + (seq![snap@] + rest) =~= (outs_pre.push(snap@)) + rest);
                    }
                }
                done += 1;
            },
        }
    }
    proof {
        assert(spec_run_from(*c, lv@, pairs@, m, regs@, 0) == Result::Ok::<
            Seq<Seq<PtxtType>>,
            EvalError,
        >(Seq::empty()));
        assert(outs@.map_values(|v: Vec<PtxtType>| v@) + Seq::empty() =~= outs@.map_values(
            |v: Vec<PtxtType>| v@,
        ));
    }
    Result::Ok(outs)
}

} // verus!
