//! The homomorphic evaluator: circuit evaluation over encrypted bits, the
//! boolean mode of the engine — every encrypted wire carries a single bit,
//! and the arithmetic gate kinds fault under encryption.
//! The encryption itself is done by an outside library; this module
//! wraps each primitive it relies on in one trusted function whose contract
//! tracks, in ghost state, the bit a ciphertext encrypts and the key context
//! it was produced under. Everything built on top of the wrappers — gate
//! evaluation, the pass, the cycle runner — is verified against the same
//! specification functions as the plaintext evaluator, which is what makes
//! the decrypt-after-evaluate-equals-evaluate-plaintext law provable.
use vstd::prelude::*;

use crate::circuit::Circuit;
use crate::eval::{
    all_uninit, apply_gate, gate_ins, initial_regs, inputs_well_moded, level_fold, lookup_input,
    pass_fold, seed, spec_cycle, spec_pass, spec_run, spec_run_from, st_match,
};
use crate::gates::GateKind;
use crate::scheduler::is_level_assignment;
use crate::values::{matches_mode, spec_eval_gate, EvalError, Mode, PtxtType};

use tfhe::boolean::ciphertext::Ciphertext;
use tfhe::boolean::client_key::ClientKey;
use tfhe::boolean::server_key::{BinaryBooleanGates, ServerKey};

verus! {

#[verifier::external_type_specification]
#[verifier::external_body]
pub struct ExCiphertext(Ciphertext);

#[verifier::external_type_specification]
#[verifier::external_body]
pub struct ExClientKey(ClientKey);

#[verifier::external_type_specification]
#[verifier::external_body]
pub struct ExServerKey(ServerKey);

/// The key material of one run: generated once, shared read-only by every
/// encryption, gate evaluation and decryption of that run. The ghost tag is
/// the abstract identity of the key pair: nothing is promised about it, so
/// no two contexts can be proved to share one, and a ciphertext's contract
/// speaks of its encrypted bit only together with the context that produced
/// it. The fields stay private so no code outside this module can rebind a
/// ciphertext's ghost state to a foreign context.
pub struct FheContext {
    client_key: ClientKey,
    server_key: ServerKey,
    tag: Ghost<int>,
}

impl FheContext {
    /// The abstract identity of this context's key pair.
    pub closed spec fn id(self) -> int {
        self.tag@
    }
}

/// An encrypted bit: the ciphertext, the bit it encrypts (ghost), and the
/// identity of the context it was produced under (ghost). The ghost fields
/// stay private: only this module's trusted wrappers bind them.
pub struct CtBool {
    c: Ciphertext,
    plain: Ghost<bool>,
    tag: Ghost<int>,
}

impl CtBool {
    /// The bit this ciphertext encrypts.
    pub closed spec fn bit(self) -> bool {
        self.plain@
    }

    /// The identity of the context this ciphertext was produced under.
    pub closed spec fn ctx_id(self) -> int {
        self.tag@
    }
}

/// Relies on tfhe::boolean::gen_keys: a fresh client/server key pair. The
/// context's identity is left abstract — no clause mentions it — so a
/// ciphertext can only be proved to belong to the very context that
/// produced it.
#[verifier::external_body]
pub fn new_context() -> FheContext {
    let (ck, sk) = tfhe::boolean::gen_keys();
    FheContext { client_key: ck, server_key: sk, tag: Ghost(0int) }
}

/// Relies on tfhe::boolean::ClientKey::encrypt: the returned ciphertext
/// encrypts the given bit under this context's keys.
#[verifier::external_body]
pub fn ct_encrypt(ctx: &FheContext, v: bool) -> (r: CtBool)
    ensures
        r.bit() == v,
        r.ctx_id() == ctx.id(),
{
    CtBool { c: ctx.client_key.encrypt(v), plain: Ghost(false), tag: Ghost(0int) }
}

/// Relies on tfhe::boolean::ClientKey::decrypt: decrypting a ciphertext
/// with the client key of the context it was produced under yields the bit
/// it encrypts.
#[verifier::external_body]
pub fn ct_decrypt(ctx: &FheContext, a: &CtBool) -> (r: bool)
    requires
        a.ctx_id() == ctx.id(),
    ensures
        r == a.bit(),
{
    ctx.client_key.decrypt(&a.c)
}

/// Relies on Ciphertext::clone: a clone encrypts the same bit.
#[verifier::external_body]
pub fn ct_clone(a: &CtBool) -> (r: CtBool)
    ensures
        r.bit() == a.bit(),
        r.ctx_id() == a.ctx_id(),
{
    CtBool { c: a.c.clone(), plain: Ghost(false), tag: Ghost(0int) }
}

/// Relies on tfhe::boolean::ServerKey::and (BinaryBooleanGates): the
/// homomorphic AND of two ciphertexts of one context.
#[verifier::external_body]
pub fn ct_and(ctx: &FheContext, a: &CtBool, b: &CtBool) -> (r: CtBool)
    requires
        a.ctx_id() == ctx.id(),
        b.ctx_id() == ctx.id(),
    ensures
        r.bit() == (a.bit() && b.bit()),
        r.ctx_id() == ctx.id(),
{
    CtBool {
        c: ctx.server_key.and(&a.c, &b.c),
        plain: Ghost(false),
        tag: Ghost(0int),
    }
}

/// Relies on tfhe::boolean::ServerKey::or (BinaryBooleanGates).
#[verifier::external_body]
pub fn ct_or(ctx: &FheContext, a: &CtBool, b: &CtBool) -> (r: CtBool)
    requires
        a.ctx_id() == ctx.id(),
        b.ctx_id() == ctx.id(),
    ensures
        r.bit() == (a.bit() || b.bit()),
        r.ctx_id() == ctx.id(),
{
    CtBool {
        c: ctx.server_key.or(&a.c, &b.c),
        plain: Ghost(false),
        tag: Ghost(0int),
    }
}

/// Relies on tfhe::boolean::ServerKey::xor (BinaryBooleanGates).
#[verifier::external_body]
pub fn ct_xor(ctx: &FheContext, a: &CtBool, b: &CtBool) -> (r: CtBool)
    requires
        a.ctx_id() == ctx.id(),
        b.ctx_id() == ctx.id(),
    ensures
        r.bit() == (a.bit() != b.bit()),
        r.ctx_id() == ctx.id(),
{
    CtBool {
        c: ctx.server_key.xor(&a.c, &b.c),
        plain: Ghost(false),
        tag: Ghost(0int),
    }
}

/// Relies on tfhe::boolean::ServerKey::nand (BinaryBooleanGates).
#[verifier::external_body]
pub fn ct_nand(ctx: &FheContext, a: &CtBool, b: &CtBool) -> (r: CtBool)
    requires
        a.ctx_id() == ctx.id(),
        b.ctx_id() == ctx.id(),
    ensures
        r.bit() == !(a.bit() && b.bit()),
        r.ctx_id() == ctx.id(),
{
    CtBool {
        c: ctx.server_key.nand(&a.c, &b.c),
        plain: Ghost(false),
        tag: Ghost(0int),
    }
}

/// Relies on tfhe::boolean::ServerKey::nor (BinaryBooleanGates).
#[verifier::external_body]
pub fn ct_nor(ctx: &FheContext, a: &CtBool, b: &CtBool) -> (r: CtBool)
    requires
        a.ctx_id() == ctx.id(),
        b.ctx_id() == ctx.id(),
    ensures
        r.bit() == !(a.bit() || b.bit()),
        r.ctx_id() == ctx.id(),
{
    CtBool {
        c: ctx.server_key.nor(&a.c, &b.c),
        plain: Ghost(false),
        tag: Ghost(0int),
    }
}

/// Relies on tfhe::boolean::ServerKey::xnor (BinaryBooleanGates).
#[verifier::external_body]
pub fn ct_xnor(ctx: &FheContext, a: &CtBool, b: &CtBool) -> (r: CtBool)
    requires
        a.ctx_id() == ctx.id(),
        b.ctx_id() == ctx.id(),
    ensures
        r.bit() == (a.bit() == b.bit()),
        r.ctx_id() == ctx.id(),
{
    CtBool {
        c: ctx.server_key.xnor(&a.c, &b.c),
        plain: Ghost(false),
        tag: Ghost(0int),
    }
}

/// Relies on tfhe::boolean::ServerKey::not: the homomorphic NOT.
#[verifier::external_body]
pub fn ct_not(ctx: &FheContext, a: &CtBool) -> (r: CtBool)
    requires
        a.ctx_id() == ctx.id(),
    ensures
        r.bit() == !a.bit(),
        r.ctx_id() == ctx.id(),
{
    CtBool { c: ctx.server_key.not(&a.c), plain: Ghost(false), tag: Ghost(0int) }
}

/// An encrypted wire value: an encrypted bit, or the uninitialized marker.
pub enum FheType {
    Bool(CtBool),
    Uninit,
}

impl FheType {
    /// The plaintext value this encrypted value stands for.
    pub open spec fn plain(self) -> PtxtType {
        match self {
            FheType::Bool(b) => PtxtType::Bool(b.bit()),
            FheType::Uninit => PtxtType::Uninit,
        }
    }

    /// The value was produced under the context with the given tag.
    pub open spec fn tagged(self, tag: int) -> bool {
        match self {
            FheType::Bool(b) => b.ctx_id() == tag,
            FheType::Uninit => true,
        }
    }

    /// Decrypts with the context the value was produced under. The
    /// uninitialized marker carries no ciphertext and is excluded here;
    /// `try_decrypt` reports it as a fault instead.
    pub fn decrypt(&self, ctx: &FheContext) -> (r: PtxtType)
        requires
            self.tagged(ctx.id()),
            !(*self is Uninit),
        ensures
            r == self.plain(),
    {
        match self {
            FheType::Bool(b) => PtxtType::Bool(ct_decrypt(ctx, b)),
            FheType::Uninit => {
                assert(false);
                PtxtType::Uninit
            },
        }
    }

    /// Decrypts, reading the uninitialized marker as a fault.
    pub fn try_decrypt(&self, ctx: &FheContext) -> (r: Result<PtxtType, EvalError>)
        requires
            self.tagged(ctx.id()),
        ensures
            (match r {
                Result::Ok(v) => !(*self is Uninit) && v == self.plain(),
                Result::Err(e) => *self is Uninit && e == EvalError::UninitializedWire,
            }),
    {
        match self {
            FheType::Bool(b) => Result::Ok(PtxtType::Bool(ct_decrypt(ctx, b))),
            FheType::Uninit => Result::Err(EvalError::UninitializedWire),
        }
    }

    /// A copy carrying the same encrypted value.
    pub fn dup(&self) -> (r: FheType)
        ensures
            r.plain() == self.plain(),
            forall|t: int| self.tagged(t) ==> r.tagged(t),
    {
        match self {
            FheType::Bool(b) => FheType::Bool(ct_clone(b)),
            FheType::Uninit => FheType::Uninit,
        }
    }

    /// Encrypts a plaintext boolean or the uninitialized marker.
    pub fn encrypt(ctx: &FheContext, v: PtxtType) -> (r: FheType)
        requires
            v is Bool || v is Uninit,
        ensures
            r.plain() == v,
            r.tagged(ctx.id()),
    {
        match v {
            PtxtType::Bool(b) => FheType::Bool(ct_encrypt(ctx, b)),
            _ => FheType::Uninit,
        }
    }
}

/// The plaintext values a sequence of encrypted values stands for.
pub open spec fn plains(s: Seq<FheType>) -> Seq<PtxtType> {
    s.map_values(|x: FheType| x.plain())
}

/// All values of a sequence were produced under the given tag.
pub open spec fn all_tagged(s: Seq<FheType>, tag: int) -> bool {
    forall|i: int| 0 <= i < s.len() ==> (#[trigger] s[i]).tagged(tag)
}

/// Evaluates one gate homomorphically. The result stands for exactly what
/// the plaintext semantics `spec_eval_gate` yields on the operands' plaintext
/// values — arithmetic kinds fault, since encrypted wires carry single bits.
pub fn eval_gate_fhe(ctx: &FheContext, k: GateKind, ins: &Vec<FheType>) -> (r: Result<
    FheType,
    EvalError,
>)
    requires
        all_tagged(ins@, ctx.id()),
    ensures
        (match r {
            Result::Ok(v) => spec_eval_gate(k, plains(ins@)) == Result::Ok::<PtxtType, EvalError>(
                v.plain(),
            ) && v.tagged(ctx.id()),
            Result::Err(e) => spec_eval_gate(k, plains(ins@)) == Result::Err::<
                PtxtType,
                EvalError,
            >(e),
        }),
{
    let n = ins.len();
    let want: usize = match k {
        GateKind::Not | GateKind::Buffer | GateKind::Dff => 1,
        _ => 2,
    };
    if n != want {
        return Result::Err(EvalError::TypeMismatch);
    }
    let u0 = match &ins[0] {
        FheType::Uninit => true,
        _ => false,
    };
    let u1 = want == 2 && match &ins[1] {
        FheType::Uninit => true,
        _ => false,
    };
    if u0 || u1 {
        assert(exists|i: int| 0 <= i < plains(ins@).len() && plains(ins@)[i] is Uninit);
        return Result::Err(EvalError::UninitializedWire);
    }
    assert(forall|i: int| 0 <= i < plains(ins@).len() ==> !(plains(ins@)[i] is Uninit));
    match k {
        GateKind::Dff | GateKind::Buffer => Result::Ok(ins[0].dup()),
        GateKind::Not => match &ins[0] {
            FheType::Bool(a) => Result::Ok(FheType::Bool(ct_not(ctx, a))),
            FheType::Uninit => {
                assert(false);
                Result::Err(EvalError::UninitializedWire)
            },
        },
        GateKind::And
        | GateKind::Or
        | GateKind::Xor
        | GateKind::Nand
        | GateKind::Nor
        | GateKind::Xnor => match (&ins[0], &ins[1]) {
            (FheType::Bool(a), FheType::Bool(b)) => {
                let v = match k {
                    GateKind::And => ct_and(ctx, a, b),
                    GateKind::Or => ct_or(ctx, a, b),
                    GateKind::Xor => ct_xor(ctx, a, b),
                    GateKind::Nand => ct_nand(ctx, a, b),
                    GateKind::Nor => ct_nor(ctx, a, b),
                    _ => ct_xnor(ctx, a, b),
                };
                Result::Ok(FheType::Bool(v))
            },
            _ => {
                assert(false);
                Result::Err(EvalError::UninitializedWire)
            },
        },
        GateKind::Add | GateKind::Sub | GateKind::Mult => Result::Err(EvalError::TypeMismatch),
    }
}

/// One homomorphic evaluation pass: the same level walk as the plaintext
/// pass, over encrypted values. What the resulting ciphertexts stand for is
/// exactly what `spec_pass` yields on what the seeded store stood for.
#[verifier::loop_isolation(false)]
pub fn eval_pass_fhe(ctx: &FheContext, c: &Circuit, lv: &Vec<usize>, store: Vec<FheType>) -> (r:
    Result<(Vec<FheType>, Vec<FheType>), EvalError>)
    requires
        c.structure_ok(),
        is_level_assignment(*c, lv@),
        store@.len() == c.nw(),
        all_tagged(store@, ctx.id()),
    ensures
        r is Ok ==> r->Ok_0.0@.len() == c.nw() && r->Ok_0.1@.len() == c.nw() && all_tagged(
            r->Ok_0.0@,
            ctx.id(),
        ) && all_tagged(r->Ok_0.1@, ctx.id()),
        (match r {
            Result::Ok(p) => spec_pass(*c, lv@, plains(store@)) == Result::Ok::<
                (Seq<PtxtType>, Seq<PtxtType>),
                EvalError,
            >((plains(p.0@), plains(p.1@))),
            Result::Err(e) => spec_pass(*c, lv@, plains(store@)) == Result::Err::<
                (Seq<PtxtType>, Seq<PtxtType>),
                EvalError,
            >(e),
        }),
{
    let n = c.gates.len();
    let nw = c.wire_names.len();
    let ghost st0 = Result::Ok::<(Seq<PtxtType>, Seq<PtxtType>), EvalError>(
        (plains(store@), all_uninit(c.nw())),
    );
    let mut st = store;
    let mut next: Vec<FheType> = Vec::new();
    let mut t: usize = 0;
    while t < nw
        invariant
            t <= nw,
            next@.len() == t,
            forall|s: int| 0 <= s < t ==> (#[trigger] next@[s]) is Uninit,
        decreases nw - t,
    {
        next.push(FheType::Uninit);
        t += 1;
    }
    proof {
        assert(plains(next@) =~= all_uninit(c.nw()));
    }
    let mut fault: Option<EvalError> = Option::None;
    let mut k: usize = 0;
    while k < n
        invariant
            k <= n,
            st@.len() == nw,
            next@.len() == nw,
            all_tagged(st@, ctx.id()),
            all_tagged(next@, ctx.id()),
            st_match(fault, plains(st@), plains(next@), pass_fold(*c, lv@, k as int, st0)),
        decreases n - k,
    {
        let mut i: usize = 0;
        while i < n
            invariant
                i <= n,
                k < n,
                st@.len() == nw,
                next@.len() == nw,
                all_tagged(st@, ctx.id()),
                all_tagged(next@, ctx.id()),
                st_match(
                    fault,
                    plains(st@),
                    plains(next@),
                    level_fold(*c, lv@, k as int, i as int, pass_fold(*c, lv@, k as int, st0)),
                ),
            decreases n - i,
        {
            if lv[i] == k && fault.is_none() {
                assert(c.gate_indices_ok(i as int));
                let gk = c.gates[i].kind;
                let m = c.gates[i].inputs.len();
                let mut ins: Vec<FheType> = Vec::new();
                let mut j: usize = 0;
                while j < m
                    invariant
                        j <= m,
                        m == c.gates@[i as int].inputs@.len(),
                        i < n,
                        st@.len() == nw,
                        all_tagged(ins@, ctx.id()),
                        plains(ins@) =~= gate_ins(*c, i as int, plains(st@)).subrange(0, j as int),
                    decreases m - j,
                {
                    let w = c.gates[i].inputs[j];
                    ins.push(st[w].dup());
                    proof {
                        assert(gate_ins(*c, i as int, plains(st@))[j as int] == plains(st@)[c.gates@[i as int].inputs@[j as int] as int]);
                        assert(plains(ins@) =~= gate_ins(*c, i as int, plains(st@)).subrange(
                            0,
                            j + 1 as int,
                        ));
                    }
                    j += 1;
                }
                proof {
                    assert(plains(ins@) =~= gate_ins(*c, i as int, plains(st@)));
                }
                let ghost pre = (plains(st@), plains(next@));
                match eval_gate_fhe(ctx, gk, &ins) {
                    Result::Ok(v) => {
                        let out = c.gates[i].output;
                        if gk.is_dff() {
                            next[out] = v;
                            proof {
                                assert(plains(next@) =~= pre.1.update(
                                    c.gates@[i as int].output as int,
                                    spec_eval_gate(gk, plains(ins@))->Ok_0,
                                ));
                            }
                        } else {
                            st[out] = v;
                            proof {
                                assert(plains(st@) =~= pre.0.update(
                                    c.gates@[i as int].output as int,
                                    spec_eval_gate(gk, plains(ins@))->Ok_0,
                                ));
                            }
                        }
                        proof {
                            assert(apply_gate(*c, i as int, pre) == Result::Ok::<
                                (Seq<PtxtType>, Seq<PtxtType>),
                                EvalError,
                            >((plains(st@), plains(next@))));
                        }
                    },
                    Result::Err(e) => {
                        fault = Option::Some(e);
                    },
                }
            }
            i += 1;
        }
        k += 1;
    }
    proof {
        assert(pass_fold(*c, lv@, n as int, st0) == spec_pass(*c, lv@, plains(store@)));
    }
    match fault {
        Option::None => Result::Ok((st, next)),
        Option::Some(e) => Result::Err(e),
    }
}

/// Runs a validated boolean circuit homomorphically for `cycles` cycles:
/// the supplied plaintext inputs are encrypted under the context, registers
/// reset to an encryption of false, and every gate is evaluated over
/// ciphertexts. The returned per-cycle primary-output ciphertexts stand for
/// exactly what the plaintext run `spec_run` yields, so decrypting them
/// gives the plaintext evaluation — round-trip correctness.
#[verifier::loop_isolation(false)]
pub fn run_sequential_fhe(
    ctx: &FheContext,
    c: &Circuit,
    lv: &Vec<usize>,
    pairs: &Vec<(String, PtxtType)>,
    cycles: usize,
) -> (r: Result<Vec<Vec<FheType>>, EvalError>)
    requires
        c.structure_ok(),
        is_level_assignment(*c, lv@),
        cycles >= 1,
    ensures
        (match r {
            Result::Ok(o) => spec_run(*c, lv@, pairs@, Mode::Bool, cycles as nat) == Result::Ok::<
                Seq<Seq<PtxtType>>,
                EvalError,
            >(o@.map_values(|v: Vec<FheType>| plains(v@))) && forall|i: int|
                0 <= i < o@.len() ==> all_tagged((#[trigger] o@[i])@, ctx.id()),
            Result::Err(e) => spec_run(*c, lv@, pairs@, Mode::Bool, cycles as nat) == Result::Err::<
                Seq<Seq<PtxtType>>,
                EvalError,
            >(e),
        }),
{
    let nw = c.wire_names.len();
    let m = Mode::Bool;
    let mut i: usize = 0;
    while i < pairs.len()
        invariant
            i <= pairs@.len(),
            forall|s: int| 0 <= s < i ==> matches_mode((#[trigger] pairs@[s]).1, Mode::Bool),
        decreases pairs@.len() - i,
    {
        if !pairs[i].1.matches_mode(m) {
            assert(!inputs_well_moded(pairs@, Mode::Bool));
            return Result::Err(EvalError::TypeMismatch);
        }
        i += 1;
    }
    assert(inputs_well_moded(pairs@, Mode::Bool));
    // reset registers: encryptions of false
    let mut regs: Vec<FheType> = Vec::new();
    let mut w: usize = 0;
    while w < nw
        invariant
            w <= nw,
            regs@.len() == w,
            all_tagged(regs@, ctx.id()),
            forall|s: int| 0 <= s < w ==> plains(regs@)[s] == initial_regs(*c, Mode::Bool)[s],
        decreases nw - w,
    {
        let ghost pre = regs@;
        let nv: FheType = if c.is_registered(w) {
            FheType::Bool(ct_encrypt(ctx, false))
        } else {
            FheType::Uninit
        };
        regs.push(nv);
        proof {
            assert(plains(regs@) =~= plains(pre).push(nv.plain()));
        }
        w += 1;
    }
    proof {
        assert(plains(regs@) =~= initial_regs(*c, Mode::Bool));
    }
    let mut outs: Vec<Vec<FheType>> = Vec::new();
    let mut done: usize = 0;
    while done < cycles
        invariant
            done <= cycles,
            regs@.len() == nw,
            outs@.len() == done,
            all_tagged(regs@, ctx.id()),
            forall|s: int| 0 <= s < done ==> all_tagged((#[trigger] outs@[s])@, ctx.id()),
            spec_run_from(*c, lv@, pairs@, Mode::Bool, initial_regs(*c, Mode::Bool), cycles as nat)
                == (match spec_run_from(
                *c,
                lv@,
                pairs@,
                Mode::Bool,
                plains(regs@),
                (cycles - done) as nat,
            ) {
                Result::Err(e) => Result::Err::<Seq<Seq<PtxtType>>, EvalError>(e),
                Result::Ok(rest) => Result::Ok::<Seq<Seq<PtxtType>>, EvalError>(
                    outs@.map_values(|v: Vec<FheType>| plains(v@)) + rest,
                ),
            }),
        decreases cycles - done,
    {
        // seed: committed registers, encrypted supplied inputs, defaults
        let mut store: Vec<FheType> = Vec::new();
        let mut w: usize = 0;
        while w < nw
            invariant
                w <= nw,
                store@.len() == w,
                regs@.len() == nw,
                all_tagged(regs@, ctx.id()),
                all_tagged(store@, ctx.id()),
                forall|s: int|
                    0 <= s < w ==> plains(store@)[s] == seed(
                        *c,
                        pairs@,
                        plains(regs@),
                        Mode::Bool,
                    )[s],
            decreases nw - w,
        {
            let v: FheType = if c.is_registered(w) {
                regs[w].dup()
            } else if c.is_input(w) {
                match lookup_input(pairs, c.wire_names[w].as_str()) {
                    Option::Some(v) => {
                        proof {
                            crate::eval::lemma_lookup_moded(
                                pairs@,
                                c.wire_names@[w as int]@,
                                Mode::Bool,
                            );
                        }
                        FheType::encrypt(ctx, v)
                    },
                    Option::None => FheType::Bool(ct_encrypt(ctx, false)),
                }
            } else {
                FheType::Uninit
            };
            let ghost pre = store@;
            store.push(v);
            proof {
                assert(plains(store@) =~= plains(pre).push(v.plain()));
            }
            w += 1;
        }
        proof {
            assert(plains(store@) =~= seed(*c, pairs@, plains(regs@), Mode::Bool));
        }
        let ghost regs_pre = plains(regs@);
        match eval_pass_fhe(ctx, c, lv, store) {
            Result::Err(e) => {
                assert(spec_cycle(*c, lv@, pairs@, Mode::Bool, regs_pre) == Result::Err::<
                    (Seq<PtxtType>, Seq<PtxtType>),
                    EvalError,
                >(e));
                return Result::Err(e);
            },
            Result::Ok(p) => {
                let (st, next) = p;
                let mut snap: Vec<FheType> = Vec::new();
                let mut j: usize = 0;
                while j < c.primary_outputs.len()
                    invariant
                        j <= c.primary_outputs@.len(),
                        st@.len() == nw,
                        all_tagged(st@, ctx.id()),
                        all_tagged(snap@, ctx.id()),
                        plains(snap@) =~= c.primary_outputs@.map_values(
                            |ww: usize| plains(st@)[ww as int],
                        ).subrange(0, j as int),
                    decreases c.primary_outputs@.len() - j,
                {
                    let ww = c.primary_outputs[j];
                    snap.push(st[ww].dup());
                    proof {
                        assert(plains(snap@) =~= c.primary_outputs@.map_values(
                            |ww: usize| plains(st@)[ww as int],
                        ).subrange(0, j + 1 as int));
                    }
                    j += 1;
                }
                proof {
                    assert(plains(snap@) =~= c.primary_outputs@.map_values(
                        |ww: usize| plains(st@)[ww as int],
                    ));
                }
                let mut nregs: Vec<FheType> = Vec::new();
                let mut w2: usize = 0;
                while w2 < nw
                    invariant
                        w2 <= nw,
                        next@.len() == nw,
                        nregs@.len() == w2,
                        all_tagged(next@, ctx.id()),
                        all_tagged(nregs@, ctx.id()),
                        forall|s: int|
                            0 <= s < w2 ==> plains(nregs@)[s] == (if c.is_reg_wire(s) {
                                plains(next@)[s]
                            } else {
                                PtxtType::Uninit
                            }),
                    decreases nw - w2,
                {
                    let ghost pre = nregs@;
                    let nv: FheType = if c.is_registered(w2) {
                        next[w2].dup()
                    } else {
                        FheType::Uninit
                    };
                    nregs.push(nv);
                    proof {
                        assert(plains(nregs@) =~= plains(pre).push(nv.plain()));
                    }
                    w2 += 1;
                }
                let ghost cyc = spec_cycle(*c, lv@, pairs@, Mode::Bool, regs_pre);
                proof {
                    assert(cyc == Result::Ok::<(Seq<PtxtType>, Seq<PtxtType>), EvalError>(
                        (plains(snap@), plains(nregs@)),
                    )) by {
                        assert(plains(nregs@) =~= Seq::new(
                            c.nw() as nat,
                            |ww: int|
                                if c.is_reg_wire(ww) {
                                    plains(next@)[ww]
                                } else {
                                    PtxtType::Uninit
                                },
                        ));
                    }
                }
                regs = nregs;
                let ghost outs_pre = outs@.map_values(|v: Vec<FheType>| plains(v@));
                outs.push(snap);
                proof {
                    assert(outs@.map_values(|v: Vec<FheType>| plains(v@)) =~= outs_pre.push(
                        plains(outs@.last()@),
                    ));
                    let rem = (cycles - done) as nat;
                    assert(spec_run_from(*c, lv@, pairs@, Mode::Bool, regs_pre, rem) == (match
                        spec_run_from(*c, lv@, pairs@, Mode::Bool, plains(regs@), (rem - 1) as nat) {
                        Result::Err(e) => Result::Err::<Seq<Seq<PtxtType>>, EvalError>(e),
                        Result::Ok(rest) => Result::Ok::<Seq<Seq<PtxtType>>, EvalError>(
                            seq![plains(outs@.last()@)] + rest,
                        ),
                    }));
                    if spec_run_from(*c, lv@, pairs@, Mode::Bool, plains(regs@), (rem - 1) as nat)
                        is Ok {
                        let rest = spec_run_from(
                            *c,
                            lv@,
                            pairs@,
                            Mode::Bool,
                            plains(regs@),
                            (rem - 1) as nat,
                        )->Ok_0;
                        assert(outs_pre + (seq![plains(outs@.last()@)] + rest) =~= (outs_pre.push(
                            plains(outs@.last()@),
                        )) + rest);
                    }
                }
                done += 1;
            },
        }
    }
    proof {
        assert(spec_run_from(*c, lv@, pairs@, Mode::Bool, plains(regs@), 0) == Result::Ok::<
            Seq<Seq<PtxtType>>,
            EvalError,
        >(Seq::empty()));
        assert(outs@.map_values(|v: Vec<FheType>| plains(v@)) + Seq::empty() =~= outs@.map_values(
            |v: Vec<FheType>| plains(v@),
        ));
    }
    Result::Ok(outs)
}

/// Law: round-trip correctness. A homomorphic run and a plaintext run of
/// the same circuit, level assignment, inputs and cycle count agree: what
/// the output ciphertexts stand for — and hence, by `decrypt`'s contract,
/// what they decrypt to — is exactly the plaintext evaluation.
pub proof fn lemma_roundtrip(
    c: Circuit,
    lv: Seq<usize>,
    pairs: Seq<(String, PtxtType)>,
    t: nat,
    plain_out: Seq<Seq<PtxtType>>,
    fhe_out: Seq<Seq<FheType>>,
)
    requires
        spec_run(c, lv, pairs, Mode::Bool, t) == Result::Ok::<Seq<Seq<PtxtType>>, EvalError>(
            plain_out,
        ),
        spec_run(c, lv, pairs, Mode::Bool, t) == Result::Ok::<Seq<Seq<PtxtType>>, EvalError>(
            fhe_out.map_values(|v: Seq<FheType>| plains(v)),
        ),
    ensures
        fhe_out.map_values(|v: Seq<FheType>| plains(v)) == plain_out,
{
}

} // verus!
