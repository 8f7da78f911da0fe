//! The code generator: walks a `Program` and emits one x86-64 assembly
//! function under the System-V convention — six integer argument registers,
//! frame-pointer-addressed 8-byte stack slots, 16-byte frame alignment.
//!
//! Emission is modelled in two steps: `sp_generate` maps a program value to
//! the instruction sequence (or the error) it must produce, and
//! `spec_render` maps instructions to the assembly text.  The executable
//! `generate_program_instrs` and `generate_program_x86` are proved to return
//! exactly those values.

use crate::ast::{
    ASTNode, BExp, BooleanExpression, Exp, Prog, Program, Statement, Stm, stm_view, stms_view,
    lemma_vec_stms_view,
};
use crate::text::{dec_string, spec_dec_digits, str_eq};
use vstd::prelude::*;

verus! {

broadcast use vstd::std_specs::vec::axiom_vec_index_decreases, vstd::seq::axiom_seq_index_decreases;

// ---------------------------------------------------------------------------
// Errors
// ---------------------------------------------------------------------------
/// The ways code generation can fail.
#[derive(Debug, PartialEq)]
pub enum CodegenError {
    /// An expression, assignment target or return references a name with no
    /// assigned stack slot.
    UndeclaredIdentifier { name: String },
    /// The argument list exceeds the six-register bank.
    TooManyArguments { count: usize },
}

/// The value of a `CodegenError`.
pub enum CgErr {
    UndeclaredIdentifier(Seq<char>),
    TooManyArguments(int),
}

impl View for CodegenError {
    type V = CgErr;

    open spec fn view(&self) -> CgErr {
        match self {
            CodegenError::UndeclaredIdentifier { name } => CgErr::UndeclaredIdentifier(name@),
            CodegenError::TooManyArguments { count } => CgErr::TooManyArguments(*count as int),
        }
    }
}

// ---------------------------------------------------------------------------
// Instructions
// ---------------------------------------------------------------------------
/// The base names of branch labels.
#[derive(Debug, Clone, Copy, PartialEq, Eq, Structural)]
pub enum LabelKind {
    IfThen,
    IfElse,
    IfEnd,
    WhileCond,
    WhileBody,
    WhileEnd,
}

/// A branch label: its base name and the value the per-compile counter had
/// when it was drawn, which makes it unique within one compile.
#[derive(Debug, Clone, Copy, PartialEq, Eq, Structural)]
pub struct LabelId {
    pub kind: LabelKind,
    pub num: u64,
}

/// The conditional jumps of the five comparisons.
#[derive(Debug, Clone, Copy, PartialEq, Eq, Structural)]
pub enum CmpKind {
    CmpLt,
    CmpLe,
    CmpGt,
    CmpGe,
    CmpEq,
}

/// One emitted assembly line.  Stack offsets are stored as the positive
/// distance below the frame pointer; immediates keep the literal's decimal
/// text exactly as it was scanned.
#[derive(Debug, PartialEq)]
pub enum AsmLine {
    /// `.text`
    SectionText,
    /// `.global foo`
    GlobalFoo,
    /// `foo:`
    FooLabel,
    /// `pushq %rbp`
    PushRbp,
    /// `movq %rsp, %rbp`
    SetupFrame,
    /// `subq $n, %rsp`
    AllocFrame(u64),
    /// `addq $n, %rsp`
    FreeFrame(u64),
    /// `movq <argument register i>, -off(%rbp)`
    StoreArg(usize, u64),
    /// `movq $text, %rax`
    LoadImm(String),
    /// `movq -off(%rbp), %rax`
    LoadSlot(u64),
    /// `movq %rax, -off(%rbp)`
    StoreSlot(u64),
    /// `pushq %rax`
    PushAcc,
    /// `popq %rcx`
    PopScratch,
    /// `addq %rcx, %rax`
    AddScratch,
    /// `imulq %rcx, %rax`
    MulScratch,
    /// `subq %rax, %rcx`
    SubFromScratch,
    /// `movq %rcx, %rax`
    MovScratchAcc,
    /// `movq %rax, %rcx`
    MovAccScratch,
    /// `cmpq %rax, %rcx`
    CmpScratchAcc,
    /// `lbl:`
    Label(LabelId),
    /// `jmp lbl`
    Jump(LabelId),
    /// `jl/jle/jg/jge/je lbl`
    Branch(CmpKind, LabelId),
    /// `popq %rbp`
    PopRbp,
    /// `ret`
    Ret,
}

/// A label value: base name and counter value, unbounded.
pub struct Lbl {
    pub kind: LabelKind,
    pub num: int,
}

/// The value of an `AsmLine`.
pub enum ALine {
    SectionText,
    GlobalFoo,
    FooLabel,
    PushRbp,
    SetupFrame,
    AllocFrame(int),
    FreeFrame(int),
    StoreArg(int, int),
    LoadImm(Seq<char>),
    LoadSlot(int),
    StoreSlot(int),
    PushAcc,
    PopScratch,
    AddScratch,
    MulScratch,
    SubFromScratch,
    MovScratchAcc,
    MovAccScratch,
    CmpScratchAcc,
    Label(Lbl),
    Jump(Lbl),
    Branch(CmpKind, Lbl),
    PopRbp,
    Ret,
}

impl View for LabelId {
    type V = Lbl;

    open spec fn view(&self) -> Lbl {
        Lbl { kind: self.kind, num: self.num as int }
    }
}

impl View for AsmLine {
    type V = ALine;

    open spec fn view(&self) -> ALine {
        match self {
            AsmLine::SectionText => ALine::SectionText,
            AsmLine::GlobalFoo => ALine::GlobalFoo,
            AsmLine::FooLabel => ALine::FooLabel,
            AsmLine::PushRbp => ALine::PushRbp,
            AsmLine::SetupFrame => ALine::SetupFrame,
            AsmLine::AllocFrame(n) => ALine::AllocFrame(*n as int),
            AsmLine::FreeFrame(n) => ALine::FreeFrame(*n as int),
            AsmLine::StoreArg(i, off) => ALine::StoreArg(*i as int, *off as int),
            AsmLine::LoadImm(t) => ALine::LoadImm(t@),
            AsmLine::LoadSlot(off) => ALine::LoadSlot(*off as int),
            AsmLine::StoreSlot(off) => ALine::StoreSlot(*off as int),
            AsmLine::PushAcc => ALine::PushAcc,
            AsmLine::PopScratch => ALine::PopScratch,
            AsmLine::AddScratch => ALine::AddScratch,
            AsmLine::MulScratch => ALine::MulScratch,
            AsmLine::SubFromScratch => ALine::SubFromScratch,
            AsmLine::MovScratchAcc => ALine::MovScratchAcc,
            AsmLine::MovAccScratch => ALine::MovAccScratch,
            AsmLine::CmpScratchAcc => ALine::CmpScratchAcc,
            AsmLine::Label(l) => ALine::Label(l@),
            AsmLine::Jump(l) => ALine::Jump(l@),
            AsmLine::Branch(k, l) => ALine::Branch(*k, l@),
            AsmLine::PopRbp => ALine::PopRbp,
            AsmLine::Ret => ALine::Ret,
        }
    }
}

/// The values of an instruction sequence.
pub open spec fn alines_view(v: Seq<AsmLine>) -> Seq<ALine> {
    v.map_values(|l: AsmLine| l@)
}

// ---------------------------------------------------------------------------
// Slot assignment and frame size
// ---------------------------------------------------------------------------
/// Assigns `names[0]`, `names[1]`, ... the slots `slot`, `slot + 1`, ...,
/// each 8 bytes below the previous one; a repeated name keeps its last slot,
/// as repeated map insertion does.
pub open spec fn insert_names(m: Map<Seq<char>, int>, names: Seq<Seq<char>>, slot: int) -> Map<
    Seq<char>,
    int,
>
    decreases names.len(),
{
    if names.len() == 0 {
        m
    } else {
        insert_names(m.insert(names[0], 8 * (slot + 1)), names.drop_first(), slot + 1)
    }
}

/// The slot table of a program: every argument, then every local variable,
/// in declaration order.
pub open spec fn slots_env(p: Prog) -> Map<Seq<char>, int> {
    insert_names(
        insert_names(Map::empty(), p.arg_declarations, 0),
        p.var_declarations,
        p.arg_declarations.len() as int,
    )
}

/// The frame size for `n` declared names: 8 bytes each, rounded up to the
/// next multiple of 16.
pub open spec fn spec_frame_size(n: int) -> int {
    if (8 * n) % 16 == 0 {
        8 * n
    } else {
        8 * n + 8
    }
}

// ---------------------------------------------------------------------------
// The specification-level emitter
// ---------------------------------------------------------------------------
/// The outcome of specification-level emission.
pub enum Emitted<T> {
    Done(T),
    EmitFail(CgErr),
}

/// The instructions of one expression: the value is computed into the
/// accumulator, the left operand of a binary node being saved on the stack
/// while the right one is computed.
pub open spec fn sp_emit_expr(e: Exp, env: Map<Seq<char>, int>) -> Emitted<Seq<ALine>>
    decreases e,
{
    match e {
        Exp::Number(txt) => Emitted::Done(seq![ALine::LoadImm(txt)]),
        Exp::Identifier(name) => if env.contains_key(name) {
            Emitted::Done(seq![ALine::LoadSlot(env[name])])
        } else {
            Emitted::EmitFail(CgErr::UndeclaredIdentifier(name))
        },
        Exp::Add(l, r) => match sp_emit_expr(*l, env) {
            Emitted::Done(ll) => match sp_emit_expr(*r, env) {
                Emitted::Done(rl) => Emitted::Done(
                    ll + seq![ALine::PushAcc] + rl + seq![ALine::PopScratch, ALine::AddScratch],
                ),
                Emitted::EmitFail(er) => Emitted::EmitFail(er),
            },
            Emitted::EmitFail(er) => Emitted::EmitFail(er),
        },
        Exp::Multiply(l, r) => match sp_emit_expr(*l, env) {
            Emitted::Done(ll) => match sp_emit_expr(*r, env) {
                Emitted::Done(rl) => Emitted::Done(
                    ll + seq![ALine::PushAcc] + rl + seq![ALine::PopScratch, ALine::MulScratch],
                ),
                Emitted::EmitFail(er) => Emitted::EmitFail(er),
            },
            Emitted::EmitFail(er) => Emitted::EmitFail(er),
        },
        Exp::Sub(l, r) => match sp_emit_expr(*l, env) {
            Emitted::Done(ll) => match sp_emit_expr(*r, env) {
                Emitted::Done(rl) => Emitted::Done(
                    ll + seq![ALine::PushAcc] + rl + seq![
                        ALine::PopScratch,
                        ALine::SubFromScratch,
                        ALine::MovScratchAcc,
                    ],
                ),
                Emitted::EmitFail(er) => Emitted::EmitFail(er),
            },
            Emitted::EmitFail(er) => Emitted::EmitFail(er),
        },
    }
}

/// The instructions of one comparison: left into the scratch register,
/// right into the accumulator, compare, conditional jump to the true label,
/// unconditional jump to the false label.
pub open spec fn sp_emit_cmp(
    l: Exp,
    r: Exp,
    k: CmpKind,
    l_true: Lbl,
    l_false: Lbl,
    env: Map<Seq<char>, int>,
) -> Emitted<Seq<ALine>> {
    match sp_emit_expr(l, env) {
        Emitted::Done(ll) => match sp_emit_expr(r, env) {
            Emitted::Done(rl) => Emitted::Done(
                ll + seq![ALine::MovAccScratch] + rl + seq![
                    ALine::CmpScratchAcc,
                    ALine::Branch(k, l_true),
                    ALine::Jump(l_false),
                ],
            ),
            Emitted::EmitFail(er) => Emitted::EmitFail(er),
        },
        Emitted::EmitFail(er) => Emitted::EmitFail(er),
    }
}

/// The instructions of one boolean condition: never a 0/1 value, always a
/// jump to one of the two labels.
pub open spec fn sp_emit_bool(b: BExp, l_true: Lbl, l_false: Lbl, env: Map<Seq<char>, int>) -> Emitted<
    Seq<ALine>,
> {
    match b {
        BExp::True => Emitted::Done(seq![ALine::Jump(l_true)]),
        BExp::False => Emitted::Done(seq![ALine::Jump(l_false)]),
        BExp::CompareLessThan(l, r) => sp_emit_cmp(l, r, CmpKind::CmpLt, l_true, l_false, env),
        BExp::CompareLessThanEqualTo(l, r) => sp_emit_cmp(
            l,
            r,
            CmpKind::CmpLe,
            l_true,
            l_false,
            env,
        ),
        BExp::CompareGreaterThan(l, r) => sp_emit_cmp(l, r, CmpKind::CmpGt, l_true, l_false, env),
        BExp::CompareGreaterThanEqualTo(l, r) => sp_emit_cmp(
            l,
            r,
            CmpKind::CmpGe,
            l_true,
            l_false,
            env,
        ),
        BExp::CompareEqualTo(l, r) => sp_emit_cmp(l, r, CmpKind::CmpEq, l_true, l_false, env),
    }
}

/// The instructions of one statement, starting from label counter `c`, and
/// the counter afterwards.
pub open spec fn sp_emit_stm(s: Stm, env: Map<Seq<char>, int>, c: int) -> Emitted<
    (Seq<ALine>, int),
>
    decreases s, 0int,
{
    match s {
        Stm::Assign { name, expression } => match sp_emit_expr(expression, env) {
            Emitted::Done(ls) => if env.contains_key(name) {
                Emitted::Done((ls + seq![ALine::StoreSlot(env[name])], c))
            } else {
                Emitted::EmitFail(CgErr::UndeclaredIdentifier(name))
            },
            Emitted::EmitFail(er) => Emitted::EmitFail(er),
        },
        Stm::If { condition, then_statements, else_statements } => {
            let l_then = Lbl { kind: LabelKind::IfThen, num: c + 1 };
            let l_else = Lbl { kind: LabelKind::IfElse, num: c + 2 };
            let l_end = Lbl { kind: LabelKind::IfEnd, num: c + 3 };
            match sp_emit_bool(condition, l_then, l_else, env) {
                Emitted::EmitFail(er) => Emitted::EmitFail(er),
                Emitted::Done(bl) => match sp_emit_stms(then_statements, 0, env, c + 3) {
                    Emitted::EmitFail(er) => Emitted::EmitFail(er),
                    Emitted::Done((tl, c2)) => match sp_emit_stms(else_statements, 0, env, c2) {
                        Emitted::EmitFail(er) => Emitted::EmitFail(er),
                        Emitted::Done((el, c3)) => Emitted::Done(
                            (
                                bl + seq![ALine::Label(l_then)] + tl + seq![ALine::Jump(l_end)]
                                    + seq![ALine::Label(l_else)] + el + seq![ALine::Jump(l_end)]
                                    + seq![ALine::Label(l_end)],
                                c3,
                            ),
                        ),
                    },
                },
            }
        },
        Stm::While { condition, body } => {
            let l_cond = Lbl { kind: LabelKind::WhileCond, num: c + 1 };
            let l_body = Lbl { kind: LabelKind::WhileBody, num: c + 2 };
            let l_end = Lbl { kind: LabelKind::WhileEnd, num: c + 3 };
            match sp_emit_bool(condition, l_body, l_end, env) {
                Emitted::EmitFail(er) => Emitted::EmitFail(er),
                Emitted::Done(bl) => match sp_emit_stms(body, 0, env, c + 3) {
                    Emitted::EmitFail(er) => Emitted::EmitFail(er),
                    Emitted::Done((bo, c2)) => Emitted::Done(
                        (
                            seq![ALine::Label(l_cond)] + bl + seq![ALine::Label(l_body)] + bo
                                + seq![ALine::Jump(l_cond)] + seq![ALine::Label(l_end)],
                            c2,
                        ),
                    ),
                },
            }
        },
    }
}

/// The instructions of the statements of `ss` from index `i` on, threading
/// the label counter left to right.
pub open spec fn sp_emit_stms(ss: Seq<Stm>, i: int, env: Map<Seq<char>, int>, c: int) -> Emitted<
    (Seq<ALine>, int),
>
    decreases ss, ss.len() - i,
{
    if i < 0 || i >= ss.len() {
        Emitted::Done((Seq::empty(), c))
    } else {
        match sp_emit_stm(ss[i], env, c) {
            Emitted::EmitFail(er) => Emitted::EmitFail(er),
            Emitted::Done((l1, c1)) => match sp_emit_stms(ss, i + 1, env, c1) {
                Emitted::EmitFail(er) => Emitted::EmitFail(er),
                Emitted::Done((l2, c2)) => Emitted::Done((l1 + l2, c2)),
            },
        }
    }
}

/// How many labels the statement draws from the counter.
pub open spec fn stm_label_count(s: Stm) -> int
    decreases s, 0int,
{
    match s {
        Stm::Assign { .. } => 0,
        Stm::If { condition, then_statements, else_statements } => 3 + stms_label_count(
            then_statements,
            0,
        ) + stms_label_count(else_statements, 0),
        Stm::While { condition, body } => 3 + stms_label_count(body, 0),
    }
}

/// How many labels the statements of `ss` from index `i` on draw.
pub open spec fn stms_label_count(ss: Seq<Stm>, i: int) -> int
    decreases ss, ss.len() - i,
{
    if i < 0 || i >= ss.len() {
        0
    } else {
        stm_label_count(ss[i]) + stms_label_count(ss, i + 1)
    }
}

/// The store of each incoming argument register into its slot, in declared
/// order.
pub open spec fn sp_arg_stores(args: Seq<Seq<char>>, env: Map<Seq<char>, int>, i: int) -> Seq<
    ALine,
>
    decreases args.len() - i,
{
    if i < 0 || i >= args.len() {
        Seq::empty()
    } else {
        seq![ALine::StoreArg(i, env[args[i]])] + sp_arg_stores(args, env, i + 1)
    }
}

/// The whole function for one program: prologue, argument stores, the
/// statements, the load of the returned slot, epilogue.  Fails with
/// `TooManyArguments` exactly when more than six arguments are declared,
/// and with `UndeclaredIdentifier` exactly when a referenced name (first in
/// statement order, then the return name) has no slot.
pub open spec fn sp_generate(p: Prog) -> Emitted<Seq<ALine>> {
    if p.arg_declarations.len() > 6 {
        Emitted::EmitFail(CgErr::TooManyArguments(p.arg_declarations.len() as int))
    } else {
        let env = slots_env(p);
        let frame = spec_frame_size((p.arg_declarations.len() + p.var_declarations.len()) as int);
        let header = seq![
            ALine::SectionText,
            ALine::GlobalFoo,
            ALine::FooLabel,
            ALine::PushRbp,
            ALine::SetupFrame,
        ];
        let alloc = if frame > 0 {
            seq![ALine::AllocFrame(frame)]
        } else {
            Seq::<ALine>::empty()
        };
        let dealloc = if frame > 0 {
            seq![ALine::FreeFrame(frame)]
        } else {
            Seq::<ALine>::empty()
        };
        let stores = sp_arg_stores(p.arg_declarations, env, 0);
        match sp_emit_stms(p.statements, 0, env, 0) {
            Emitted::EmitFail(er) => Emitted::EmitFail(er),
            Emitted::Done((sl, _c)) => if env.contains_key(p.return_ident) {
                Emitted::Done(
                    header + alloc + stores + sl + seq![ALine::LoadSlot(env[p.return_ident])]
                        + dealloc + seq![ALine::PopRbp, ALine::Ret],
                )
            } else {
                Emitted::EmitFail(CgErr::UndeclaredIdentifier(p.return_ident))
            },
        }
    }
}

// ---------------------------------------------------------------------------
// The executable emitter
// ---------------------------------------------------------------------------
/// The slot table an association list stands for: later entries override
/// earlier ones, as repeated map insertion does.
pub open spec fn pairs_env(ps: Seq<(String, u64)>) -> Map<Seq<char>, int>
    decreases ps.len(),
{
    if ps.len() == 0 {
        Map::empty()
    } else {
        pairs_env(ps.drop_last()).insert(ps.last().0@, ps.last().1 as int)
    }
}

/// A key that no entry at or after `i` carries is decided by the entries
/// before `i` alone.
proof fn lemma_pairs_env_suffix_miss(ps: Seq<(String, u64)>, k: Seq<char>, i: int)
    requires
        0 <= i <= ps.len(),
        forall|j: int| i <= j < ps.len() ==> (#[trigger] ps[j]).0@ != k,
    ensures
        pairs_env(ps).contains_key(k) == pairs_env(ps.subrange(0, i)).contains_key(k),
        pairs_env(ps).contains_key(k) ==> pairs_env(ps)[k] == pairs_env(ps.subrange(0, i))[k],
    decreases ps.len() - i,
{
    if i == ps.len() {
        assert(ps.subrange(0, i) =~= ps);
    } else {
        assert(ps.drop_last() =~= ps.subrange(0, ps.len() - 1));
        lemma_pairs_env_suffix_miss(ps.drop_last(), k, i);
        assert(ps.drop_last().subrange(0, i) =~= ps.subrange(0, i));
    }
}

/// The writer that accumulates one compile's output: the emitted lines, the
/// label counter, and the slot table.
pub struct X86Writer {
    pub out: Vec<AsmLine>,
    pub lbl: u64,
    pub offsets: Vec<(String, u64)>,
}

impl X86Writer {
    /// The label counter.
    pub open spec fn labels(&self) -> int {
        self.lbl as int
    }

    /// The slot table.
    pub open spec fn env(&self) -> Map<Seq<char>, int> {
        pairs_env(self.offsets@)
    }

    pub fn new() -> (w: Self)
        ensures
            w.out@ =~= Seq::<AsmLine>::empty(),
            w.labels() == 0,
            w.env() == Map::<Seq<char>, int>::empty(),
    {
        X86Writer { out: Vec::new(), lbl: 0, offsets: Vec::new() }
    }

    /// Appends one line to the output.
    fn emit(&mut self, l: AsmLine)
        ensures
            alines_view(final(self).out@) == alines_view(old(self).out@).push(l@),
            final(self).labels() == old(self).labels(),
            final(self).env() == old(self).env(),
    {
        let ghost prev = self.out@;
        self.out.push(l);
        proof {
            assert(alines_view(self.out@) =~= alines_view(prev).push(l@));
        }
    }

    /// Draws the next label from the per-compile counter.
    fn fresh_lbl(&mut self, kind: LabelKind) -> (l: LabelId)
        requires
            old(self).labels() < u64::MAX,
        ensures
            final(self).out@ == old(self).out@,
            final(self).env() == old(self).env(),
            final(self).labels() == old(self).labels() + 1,
            l@ == (Lbl { kind, num: old(self).labels() + 1 }),
    {
        self.lbl = self.lbl + 1;
        LabelId { kind, num: self.lbl }
    }

    /// Records a name's slot, overriding any earlier slot of the same name.
    fn insert_offset(&mut self, name: &String, off: u64)
        ensures
            final(self).out@ == old(self).out@,
            final(self).labels() == old(self).labels(),
            final(self).env() == old(self).env().insert(name@, off as int),
    {
        let ghost prev = self.offsets@;
        self.offsets.push((name.clone(), off));
        proof {
            assert(self.offsets@.drop_last() =~= prev);
        }
    }

    /// The slot of a name, if it has one.
    fn slot(&self, var: &str) -> (r: Option<u64>)
        ensures
            match r {
                Some(off) => self.env().contains_key(var@) && self.env()[var@] == off as int,
                None => !self.env().contains_key(var@),
            },
    {
        let n = self.offsets.len();
        let mut i: usize = n;
        while i > 0
            invariant
                i <= n,
                n == self.offsets@.len(),
                forall|j: int| i <= j < n ==> (#[trigger] self.offsets@[j]).0@ != var@,
            decreases i,
        {
            i = i - 1;
            let hit = str_eq(self.offsets[i].0.as_str(), var);
            if hit {
                proof {
                    let ps = self.offsets@;
                    lemma_pairs_env_suffix_miss(ps, var@, i + 1);
                    assert(ps.subrange(0, i + 1).drop_last() =~= ps.subrange(0, i as int));
                    assert(ps.subrange(0, i + 1).last() == ps[i as int]);
                }
                return Some(self.offsets[i].1);
            }
        }
        proof {
            lemma_pairs_env_suffix_miss(self.offsets@, var@, 0);
            assert(self.offsets@.subrange(0, 0) =~= Seq::<(String, u64)>::empty());
        }
        None
    }
}

/// Emits one expression; its value ends in the accumulator.
fn emit_expr(node: &ASTNode, w: &mut X86Writer) -> (r: Result<(), CodegenError>)
    ensures
        final(w).env() == old(w).env(),
        final(w).labels() == old(w).labels(),
        ({
            match sp_emit_expr(node@, old(w).env()) {
                Emitted::Done(ls) => r is Ok && alines_view(final(w).out@) == alines_view(
                    old(w).out@,
                ) + ls,
                Emitted::EmitFail(e) => r is Err && r->Err_0@ == e,
            }
        }),
    decreases *node,
{
    match node {
        ASTNode::Number(n) => {
            w.emit(AsmLine::LoadImm(n.clone()));
            proof {
                assert(alines_view(final(w).out@) =~= alines_view(old(w).out@) + seq![
                    ALine::LoadImm(n@),
                ]);
            }
            Ok(())
        },
        ASTNode::Identifier(name) => match w.slot(name.as_str()) {
            Some(off) => {
                w.emit(AsmLine::LoadSlot(off));
                proof {
                    assert(alines_view(final(w).out@) =~= alines_view(old(w).out@) + seq![
                        ALine::LoadSlot(off as int),
                    ]);
                }
                Ok(())
            },
            None => Err(CodegenError::UndeclaredIdentifier { name: name.clone() }),
        },
        ASTNode::Add(l, r) => {
            match emit_expr(l, w) {
                Ok(_) => {},
                Err(e) => {
                    return Err(e);
                },
            }
            w.emit(AsmLine::PushAcc);
            match emit_expr(r, w) {
                Ok(_) => {},
                Err(e) => {
                    return Err(e);
                },
            }
            w.emit(AsmLine::PopScratch);
            w.emit(AsmLine::AddScratch);
            proof {
                let ll = match sp_emit_expr((**l)@, old(w).env()) {
                    Emitted::Done(ls) => ls,
                    Emitted::EmitFail(_) => Seq::empty(),
                };
                let rl = match sp_emit_expr((**r)@, old(w).env()) {
                    Emitted::Done(ls) => ls,
                    Emitted::EmitFail(_) => Seq::empty(),
                };
                assert(alines_view(final(w).out@) =~= alines_view(old(w).out@) + (ll + seq![
                    ALine::PushAcc,
                ] + rl + seq![ALine::PopScratch, ALine::AddScratch]));
            }
            Ok(())
        },
        ASTNode::Multiply(l, r) => {
            match emit_expr(l, w) {
                Ok(_) => {},
                Err(e) => {
                    return Err(e);
                },
            }
            w.emit(AsmLine::PushAcc);
            match emit_expr(r, w) {
                Ok(_) => {},
                Err(e) => {
                    return Err(e);
                },
            }
            w.emit(AsmLine::PopScratch);
            w.emit(AsmLine::MulScratch);
            proof {
                let ll = match sp_emit_expr((**l)@, old(w).env()) {
                    Emitted::Done(ls) => ls,
                    Emitted::EmitFail(_) => Seq::empty(),
                };
                let rl = match sp_emit_expr((**r)@, old(w).env()) {
                    Emitted::Done(ls) => ls,
                    Emitted::EmitFail(_) => Seq::empty(),
                };
                assert(alines_view(final(w).out@) =~= alines_view(old(w).out@) + (ll + seq![
                    ALine::PushAcc,
                ] + rl + seq![ALine::PopScratch, ALine::MulScratch]));
            }
            Ok(())
        },
        ASTNode::Sub(l, r) => {
            match emit_expr(l, w) {
                Ok(_) => {},
                Err(e) => {
                    return Err(e);
                },
            }
            w.emit(AsmLine::PushAcc);
            match emit_expr(r, w) {
                Ok(_) => {},
                Err(e) => {
                    return Err(e);
                },
            }
            w.emit(AsmLine::PopScratch);
            w.emit(AsmLine::SubFromScratch);
            w.emit(AsmLine::MovScratchAcc);
            proof {
                let ll = match sp_emit_expr((**l)@, old(w).env()) {
                    Emitted::Done(ls) => ls,
                    Emitted::EmitFail(_) => Seq::empty(),
                };
                let rl = match sp_emit_expr((**r)@, old(w).env()) {
                    Emitted::Done(ls) => ls,
                    Emitted::EmitFail(_) => Seq::empty(),
                };
                assert(alines_view(final(w).out@) =~= alines_view(old(w).out@) + (ll + seq![
                    ALine::PushAcc,
                ] + rl + seq![ALine::PopScratch, ALine::SubFromScratch, ALine::MovScratchAcc]));
            }
            Ok(())
        },
    }
}

/// Emits one comparison, branching to `l_true` or `l_false`.
fn emit_cmp(
    l: &ASTNode,
    r: &ASTNode,
    k: CmpKind,
    l_true: LabelId,
    l_false: LabelId,
    w: &mut X86Writer,
) -> (res: Result<(), CodegenError>)
    ensures
        final(w).env() == old(w).env(),
        final(w).labels() == old(w).labels(),
        ({
            match sp_emit_cmp(l@, r@, k, l_true@, l_false@, old(w).env()) {
                Emitted::Done(ls) => res is Ok && alines_view(final(w).out@) == alines_view(
                    old(w).out@,
                ) + ls,
                Emitted::EmitFail(e) => res is Err && res->Err_0@ == e,
            }
        }),
{
    match emit_expr(l, w) {
        Ok(_) => {},
        Err(e) => {
            return Err(e);
        },
    }
    w.emit(AsmLine::MovAccScratch);
    match emit_expr(r, w) {
        Ok(_) => {},
        Err(e) => {
            return Err(e);
        },
    }
    w.emit(AsmLine::CmpScratchAcc);
    w.emit(AsmLine::Branch(k, l_true));
    w.emit(AsmLine::Jump(l_false));
    proof {
        let ll = match sp_emit_expr(l@, old(w).env()) {
            Emitted::Done(ls) => ls,
            Emitted::EmitFail(_) => Seq::empty(),
        };
        let rl = match sp_emit_expr(r@, old(w).env()) {
            Emitted::Done(ls) => ls,
            Emitted::EmitFail(_) => Seq::empty(),
        };
        assert(alines_view(final(w).out@) =~= alines_view(old(w).out@) + (ll + seq![
            ALine::MovAccScratch,
        ] + rl + seq![
            ALine::CmpScratchAcc,
            ALine::Branch(k, l_true@),
            ALine::Jump(l_false@),
        ]));
    }
    Ok(())
}

/// Emits one boolean condition as branches to the two labels; no 0/1 value
/// is ever materialized.
fn emit_bool(b: &BooleanExpression, l_true: LabelId, l_false: LabelId, w: &mut X86Writer) -> (res:
    Result<(), CodegenError>)
    ensures
        final(w).env() == old(w).env(),
        final(w).labels() == old(w).labels(),
        ({
            match sp_emit_bool(b@, l_true@, l_false@, old(w).env()) {
                Emitted::Done(ls) => res is Ok && alines_view(final(w).out@) == alines_view(
                    old(w).out@,
                ) + ls,
                Emitted::EmitFail(e) => res is Err && res->Err_0@ == e,
            }
        }),
{
    match b {
        BooleanExpression::True => {
            w.emit(AsmLine::Jump(l_true));
            proof {
                assert(alines_view(final(w).out@) =~= alines_view(old(w).out@) + seq![
                    ALine::Jump(l_true@),
                ]);
            }
            Ok(())
        },
        BooleanExpression::False => {
            w.emit(AsmLine::Jump(l_false));
            proof {
                assert(alines_view(final(w).out@) =~= alines_view(old(w).out@) + seq![
                    ALine::Jump(l_false@),
                ]);
            }
            Ok(())
        },
        BooleanExpression::CompareLessThan(l, r) => emit_cmp(
            l,
            r,
            CmpKind::CmpLt,
            l_true,
            l_false,
            w,
        ),
        BooleanExpression::CompareLessThanEqualTo(l, r) => emit_cmp(
            l,
            r,
            CmpKind::CmpLe,
            l_true,
            l_false,
            w,
        ),
        BooleanExpression::CompareGreaterThan(l, r) => emit_cmp(
            l,
            r,
            CmpKind::CmpGt,
            l_true,
            l_false,
            w,
        ),
        BooleanExpression::CompareGreaterThanEqualTo(l, r) => emit_cmp(
            l,
            r,
            CmpKind::CmpGe,
            l_true,
            l_false,
            w,
        ),
        BooleanExpression::CompareEqualTo(l, r) => emit_cmp(
            l,
            r,
            CmpKind::CmpEq,
            l_true,
            l_false,
            w,
        ),
    }
}

/// Label counts are never negative.
pub proof fn lemma_stm_label_count_nonneg(s: Stm)
    ensures
        stm_label_count(s) >= 0,
    decreases s, 0int,
{
    match s {
        Stm::Assign { .. } => {},
        Stm::If { condition, then_statements, else_statements } => {
            lemma_stms_label_count_nonneg(then_statements, 0);
            lemma_stms_label_count_nonneg(else_statements, 0);
        },
        Stm::While { condition, body } => {
            lemma_stms_label_count_nonneg(body, 0);
        },
    }
}

/// Label counts of statement lists are never negative.
pub proof fn lemma_stms_label_count_nonneg(ss: Seq<Stm>, i: int)
    ensures
        stms_label_count(ss, i) >= 0,
    decreases ss, ss.len() - i,
{
    if 0 <= i < ss.len() {
        lemma_stm_label_count_nonneg(ss[i]);
        lemma_stms_label_count_nonneg(ss, i + 1);
    }
}

/// Emits one statement.
#[verifier::rlimit(100)]
#[verifier::spinoff_prover]
fn emit_stmt(s: &Statement, w: &mut X86Writer) -> (r: Result<(), CodegenError>)
    requires
        old(w).labels() + stm_label_count(s@) <= u64::MAX,
    ensures
        final(w).env() == old(w).env(),
        ({
            match sp_emit_stm(s@, old(w).env(), old(w).labels()) {
                Emitted::Done((ls, c2)) => r is Ok && alines_view(final(w).out@) == alines_view(
                    old(w).out@,
                ) + ls && final(w).labels() == c2 && c2 == old(w).labels() + stm_label_count(
                    s@,
                ),
                Emitted::EmitFail(e) => r is Err && r->Err_0@ == e,
            }
        }),
    decreases *s, 0int,
{
    match s {
        Statement::Assign { name, expression } => {
            match emit_expr(expression, w) {
                Ok(_) => {},
                Err(e) => {
                    return Err(e);
                },
            }
            match w.slot(name.as_str()) {
                Some(off) => {
                    w.emit(AsmLine::StoreSlot(off));
                    proof {
                        let ls = match sp_emit_expr((*expression)@, old(w).env()) {
                            Emitted::Done(ls) => ls,
                            Emitted::EmitFail(_) => Seq::empty(),
                        };
                        assert(alines_view(final(w).out@) =~= alines_view(old(w).out@) + (ls
                            + seq![ALine::StoreSlot(off as int)]));
                    }
                    Ok(())
                },
                None => Err(CodegenError::UndeclaredIdentifier { name: name.clone() }),
            }
        },
        Statement::If { condition, then_statements, else_statements } => {
            proof {
                lemma_stms_label_count_nonneg(stms_view(*then_statements), 0);
                lemma_stms_label_count_nonneg(stms_view(*else_statements), 0);
            }
            let l_then = w.fresh_lbl(LabelKind::IfThen);
            let l_else = w.fresh_lbl(LabelKind::IfElse);
            let l_end = w.fresh_lbl(LabelKind::IfEnd);
            match emit_bool(condition, l_then, l_else, w) {
                Ok(_) => {},
                Err(e) => {
                    return Err(e);
                },
            }
            w.emit(AsmLine::Label(l_then));
            match emit_stmts(then_statements, w) {
                Ok(_) => {},
                Err(e) => {
                    return Err(e);
                },
            }
            w.emit(AsmLine::Jump(l_end));
            w.emit(AsmLine::Label(l_else));
            match emit_stmts(else_statements, w) {
                Ok(_) => {},
                Err(e) => {
                    return Err(e);
                },
            }
            w.emit(AsmLine::Jump(l_end));
            w.emit(AsmLine::Label(l_end));
            proof {
                let env = old(w).env();
                let c = old(w).labels();
                let bl = match sp_emit_bool(condition@, l_then@, l_else@, env) {
                    Emitted::Done(ls) => ls,
                    Emitted::EmitFail(_) => Seq::empty(),
                };
                let tl_c2 = match sp_emit_stms(stms_view(*then_statements), 0, env, c + 3) {
                    Emitted::Done(p) => p,
                    Emitted::EmitFail(_) => (Seq::empty(), 0int),
                };
                let el_c3 = match sp_emit_stms(stms_view(*else_statements), 0, env, tl_c2.1) {
                    Emitted::Done(p) => p,
                    Emitted::EmitFail(_) => (Seq::empty(), 0int),
                };
                assert(alines_view(final(w).out@) =~= alines_view(old(w).out@) + (bl + seq![
                    ALine::Label(l_then@),
                ] + tl_c2.0 + seq![ALine::Jump(l_end@)] + seq![ALine::Label(l_else@)] + el_c3.0
                    + seq![ALine::Jump(l_end@)] + seq![ALine::Label(l_end@)]));
            }
            Ok(())
        },
        Statement::While { condition, body } => {
            proof {
                lemma_stms_label_count_nonneg(stms_view(*body), 0);
            }
            let l_cond = w.fresh_lbl(LabelKind::WhileCond);
            let l_body = w.fresh_lbl(LabelKind::WhileBody);
            let l_end = w.fresh_lbl(LabelKind::WhileEnd);
            w.emit(AsmLine::Label(l_cond));
            match emit_bool(condition, l_body, l_end, w) {
                Ok(_) => {},
                Err(e) => {
                    return Err(e);
                },
            }
            w.emit(AsmLine::Label(l_body));
            match emit_stmts(body, w) {
                Ok(_) => {},
                Err(e) => {
                    return Err(e);
                },
            }
            w.emit(AsmLine::Jump(l_cond));
            w.emit(AsmLine::Label(l_end));
            proof {
                let env = old(w).env();
                let c = old(w).labels();
                let bl = match sp_emit_bool(condition@, l_body@, l_end@, env) {
                    Emitted::Done(ls) => ls,
                    Emitted::EmitFail(_) => Seq::empty(),
                };
                let bo_c2 = match sp_emit_stms(stms_view(*body), 0, env, c + 3) {
                    Emitted::Done(p) => p,
                    Emitted::EmitFail(_) => (Seq::empty(), 0int),
                };
                assert(alines_view(final(w).out@) =~= alines_view(old(w).out@) + (seq![
                    ALine::Label(l_cond@),
                ] + bl + seq![ALine::Label(l_body@)] + bo_c2.0 + seq![ALine::Jump(l_cond@)] + seq![
                    ALine::Label(l_end@),
                ]));
            }
            Ok(())
        },
    }
}

/// Emits a statement list, left to right.
fn emit_stmts(ss: &Vec<Statement>, w: &mut X86Writer) -> (r: Result<(), CodegenError>)
    requires
        old(w).labels() + stms_label_count(stms_view(*ss), 0) <= u64::MAX,
    ensures
        final(w).env() == old(w).env(),
        ({
            match sp_emit_stms(stms_view(*ss), 0, old(w).env(), old(w).labels()) {
                Emitted::Done((ls, c2)) => r is Ok && alines_view(final(w).out@) == alines_view(
                    old(w).out@,
                ) + ls && final(w).labels() == c2 && c2 == old(w).labels() + stms_label_count(
                    stms_view(*ss),
                    0,
                ),
                Emitted::EmitFail(e) => r is Err && r->Err_0@ == e,
            }
        }),
    decreases *ss, 0int,
{
    let ghost all = stms_view(*ss);
    let ghost env0 = old(w).env();
    let ghost c0 = old(w).labels();
    proof {
        lemma_vec_stms_view(*ss, 0);
    }
    let ghost mut emitted: Seq<ALine> = Seq::empty();
    let mut i: usize = 0;
    while i < ss.len()
        invariant
            i <= ss@.len(),
            all == stms_view(*ss),
            all.len() == ss@.len(),
            forall|j: int| 0 <= j < ss@.len() ==> #[trigger] all[j] == stm_view(ss@[j]),
            w.env() == env0,
            env0 == old(w).env(),
            c0 == old(w).labels(),
            w.labels() + stms_label_count(all, i as int) <= u64::MAX,
            w.labels() == c0 + (stms_label_count(all, 0) - stms_label_count(all, i as int)),
            alines_view(w.out@) == alines_view(old(w).out@) + emitted,
            ({
                match sp_emit_stms(all, i as int, env0, w.labels()) {
                    Emitted::Done((rest, c2)) => sp_emit_stms(all, 0, env0, c0) == Emitted::Done(
                        (emitted + rest, c2),
                    ),
                    Emitted::EmitFail(e) => sp_emit_stms(all, 0, env0, c0) == Emitted::<
                        (Seq<ALine>, int),
                    >::EmitFail(e),
                }
            }),
        decreases ss@.len() - i,
    {
        proof {
            lemma_stm_label_count_nonneg(all[i as int]);
            lemma_stms_label_count_nonneg(all, i as int + 1);
        }
        let ghost c_here = w.labels();
        let stmt_res = emit_stmt(&ss[i], w);
        match stmt_res {
            Ok(_) => {},
            Err(e) => {
                return Err(e);
            },
        }
        proof {
            let ls_c1 = match sp_emit_stm(all[i as int], env0, c_here) {
                Emitted::Done(p) => p,
                Emitted::EmitFail(_) => (Seq::<ALine>::empty(), 0int),
            };
            match sp_emit_stms(all, i as int + 1, env0, ls_c1.1) {
                Emitted::Done((rest, c2)) => {
                    assert(emitted + (ls_c1.0 + rest) =~= (emitted + ls_c1.0) + rest);
                },
                Emitted::EmitFail(_) => {},
            }
            emitted = emitted + ls_c1.0;
        }
        i = i + 1;
    }
    proof {
        assert(emitted + Seq::<ALine>::empty() =~= emitted);
    }
    Ok(())
}


/// A table holds exactly the keys of its base table and the names inserted.
proof fn lemma_insert_names_contains(
    m: Map<Seq<char>, int>,
    names: Seq<Seq<char>>,
    slot: int,
    k: Seq<char>,
)
    ensures
        insert_names(m, names, slot).contains_key(k) <==> (m.contains_key(k) || names.contains(k)),
    decreases names.len(),
{
    if names.len() == 0 {
        assert(!names.contains(k));
    } else {
        lemma_insert_names_contains(
            m.insert(names[0], 8 * (slot + 1)),
            names.drop_first(),
            slot + 1,
            k,
        );
        if names.contains(k) {
            let i = choose|i: int| 0 <= i < names.len() && names[i] == k;
            if i > 0 {
                assert(names.drop_first()[i - 1] == k);
                assert(names.drop_first().contains(k));
            }
        }
        if names.drop_first().contains(k) {
            let i = choose|i: int|
                0 <= i < names.drop_first().len() && names.drop_first()[i] == k;
            assert(names[i + 1] == k);
            assert(names.contains(k));
        }
    }
}

/// Generates the instruction sequence of one program: exactly what
/// `sp_generate` says for its value.  The two bounds are machine limits:
/// every slot offset and every label number must fit the 64-bit counter.
pub fn generate_program_instrs(p: &Program) -> (r: Result<Vec<AsmLine>, CodegenError>)
    requires
        (p@.arg_declarations.len() + p@.var_declarations.len() + 1) * 8 <= usize::MAX,
        stms_label_count(p@.statements, 0) <= u64::MAX,
    ensures
        ({
            match sp_generate(p@) {
                Emitted::Done(ls) => r is Ok && alines_view(r->Ok_0@) == ls,
                Emitted::EmitFail(e) => r is Err && r->Err_0@ == e,
            }
        }),
{
    let nargs = p.arg_declarations.len();
    let nvars = p.var_declarations.len();
    if nargs > 6 {
        return Err(CodegenError::TooManyArguments { count: nargs });
    }
    let mut w = X86Writer::new();
    let ghost argnames = p@.arg_declarations;
    let ghost varnames = p@.var_declarations;
    proof {
        assert(argnames.skip(0) =~= argnames);
    }
    let mut i: usize = 0;
    while i < nargs
        invariant
            i <= nargs,
            nargs == argnames.len(),
            nvars == varnames.len(),
            argnames == p@.arg_declarations,
            (argnames.len() + varnames.len() + 1) * 8 <= usize::MAX,
            w.out@.len() == 0,
            w.labels() == 0,
            insert_names(Map::empty(), argnames, 0) == insert_names(
                w.env(),
                argnames.skip(i as int),
                i as int,
            ),
        decreases nargs - i,
    {
        let off = (i as u64 + 1) * 8;
        proof {
            assert(argnames.skip(i as int)[0] == argnames[i as int]);
            assert(argnames[i as int] == p.arg_declarations@[i as int]@);
            assert(argnames.skip(i as int).drop_first() =~= argnames.skip(i as int + 1));
        }
        w.insert_offset(&p.arg_declarations[i], off);
        i = i + 1;
    }
    proof {
        assert(argnames.skip(nargs as int) =~= Seq::<Seq<char>>::empty());
        assert(varnames.skip(0) =~= varnames);
    }
    let mut j: usize = 0;
    while j < nvars
        invariant
            j <= nvars,
            nargs == argnames.len(),
            nvars == varnames.len(),
            argnames == p@.arg_declarations,
            varnames == p@.var_declarations,
            (argnames.len() + varnames.len() + 1) * 8 <= usize::MAX,
            w.out@.len() == 0,
            w.labels() == 0,
            insert_names(insert_names(Map::empty(), argnames, 0), varnames, nargs as int)
                == insert_names(w.env(), varnames.skip(j as int), (nargs + j) as int),
        decreases nvars - j,
    {
        let off = ((nargs + j) as u64 + 1) * 8;
        proof {
            assert(varnames.skip(j as int)[0] == varnames[j as int]);
            assert(varnames[j as int] == p.var_declarations@[j as int]@);
            assert(varnames.skip(j as int).drop_first() =~= varnames.skip(j as int + 1));
        }
        w.insert_offset(&p.var_declarations[j], off);
        j = j + 1;
    }
    proof {
        assert(varnames.skip(nvars as int) =~= Seq::<Seq<char>>::empty());
        assert(w.env() == slots_env(p@));
    }
    let ghost env = w.env();
    let total = nargs + nvars;
    let base = (total as u64) * 8;
    let frame = if base % 16 != 0 {
        base + 8
    } else {
        base
    };
    proof {
        assert(frame as int == spec_frame_size(total as int));
    }
    w.emit(AsmLine::SectionText);
    w.emit(AsmLine::GlobalFoo);
    w.emit(AsmLine::FooLabel);
    w.emit(AsmLine::PushRbp);
    w.emit(AsmLine::SetupFrame);
    if frame > 0 {
        w.emit(AsmLine::AllocFrame(frame));
    }
    let ghost header = seq![
        ALine::SectionText,
        ALine::GlobalFoo,
        ALine::FooLabel,
        ALine::PushRbp,
        ALine::SetupFrame,
    ];
    let ghost alloc = if spec_frame_size(total as int) > 0 {
        seq![ALine::AllocFrame(spec_frame_size(total as int))]
    } else {
        Seq::<ALine>::empty()
    };
    let ghost dealloc = if spec_frame_size(total as int) > 0 {
        seq![ALine::FreeFrame(spec_frame_size(total as int))]
    } else {
        Seq::<ALine>::empty()
    };
    proof {
        assert(alines_view(w.out@) =~= header + alloc);
    }
    let ghost pre_stores = alines_view(w.out@);
    let mut k: usize = 0;
    while k < nargs
        invariant
            k <= nargs,
            nargs <= 6,
            nargs == argnames.len(),
            argnames == p@.arg_declarations,
            varnames == p@.var_declarations,
            w.env() == env,
            env == slots_env(p@),
            w.labels() == 0,
            pre_stores + sp_arg_stores(argnames, env, 0) == alines_view(w.out@) + sp_arg_stores(
                argnames,
                env,
                k as int,
            ),
        decreases nargs - k,
    {
        proof {
            lemma_insert_names_contains(
                insert_names(Map::empty(), argnames, 0),
                varnames,
                nargs as int,
                argnames[k as int],
            );
            lemma_insert_names_contains(Map::empty(), argnames, 0, argnames[k as int]);
            assert(argnames.contains(argnames[k as int]));
            assert(argnames[k as int] == p.arg_declarations@[k as int]@);
        }
        let off = match w.slot(p.arg_declarations[k].as_str()) {
            Some(off) => off,
            None => {
                proof {
                    assert(false);
                }
                0
            },
        };
        let ghost before = alines_view(w.out@);
        w.emit(AsmLine::StoreArg(k, off));
        proof {
            assert(sp_arg_stores(argnames, env, k as int) == seq![
                ALine::StoreArg(k as int, env[argnames[k as int]]),
            ] + sp_arg_stores(argnames, env, k as int + 1));
            assert(before.push(ALine::StoreArg(k as int, off as int)) + sp_arg_stores(
                argnames,
                env,
                k as int + 1,
            ) =~= before + sp_arg_stores(argnames, env, k as int));
        }
        k = k + 1;
    }
    proof {
        assert(sp_arg_stores(argnames, env, nargs as int) =~= Seq::<ALine>::empty());
        assert(alines_view(w.out@) =~= pre_stores + sp_arg_stores(argnames, env, 0));
        assert(p@.statements == stms_view(p.statements));
    }
    let ghost pre_stmts = alines_view(w.out@);
    match emit_stmts(&p.statements, &mut w) {
        Ok(_) => {},
        Err(e) => {
            return Err(e);
        },
    }
    let roff = match w.slot(p.return_ident.as_str()) {
        Some(off) => off,
        None => {
            return Err(CodegenError::UndeclaredIdentifier { name: p.return_ident.clone() });
        },
    };
    w.emit(AsmLine::LoadSlot(roff));
    if frame > 0 {
        w.emit(AsmLine::FreeFrame(frame));
    }
    w.emit(AsmLine::PopRbp);
    w.emit(AsmLine::Ret);
    proof {
        let stores = sp_arg_stores(argnames, env, 0);
        let sl = match sp_emit_stms(p@.statements, 0, env, 0) {
            Emitted::Done(pr) => pr.0,
            Emitted::EmitFail(_) => Seq::<ALine>::empty(),
        };
        assert(alines_view(w.out@) =~= header + alloc + stores + sl + seq![
            ALine::LoadSlot(env[p@.return_ident]),
        ] + dealloc + seq![ALine::PopRbp, ALine::Ret]);
    }
    Ok(w.out)
}


// ---------------------------------------------------------------------------
// Rendering to assembly text
// ---------------------------------------------------------------------------
/// The text of one argument register, by bank index.
pub open spec fn spec_reg_name(i: int) -> Seq<char> {
    if i == 0 {
        "%rdi"@
    } else if i == 1 {
        "%rsi"@
    } else if i == 2 {
        "%rdx"@
    } else if i == 3 {
        "%rcx"@
    } else if i == 4 {
        "%r8"@
    } else {
        "%r9"@
    }
}

/// The base text of a label kind.
pub open spec fn spec_label_base(k: LabelKind) -> Seq<char> {
    match k {
        LabelKind::IfThen => "if.then"@,
        LabelKind::IfElse => "if.else"@,
        LabelKind::IfEnd => "if.end"@,
        LabelKind::WhileCond => "while.cond"@,
        LabelKind::WhileBody => "while.body"@,
        LabelKind::WhileEnd => "while.end"@,
    }
}

/// The text of one label: base, dot, counter value.
pub open spec fn spec_label_text(l: Lbl) -> Seq<char> {
    spec_label_base(l.kind) + "."@ + spec_dec_digits(l.num)
}

/// The text of one conditional jump mnemonic.
pub open spec fn spec_jump_name(k: CmpKind) -> Seq<char> {
    match k {
        CmpKind::CmpLt => "jl"@,
        CmpKind::CmpLe => "jle"@,
        CmpKind::CmpGt => "jg"@,
        CmpKind::CmpGe => "jge"@,
        CmpKind::CmpEq => "je"@,
    }
}

/// The text of one line, newline included.
pub open spec fn spec_line(l: ALine) -> Seq<char> {
    match l {
        ALine::SectionText => ".text\n"@,
        ALine::GlobalFoo => ".global foo\n"@,
        ALine::FooLabel => "foo:\n"@,
        ALine::PushRbp => "pushq %rbp\n"@,
        ALine::SetupFrame => "movq %rsp, %rbp\n"@,
        ALine::AllocFrame(n) => "subq $"@ + spec_dec_digits(n) + ", %rsp\n"@,
        ALine::FreeFrame(n) => "addq $"@ + spec_dec_digits(n) + ", %rsp\n"@,
        ALine::StoreArg(i, off) => "movq "@ + spec_reg_name(i) + ", -"@ + spec_dec_digits(off)
            + "(%rbp)\n"@,
        ALine::LoadImm(t) => "movq $"@ + t + ", %rax\n"@,
        ALine::LoadSlot(off) => "movq -"@ + spec_dec_digits(off) + "(%rbp), %rax\n"@,
        ALine::StoreSlot(off) => "movq %rax, -"@ + spec_dec_digits(off) + "(%rbp)\n"@,
        ALine::PushAcc => "pushq %rax\n"@,
        ALine::PopScratch => "popq %rcx\n"@,
        ALine::AddScratch => "addq %rcx, %rax\n"@,
        ALine::MulScratch => "imulq %rcx, %rax\n"@,
        ALine::SubFromScratch => "subq %rax, %rcx\n"@,
        ALine::MovScratchAcc => "movq %rcx, %rax\n"@,
        ALine::MovAccScratch => "movq %rax, %rcx\n"@,
        ALine::CmpScratchAcc => "cmpq %rax, %rcx\n"@,
        ALine::Label(lb) => spec_label_text(lb) + ":\n"@,
        ALine::Jump(lb) => "jmp "@ + spec_label_text(lb) + "\n"@,
        ALine::Branch(k, lb) => spec_jump_name(k) + " "@ + spec_label_text(lb) + "\n"@,
        ALine::PopRbp => "popq %rbp\n"@,
        ALine::Ret => "ret\n"@,
    }
}

/// The text of the lines from index `i` on.
pub open spec fn spec_render_from(ls: Seq<ALine>, i: int) -> Seq<char>
    decreases ls.len() - i,
{
    if i < 0 || i >= ls.len() {
        Seq::empty()
    } else {
        spec_line(ls[i]) + spec_render_from(ls, i + 1)
    }
}

/// The whole text of an instruction sequence.
pub open spec fn spec_render(ls: Seq<ALine>) -> Seq<char> {
    spec_render_from(ls, 0)
}

fn label_string(l: &LabelId) -> (s: String)
    ensures
        s@ == spec_label_text(l@),
{
    let mut s = match l.kind {
        LabelKind::IfThen => String::from_str("if.then"),
        LabelKind::IfElse => String::from_str("if.else"),
        LabelKind::IfEnd => String::from_str("if.end"),
        LabelKind::WhileCond => String::from_str("while.cond"),
        LabelKind::WhileBody => String::from_str("while.body"),
        LabelKind::WhileEnd => String::from_str("while.end"),
    };
    s.append(".");
    let digits = dec_string(l.num);
    s.append(digits.as_str());
    s
}

fn line_string(l: &AsmLine) -> (s: String)
    ensures
        s@ == spec_line(l@),
{
    match l {
        AsmLine::SectionText => String::from_str(".text\n"),
        AsmLine::GlobalFoo => String::from_str(".global foo\n"),
        AsmLine::FooLabel => String::from_str("foo:\n"),
        AsmLine::PushRbp => String::from_str("pushq %rbp\n"),
        AsmLine::SetupFrame => String::from_str("movq %rsp, %rbp\n"),
        AsmLine::AllocFrame(n) => {
            let mut s = String::from_str("subq $");
            let digits = dec_string(*n);
            s.append(digits.as_str());
            s.append(", %rsp\n");
            s
        },
        AsmLine::FreeFrame(n) => {
            let mut s = String::from_str("addq $");
            let digits = dec_string(*n);
            s.append(digits.as_str());
            s.append(", %rsp\n");
            s
        },
        AsmLine::StoreArg(i, off) => {
            let mut s = String::from_str("movq ");
            let reg = if *i == 0 {
                "%rdi"
            } else if *i == 1 {
                "%rsi"
            } else if *i == 2 {
                "%rdx"
            } else if *i == 3 {
                "%rcx"
            } else if *i == 4 {
                "%r8"
            } else {
                "%r9"
            };
            s.append(reg);
            s.append(", -");
            let digits = dec_string(*off);
            s.append(digits.as_str());
            s.append("(%rbp)\n");
            s
        },
        AsmLine::LoadImm(t) => {
            let mut s = String::from_str("movq $");
            s.append(t.as_str());
            s.append(", %rax\n");
            s
        },
        AsmLine::LoadSlot(off) => {
            let mut s = String::from_str("movq -");
            let digits = dec_string(*off);
            s.append(digits.as_str());
            s.append("(%rbp), %rax\n");
            s
        },
        AsmLine::StoreSlot(off) => {
            let mut s = String::from_str("movq %rax, -");
            let digits = dec_string(*off);
            s.append(digits.as_str());
            s.append("(%rbp)\n");
            s
        },
        AsmLine::PushAcc => String::from_str("pushq %rax\n"),
        AsmLine::PopScratch => String::from_str("popq %rcx\n"),
        AsmLine::AddScratch => String::from_str("addq %rcx, %rax\n"),
        AsmLine::MulScratch => String::from_str("imulq %rcx, %rax\n"),
        AsmLine::SubFromScratch => String::from_str("subq %rax, %rcx\n"),
        AsmLine::MovScratchAcc => String::from_str("movq %rcx, %rax\n"),
        AsmLine::MovAccScratch => String::from_str("movq %rax, %rcx\n"),
        AsmLine::CmpScratchAcc => String::from_str("cmpq %rax, %rcx\n"),
        AsmLine::Label(lb) => {
            let mut s = label_string(lb);
            s.append(":\n");
            s
        },
        AsmLine::Jump(lb) => {
            let mut s = String::from_str("jmp ");
            let lt = label_string(lb);
            s.append(lt.as_str());
            s.append("\n");
            s
        },
        AsmLine::Branch(k, lb) => {
            let mut s = match k {
                CmpKind::CmpLt => String::from_str("jl"),
                CmpKind::CmpLe => String::from_str("jle"),
                CmpKind::CmpGt => String::from_str("jg"),
                CmpKind::CmpGe => String::from_str("jge"),
                CmpKind::CmpEq => String::from_str("je"),
            };
            s.append(" ");
            let lt = label_string(lb);
            s.append(lt.as_str());
            s.append("\n");
            s
        },
        AsmLine::PopRbp => String::from_str("popq %rbp\n"),
        AsmLine::Ret => String::from_str("ret\n"),
    }
}

/// The assembly text of an instruction sequence, one line after another.
pub fn render_asm(lines: &Vec<AsmLine>) -> (s: String)
    ensures
        s@ == spec_render(alines_view(lines@)),
{
    let ghost all = alines_view(lines@);
    let mut s = String::new();
    let mut i: usize = 0;
    while i < lines.len()
        invariant
            i <= lines@.len(),
            all == alines_view(lines@),
            all.len() == lines@.len(),
            s@ + spec_render_from(all, i as int) == spec_render_from(all, 0),
        decreases lines@.len() - i,
    {
        let line = line_string(&lines[i]);
        proof {
            assert(all[i as int] == lines@[i as int]@);
            assert((s@ + spec_line(all[i as int])) + spec_render_from(all, i as int + 1) =~= s@ + (
            spec_line(all[i as int]) + spec_render_from(all, i as int + 1)));
        }
        s.append(line.as_str());
        i = i + 1;
    }
    proof {
        assert(s@ + Seq::<char>::empty() =~= s@);
        assert(spec_render_from(all, lines@.len() as int) =~= Seq::<char>::empty());
    }
    s
}

/// Generates the assembly text of one program: the rendering of exactly the
/// instructions `sp_generate` yields, or its error.
pub fn generate_program_x86(p: &Program) -> (r: Result<String, CodegenError>)
    requires
        (p@.arg_declarations.len() + p@.var_declarations.len() + 1) * 8 <= usize::MAX,
        stms_label_count(p@.statements, 0) <= u64::MAX,
    ensures
        ({
            match sp_generate(p@) {
                Emitted::Done(ls) => r is Ok && r->Ok_0@ == spec_render(ls),
                Emitted::EmitFail(e) => r is Err && r->Err_0@ == e,
            }
        }),
{
    match generate_program_instrs(p) {
        Ok(lines) => Ok(render_asm(&lines)),
        Err(e) => Err(e),
    }
}

} // verus!
