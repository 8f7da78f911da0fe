//! Properties of the compiler that hold for every input: frame alignment,
//! determinism of parsing, uniqueness of emitted labels, and the
//! argument-count bound.

use crate::ast::Prog;
use crate::codegen::{
    ALine, CgErr, Emitted, Lbl, sp_arg_stores, sp_emit_bool, sp_emit_cmp, sp_emit_expr,
    sp_emit_stm, sp_emit_stms, sp_generate, slots_env, spec_frame_size, stm_label_count,
    stms_label_count, lemma_stm_label_count_nonneg, lemma_stms_label_count_nonneg,
};
use crate::codegen::{spec_label_text, spec_line, LabelKind};
use crate::parser::{Parsed, spec_parse_program};
use crate::scanner::Tok;
use crate::text::{spec_dec_digits, spec_digit_char};
use vstd::prelude::*;

verus! {

broadcast use vstd::seq::axiom_seq_index_decreases;

// ---------------------------------------------------------------------------
// Frame alignment
// ---------------------------------------------------------------------------
/// The frame size for any number of declared names is a non-negative
/// multiple of 16.
pub proof fn lemma_frame_size_aligned(n: int)
    requires
        n >= 0,
    ensures
        spec_frame_size(n) >= 0,
        spec_frame_size(n) % 16 == 0,
{
}

/// For every program the parser accepts, the computed frame size is a
/// non-negative multiple of 16.
pub proof fn lemma_parsed_frame_size_aligned(t: Seq<Tok>)
    ensures
        match spec_parse_program(t) {
            Parsed::Found(p, _) => {
                let f = spec_frame_size(
                    (p.arg_declarations.len() + p.var_declarations.len()) as int,
                );
                f >= 0 && f % 16 == 0
            },
            Parsed::Fail(_) => true,
        },
{
    match spec_parse_program(t) {
        Parsed::Found(p, _) => {
            lemma_frame_size_aligned(
                (p.arg_declarations.len() + p.var_declarations.len()) as int,
            );
        },
        Parsed::Fail(_) => {},
    }
}

// ---------------------------------------------------------------------------
// Determinism of parsing
// ---------------------------------------------------------------------------
/// Parsing is deterministic: the same token sequence always yields the same
/// outcome — structurally identical programs, or identical errors.  The
/// executable parser returns exactly `spec_parse_program` of its input, so
/// two runs over equal token sequences cannot differ.
pub proof fn lemma_parse_deterministic(t1: Seq<Tok>, t2: Seq<Tok>)
    requires
        t1 == t2,
    ensures
        spec_parse_program(t1) == spec_parse_program(t2),
{
}

// ---------------------------------------------------------------------------
// Label uniqueness
// ---------------------------------------------------------------------------
/// How many times a label with counter value `n` is defined in `ls`.
pub open spec fn label_def_count(ls: Seq<ALine>, n: int) -> int
    decreases ls.len(),
{
    if ls.len() == 0 {
        0
    } else {
        (match ls[0] {
            ALine::Label(l) => if l.num == n {
                1int
            } else {
                0int
            },
            _ => 0int,
        }) + label_def_count(ls.drop_first(), n)
    }
}

proof fn lemma_count_add(a: Seq<ALine>, b: Seq<ALine>, n: int)
    ensures
        label_def_count(a + b, n) == label_def_count(a, n) + label_def_count(b, n),
    decreases a.len(),
{
    if a.len() == 0 {
        assert(a + b =~= b);
    } else {
        assert((a + b).drop_first() =~= a.drop_first() + b);
        assert((a + b)[0] == a[0]);
        lemma_count_add(a.drop_first(), b, n);
    }
}

proof fn lemma_count_nonneg(ls: Seq<ALine>, n: int)
    ensures
        label_def_count(ls, n) >= 0,
    decreases ls.len(),
{
    if ls.len() > 0 {
        lemma_count_nonneg(ls.drop_first(), n);
    }
}

/// A sequence without label definitions defines no label.
proof fn lemma_count_no_labels(ls: Seq<ALine>, n: int)
    requires
        forall|i: int| 0 <= i < ls.len() ==> !((#[trigger] ls[i]) is Label),
    ensures
        label_def_count(ls, n) == 0,
    decreases ls.len(),
{
    if ls.len() > 0 {
        assert(!(ls[0] is Label));
        lemma_count_no_labels(ls.drop_first(), n);
    }
}

proof fn lemma_count_singleton(l: Lbl, n: int)
    ensures
        label_def_count(seq![ALine::Label(l)], n) == (if l.num == n {
            1int
        } else {
            0int
        }),
{
    assert(seq![ALine::Label(l)].drop_first() =~= Seq::<ALine>::empty());
    assert(label_def_count(Seq::<ALine>::empty(), n) == 0);
    assert(seq![ALine::Label(l)][0] == ALine::Label(l));
}

/// Expression output holds loads, stores and arithmetic only — no label.
proof fn lemma_emit_expr_counts(e: crate::ast::Exp, env: Map<Seq<char>, int>, n: int)
    ensures
        match sp_emit_expr(e, env) {
            Emitted::Done(ls) => label_def_count(ls, n) == 0,
            Emitted::EmitFail(_) => true,
        },
    decreases e,
{
    match e {
        crate::ast::Exp::Number(_) => {
            match sp_emit_expr(e, env) {
                Emitted::Done(ls) => {
                    lemma_count_no_labels(ls, n);
                },
                Emitted::EmitFail(_) => {},
            }
        },
        crate::ast::Exp::Identifier(_) => {
            match sp_emit_expr(e, env) {
                Emitted::Done(ls) => {
                    lemma_count_no_labels(ls, n);
                },
                Emitted::EmitFail(_) => {},
            }
        },
        crate::ast::Exp::Add(l, r) => {
            lemma_emit_expr_counts(*l, env, n);
            lemma_emit_expr_counts(*r, env, n);
            match (sp_emit_expr(*l, env), sp_emit_expr(*r, env)) {
                (Emitted::Done(ll), Emitted::Done(rl)) => {
                    lemma_count_add(ll, seq![ALine::PushAcc], n);
                    lemma_count_add(ll + seq![ALine::PushAcc], rl, n);
                    lemma_count_add(
                        ll + seq![ALine::PushAcc] + rl,
                        seq![ALine::PopScratch, ALine::AddScratch],
                        n,
                    );
                    lemma_count_no_labels(seq![ALine::PushAcc], n);
                    lemma_count_no_labels(seq![ALine::PopScratch, ALine::AddScratch], n);
                },
                _ => {},
            }
        },
        crate::ast::Exp::Multiply(l, r) => {
            lemma_emit_expr_counts(*l, env, n);
            lemma_emit_expr_counts(*r, env, n);
            match (sp_emit_expr(*l, env), sp_emit_expr(*r, env)) {
                (Emitted::Done(ll), Emitted::Done(rl)) => {
                    lemma_count_add(ll, seq![ALine::PushAcc], n);
                    lemma_count_add(ll + seq![ALine::PushAcc], rl, n);
                    lemma_count_add(
                        ll + seq![ALine::PushAcc] + rl,
                        seq![ALine::PopScratch, ALine::MulScratch],
                        n,
                    );
                    lemma_count_no_labels(seq![ALine::PushAcc], n);
                    lemma_count_no_labels(seq![ALine::PopScratch, ALine::MulScratch], n);
                },
                _ => {},
            }
        },
        crate::ast::Exp::Sub(l, r) => {
            lemma_emit_expr_counts(*l, env, n);
            lemma_emit_expr_counts(*r, env, n);
            match (sp_emit_expr(*l, env), sp_emit_expr(*r, env)) {
                (Emitted::Done(ll), Emitted::Done(rl)) => {
                    lemma_count_add(ll, seq![ALine::PushAcc], n);
                    lemma_count_add(ll + seq![ALine::PushAcc], rl, n);
                    lemma_count_add(
                        ll + seq![ALine::PushAcc] + rl,
                        seq![ALine::PopScratch, ALine::SubFromScratch, ALine::MovScratchAcc],
                        n,
                    );
                    lemma_count_no_labels(seq![ALine::PushAcc], n);
                    lemma_count_no_labels(
                        seq![ALine::PopScratch, ALine::SubFromScratch, ALine::MovScratchAcc],
                        n,
                    );
                },
                _ => {},
            }
        },
    }
}

/// Boolean output holds comparisons and jumps only — no label definition.
proof fn lemma_emit_bool_counts(
    b: crate::ast::BExp,
    lt: Lbl,
    lf: Lbl,
    env: Map<Seq<char>, int>,
    n: int,
)
    ensures
        match sp_emit_bool(b, lt, lf, env) {
            Emitted::Done(ls) => label_def_count(ls, n) == 0,
            Emitted::EmitFail(_) => true,
        },
{
    match b {
        crate::ast::BExp::True => {
            lemma_count_no_labels(seq![ALine::Jump(lt)], n);
        },
        crate::ast::BExp::False => {
            lemma_count_no_labels(seq![ALine::Jump(lf)], n);
        },
        crate::ast::BExp::CompareLessThan(l, r) => {
            lemma_emit_cmp_counts(l, r, crate::codegen::CmpKind::CmpLt, lt, lf, env, n);
        },
        crate::ast::BExp::CompareLessThanEqualTo(l, r) => {
            lemma_emit_cmp_counts(l, r, crate::codegen::CmpKind::CmpLe, lt, lf, env, n);
        },
        crate::ast::BExp::CompareGreaterThan(l, r) => {
            lemma_emit_cmp_counts(l, r, crate::codegen::CmpKind::CmpGt, lt, lf, env, n);
        },
        crate::ast::BExp::CompareGreaterThanEqualTo(l, r) => {
            lemma_emit_cmp_counts(l, r, crate::codegen::CmpKind::CmpGe, lt, lf, env, n);
        },
        crate::ast::BExp::CompareEqualTo(l, r) => {
            lemma_emit_cmp_counts(l, r, crate::codegen::CmpKind::CmpEq, lt, lf, env, n);
        },
    }
}

proof fn lemma_emit_cmp_counts(
    l: crate::ast::Exp,
    r: crate::ast::Exp,
    k: crate::codegen::CmpKind,
    lt: Lbl,
    lf: Lbl,
    env: Map<Seq<char>, int>,
    n: int,
)
    ensures
        match sp_emit_cmp(l, r, k, lt, lf, env) {
            Emitted::Done(ls) => label_def_count(ls, n) == 0,
            Emitted::EmitFail(_) => true,
        },
{
    lemma_emit_expr_counts(l, env, n);
    lemma_emit_expr_counts(r, env, n);
    match (sp_emit_expr(l, env), sp_emit_expr(r, env)) {
        (Emitted::Done(ll), Emitted::Done(rl)) => {
            lemma_count_add(ll, seq![ALine::MovAccScratch], n);
            lemma_count_add(ll + seq![ALine::MovAccScratch], rl, n);
            lemma_count_add(
                ll + seq![ALine::MovAccScratch] + rl,
                seq![ALine::CmpScratchAcc, ALine::Branch(k, lt), ALine::Jump(lf)],
                n,
            );
            lemma_count_no_labels(seq![ALine::MovAccScratch], n);
            lemma_count_no_labels(
                seq![ALine::CmpScratchAcc, ALine::Branch(k, lt), ALine::Jump(lf)],
                n,
            );
        },
        _ => {},
    }
}

/// One statement's output: each label number defined at most once, all of
/// them drawn from the counter interval the statement consumed.
proof fn lemma_emit_stm_counts(s: crate::ast::Stm, env: Map<Seq<char>, int>, c: int, n: int)
    ensures
        match sp_emit_stm(s, env, c) {
            Emitted::Done((ls, c2)) => {
                &&& c2 == c + stm_label_count(s)
                &&& label_def_count(ls, n) <= 1
                &&& (!(c < n <= c2) ==> label_def_count(ls, n) == 0)
            },
            Emitted::EmitFail(_) => true,
        },
    decreases s, 0int,
{
    lemma_stm_label_count_nonneg(s);
    match s {
        crate::ast::Stm::Assign { name, expression } => {
            lemma_emit_expr_counts(expression, env, n);
            match sp_emit_expr(expression, env) {
                Emitted::Done(ls) => {
                    lemma_count_add(ls, seq![ALine::StoreSlot(env[name])], n);
                    lemma_count_no_labels(seq![ALine::StoreSlot(env[name])], n);
                },
                Emitted::EmitFail(_) => {},
            }
        },
        crate::ast::Stm::If { condition, then_statements, else_statements } => {
            let l_then = Lbl { kind: crate::codegen::LabelKind::IfThen, num: c + 1 };
            let l_else = Lbl { kind: crate::codegen::LabelKind::IfElse, num: c + 2 };
            let l_end = Lbl { kind: crate::codegen::LabelKind::IfEnd, num: c + 3 };
            lemma_emit_bool_counts(condition, l_then, l_else, env, n);
            lemma_stms_label_count_nonneg(then_statements, 0);
            lemma_stms_label_count_nonneg(else_statements, 0);
            match sp_emit_bool(condition, l_then, l_else, env) {
                Emitted::EmitFail(_) => {},
                Emitted::Done(bl) => {
                    lemma_emit_stms_counts(then_statements, 0, env, c + 3, n);
                    match sp_emit_stms(then_statements, 0, env, c + 3) {
                        Emitted::EmitFail(_) => {},
                        Emitted::Done((tl, c2)) => {
                            lemma_emit_stms_counts(else_statements, 0, env, c2, n);
                            match sp_emit_stms(else_statements, 0, env, c2) {
                                Emitted::EmitFail(_) => {},
                                Emitted::Done((el, c3)) => {
                                    let p1 = bl + seq![ALine::Label(l_then)];
                                    let p2 = p1 + tl;
                                    let p3 = p2 + seq![ALine::Jump(l_end)];
                                    let p4 = p3 + seq![ALine::Label(l_else)];
                                    let p5 = p4 + el;
                                    let p6 = p5 + seq![ALine::Jump(l_end)];
                                    lemma_count_add(bl, seq![ALine::Label(l_then)], n);
                                    lemma_count_singleton(l_then, n);
                                    lemma_count_add(p1, tl, n);
                                    lemma_count_add(p2, seq![ALine::Jump(l_end)], n);
                                    lemma_count_no_labels(seq![ALine::Jump(l_end)], n);
                                    lemma_count_add(p3, seq![ALine::Label(l_else)], n);
                                    lemma_count_singleton(l_else, n);
                                    lemma_count_add(p4, el, n);
                                    lemma_count_add(p5, seq![ALine::Jump(l_end)], n);
                                    lemma_count_add(p6, seq![ALine::Label(l_end)], n);
                                    lemma_count_singleton(l_end, n);
                                    lemma_count_nonneg(tl, n);
                                    lemma_count_nonneg(el, n);
                                    lemma_count_nonneg(bl, n);
                                },
                            }
                        },
                    }
                },
            }
        },
        crate::ast::Stm::While { condition, body } => {
            let l_cond = Lbl { kind: crate::codegen::LabelKind::WhileCond, num: c + 1 };
            let l_body = Lbl { kind: crate::codegen::LabelKind::WhileBody, num: c + 2 };
            let l_end = Lbl { kind: crate::codegen::LabelKind::WhileEnd, num: c + 3 };
            lemma_emit_bool_counts(condition, l_body, l_end, env, n);
            lemma_stms_label_count_nonneg(body, 0);
            match sp_emit_bool(condition, l_body, l_end, env) {
                Emitted::EmitFail(_) => {},
                Emitted::Done(bl) => {
                    lemma_emit_stms_counts(body, 0, env, c + 3, n);
                    match sp_emit_stms(body, 0, env, c + 3) {
                        Emitted::EmitFail(_) => {},
                        Emitted::Done((bo, c2)) => {
                            let p1 = seq![ALine::Label(l_cond)] + bl;
                            let p2 = p1 + seq![ALine::Label(l_body)];
                            let p3 = p2 + bo;
                            let p4 = p3 + seq![ALine::Jump(l_cond)];
                            lemma_count_singleton(l_cond, n);
                            lemma_count_add(seq![ALine::Label(l_cond)], bl, n);
                            lemma_count_add(p1, seq![ALine::Label(l_body)], n);
                            lemma_count_singleton(l_body, n);
                            lemma_count_add(p2, bo, n);
                            lemma_count_add(p3, seq![ALine::Jump(l_cond)], n);
                            lemma_count_no_labels(seq![ALine::Jump(l_cond)], n);
                            lemma_count_add(p4, seq![ALine::Label(l_end)], n);
                            lemma_count_singleton(l_end, n);
                            lemma_count_nonneg(bo, n);
                            lemma_count_nonneg(bl, n);
                        },
                    }
                },
            }
        },
    }
}

/// A statement list's output: each label number defined at most once, all
/// drawn from the interval the list consumed.
proof fn lemma_emit_stms_counts(
    ss: Seq<crate::ast::Stm>,
    i: int,
    env: Map<Seq<char>, int>,
    c: int,
    n: int,
)
    ensures
        match sp_emit_stms(ss, i, env, c) {
            Emitted::Done((ls, c2)) => {
                &&& c2 == c + stms_label_count(ss, i)
                &&& label_def_count(ls, n) <= 1
                &&& (!(c < n <= c2) ==> label_def_count(ls, n) == 0)
            },
            Emitted::EmitFail(_) => true,
        },
    decreases ss, ss.len() - i,
{
    if 0 <= i < ss.len() {
        lemma_emit_stm_counts(ss[i], env, c, n);
        lemma_stm_label_count_nonneg(ss[i]);
        lemma_stms_label_count_nonneg(ss, i + 1);
        match sp_emit_stm(ss[i], env, c) {
            Emitted::EmitFail(_) => {},
            Emitted::Done((l1, c1)) => {
                lemma_emit_stms_counts(ss, i + 1, env, c1, n);
                match sp_emit_stms(ss, i + 1, env, c1) {
                    Emitted::EmitFail(_) => {},
                    Emitted::Done((l2, c2)) => {
                        lemma_count_add(l1, l2, n);
                        lemma_count_nonneg(l1, n);
                        lemma_count_nonneg(l2, n);
                    },
                }
            },
        }
    }
}

proof fn lemma_arg_stores_counts(
    args: Seq<Seq<char>>,
    env: Map<Seq<char>, int>,
    i: int,
    n: int,
)
    ensures
        label_def_count(sp_arg_stores(args, env, i), n) == 0,
    decreases args.len() - i,
{
    if 0 <= i < args.len() {
        lemma_count_add(
            seq![ALine::StoreArg(i, env[args[i]])],
            sp_arg_stores(args, env, i + 1),
            n,
        );
        lemma_count_no_labels(seq![ALine::StoreArg(i, env[args[i]])], n);
        lemma_arg_stores_counts(args, env, i + 1, n);
    }
}

/// In a whole compiled program, every label number is defined at most once.
pub proof fn lemma_generate_label_counts(p: Prog, n: int)
    ensures
        match sp_generate(p) {
            Emitted::Done(ls) => label_def_count(ls, n) <= 1,
            Emitted::EmitFail(_) => true,
        },
{
    if p.arg_declarations.len() <= 6 {
        let env = slots_env(p);
        let frame = spec_frame_size((p.arg_declarations.len() + p.var_declarations.len()) as int);
        let header = seq![
            ALine::SectionText,
            ALine::GlobalFoo,
            ALine::FooLabel,
            ALine::PushRbp,
            ALine::SetupFrame,
        ];
        let alloc = if frame > 0 {
            seq![ALine::AllocFrame(frame)]
        } else {
            Seq::<ALine>::empty()
        };
        let dealloc = if frame > 0 {
            seq![ALine::FreeFrame(frame)]
        } else {
            Seq::<ALine>::empty()
        };
        let stores = sp_arg_stores(p.arg_declarations, env, 0);
        lemma_emit_stms_counts(p.statements, 0, env, 0, n);
        match sp_emit_stms(p.statements, 0, env, 0) {
            Emitted::EmitFail(_) => {},
            Emitted::Done((sl, _c)) => {
                if env.contains_key(p.return_ident) {
                    let q1 = header + alloc;
                    let q2 = q1 + stores;
                    let q3 = q2 + sl;
                    let q4 = q3 + seq![ALine::LoadSlot(env[p.return_ident])];
                    let q5 = q4 + dealloc;
                    lemma_count_no_labels(header, n);
                    lemma_count_no_labels(alloc, n);
                    lemma_count_no_labels(dealloc, n);
                    lemma_count_add(header, alloc, n);
                    lemma_arg_stores_counts(p.arg_declarations, env, 0, n);
                    lemma_count_add(q1, stores, n);
                    lemma_count_add(q2, sl, n);
                    lemma_count_add(q3, seq![ALine::LoadSlot(env[p.return_ident])], n);
                    lemma_count_no_labels(seq![ALine::LoadSlot(env[p.return_ident])], n);
                    lemma_count_add(q4, dealloc, n);
                    lemma_count_add(q5, seq![ALine::PopRbp, ALine::Ret], n);
                    lemma_count_no_labels(seq![ALine::PopRbp, ALine::Ret], n);
                }
            },
        }
    }
}

/// A label defined at two positions is counted at least twice.
proof fn lemma_count_two(ls: Seq<ALine>, i: int, j: int, n: int)
    requires
        0 <= i < j < ls.len(),
        ls[i] matches ALine::Label(a) && a.num == n,
        ls[j] matches ALine::Label(b) && b.num == n,
    ensures
        label_def_count(ls, n) >= 2,
    decreases i,
{
    if i == 0 {
        lemma_count_one(ls.drop_first(), j - 1, n);
    } else {
        lemma_count_two(ls.drop_first(), i - 1, j - 1, n);
        lemma_count_nonneg(ls.drop_first(), n);
    }
}

/// A label defined at one position is counted at least once.
proof fn lemma_count_one(ls: Seq<ALine>, i: int, n: int)
    requires
        0 <= i < ls.len(),
        ls[i] matches ALine::Label(a) && a.num == n,
    ensures
        label_def_count(ls, n) >= 1,
    decreases i,
{
    if i > 0 {
        lemma_count_one(ls.drop_first(), i - 1, n);
    } else {
        lemma_count_nonneg(ls.drop_first(), n);
    }
}

/// Label uniqueness: in the code generated for any program — sibling `if`
/// statements and nested `while` loops included — no two label definitions
/// share a counter value, so no label is ever emitted twice.
pub proof fn lemma_labels_unique(p: Prog)
    ensures
        match sp_generate(p) {
            Emitted::Done(ls) => forall|i: int, j: int|
                0 <= i < j < ls.len() && (ls[i] is Label) && (ls[j] is Label)
                    ==> (#[trigger] ls[i])->Label_0.num != (#[trigger] ls[j])->Label_0.num,
            Emitted::EmitFail(_) => true,
        },
{
    match sp_generate(p) {
        Emitted::Done(ls) => {
            assert forall|i: int, j: int|
                0 <= i < j < ls.len() && (ls[i] is Label) && (ls[j] is Label) implies (
            #[trigger] ls[i])->Label_0.num != (#[trigger] ls[j])->Label_0.num by {
                let n = ls[i]->Label_0.num;
                if ls[j]->Label_0.num == n {
                    lemma_count_two(ls, i, j, n);
                    lemma_generate_label_counts(p, n);
                }
            }
        },
        Emitted::EmitFail(_) => {},
    }
}

// ---------------------------------------------------------------------------
// Label uniqueness carried down to the rendered text
// ---------------------------------------------------------------------------
proof fn lemma_dec_len_pos(n: int)
    ensures
        spec_dec_digits(n).len() >= 1,
    decreases n,
{
    if n > 9 {
        lemma_dec_len_pos(n / 10);
    }
}

/// Decimal rendering is injective on the non-negative integers.
proof fn lemma_dec_injective(a: int, b: int)
    requires
        a >= 0,
        b >= 0,
        spec_dec_digits(a) == spec_dec_digits(b),
    ensures
        a == b,
    decreases a,
{
    if a <= 9 && b <= 9 {
        assert(spec_dec_digits(a)[0] == spec_digit_char(a));
        assert(spec_dec_digits(b)[0] == spec_digit_char(b));
    } else if a <= 9 && b > 9 {
        lemma_dec_len_pos(b / 10);
        assert(spec_dec_digits(a).len() == 1);
        assert(spec_dec_digits(b).len() >= 2);
    } else if a > 9 && b <= 9 {
        lemma_dec_len_pos(a / 10);
        assert(spec_dec_digits(b).len() == 1);
        assert(spec_dec_digits(a).len() >= 2);
    } else {
        let pa = spec_dec_digits(a / 10);
        let pb = spec_dec_digits(b / 10);
        assert(pa.push(spec_digit_char(a % 10)).drop_last() =~= pa);
        assert(pb.push(spec_digit_char(b % 10)).drop_last() =~= pb);
        assert(pa == pb);
        assert(pa.push(spec_digit_char(a % 10)).last() == spec_digit_char(a % 10));
        assert(pb.push(spec_digit_char(b % 10)).last() == spec_digit_char(b % 10));
        assert(spec_digit_char(a % 10) == spec_digit_char(b % 10));
        assert(a % 10 == b % 10);
        lemma_dec_injective(a / 10, b / 10);
    }
}

/// Four fixed positions of a label's text identify its base name.
proof fn lemma_label_text_marks(l: Lbl)
    ensures
        spec_label_text(l).len() >= 8,
        ({
            let t = spec_label_text(l);
            match l.kind {
                LabelKind::IfThen => t[0] == 'i' && t[3] == 't' && t[4] == 'h' && t[6] == 'n',
                LabelKind::IfElse => t[0] == 'i' && t[3] == 'e' && t[4] == 'l' && t[6] == 'e',
                LabelKind::IfEnd => t[0] == 'i' && t[3] == 'e' && t[4] == 'n' && t[6] == '.',
                LabelKind::WhileCond => t[0] == 'w' && t[3] == 'l' && t[4] == 'e' && t[6] == 'c',
                LabelKind::WhileBody => t[0] == 'w' && t[3] == 'l' && t[4] == 'e' && t[6] == 'b',
                LabelKind::WhileEnd => t[0] == 'w' && t[3] == 'l' && t[4] == 'e' && t[6] == 'e',
            }
        }),
{
    reveal_strlit("if.then");
    reveal_strlit("if.else");
    reveal_strlit("if.end");
    reveal_strlit("while.cond");
    reveal_strlit("while.body");
    reveal_strlit("while.end");
    reveal_strlit(".");
    lemma_dec_len_pos(l.num);
}

/// Two labels with the same text are the same label.
proof fn lemma_label_text_injective(a: Lbl, b: Lbl)
    requires
        a.num >= 0,
        b.num >= 0,
        spec_label_text(a) == spec_label_text(b),
    ensures
        a == b,
{
    lemma_label_text_marks(a);
    lemma_label_text_marks(b);
    assert(a.kind == b.kind);
    reveal_strlit("if.then");
    reveal_strlit("if.else");
    reveal_strlit("if.end");
    reveal_strlit("while.cond");
    reveal_strlit("while.body");
    reveal_strlit("while.end");
    reveal_strlit(".");
    let base = crate::codegen::spec_label_base(a.kind) + "."@;
    let da = spec_dec_digits(a.num);
    let db = spec_dec_digits(b.num);
    assert(base + da == base + db);
    assert((base + da).len() == base.len() + da.len());
    assert(da =~= db) by {
        assert forall|i: int| 0 <= i < da.len() implies da[i] == db[i] by {
            assert((base + da)[base.len() + i] == da[i]);
            assert((base + db)[base.len() + i] == db[i]);
        }
    }
    lemma_dec_injective(a.num, b.num);
}

/// In the rendered assembly of any program, no two label-definition lines
/// read the same: label uniqueness holds of the text itself.
pub proof fn lemma_rendered_labels_unique(p: Prog)
    ensures
        match sp_generate(p) {
            Emitted::Done(ls) => forall|i: int, j: int|
                0 <= i < j < ls.len() && (ls[i] is Label) && (ls[j] is Label) ==> spec_line(
                    #[trigger] ls[i],
                ) != spec_line(#[trigger] ls[j]),
            Emitted::EmitFail(_) => true,
        },
{
    lemma_labels_unique(p);
    match sp_generate(p) {
        Emitted::Done(ls) => {
            assert forall|i: int, j: int|
                0 <= i < j < ls.len() && (ls[i] is Label) && (ls[j] is Label) implies spec_line(
                #[trigger] ls[i],
            ) != spec_line(#[trigger] ls[j]) by {
                let a = ls[i]->Label_0;
                let b = ls[j]->Label_0;
                lemma_generate_label_positive(p, i);
                lemma_generate_label_positive(p, j);
                if spec_line(ls[i]) == spec_line(ls[j]) {
                    let ta = spec_label_text(a);
                    let tb = spec_label_text(b);
                    assert(ta + ":\n"@ == tb + ":\n"@);
                    reveal_strlit(":\n");
                    assert(ta =~= tb) by {
                        assert((ta + ":\n"@).len() == ta.len() + 2);
                        assert((tb + ":\n"@).len() == tb.len() + 2);
                        assert forall|k: int| 0 <= k < ta.len() implies ta[k] == tb[k] by {
                            assert((ta + ":\n"@)[k] == ta[k]);
                            assert((tb + ":\n"@)[k] == tb[k]);
                        }
                    }
                    lemma_label_text_injective(a, b);
                }
            }
        },
        Emitted::EmitFail(_) => {},
    }
}

/// Every label definition in a compiled program carries a positive counter
/// value.
proof fn lemma_generate_label_positive(p: Prog, i: int)
    ensures
        match sp_generate(p) {
            Emitted::Done(ls) => (0 <= i < ls.len() && (ls[i] is Label)) ==> ls[i]->Label_0.num
                > 0,
            Emitted::EmitFail(_) => true,
        },
{
    match sp_generate(p) {
        Emitted::Done(ls) => {
            if 0 <= i < ls.len() && (ls[i] is Label) {
                let n = ls[i]->Label_0.num;
                lemma_count_one(ls, i, n);
                if n <= 0 {
                    lemma_generate_label_counts_range(p, n);
                }
            }
        },
        Emitted::EmitFail(_) => {},
    }
}

/// No label with a non-positive counter value is ever defined.
proof fn lemma_generate_label_counts_range(p: Prog, n: int)
    requires
        n <= 0,
    ensures
        match sp_generate(p) {
            Emitted::Done(ls) => label_def_count(ls, n) == 0,
            Emitted::EmitFail(_) => true,
        },
{
    if p.arg_declarations.len() <= 6 {
        let env = slots_env(p);
        let frame = spec_frame_size((p.arg_declarations.len() + p.var_declarations.len()) as int);
        let header = seq![
            ALine::SectionText,
            ALine::GlobalFoo,
            ALine::FooLabel,
            ALine::PushRbp,
            ALine::SetupFrame,
        ];
        let alloc = if frame > 0 {
            seq![ALine::AllocFrame(frame)]
        } else {
            Seq::<ALine>::empty()
        };
        let dealloc = if frame > 0 {
            seq![ALine::FreeFrame(frame)]
        } else {
            Seq::<ALine>::empty()
        };
        let stores = sp_arg_stores(p.arg_declarations, env, 0);
        lemma_emit_stms_counts(p.statements, 0, env, 0, n);
        lemma_stms_label_count_nonneg(p.statements, 0);
        match sp_emit_stms(p.statements, 0, env, 0) {
            Emitted::EmitFail(_) => {},
            Emitted::Done((sl, _c)) => {
                if env.contains_key(p.return_ident) {
                    let q1 = header + alloc;
                    let q2 = q1 + stores;
                    let q3 = q2 + sl;
                    let q4 = q3 + seq![ALine::LoadSlot(env[p.return_ident])];
                    let q5 = q4 + dealloc;
                    lemma_count_no_labels(header, n);
                    lemma_count_no_labels(alloc, n);
                    lemma_count_no_labels(dealloc, n);
                    lemma_count_add(header, alloc, n);
                    lemma_arg_stores_counts(p.arg_declarations, env, 0, n);
                    lemma_count_add(q1, stores, n);
                    lemma_count_add(q2, sl, n);
                    lemma_count_add(q3, seq![ALine::LoadSlot(env[p.return_ident])], n);
                    lemma_count_no_labels(seq![ALine::LoadSlot(env[p.return_ident])], n);
                    lemma_count_add(q4, dealloc, n);
                    lemma_count_add(q5, seq![ALine::PopRbp, ALine::Ret], n);
                    lemma_count_no_labels(seq![ALine::PopRbp, ALine::Ret], n);
                }
            },
        }
    }
}

// ---------------------------------------------------------------------------
// The argument bound
// ---------------------------------------------------------------------------
/// Emission of expressions fails only for an undeclared identifier.
proof fn lemma_emit_expr_err_shape(e: crate::ast::Exp, env: Map<Seq<char>, int>)
    ensures
        match sp_emit_expr(e, env) {
            Emitted::EmitFail(er) => er is UndeclaredIdentifier,
            Emitted::Done(_) => true,
        },
    decreases e,
{
    match e {
        crate::ast::Exp::Number(_) => {},
        crate::ast::Exp::Identifier(_) => {},
        crate::ast::Exp::Add(l, r) => {
            lemma_emit_expr_err_shape(*l, env);
            lemma_emit_expr_err_shape(*r, env);
        },
        crate::ast::Exp::Multiply(l, r) => {
            lemma_emit_expr_err_shape(*l, env);
            lemma_emit_expr_err_shape(*r, env);
        },
        crate::ast::Exp::Sub(l, r) => {
            lemma_emit_expr_err_shape(*l, env);
            lemma_emit_expr_err_shape(*r, env);
        },
    }
}

/// Emission of booleans fails only for an undeclared identifier.
proof fn lemma_emit_bool_err_shape(
    b: crate::ast::BExp,
    lt: Lbl,
    lf: Lbl,
    env: Map<Seq<char>, int>,
)
    ensures
        match sp_emit_bool(b, lt, lf, env) {
            Emitted::EmitFail(er) => er is UndeclaredIdentifier,
            Emitted::Done(_) => true,
        },
{
    match b {
        crate::ast::BExp::True => {},
        crate::ast::BExp::False => {},
        crate::ast::BExp::CompareLessThan(l, r) => {
            lemma_emit_expr_err_shape(l, env);
            lemma_emit_expr_err_shape(r, env);
        },
        crate::ast::BExp::CompareLessThanEqualTo(l, r) => {
            lemma_emit_expr_err_shape(l, env);
            lemma_emit_expr_err_shape(r, env);
        },
        crate::ast::BExp::CompareGreaterThan(l, r) => {
            lemma_emit_expr_err_shape(l, env);
            lemma_emit_expr_err_shape(r, env);
        },
        crate::ast::BExp::CompareGreaterThanEqualTo(l, r) => {
            lemma_emit_expr_err_shape(l, env);
            lemma_emit_expr_err_shape(r, env);
        },
        crate::ast::BExp::CompareEqualTo(l, r) => {
            lemma_emit_expr_err_shape(l, env);
            lemma_emit_expr_err_shape(r, env);
        },
    }
}

/// Emission of statements fails only for an undeclared identifier.
proof fn lemma_emit_stm_err_shape(s: crate::ast::Stm, env: Map<Seq<char>, int>, c: int)
    ensures
        match sp_emit_stm(s, env, c) {
            Emitted::EmitFail(er) => er is UndeclaredIdentifier,
            Emitted::Done(_) => true,
        },
    decreases s, 0int,
{
    match s {
        crate::ast::Stm::Assign { name, expression } => {
            lemma_emit_expr_err_shape(expression, env);
        },
        crate::ast::Stm::If { condition, then_statements, else_statements } => {
            let l_then = Lbl { kind: crate::codegen::LabelKind::IfThen, num: c + 1 };
            let l_else = Lbl { kind: crate::codegen::LabelKind::IfElse, num: c + 2 };
            lemma_emit_bool_err_shape(condition, l_then, l_else, env);
            lemma_emit_stms_err_shape(then_statements, 0, env, c + 3);
            match sp_emit_stms(then_statements, 0, env, c + 3) {
                Emitted::Done((_, c2)) => {
                    lemma_emit_stms_err_shape(else_statements, 0, env, c2);
                },
                Emitted::EmitFail(_) => {},
            }
        },
        crate::ast::Stm::While { condition, body } => {
            let l_body = Lbl { kind: crate::codegen::LabelKind::WhileBody, num: c + 2 };
            let l_end = Lbl { kind: crate::codegen::LabelKind::WhileEnd, num: c + 3 };
            lemma_emit_bool_err_shape(condition, l_body, l_end, env);
            lemma_emit_stms_err_shape(body, 0, env, c + 3);
        },
    }
}

/// Emission of statement lists fails only for an undeclared identifier.
proof fn lemma_emit_stms_err_shape(
    ss: Seq<crate::ast::Stm>,
    i: int,
    env: Map<Seq<char>, int>,
    c: int,
)
    ensures
        match sp_emit_stms(ss, i, env, c) {
            Emitted::EmitFail(er) => er is UndeclaredIdentifier,
            Emitted::Done(_) => true,
        },
    decreases ss, ss.len() - i,
{
    if 0 <= i < ss.len() {
        lemma_emit_stm_err_shape(ss[i], env, c);
        match sp_emit_stm(ss[i], env, c) {
            Emitted::Done((_, c1)) => {
                lemma_emit_stms_err_shape(ss, i + 1, env, c1);
            },
            Emitted::EmitFail(_) => {},
        }
    }
}

/// Code generation fails with `TooManyArguments` exactly when more than six
/// arguments are declared; no code is generated past the fixed register
/// bank, and no other input produces that error.
pub proof fn lemma_too_many_arguments(p: Prog)
    ensures
        p.arg_declarations.len() > 6 ==> sp_generate(p) == Emitted::<Seq<ALine>>::EmitFail(
            CgErr::TooManyArguments(p.arg_declarations.len() as int),
        ),
        (sp_generate(p) matches Emitted::EmitFail(er) && er is TooManyArguments)
            ==> p.arg_declarations.len() > 6,
{
    if p.arg_declarations.len() <= 6 {
        let env = slots_env(p);
        lemma_emit_stms_err_shape(p.statements, 0, env, 0);
    }
}

} // verus!
