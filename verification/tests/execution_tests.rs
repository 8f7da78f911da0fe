//! End-to-end checks: the emitted instructions are executed by a small
//! interpreter of the instruction set the generator uses — registers, the
//! expression stack, frame slots, flags and branches — and the function's
//! result is compared with what the source program means.

use rucomp::codegen::{generate_program_instrs, AsmLine, LabelId};
use rucomp::parser::Parser;
use rucomp::scanner::scan_source;
use std::collections::HashMap;

fn compile(src: &str) -> Vec<AsmLine> {
    let prog = Parser::new(scan_source(src)).parse_program().unwrap();
    generate_program_instrs(&prog).unwrap()
}

fn label_position(lines: &[AsmLine], target: &LabelId) -> usize {
    for (i, line) in lines.iter().enumerate() {
        if let AsmLine::Label(l) = line {
            if l == target {
                return i;
            }
        }
    }
    panic!("undefined label {:?}", target);
}

/// Executes the compiled function on the given argument values and returns
/// the value it leaves in the accumulator at `ret`.
fn run_function(lines: &[AsmLine], args: &[i64]) -> i64 {
    assert!(args.len() <= 6);
    let mut rax: i64 = 0;
    let mut rcx: i64 = 0;
    let mut flags: (i64, i64) = (0, 0);
    let mut slots: HashMap<u64, i64> = HashMap::new();
    let mut stack: Vec<i64> = Vec::new();
    let mut pc: usize = 0;
    let mut steps: u64 = 0;
    loop {
        steps += 1;
        assert!(steps < 1_000_000, "interpreter step limit exceeded");
        match &lines[pc] {
            AsmLine::SectionText
            | AsmLine::GlobalFoo
            | AsmLine::FooLabel
            | AsmLine::PushRbp
            | AsmLine::SetupFrame
            | AsmLine::AllocFrame(_)
            | AsmLine::FreeFrame(_)
            | AsmLine::PopRbp
            | AsmLine::Label(_) => {
                pc += 1;
            },
            AsmLine::StoreArg(i, off) => {
                slots.insert(*off, args[*i]);
                pc += 1;
            },
            AsmLine::LoadImm(text) => {
                rax = text.parse::<i64>().unwrap();
                pc += 1;
            },
            AsmLine::LoadSlot(off) => {
                rax = *slots.get(off).unwrap_or(&0);
                pc += 1;
            },
            AsmLine::StoreSlot(off) => {
                slots.insert(*off, rax);
                pc += 1;
            },
            AsmLine::PushAcc => {
                stack.push(rax);
                pc += 1;
            },
            AsmLine::PopScratch => {
                rcx = stack.pop().expect("pop from empty expression stack");
                pc += 1;
            },
            AsmLine::AddScratch => {
                rax = rax.wrapping_add(rcx);
                pc += 1;
            },
            AsmLine::MulScratch => {
                rax = rax.wrapping_mul(rcx);
                pc += 1;
            },
            AsmLine::SubFromScratch => {
                rcx = rcx.wrapping_sub(rax);
                pc += 1;
            },
            AsmLine::MovScratchAcc => {
                rax = rcx;
                pc += 1;
            },
            AsmLine::MovAccScratch => {
                rcx = rax;
                pc += 1;
            },
            AsmLine::CmpScratchAcc => {
                // cmpq %rax, %rcx compares the scratch (left operand)
                // against the accumulator (right operand).
                flags = (rcx, rax);
                pc += 1;
            },
            AsmLine::Branch(k, l) => {
                let (left, right) = flags;
                let taken = match k {
                    rucomp::codegen::CmpKind::CmpLt => left < right,
                    rucomp::codegen::CmpKind::CmpLe => left <= right,
                    rucomp::codegen::CmpKind::CmpGt => left > right,
                    rucomp::codegen::CmpKind::CmpGe => left >= right,
                    rucomp::codegen::CmpKind::CmpEq => left == right,
                };
                if taken {
                    pc = label_position(lines, l);
                } else {
                    pc += 1;
                }
            },
            AsmLine::Jump(l) => {
                pc = label_position(lines, l);
            },
            AsmLine::Ret => {
                return rax;
            },
        }
    }
}

#[test]
fn doubling_program_produces_ten_for_five() {
    let code = compile("args a; int b; b = a * 2; return b;");
    assert_eq!(run_function(&code, &[5]), 10);
}

#[test]
fn factorial_program_computes_factorials() {
    let code = compile("args n; int r; r = 1; while n > 0 then { r = r * n; n = n - 1; } return r;");
    assert_eq!(run_function(&code, &[5]), 120);
    assert_eq!(run_function(&code, &[0]), 1);
    assert_eq!(run_function(&code, &[1]), 1);
    assert_eq!(run_function(&code, &[10]), 3_628_800);
}

#[test]
fn branching_program_yields_one_above_ten() {
    let code = compile("args x; int y; if x > 10 then { y = 1; } else { y = 0; } return y;");
    assert_eq!(run_function(&code, &[11]), 1);
    assert_eq!(run_function(&code, &[10]), 0);
}

#[test]
fn subtraction_chain_evaluates_left_to_right() {
    // 10-3-2 computes (10-3)-2 = 5, not 10-(3-2) = 9.
    let code = compile("args z; int a; a = 10 - 3 - 2; return a;");
    assert_eq!(run_function(&code, &[0]), 5);
}

#[test]
fn addition_chain_evaluates_left_to_right() {
    let code = compile("args z; int a; a = 1 + 2 + 3; return a;");
    assert_eq!(run_function(&code, &[0]), 6);
}

#[test]
fn all_comparisons_branch_correctly() {
    let template = |op: &str| {
        format!("args a b; int y; if a {} b then {{ y = 1; }} else {{ y = 0; }} return y;", op)
    };
    let lt = compile(&template("<"));
    assert_eq!(run_function(&lt, &[1, 2]), 1);
    assert_eq!(run_function(&lt, &[2, 2]), 0);
    let le = compile(&template("<="));
    assert_eq!(run_function(&le, &[2, 2]), 1);
    assert_eq!(run_function(&le, &[3, 2]), 0);
    let gt = compile(&template(">"));
    assert_eq!(run_function(&gt, &[3, 2]), 1);
    assert_eq!(run_function(&gt, &[2, 2]), 0);
    let ge = compile(&template(">="));
    assert_eq!(run_function(&ge, &[2, 2]), 1);
    assert_eq!(run_function(&ge, &[1, 2]), 0);
    let eq = compile(&template("=="));
    assert_eq!(run_function(&eq, &[2, 2]), 1);
    assert_eq!(run_function(&eq, &[1, 2]), 0);
}

#[test]
fn boolean_literals_choose_the_branch() {
    let t = compile("args z; int y; if true then { y = 1; } else { y = 0; } return y;");
    assert_eq!(run_function(&t, &[0]), 1);
    let f = compile("args z; int y; if false then { y = 1; } else { y = 0; } return y;");
    assert_eq!(run_function(&f, &[0]), 0);
    let w = compile("args z; int y; y = 7; while false then { y = 0; } return y;");
    assert_eq!(run_function(&w, &[0]), 7);
}

#[test]
fn arguments_flow_through_their_registers() {
    let code = compile("args a b c d e f; int s; s = a + b + c + d + e + f; return s;");
    assert_eq!(run_function(&code, &[1, 2, 3, 4, 5, 6]), 21);
}

#[test]
fn nested_loops_run_to_completion() {
    let src = "args n; int acc, i, j; acc = 0; i = n; \
        while i > 0 then { j = i; while j > 0 then { acc = acc + 1; j = j - 1; } i = i - 1; } \
        return acc;";
    let code = compile(src);
    assert_eq!(run_function(&code, &[4]), 10);
}
