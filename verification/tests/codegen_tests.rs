use rucomp::codegen::{
    generate_program_instrs, generate_program_x86, AsmLine, CodegenError, X86Writer,
};
use rucomp::parser::Parser;
use rucomp::scanner::scan_source;

fn compile_instrs(src: &str) -> Result<Vec<AsmLine>, CodegenError> {
    let prog = Parser::new(scan_source(src)).parse_program().unwrap();
    generate_program_instrs(&prog)
}

fn compile_text(src: &str) -> Result<String, CodegenError> {
    let prog = Parser::new(scan_source(src)).parse_program().unwrap();
    generate_program_x86(&prog)
}

#[test]
fn writer_starts_empty() {
    let w = X86Writer::new();
    assert!(w.out.is_empty());
}

#[test]
fn frame_size_is_nonnegative_multiple_of_16() {
    // One name through nine names: the reserved frame always comes out as a
    // multiple of 16.
    let programs = [
        "args a; int b; b = a; return b;",
        "args a b; int c; c = a; return c;",
        "args a b c; int d, e; d = a; return d;",
        "args a; int b, c, d, e, f, g, h, i; b = a; return b;",
    ];
    for src in programs.iter() {
        let instrs = compile_instrs(src).unwrap();
        let mut found = false;
        for line in instrs.iter() {
            if let AsmLine::AllocFrame(n) = line {
                found = true;
                assert!(*n % 16 == 0, "frame {} not 16-aligned for {}", n, src);
                assert!(*n > 0);
            }
        }
        assert!(found, "no frame reservation for {}", src);
    }
}

#[test]
fn emits_expected_text_for_simple_program() {
    let text = compile_text("args a; int b; b = a * 2; return b;").unwrap();
    let expected = ".text\n.global foo\nfoo:\npushq %rbp\nmovq %rsp, %rbp\nsubq $16, %rsp\nmovq %rdi, -8(%rbp)\nmovq -8(%rbp), %rax\npushq %rax\nmovq $2, %rax\npopq %rcx\nimulq %rcx, %rax\nmovq %rax, -16(%rbp)\nmovq -16(%rbp), %rax\naddq $16, %rsp\npopq %rbp\nret\n";
    assert_eq!(text, expected);
}

#[test]
fn argument_registers_are_assigned_in_declaration_order() {
    let text = compile_text("args a b c d e f; int g; g = a; return g;").unwrap();
    assert!(text.contains("movq %rdi, -8(%rbp)\n"));
    assert!(text.contains("movq %rsi, -16(%rbp)\n"));
    assert!(text.contains("movq %rdx, -24(%rbp)\n"));
    assert!(text.contains("movq %rcx, -32(%rbp)\n"));
    assert!(text.contains("movq %r8, -40(%rbp)\n"));
    assert!(text.contains("movq %r9, -48(%rbp)\n"));
}

#[test]
fn seven_arguments_give_too_many_arguments() {
    let r = compile_instrs("args a b c d e f g; int h; h = a; return h;");
    assert_eq!(r.unwrap_err(), CodegenError::TooManyArguments { count: 7 });
}

#[test]
fn six_arguments_are_accepted() {
    assert!(compile_instrs("args a b c d e f; int g; g = f; return g;").is_ok());
}

#[test]
fn undeclared_identifier_in_expression_is_reported() {
    let r = compile_instrs("args a; int b; b = z; return b;");
    assert_eq!(r.unwrap_err(), CodegenError::UndeclaredIdentifier { name: "z".to_string() });
}

#[test]
fn undeclared_assignment_target_is_reported() {
    let r = compile_instrs("args a; int b; z = a; return b;");
    assert_eq!(r.unwrap_err(), CodegenError::UndeclaredIdentifier { name: "z".to_string() });
}

#[test]
fn undeclared_return_identifier_is_reported() {
    let r = compile_instrs("args a; int b; b = a; return z;");
    assert_eq!(r.unwrap_err(), CodegenError::UndeclaredIdentifier { name: "z".to_string() });
}

#[test]
fn sibling_ifs_and_nested_whiles_get_distinct_labels() {
    let src = "args x; int y; \
        if x > 1 then { y = 1; } else { y = 2; } \
        if x > 2 then { y = 3; } else { y = 4; } \
        while x > 0 then { while y > 0 then { y = y - 1; } x = x - 1; } \
        return y;";
    let instrs = compile_instrs(src).unwrap();
    let mut defs: Vec<(String, u64)> = Vec::new();
    for line in instrs.iter() {
        if let AsmLine::Label(l) = line {
            defs.push((format!("{:?}", l.kind), l.num));
        }
    }
    assert!(defs.len() >= 12, "expected at least twelve label definitions");
    for i in 0..defs.len() {
        for j in (i + 1)..defs.len() {
            assert_ne!(defs[i].1, defs[j].1, "duplicate label counter value");
            assert_ne!(defs[i], defs[j], "duplicate label emitted");
        }
    }
}

#[test]
fn duplicate_name_keeps_its_last_slot() {
    // A name declared as both argument and variable stores through the
    // variable's slot, the last one inserted.
    let text = compile_text("args a; int a; a = 3; return a;").unwrap();
    assert!(text.contains("movq %rax, -16(%rbp)\n"));
    assert!(text.contains("movq -16(%rbp), %rax\n"));
}

#[test]
fn number_literal_text_is_kept_verbatim() {
    // Immediates reproduce the scanned digit run exactly, however long.
    let text = compile_text("args a; int b; b = 007 + 99999999999999999999; return b;").unwrap();
    assert!(text.contains("movq $007, %rax\n"));
    assert!(text.contains("movq $99999999999999999999, %rax\n"));
}
