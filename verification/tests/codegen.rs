use kyanite::codegen::{AsmInstr, Codegen, FrameCode, Instr, Opcode, Target};
use kyanite::registers::Registers;
use kyanite::translate::{BinOp, Expr, RelOp, Stmt};

fn s(x: &str) -> String {
    x.to_string()
}

fn empty_codegen() -> Codegen {
    let functions: Vec<(usize, FrameCode)> = Vec::new();
    Codegen::new(functions, &[], Target::x86_64(), 0)
}

fn slot(offset: i64) -> Expr {
    Expr::Mem(Box::new(Expr::Binary {
        op: BinOp::Plus,
        left: Box::new(Expr::Temp(s("rbp"))),
        right: Box::new(Expr::ConstInt(offset)),
    }))
}

#[test]
fn asm_instr_text() {
    let mov = AsmInstr::new(Instr::oper(Opcode::Move, s("%rax"), s("$1"), None), 0);
    assert_eq!(mov.to_text(), "movq $1, %rax");
    let jmp = AsmInstr::new(Instr::oper(Opcode::Jump, String::new(), String::new(), Some(s("L1"))), 1);
    assert_eq!(jmp.to_text(), "jmp L1");
    assert!(jmp.jump());
    assert_eq!(jmp.to(), Some(s("L1")));
    let cj = AsmInstr::new(Instr::oper(Opcode::CJump(RelOp::LessEqual), String::new(), String::new(), Some(s("L2"))), 2);
    assert_eq!(cj.to_text(), "jle L2");
    assert!(!cj.jump());
    let call = AsmInstr::new(Instr::Call { name: s("printf") }, 3);
    assert_eq!(call.to_text(), "callq printf");
    assert_eq!(call.operands(), 0);
    assert_eq!(call.to(), None);
    let push = AsmInstr::new(Instr::oper(Opcode::Push, String::new(), s("%rbp"), None), 4);
    assert_eq!(push.to_text(), "pushq %rbp ");
    let label = AsmInstr::new(Instr::oper(Opcode::Label(s("L3")), String::new(), String::new(), None), 5);
    assert_eq!(label.label(), Some(s("L3")));
    assert_eq!(label.to_text(), "L3:  ");
}

#[test]
fn opcode_from_binop() {
    let mut out = String::new();
    Opcode::from_binop(BinOp::Mul).push_text(&mut out);
    assert_eq!(out, "imulq");
    let mut out = String::new();
    Opcode::from_binop(BinOp::Cmp(RelOp::Less)).push_text(&mut out);
    assert_eq!(out, "cmpq");
}

#[test]
fn codegen_constant_condition_compares_with_one() {
    let mut codegen = empty_codegen();
    codegen.assembly(vec![Stmt::CJump {
        op: BinOp::Cmp(RelOp::Equal),
        condition: Box::new(Expr::ConstInt(1)),
        t: s("L1"),
        f: s("L2"),
    }]);
    let text = codegen.format(&Registers::new(Vec::new()));
    assert_eq!(text, "movq $1, T0\nmovq $1, T1\ncmpq T1, T0\nje L1\n");
}

#[test]
fn codegen_comparison_condition_jumps() {
    let mut codegen = empty_codegen();
    codegen.assembly(vec![Stmt::CJump {
        op: BinOp::Cmp(RelOp::Less),
        condition: Box::new(Expr::Binary {
            op: BinOp::Cmp(RelOp::Less),
            left: Box::new(Expr::Temp(s("a"))),
            right: Box::new(Expr::Temp(s("b"))),
        }),
        t: s("L1"),
        f: s("L2"),
    }]);
    let text = codegen.format(&Registers::new(Vec::new()));
    assert_eq!(text, "cmpq b, a\njl L1\n");
}

#[test]
fn codegen_moves_between_memory_and_names() {
    let mut codegen = empty_codegen();
    codegen.assembly(vec![
        Stmt::Move { target: Box::new(Expr::Temp(s("a"))), expr: Box::new(slot(-16)) },
        Stmt::Move { target: Box::new(slot(-8)), expr: Box::new(Expr::Temp(s("b"))) },
        Stmt::Move {
            target: Box::new(Expr::Temp(s("c"))),
            expr: Box::new(Expr::Binary {
                op: BinOp::Plus,
                left: Box::new(Expr::Temp(s("rbp"))),
                right: Box::new(Expr::ConstInt(-24)),
            }),
        },
    ]);
    let text = codegen.format(&Registers::new(Vec::new()));
    assert_eq!(text, "movq -16(%rbp), T0\nmovq T0, a\nmovq b, -8(%rbp)\nmovq -24(%rbp), c\n");
}

#[test]
fn codegen_call_moves_arguments() {
    let mut codegen = empty_codegen();
    codegen.assembly(vec![Stmt::Expr(Box::new(Expr::Call(
        s("f"),
        vec![Expr::ConstInt(5), Expr::Temp(s("x"))],
    )))]);
    let text = codegen.format(&Registers::new(vec![(s("T0"), s("%r10"))]));
    assert_eq!(text, "movq $5, %r10\nmovq %r10, %rdi\nmovq x, %rsi\ncallq f\n");
}

#[test]
fn codegen_jump_to_label() {
    let mut codegen = empty_codegen();
    codegen.assembly(vec![Stmt::Sequence {
        left: Box::new(Stmt::Label(s("L4"))),
        right: Some(Box::new(Stmt::Jump(s("L4")))),
    }, Stmt::Noop]);
    let text = codegen.format(&Registers::new(Vec::new()));
    assert_eq!(text, "L4:  \njmp L4\n");
}
