use kyanite::isa::A64;
use kyanite::registers::Registers;
use kyanite::translate::RelOp;

fn s(x: &str) -> String {
    x.to_string()
}

#[test]
fn a64_arithmetic_text() {
    assert_eq!(A64::add(s("x1"), s("x2")).to_text(), "        add x1, x1, x2");
    assert_eq!(A64::sub(s("x1"), s("x2")).to_text(), "        sub x1, x1, x2");
    assert_eq!(A64::mul(s("x3"), s("x4")).to_text(), "        mul x3, x3, x4");
    assert_eq!(A64::div(s("x3"), s("x4")).to_text(), "        sdiv x3, x3, x4");
}

#[test]
fn a64_memory_text() {
    assert_eq!(A64::load(s("x0"), s("x29"), -16).to_text(), "        ldr x0, [x29, #-16]");
    assert_eq!(A64::store(s("x0"), s("sp"), 8).to_text(), "        str x0, [sp, #8]");
    assert_eq!(
        A64::load_fragment(s("x0"), s("msg")).to_text(),
        "        adrp x0, msg@PAGE\n        add x0, x0, msg@PAGEOFF"
    );
    assert_eq!(A64::StorePair(s("x29"), s("x30")).to_text(), "        stp x29, x30, [sp, #-16]!");
    assert_eq!(A64::LoadPair(s("x29"), s("x30")).to_text(), "        ldp x29, x30, [sp], #16");
}

#[test]
fn a64_control_text() {
    assert_eq!(A64::create_label(s("main")).to_text(), "main:");
    assert_eq!(A64::create_jump(s("L1")).to_text(), "        b L1");
    assert_eq!(A64::conditional_jump(s("L2"), RelOp::Equal).to_text(), "        b.eq L2");
    assert_eq!(A64::conditional_jump(s("L2"), RelOp::GreaterEqual).to_text(), "        b.ge L2");
    assert_eq!(A64::call(s("printf")).to_text(), "        bl printf");
    assert_eq!(A64::BranchLink(s("f")).to_text(), "        bl f");
    assert_eq!(A64::compare(s("x1"), s("x2")).to_text(), "        cmp x1, x2");
    assert_eq!(A64::Ret.to_text(), "        ret");
    assert_eq!(A64::data_fragment(s("asciz"), s("\"hi\"")).to_text(), "        .asciz \"hi\"");
}

#[test]
fn a64_copy_int_is_an_immediate() {
    assert_eq!(A64::copy_int(s("x0"), 42).to_text(), "        mov x0, #42");
    assert_eq!(A64::copy_int(s("x0"), -7).to_text(), "        mov x0, #-7");
    assert_eq!(A64::copy(s("x0"), s("x1")).to_text(), "        mov x0, x1");
}

#[test]
fn a64_defines_and_uses() {
    let add = A64::add(s("T1"), s("T2"));
    assert_eq!(add.defines(), vec![s("T1")]);
    assert_eq!(add.uses(), vec![s("T1"), s("T2")]);
    let pair = A64::LoadPair(s("a"), s("b"));
    assert_eq!(pair.defines(), vec![s("a"), s("b")]);
    assert!(pair.uses().is_empty());
    let mv = A64::copy(s("T3"), s("T4"));
    assert_eq!(mv.defines(), vec![s("T3")]);
    assert_eq!(mv.uses(), vec![s("T4")]);
    assert!(A64::Ret.defines().is_empty());
    assert!(A64::Ret.uses().is_empty());
}

#[test]
fn a64_frame_pointer_is_not_a_use() {
    assert_eq!(A64::store(s("T1"), s("x29"), -8).uses(), vec![s("T1")]);
    assert_eq!(A64::store(s("T1"), s("T2"), -8).uses(), vec![s("T1"), s("T2")]);
    assert_eq!(A64::load(s("T1"), s("x29"), -8).uses(), vec![s("T1")]);
    assert_eq!(A64::load(s("T1"), s("T2"), 0).uses(), vec![s("T1"), s("T2")]);
    assert_eq!(A64::load(s("T1"), s("T2"), 0).defines(), vec![s("T1")]);
}

#[test]
fn a64_branches_and_labels() {
    assert!(A64::create_jump(s("L1")).jump());
    assert!(A64::BranchLink(s("f")).jump());
    assert!(!A64::call(s("f")).jump());
    assert_eq!(A64::create_jump(s("L1")).to(), Some(s("L1")));
    assert_eq!(A64::conditional_jump(s("L3"), RelOp::Less).to(), Some(s("L3")));
    assert_eq!(A64::call(s("f")).to(), None);
    assert_eq!(A64::create_label(s("L9")).label(), Some(s("L9")));
    assert_eq!(A64::Ret.label(), None);
}

#[test]
fn a64_format_substitutes_registers() {
    let registers = Registers::new(vec![(s("T1"), s("x9")), (s("T2"), s("x10")), (s("T1"), s("x11"))]);
    let add = A64::add(s("T1"), s("T2")).format(&registers);
    assert_eq!(add.to_text(), "        add x11, x11, x10");
    let store = A64::store(s("T2"), s("x29"), -8).format(&registers);
    assert_eq!(store.to_text(), "        str x10, [x29, #-8]");
    let unmapped = A64::copy(s("T7"), s("T2")).format(&registers);
    assert_eq!(unmapped.to_text(), "        mov T7, x10");
    let label = A64::create_label(s("T1")).format(&registers);
    assert_eq!(label.to_text(), "T1:");
}

#[test]
fn a64_format_keeps_the_frame_pointer() {
    let registers = Registers::new(vec![(s("x29"), s("x1"))]);
    let load = A64::load(s("x29"), s("x29"), 16).format(&registers);
    assert_eq!(load.to_text(), "        ldr x29, [x29, #16]");
}

#[test]
fn registers_last_assignment_wins() {
    let registers = Registers::new(vec![(s("a"), s("r1")), (s("b"), s("r2")), (s("a"), s("r3"))]);
    assert_eq!(registers.get("a"), "r3");
    assert_eq!(registers.get("b"), "r2");
    assert_eq!(registers.get("c"), "c");
}
