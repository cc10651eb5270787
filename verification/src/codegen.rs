//! Instruction selection: the intermediate representation becomes x86-64 instructions over
//! temporaries, each function framed by its prologue and epilogue, and the instructions are
//! written as AT&T assembly text once registers are assigned.
use vstd::prelude::*;
use crate::translate::{
    RelOp, BinOp, Expr, Stmt, IExpr, IStmt, istmts, temp_name, bump, frame_register, Temp, Frame,
    FrameV, TState, Translator, t_decls, frames_view, accesses_view, records_view,
};
use crate::ast::{Decl, DeclV, view_decls};
use crate::token::token_text;
use crate::text::{signed_decimal, push_signed, str_equal};
use crate::registers::{Registers, register_of};

verus! {

// ----------------------------------------------------------------------
// Opcodes and instructions
// ----------------------------------------------------------------------

/// An x86-64 operation.
#[derive(Debug)]
pub enum Opcode {
    Move,
    Add,
    Sub,
    Mul,
    Div,
    Xor,
    Cmp(RelOp),
    Jump,
    CJump(RelOp),
    Label(String),
    Push,
    Pop,
    Ret,
}

/// The view of an operation.
pub enum OpcodeV {
    Move,
    Add,
    Sub,
    Mul,
    Div,
    Xor,
    Cmp(RelOp),
    Jump,
    CJump(RelOp),
    Label(Seq<char>),
    Push,
    Pop,
    Ret,
}

impl View for Opcode {
    type V = OpcodeV;

    open spec fn view(&self) -> OpcodeV {
        match self {
            Opcode::Move => OpcodeV::Move,
            Opcode::Add => OpcodeV::Add,
            Opcode::Sub => OpcodeV::Sub,
            Opcode::Mul => OpcodeV::Mul,
            Opcode::Div => OpcodeV::Div,
            Opcode::Xor => OpcodeV::Xor,
            Opcode::Cmp(r) => OpcodeV::Cmp(*r),
            Opcode::Jump => OpcodeV::Jump,
            Opcode::CJump(r) => OpcodeV::CJump(*r),
            Opcode::Label(l) => OpcodeV::Label(l@),
            Opcode::Push => OpcodeV::Push,
            Opcode::Pop => OpcodeV::Pop,
            Opcode::Ret => OpcodeV::Ret,
        }
    }
}

impl Clone for Opcode {
    fn clone(&self) -> (r: Self)
        ensures
            r == *self,
    {
        match self {
            Opcode::Move => Opcode::Move,
            Opcode::Add => Opcode::Add,
            Opcode::Sub => Opcode::Sub,
            Opcode::Mul => Opcode::Mul,
            Opcode::Div => Opcode::Div,
            Opcode::Xor => Opcode::Xor,
            Opcode::Cmp(r) => Opcode::Cmp(*r),
            Opcode::Jump => Opcode::Jump,
            Opcode::CJump(r) => Opcode::CJump(*r),
            Opcode::Label(l) => Opcode::Label(l.clone()),
            Opcode::Push => Opcode::Push,
            Opcode::Pop => Opcode::Pop,
            Opcode::Ret => Opcode::Ret,
        }
    }
}

/// The operation that computes a binary operation.
pub open spec fn opcode_of(op: BinOp) -> OpcodeV {
    match op {
        BinOp::Plus => OpcodeV::Add,
        BinOp::Minus => OpcodeV::Sub,
        BinOp::Mul => OpcodeV::Mul,
        BinOp::Div => OpcodeV::Div,
        BinOp::Xor => OpcodeV::Xor,
        BinOp::Cmp(r) => OpcodeV::Cmp(r),
    }
}

/// The comparison of a comparing operation.
pub open spec fn rel_of(op: BinOp) -> Option<RelOp> {
    match op {
        BinOp::Cmp(r) => Some(r),
        _ => None,
    }
}

/// The mnemonic of a conditional jump.
pub open spec fn jump_mnemonic(rel: RelOp) -> Seq<char> {
    match rel {
        RelOp::Equal => "je"@,
        RelOp::NotEqual => "jne"@,
        RelOp::Less => "jl"@,
        RelOp::Greater => "jg"@,
        RelOp::LessEqual => "jle"@,
        RelOp::GreaterEqual => "jge"@,
    }
}

/// The text of an operation: its mnemonic, or for a label its name and a colon.
pub open spec fn opcode_text(o: OpcodeV) -> Seq<char> {
    match o {
        OpcodeV::Move => "movq"@,
        OpcodeV::Add => "addq"@,
        OpcodeV::Sub => "subq"@,
        OpcodeV::Mul => "imulq"@,
        OpcodeV::Div => "idivq"@,
        OpcodeV::Xor => "xorq"@,
        OpcodeV::Cmp(_) => "cmpq"@,
        OpcodeV::Jump => "jmp"@,
        OpcodeV::CJump(rel) => jump_mnemonic(rel),
        OpcodeV::Label(name) => name + ":"@,
        OpcodeV::Push => "pushq"@,
        OpcodeV::Pop => "popq"@,
        OpcodeV::Ret => "ret"@,
    }
}

/// How many operands an operation is written with.
pub open spec fn operand_count(o: OpcodeV) -> nat {
    match o {
        OpcodeV::Jump | OpcodeV::CJump(_) | OpcodeV::Push | OpcodeV::Ret | OpcodeV::Pop => 1,
        OpcodeV::Label(_) => 0,
        _ => 2,
    }
}

impl Opcode {
    /// The operation that computes a binary operation.
    pub fn from_binop(op: BinOp) -> (r: Opcode)
        ensures
            r@ == opcode_of(op),
    {
        match op {
            BinOp::Plus => Opcode::Add,
            BinOp::Minus => Opcode::Sub,
            BinOp::Mul => Opcode::Mul,
            BinOp::Div => Opcode::Div,
            BinOp::Xor => Opcode::Xor,
            BinOp::Cmp(r) => Opcode::Cmp(r),
        }
    }

    /// Appends the text of the operation.
    pub fn push_text(&self, out: &mut String)
        ensures
            final(out)@ == old(out)@ + opcode_text(self@),
    {
        match self {
            Opcode::Move => out.append("movq"),
            Opcode::Add => out.append("addq"),
            Opcode::Sub => out.append("subq"),
            Opcode::Mul => out.append("imulq"),
            Opcode::Div => out.append("idivq"),
            Opcode::Xor => out.append("xorq"),
            Opcode::Cmp(_) => out.append("cmpq"),
            Opcode::Jump => out.append("jmp"),
            Opcode::CJump(rel) => match rel {
                RelOp::Equal => out.append("je"),
                RelOp::NotEqual => out.append("jne"),
                RelOp::Less => out.append("jl"),
                RelOp::Greater => out.append("jg"),
                RelOp::LessEqual => out.append("jle"),
                RelOp::GreaterEqual => out.append("jge"),
            },
            Opcode::Label(name) => {
                out.append(name.as_str());
                out.append(":");
            },
            Opcode::Push => out.append("pushq"),
            Opcode::Pop => out.append("popq"),
            Opcode::Ret => out.append("ret"),
        }
    }
}

/// An instruction over temporaries: an operation with its destination, source and jump
/// target, or a call.
#[derive(Debug)]
pub enum Instr {
    Oper { opcode: Opcode, dst: String, src: String, jump: Option<String> },
    Call { name: String },
}

/// The view of an instruction.
pub enum InstrV {
    Oper { opcode: OpcodeV, dst: Seq<char>, src: Seq<char>, jump: Option<Seq<char>> },
    Call { name: Seq<char> },
}

/// The view of an optional name.
pub open spec fn opt_view(o: Option<String>) -> Option<Seq<char>> {
    match o {
        Some(s) => Some(s@),
        None => None,
    }
}

impl View for Instr {
    type V = InstrV;

    open spec fn view(&self) -> InstrV {
        match self {
            Instr::Oper { opcode, dst, src, jump } => InstrV::Oper {
                opcode: opcode@,
                dst: dst@,
                src: src@,
                jump: opt_view(*jump),
            },
            Instr::Call { name } => InstrV::Call { name: name@ },
        }
    }
}

impl Clone for Instr {
    fn clone(&self) -> (r: Self)
        ensures
            r == *self,
    {
        match self {
            Instr::Oper { opcode, dst, src, jump } => Instr::Oper {
                opcode: opcode.clone(),
                dst: dst.clone(),
                src: src.clone(),
                jump: match jump {
                    Some(j) => Some(j.clone()),
                    None => None,
                },
            },
            Instr::Call { name } => Instr::Call { name: name.clone() },
        }
    }
}

/// An operation instruction.
pub open spec fn oper(opcode: OpcodeV, dst: Seq<char>, src: Seq<char>, jump: Option<Seq<char>>) -> InstrV {
    InstrV::Oper { opcode, dst, src, jump }
}

/// Whether an instruction can be written: every jump names its target.
pub open spec fn instr_wf(i: InstrV) -> bool {
    match i {
        InstrV::Oper { opcode, jump, .. } => (opcode is Jump || opcode is CJump) ==> jump is Some,
        InstrV::Call { .. } => true,
    }
}

/// The text of an instruction: a jump and its target; another operation, its source and
/// destination (separated by a comma when it takes two operands); a call of a function.
pub open spec fn instr_text(i: InstrV) -> Seq<char> {
    match i {
        InstrV::Oper { opcode, dst, src, jump } => if opcode is Jump || opcode is CJump {
            opcode_text(opcode) + " "@ + jump->0
        } else {
            opcode_text(opcode) + " "@ + src + (if operand_count(opcode) == 2 {
                ","@
            } else {
                Seq::empty()
            }) + " "@ + dst
        },
        InstrV::Call { name } => "callq "@ + name,
    }
}

impl Instr {
    /// An operation instruction.
    pub fn oper(opcode: Opcode, dst: String, src: String, jump: Option<String>) -> (r: Instr)
        ensures
            r@ == oper(opcode@, dst@, src@, opt_view(jump)),
    {
        Instr::Oper { opcode, dst, src, jump }
    }
}

/// An instruction with the number that orders it among all instructions emitted.
#[derive(Debug)]
pub struct AsmInstr {
    inner: Instr,
    id: usize,
}

/// The view of a numbered instruction.
pub struct AsmInstrV {
    pub inner: InstrV,
    pub id: usize,
}

impl View for AsmInstr {
    type V = AsmInstrV;

    closed spec fn view(&self) -> AsmInstrV {
        AsmInstrV { inner: self.inner@, id: self.id }
    }
}

/// The label a jump goes to.
pub open spec fn jump_target(i: InstrV) -> Option<Seq<char>> {
    match i {
        InstrV::Oper { jump, .. } => jump,
        InstrV::Call { .. } => None,
    }
}

/// The name an instruction labels.
pub open spec fn labelled_name(i: InstrV) -> Option<Seq<char>> {
    match i {
        InstrV::Oper { opcode: OpcodeV::Label(l), .. } => Some(l),
        _ => None,
    }
}

/// How many operands an instruction is written with.
pub open spec fn operands_of(i: InstrV) -> nat {
    match i {
        InstrV::Oper { opcode, .. } => operand_count(opcode),
        InstrV::Call { .. } => 0,
    }
}

fn push(out: &mut String, s: &String)
    ensures
        final(out)@ == old(out)@ + s@,
{
    out.append(s.as_str());
}

impl AsmInstr {
    /// The instruction numbered `id`.
    pub fn new(instr: Instr, id: usize) -> (r: AsmInstr)
        ensures
            r@ == (AsmInstrV { inner: instr@, id }),
    {
        AsmInstr { inner: instr, id }
    }

    /// The instruction.
    pub fn inner(&self) -> (r: &Instr)
        ensures
            r@ == self@.inner,
    {
        &self.inner
    }

    /// The instruction's number.
    pub fn id(&self) -> (r: usize)
        ensures
            r == self@.id,
    {
        self.id
    }

    /// How many operands the instruction is written with.
    pub fn operands(&self) -> (r: usize)
        ensures
            r == operands_of(self@.inner),
    {
        match &self.inner {
            Instr::Oper { opcode, .. } => match opcode {
                Opcode::Jump | Opcode::CJump(_) | Opcode::Push | Opcode::Ret | Opcode::Pop => 1,
                Opcode::Label(_) => 0,
                _ => 2,
            },
            Instr::Call { .. } => 0,
        }
    }

    /// The label the instruction jumps to.
    pub fn to(&self) -> (r: Option<String>)
        ensures
            opt_view(r) == jump_target(self@.inner),
    {
        match &self.inner {
            Instr::Oper { jump, .. } => match jump {
                Some(j) => Some(j.clone()),
                None => None,
            },
            Instr::Call { .. } => None,
        }
    }

    /// Whether the instruction is an unconditional jump.
    pub fn jump(&self) -> (r: bool)
        ensures
            r == (self@.inner matches InstrV::Oper { opcode: OpcodeV::Jump, .. }),
    {
        matches!(self.inner, Instr::Oper { opcode: Opcode::Jump, .. })
    }

    /// The name the instruction labels.
    pub fn label(&self) -> (r: Option<String>)
        ensures
            opt_view(r) == labelled_name(self@.inner),
    {
        match &self.inner {
            Instr::Oper { opcode: Opcode::Label(label), .. } => Some(label.clone()),
            _ => None,
        }
    }

    /// The text of the instruction.
    pub fn to_text(&self) -> (r: String)
        requires
            instr_wf(self@.inner),
        ensures
            r@ == instr_text(self@.inner),
    {
        let mut out = String::new();
        match &self.inner {
            Instr::Oper { opcode, dst, src, jump } => {
                opcode.push_text(&mut out);
                out.append(" ");
                match opcode {
                    Opcode::Jump | Opcode::CJump(_) => {
                        match jump {
                            Some(j) => push(&mut out, j),
                            None => vstd::pervasive::unreached(),
                        }
                    },
                    _ => {
                        push(&mut out, src);
                        if self.operands() == 2 {
                            out.append(",");
                        }
                        out.append(" ");
                        push(&mut out, dst);
                    },
                }
            },
            Instr::Call { name } => {
                out.append("callq ");
                push(&mut out, name);
            },
        }
        out
    }
}


// ----------------------------------------------------------------------
// Targets and frames
// ----------------------------------------------------------------------

/// The calling convention of a target: the registers that carry arguments, in order, and
/// the register that holds a function's result.
pub struct Target {
    pub arguments: Vec<String>,
    pub ret: String,
}

/// The instructions that open and close a function's frame.
pub struct FrameCode {
    pub prologue: Vec<Instr>,
    pub epilogue: Vec<Instr>,
}

/// The view of a list of instructions.
pub open spec fn instrs_view(s: Seq<Instr>) -> Seq<InstrV> {
    s.map_values(|i: Instr| i@)
}

/// The view of the instructions that open and close a frame.
pub struct FrameCodeV {
    pub prologue: Seq<InstrV>,
    pub epilogue: Seq<InstrV>,
}

impl View for FrameCode {
    type V = FrameCodeV;

    open spec fn view(&self) -> FrameCodeV {
        FrameCodeV { prologue: instrs_view(self.prologue@), epilogue: instrs_view(self.epilogue@) }
    }
}

/// The view of a list of names.
pub open spec fn names_view(s: Seq<String>) -> Seq<Seq<char>> {
    s.map_values(|n: String| n@)
}

/// The view of the frame code of each function.
pub open spec fn frame_codes_view(s: Seq<(usize, FrameCode)>) -> Seq<(usize, FrameCodeV)> {
    s.map_values(|p: (usize, FrameCode)| (p.0, p.1@))
}

/// The view of a list of (name, function) pairs.
pub open spec fn idents_view(s: Seq<(String, usize)>) -> Seq<(Seq<char>, usize)> {
    s.map_values(|p: (String, usize)| (p.0@, p.1))
}

/// The view of a list of numbered instructions.
pub open spec fn asm_view(s: Seq<AsmInstr>) -> Seq<AsmInstrV> {
    s.map_values(|a: AsmInstr| a@)
}

/// Whether every instruction of a list can be written.
pub open spec fn all_wf(s: Seq<InstrV>) -> bool {
    forall|i: int| 0 <= i < s.len() ==> instr_wf(#[trigger] s[i])
}

/// Whether every numbered instruction can be written.
pub open spec fn asm_wf(s: Seq<AsmInstrV>) -> bool {
    forall|i: int| 0 <= i < s.len() ==> instr_wf(#[trigger] s[i].inner)
}

/// Whether every prologue and epilogue instruction can be written.
pub open spec fn frames_wf(fs: Seq<(usize, FrameCodeV)>) -> bool {
    forall|i: int| 0 <= i < fs.len() ==> all_wf(#[trigger] fs[i].1.prologue) && all_wf(fs[i].1.epilogue)
}

/// The frame code of function `id`: that of its last entry.
pub open spec fn frame_of(fs: Seq<(usize, FrameCodeV)>, id: usize) -> Option<FrameCodeV>
    decreases fs.len(),
{
    if fs.len() == 0 {
        None
    } else if fs.last().0 == id {
        Some(fs.last().1)
    } else {
        frame_of(fs.drop_last(), id)
    }
}

/// The position of the last entry for `name`.
pub open spec fn ident_index(s: Seq<(Seq<char>, usize)>, name: Seq<char>) -> Option<int>
    decreases s.len(),
{
    if s.len() == 0 {
        None
    } else if s.last().0 == name {
        Some(s.len() - 1)
    } else {
        ident_index(s.drop_last(), name)
    }
}

/// The position of the last entry for `name` is a position of the list, and that entry is
/// for `name`.
pub proof fn lemma_ident_index(s: Seq<(Seq<char>, usize)>, name: Seq<char>)
    ensures
        ident_index(s, name) matches Some(i) ==> 0 <= i < s.len() && s[i].0 == name,
    decreases s.len(),
{
    if s.len() > 0 && s.last().0 != name {
        lemma_ident_index(s.drop_last(), name);
    }
}

/// The function called `name`.
pub open spec fn ident_of(s: Seq<(Seq<char>, usize)>, name: Seq<char>) -> Option<usize> {
    match ident_index(s, name) {
        Some(i) => Some(s[i].1),
        None => None,
    }
}

/// The identifiers with `name` standing for function `id`: its entry is replaced where it
/// has one, and added last where it has none.
pub open spec fn insert_ident(s: Seq<(Seq<char>, usize)>, name: Seq<char>, id: usize) -> Seq<(Seq<char>, usize)> {
    match ident_index(s, name) {
        Some(i) => s.update(i, (name, id)),
        None => s.push((name, id)),
    }
}

/// The functions a list of declarations declares, each name with the last function of that
/// name, in the order the names first occur.
pub open spec fn function_idents(ds: Seq<DeclV>) -> Seq<(Seq<char>, usize)>
    decreases ds.len(),
{
    if ds.len() == 0 {
        Seq::empty()
    } else {
        let rest = function_idents(ds.drop_last());
        match ds.last() {
            DeclV::Function(f) => insert_ident(rest, token_text(f.name), f.id),
            _ => rest,
        }
    }
}

// ----------------------------------------------------------------------
// Instruction selection
// ----------------------------------------------------------------------

/// The state of instruction selection: the instructions emitted so far, the frame code of
/// each function, the functions being assembled (innermost last), the function of each
/// name, the functions known to make calls, the calling convention, and the next numbers
/// for temporaries and instructions.
pub struct GState {
    pub listing: Seq<AsmInstrV>,
    pub functions: Seq<(usize, FrameCodeV)>,
    pub stack: Seq<usize>,
    pub idents: Seq<(Seq<char>, usize)>,
    pub callers: Seq<usize>,
    pub arguments: Seq<Seq<char>>,
    pub ret: Seq<char>,
    pub temps: usize,
    pub ids: usize,
}

/// The state after emitting `i`.
pub open spec fn g_emit(gs: GState, i: InstrV) -> GState {
    GState { listing: gs.listing.push(AsmInstrV { inner: i, id: gs.ids }), ids: bump(gs.ids), ..gs }
}

/// The state after emitting `is`, in order.
pub open spec fn g_emit_all(gs: GState, is: Seq<InstrV>) -> GState
    decreases is.len(),
{
    if is.len() == 0 {
        gs
    } else {
        g_emit(g_emit_all(gs, is.drop_last()), is.last())
    }
}

/// A fresh temporary.
pub open spec fn g_fresh(gs: GState) -> (GState, Seq<char>) {
    (GState { temps: bump(gs.temps), ..gs }, temp_name(gs.temps as nat))
}

/// The memory operand at `offset` from `base`.
pub open spec fn mem_text(base: Seq<char>, offset: i64) -> Seq<char> {
    signed_decimal(offset as int) + "(%"@ + base + ")"@
}

/// The base and offset of an address `base + offset`.
pub open spec fn binary_access(e: IExpr) -> Option<(Seq<char>, i64)> {
    match e {
        IExpr::Binary { left, right, .. } => match *left {
            IExpr::Temp(t) => match *right {
                IExpr::ConstInt(i) => Some((t, i)),
                _ => None,
            },
            _ => None,
        },
        _ => None,
    }
}

/// The base and offset of a memory word, or of its address.
pub open spec fn access_of(e: IExpr) -> Option<(Seq<char>, i64)> {
    match e {
        IExpr::Mem(m) => binary_access(*m),
        IExpr::Binary { .. } => binary_access(e),
        _ => None,
    }
}

/// Records that the innermost function being assembled makes a call.
pub open spec fn note_call(gs: GState) -> GState {
    if gs.stack.len() > 0 && !gs.callers.contains(gs.stack.last()) {
        GState { callers: gs.callers.push(gs.stack.last()), ..gs }
    } else {
        gs
    }
}

/// The moves of argument values into the argument registers.
pub open spec fn arg_moves(registers: Seq<Seq<char>>, values: Seq<Seq<char>>) -> Seq<InstrV> {
    Seq::new(values.len(), |i: int| oper(OpcodeV::Move, registers[i], values[i], None))
}

/// The instructions that compute an expression and the name that holds its value, or `None`
/// where selection is not defined (a floating-point constant, a statement-expression, a
/// memory word whose address is not a name plus a constant, a call with more arguments
/// than argument registers). A value read from memory is moved from the memory operand when
/// `swap` holds and to it otherwise.
pub open spec fn g_expr(gs: GState, e: IExpr, swap: bool) -> Option<(GState, Seq<char>)>
    decreases e,
{
    match e {
        IExpr::Binary { op, left, right } => match g_expr(gs, *right, false) {
            None => None,
            Some((g1, r)) => match g_expr(g1, *left, true) {
                None => None,
                Some((g2, l)) => Some((g_emit(g2, oper(opcode_of(op), l, r, None)), l)),
            },
        },
        IExpr::ConstInt(i) => {
            let (g1, name) = g_fresh(gs);
            Some((g_emit(g1, oper(OpcodeV::Move, name, "$"@ + signed_decimal(i as int), None)), name))
        },
        IExpr::Mem(inner) => {
            let (g1, name) = g_fresh(gs);
            match access_of(*inner) {
                None => None,
                Some((base, offset)) => if swap {
                    Some((g_emit(g1, oper(OpcodeV::Move, name, mem_text(base, offset), None)), name))
                } else {
                    Some((g_emit(g1, oper(OpcodeV::Move, mem_text(base, offset), name, None)), name))
                },
            }
        },
        IExpr::Call(name, args) => match g_args(note_call(gs), args) {
            None => None,
            Some((g1, values)) => if values.len() <= gs.arguments.len() {
                Some((
                    g_emit(g_emit_all(g1, arg_moves(gs.arguments, values)), InstrV::Call { name }),
                    "%"@ + gs.ret,
                ))
            } else {
                None
            },
        },
        IExpr::Temp(t) => Some((gs, t)),
        IExpr::ConstFloat(_) => None,
        IExpr::ESeq { .. } => None,
    }
}

/// The instructions that compute arguments, left to right, and the names of their values.
pub open spec fn g_args(gs: GState, args: Seq<IExpr>) -> Option<(GState, Seq<Seq<char>>)>
    decreases args,
{
    if args.len() == 0 {
        Some((gs, Seq::empty()))
    } else {
        match g_expr(gs, args[0], true) {
            None => None,
            Some((g1, v)) => match g_args(g1, args.drop_first()) {
                None => None,
                Some((g2, vs)) => Some((g2, seq![v] + vs)),
            },
        }
    }
}

/// Whether `e` is an address `base + offset` whose base is the frame register.
pub open spec fn frame_based(e: IExpr) -> bool {
    match e {
        IExpr::Binary { left, .. } => match *left {
            IExpr::Temp(t) => t == frame_register(),
            _ => false,
        },
        _ => false,
    }
}

/// The instructions of a move. An address in the frame is moved into its target name
/// directly; a memory word is first read into a fresh temporary; the destination is a
/// memory operand for a memory or address target and the target's name otherwise.
pub open spec fn g_move(gs: GState, target: IExpr, expr: IExpr) -> Option<GState> {
    if frame_based(expr) {
        match (binary_access(expr), target) {
            (Some((base, offset)), IExpr::Temp(t)) => Some(
                g_emit(gs, oper(OpcodeV::Move, t, mem_text(base, offset), None)),
            ),
            _ => None,
        }
    } else {
        let src = match expr {
            IExpr::Mem(_) => {
                let (g1, temp) = g_fresh(gs);
                match access_of(expr) {
                    None => None,
                    Some((base, offset)) => Some(
                        (g_emit(g1, oper(OpcodeV::Move, temp, mem_text(base, offset), None)), temp),
                    ),
                }
            },
            _ => g_expr(gs, expr, false),
        };
        match src {
            None => None,
            Some((g1, s)) => {
                let dst = match target {
                    IExpr::Mem(_) | IExpr::Binary { .. } => match access_of(target) {
                        Some((base, offset)) => Some(mem_text(base, offset)),
                        None => None,
                    },
                    IExpr::Temp(t) => Some(t),
                    _ => None,
                };
                match dst {
                    None => None,
                    Some(d) => Some(g_emit(g1, oper(OpcodeV::Move, d, s, None))),
                }
            },
        }
    }
}

/// Whether `s` ends with `suffix`.
pub open spec fn ends_with(s: Seq<char>, suffix: Seq<char>) -> bool {
    suffix.len() <= s.len() && s.subrange(s.len() - suffix.len(), s.len() as int) == suffix
}

/// The instructions of a statement, or `None` where selection is not defined: where an
/// expression's is not, a label of a function without frame code, a move whose target is
/// neither a name nor a memory operand, a conditional jump whose operation is no comparison.
/// A jump to an epilogue leaves the innermost function; a function's label enters it and is
/// followed by its prologue.
pub open spec fn g_stmt(gs: GState, s: IStmt) -> Option<GState>
    decreases s,
{
    match s {
        IStmt::Jump(target) => {
            let g1 = if ends_with(target, "epilogue"@) && gs.stack.len() > 0 {
                GState { stack: gs.stack.drop_last(), ..gs }
            } else {
                gs
            };
            Some(g_emit(g1, oper(OpcodeV::Jump, Seq::empty(), Seq::empty(), Some(target))))
        },
        IStmt::Label(name) => {
            let g1 = g_emit(gs, oper(OpcodeV::Label(name), Seq::empty(), Seq::empty(), None));
            match ident_of(gs.idents, name) {
                None => Some(g1),
                Some(id) => match frame_of(gs.functions, id) {
                    None => None,
                    Some(f) => Some(g_emit_all(GState { stack: g1.stack.push(id), ..g1 }, f.prologue)),
                },
            }
        },
        IStmt::Move { target, expr } => g_move(gs, *target, *expr),
        IStmt::CJump { op, condition, t, .. } => match g_expr(gs, *condition, false) {
            None => None,
            Some((g1, tmp)) => match rel_of(op) {
                None => None,
                Some(rel) => if *condition is ConstInt {
                    let (g2, one) = g_fresh(g1);
                    let g3 = g_emit(g2, oper(OpcodeV::Move, one, "$1"@, None));
                    let g4 = g_emit(g3, oper(OpcodeV::Cmp(RelOp::Equal), tmp, one, None));
                    Some(g_emit(g4, oper(OpcodeV::CJump(rel), Seq::empty(), Seq::empty(), Some(t))))
                } else {
                    Some(g_emit(g1, oper(OpcodeV::CJump(rel), Seq::empty(), Seq::empty(), Some(t))))
                },
            },
        },
        IStmt::Sequence { left, right } => match g_stmt(gs, *left) {
            None => None,
            Some(g1) => match right {
                None => Some(g1),
                Some(r) => g_stmt(g1, *r),
            },
        },
        IStmt::Expr(e) => match g_expr(gs, *e, false) {
            None => None,
            Some((g1, _)) => Some(g1),
        },
        IStmt::Noop => Some(gs),
    }
}

/// The instructions of statements, in order.
pub open spec fn g_stmts(gs: GState, ss: Seq<IStmt>) -> Option<GState>
    decreases ss.len(),
{
    if ss.len() == 0 {
        Some(gs)
    } else {
        match g_stmt(gs, ss[0]) {
            None => None,
            Some(g1) => g_stmts(g1, ss.drop_first()),
        }
    }
}

/// The epilogues of the named functions, in order: each one's label (its name followed by
/// `.epilogue`) and its epilogue instructions.
pub open spec fn g_epilogues(gs: GState, idents: Seq<(Seq<char>, usize)>) -> Option<GState>
    decreases idents.len(),
{
    if idents.len() == 0 {
        Some(gs)
    } else {
        match frame_of(gs.functions, idents[0].1) {
            None => None,
            Some(f) => g_epilogues(
                g_emit_all(
                    g_emit(gs, oper(OpcodeV::Label(idents[0].0 + ".epilogue"@), Seq::empty(), Seq::empty(), None)),
                    f.epilogue,
                ),
                idents.drop_first(),
            ),
        }
    }
}

/// The instructions of a whole program: its statements, then the epilogue of each function.
pub open spec fn g_assembly(gs: GState, ir: Seq<IStmt>) -> Option<GState> {
    match g_stmts(gs, ir) {
        None => None,
        Some(g1) => g_epilogues(g1, g1.idents),
    }
}

/// An instruction with its temporaries replaced by their registers.
pub open spec fn allocate_instr(i: InstrV, registers: Seq<(Seq<char>, Seq<char>)>) -> InstrV {
    match i {
        InstrV::Oper { opcode, dst, src, jump } => InstrV::Oper {
            opcode,
            dst: register_of(registers, dst),
            src: register_of(registers, src),
            jump,
        },
        InstrV::Call { .. } => i,
    }
}

/// The assembly text of instructions: each one with its registers, on a line of its own.
pub open spec fn formatted(listing: Seq<AsmInstrV>, registers: Seq<(Seq<char>, Seq<char>)>) -> Seq<char>
    decreases listing.len(),
{
    if listing.len() == 0 {
        Seq::empty()
    } else {
        formatted(listing.drop_last(), registers) + instr_text(allocate_instr(listing.last().inner, registers))
            + "\n"@
    }
}

/// What every step of instruction selection keeps: the frame code, the names, the calling
/// convention, and that every instruction emitted can be written.
pub open spec fn keeps(a: GState, b: GState) -> bool {
    &&& same_context(a, b)
    &&& grows(a, b)
    &&& (asm_wf(a.listing) && frames_wf(a.functions) ==> asm_wf(b.listing))
}

/// Whether the instructions are numbered by their positions, and the next number is their
/// count.
pub open spec fn numbered(gs: GState) -> bool {
    &&& gs.ids == gs.listing.len()
    &&& forall|k: int| 0 <= k < gs.listing.len() ==> (#[trigger] gs.listing[k]).id == k
}

/// Whether `b` holds the instructions of `a` followed by more, and keeps them numbered by their
/// positions while their count stays below the largest machine number.
pub open spec fn grows(a: GState, b: GState) -> bool {
    &&& a.listing.len() <= b.listing.len()
    &&& forall|k: int| 0 <= k < a.listing.len() ==> #[trigger] b.listing[k] == a.listing[k]
    &&& (numbered(a) && b.listing.len() < usize::MAX ==> numbered(b))
}

/// Whether two states have the same frame code, names and calling convention.
pub open spec fn same_context(a: GState, b: GState) -> bool {
    &&& b.functions == a.functions
    &&& b.idents == a.idents
    &&& b.arguments == a.arguments
    &&& b.ret == a.ret
}

proof fn lemma_emit_keeps(gs: GState, i: InstrV)
    ensures
        same_context(gs, g_emit(gs, i)),
        grows(gs, g_emit(gs, i)),
        instr_wf(i) ==> keeps(gs, g_emit(gs, i)),
{
    let g = g_emit(gs, i);
    if numbered(gs) && g.listing.len() < usize::MAX {
        assert forall|k: int| 0 <= k < g.listing.len() implies (#[trigger] g.listing[k]).id == k by {
            if k < gs.listing.len() {
                assert(g.listing[k] == gs.listing[k]);
            }
        }
    }
    assert forall|k: int| 0 <= k < g.listing.len() && asm_wf(gs.listing) && instr_wf(i) implies instr_wf(#[trigger] g.listing[k].inner) by {
        if k < gs.listing.len() {
            assert(g.listing[k] == gs.listing[k]);
        }
    }
}

proof fn lemma_emit_all_keeps(gs: GState, is: Seq<InstrV>)
    ensures
        same_context(gs, g_emit_all(gs, is)),
        grows(gs, g_emit_all(gs, is)),
        all_wf(is) ==> keeps(gs, g_emit_all(gs, is)),
    decreases is.len(),
{
    if is.len() > 0 {
        lemma_emit_all_keeps(gs, is.drop_last());
        lemma_emit_keeps(g_emit_all(gs, is.drop_last()), is.last());
        if all_wf(is) {
            assert(all_wf(is.drop_last())) by {
                assert forall|k: int| 0 <= k < is.drop_last().len() implies instr_wf(#[trigger] is.drop_last()[k]) by {
                    assert(is.drop_last()[k] == is[k]);
                }
            }
            assert(instr_wf(is[is.len() - 1]));
            lemma_emit_keeps(g_emit_all(gs, is.drop_last()), is.last());
        }
    }
}

/// The frame code of a function is one of the entries.
proof fn lemma_frame_of_wf(fs: Seq<(usize, FrameCodeV)>, id: usize)
    requires
        frames_wf(fs),
    ensures
        frame_of(fs, id) matches Some(f) ==> all_wf(f.prologue) && all_wf(f.epilogue),
    decreases fs.len(),
{
    if fs.len() > 0 {
        assert(all_wf(fs[fs.len() - 1].1.prologue));
        if fs.last().0 != id {
            assert(frames_wf(fs.drop_last())) by {
                assert forall|k: int| 0 <= k < fs.drop_last().len() implies all_wf(#[trigger] fs.drop_last()[k].1.prologue) && all_wf(fs.drop_last()[k].1.epilogue) by {
                    assert(fs.drop_last()[k] == fs[k]);
                }
            }
            lemma_frame_of_wf(fs.drop_last(), id);
        }
    }
}

proof fn lemma_moves_wf(registers: Seq<Seq<char>>, values: Seq<Seq<char>>)
    ensures
        all_wf(arg_moves(registers, values)),
{
}

/// Selecting an expression keeps the context and well-formedness.
pub proof fn lemma_expr_keeps(gs: GState, e: IExpr, swap: bool)
    ensures
        g_expr(gs, e, swap) matches Some((g, _)) ==> keeps(gs, g),
    decreases e,
{
    match e {
        IExpr::Binary { op, left, right } => {
            lemma_expr_keeps(gs, *right, false);
            if let Some((g1, r)) = g_expr(gs, *right, false) {
                lemma_expr_keeps(g1, *left, true);
                if let Some((g2, l)) = g_expr(g1, *left, true) {
                    lemma_emit_keeps(g2, oper(opcode_of(op), l, r, None));
                }
            }
        },
        IExpr::ConstInt(i) => {
            let (g1, name) = g_fresh(gs);
            lemma_emit_keeps(g1, oper(OpcodeV::Move, name, "$"@ + signed_decimal(i as int), None));
        },
        IExpr::Mem(inner) => {
            let (g1, name) = g_fresh(gs);
            if let Some((base, offset)) = access_of(*inner) {
                lemma_emit_keeps(g1, oper(OpcodeV::Move, name, mem_text(base, offset), None));
                lemma_emit_keeps(g1, oper(OpcodeV::Move, mem_text(base, offset), name, None));
            }
        },
        IExpr::Call(name, args) => {
            lemma_args_keeps(note_call(gs), args);
            if let Some((g1, values)) = g_args(note_call(gs), args) {
                lemma_moves_wf(gs.arguments, values);
                lemma_emit_all_keeps(g1, arg_moves(gs.arguments, values));
                lemma_emit_keeps(g_emit_all(g1, arg_moves(gs.arguments, values)), InstrV::Call { name });
            }
        },
        _ => {},
    }
}

/// Selecting arguments keeps the context and well-formedness.
pub proof fn lemma_args_keeps(gs: GState, args: Seq<IExpr>)
    ensures
        g_args(gs, args) matches Some((g, _)) ==> keeps(gs, g),
    decreases args,
{
    if args.len() > 0 {
        lemma_expr_keeps(gs, args[0], true);
        if let Some((g1, v)) = g_expr(gs, args[0], true) {
            lemma_args_keeps(g1, args.drop_first());
        }
    }
}

/// Selecting a move keeps the context and well-formedness.
pub proof fn lemma_move_keeps(gs: GState, target: IExpr, expr: IExpr)
    ensures
        g_move(gs, target, expr) matches Some(g) ==> keeps(gs, g),
{
    if frame_based(expr) {
        if let (Some((base, offset)), IExpr::Temp(t)) = (binary_access(expr), target) {
            lemma_emit_keeps(gs, oper(OpcodeV::Move, t, mem_text(base, offset), None));
        }
    } else {
        lemma_expr_keeps(gs, expr, false);
        let (g1, temp) = g_fresh(gs);
        if let Some((base, offset)) = access_of(expr) {
            lemma_emit_keeps(g1, oper(OpcodeV::Move, temp, mem_text(base, offset), None));
        }
        let src = match expr {
            IExpr::Mem(_) => match access_of(expr) {
                None => None,
                Some((base, offset)) => Some(
                    (g_emit(g1, oper(OpcodeV::Move, temp, mem_text(base, offset), None)), temp),
                ),
            },
            _ => g_expr(gs, expr, false),
        };
        if let Some((g2, s)) = src {
            let dst = match target {
                IExpr::Mem(_) | IExpr::Binary { .. } => match access_of(target) {
                    Some((base, offset)) => Some(mem_text(base, offset)),
                    None => None,
                },
                IExpr::Temp(t) => Some(t),
                _ => None,
            };
            if let Some(d) = dst {
                lemma_emit_keeps(g2, oper(OpcodeV::Move, d, s, None));
            }
        }
    }
}

/// Selecting a statement keeps the context and well-formedness.
pub proof fn lemma_stmt_keeps(gs: GState, s: IStmt)
    ensures
        g_stmt(gs, s) matches Some(g) ==> keeps(gs, g),
    decreases s,
{
    match s {
        IStmt::Jump(target) => {
            let g1 = if ends_with(target, "epilogue"@) && gs.stack.len() > 0 {
                GState { stack: gs.stack.drop_last(), ..gs }
            } else {
                gs
            };
            assert(keeps(gs, g1));
            lemma_emit_keeps(g1, oper(OpcodeV::Jump, Seq::empty(), Seq::empty(), Some(target)));
        },
        IStmt::Label(name) => {
            let g1 = g_emit(gs, oper(OpcodeV::Label(name), Seq::empty(), Seq::empty(), None));
            lemma_emit_keeps(gs, oper(OpcodeV::Label(name), Seq::empty(), Seq::empty(), None));
            if let Some(id) = ident_of(gs.idents, name) {
                if let Some(f) = frame_of(gs.functions, id) {
                    let g2 = GState { stack: g1.stack.push(id), ..g1 };
                    assert(keeps(g1, g2));
                    lemma_emit_all_keeps(g2, f.prologue);
                    if frames_wf(gs.functions) {
                        lemma_frame_of_wf(gs.functions, id);
                    }
                }
            }
        },
        IStmt::Move { target, expr } => lemma_move_keeps(gs, *target, *expr),
        IStmt::CJump { op, condition, t, .. } => {
            lemma_expr_keeps(gs, *condition, false);
            if let Some((g1, tmp)) = g_expr(gs, *condition, false) {
                if let Some(rel) = rel_of(op) {
                    let (g2, one) = g_fresh(g1);
                    let g3 = g_emit(g2, oper(OpcodeV::Move, one, "$1"@, None));
                    let g4 = g_emit(g3, oper(OpcodeV::Cmp(RelOp::Equal), tmp, one, None));
                    lemma_emit_keeps(g2, oper(OpcodeV::Move, one, "$1"@, None));
                    lemma_emit_keeps(g3, oper(OpcodeV::Cmp(RelOp::Equal), tmp, one, None));
                    lemma_emit_keeps(g4, oper(OpcodeV::CJump(rel), Seq::empty(), Seq::empty(), Some(t)));
                    lemma_emit_keeps(g1, oper(OpcodeV::CJump(rel), Seq::empty(), Seq::empty(), Some(t)));
                }
            }
        },
        IStmt::Sequence { left, right } => {
            lemma_stmt_keeps(gs, *left);
            if let Some(g1) = g_stmt(gs, *left) {
                if let Some(r) = right {
                    lemma_stmt_keeps(g1, *r);
                }
            }
        },
        IStmt::Expr(e) => lemma_expr_keeps(gs, *e, false),
        IStmt::Noop => {},
    }
}

/// Selecting statements keeps the context and well-formedness.
pub proof fn lemma_stmts_keeps(gs: GState, ss: Seq<IStmt>)
    ensures
        g_stmts(gs, ss) matches Some(g) ==> keeps(gs, g),
    decreases ss.len(),
{
    if ss.len() > 0 {
        lemma_stmt_keeps(gs, ss[0]);
        if let Some(g1) = g_stmt(gs, ss[0]) {
            lemma_stmts_keeps(g1, ss.drop_first());
        }
    }
}

/// Emitting epilogues keeps the context and well-formedness.
pub proof fn lemma_epilogues_keeps(gs: GState, idents: Seq<(Seq<char>, usize)>)
    ensures
        g_epilogues(gs, idents) matches Some(g) ==> keeps(gs, g),
    decreases idents.len(),
{
    if idents.len() > 0 {
        if let Some(f) = frame_of(gs.functions, idents[0].1) {
            let label = oper(OpcodeV::Label(idents[0].0 + ".epilogue"@), Seq::empty(), Seq::empty(), None);
            let g1 = g_emit(gs, label);
            lemma_emit_keeps(gs, label);
            lemma_emit_all_keeps(g1, f.epilogue);
            if frames_wf(gs.functions) {
                lemma_frame_of_wf(gs.functions, idents[0].1);
            }
            let g2 = g_emit_all(g1, f.epilogue);
            lemma_epilogues_keeps(g2, idents.drop_first());
        }
    }
}

/// Reading a memory word whose address is a name plus a constant appends exactly one move,
/// through a fresh temporary that then names the value: from the memory operand into the
/// temporary when `swap` holds, from the temporary to the memory operand otherwise.
pub proof fn law_mem_assembly(gs: GState, address: IExpr, swap: bool)
    requires
        access_of(address) is Some,
    ensures
        ({
            let (base, offset) = access_of(address)->0;
            let t = temp_name(gs.temps as nat);
            let mem = mem_text(base, offset);
            let i = if swap { oper(OpcodeV::Move, t, mem, None) } else { oper(OpcodeV::Move, mem, t, None) };
            g_expr(gs, IExpr::Mem(Box::new(address)), swap) matches Some((g, r)) && r == t
                && g.listing == gs.listing.push(AsmInstrV { inner: i, id: gs.ids })
                && g.temps == bump(gs.temps) && g.ids == bump(gs.ids) && g.stack == gs.stack
                && g.callers == gs.callers && same_context(gs, g)
        }),
{
}

/// Call arguments are read, not written: when the first argument of a call is a memory word,
/// the first instruction selected for the arguments moves that word from its memory operand
/// into a fresh temporary, and that temporary is the name the first argument is passed in.
pub proof fn law_args_read_memory(gs: GState, args: Seq<IExpr>)
    requires
        args.len() > 0,
        args[0] matches IExpr::Mem(address) && access_of(*address) is Some,
    ensures
        g_args(gs, args) matches Some((g, names)) ==> ({
            let (base, offset) = access_of(*(args[0]->Mem_0))->0;
            &&& names.len() > 0
            &&& names[0] == temp_name(gs.temps as nat)
            &&& g.listing.len() > gs.listing.len()
            &&& g.listing[gs.listing.len() as int] == (AsmInstrV {
                inner: oper(OpcodeV::Move, temp_name(gs.temps as nat), mem_text(base, offset), None),
                id: gs.ids,
            })
        }),
{
    let address = *(args[0]->Mem_0);
    law_mem_assembly(gs, address, true);
    assert(args[0] == IExpr::Mem(Box::new(address)));
    if let Some((g1, v)) = g_expr(gs, args[0], true) {
        lemma_args_keeps(g1, args.drop_first());
        if let Some((g2, vs)) = g_args(g1, args.drop_first()) {
            assert((seq![v] + vs)[0] == v);
            assert(g2.listing[gs.listing.len() as int] == g1.listing[gs.listing.len() as int]);
        }
    }
}

/// A sequence assembles its left part, then its right part: the instructions emitted are
/// those before, then those of the left part, then those of the right part.
pub proof fn law_sequence_assembly(gs: GState, left: IStmt, right: Option<IStmt>)
    ensures
        g_stmt(gs, IStmt::Sequence {
            left: Box::new(left),
            right: match right {
                Some(r) => Some(Box::new(r)),
                None => None,
            },
        }) == match g_stmt(gs, left) {
            None => None,
            Some(g1) => match right {
                None => Some(g1),
                Some(r) => g_stmt(g1, r),
            },
        },
        g_stmt(gs, left) matches Some(g1) ==> grows(gs, g1) && (right matches Some(r) ==> (
        g_stmt(g1, r) matches Some(g2) ==> grows(g1, g2))),
{
    lemma_stmt_keeps(gs, left);
    if let Some(g1) = g_stmt(gs, left) {
        if let Some(r) = right {
            lemma_stmt_keeps(g1, r);
        }
    }
}

/// Assembling a program keeps the context, adds instructions numbered by their positions
/// (while their count stays below the largest machine number), and, where the frame code
/// can be written, gives instructions that can all be written.
pub proof fn lemma_assembly_keeps(gs: GState, ir: Seq<IStmt>)
    ensures
        g_assembly(gs, ir) matches Some(g) ==> keeps(gs, g),
{
    lemma_stmts_keeps(gs, ir);
    if let Some(g1) = g_stmts(gs, ir) {
        lemma_epilogues_keeps(g1, g1.idents);
    }
}

// ----------------------------------------------------------------------
// The code generator
// ----------------------------------------------------------------------

/// Selects instructions for a program and keeps them in the order they were emitted.
pub struct Codegen {
    listing: Vec<AsmInstr>,
    functions: Vec<(usize, FrameCode)>,
    stack: Vec<usize>,
    idents: Vec<(String, usize)>,
    callers: Vec<usize>,
    target: Target,
    temps: usize,
    ids: usize,
}

impl View for Codegen {
    type V = GState;

    closed spec fn view(&self) -> GState {
        GState {
            listing: asm_view(self.listing@),
            functions: frame_codes_view(self.functions@),
            stack: self.stack@,
            idents: idents_view(self.idents@),
            callers: self.callers@,
            arguments: names_view(self.target.arguments@),
            ret: self.target.ret@,
            temps: self.temps,
            ids: self.ids,
        }
    }
}

/// The memory operand at `offset` from `base`.
fn mem_operand(base: &String, offset: i64) -> (r: String)
    ensures
        r@ == mem_text(base@, offset),
{
    let mut out = String::new();
    push_signed(&mut out, offset);
    out.append("(%");
    push(&mut out, base);
    out.append(")");
    out
}

/// Whether `s` ends with `suffix`.
fn str_ends_with(s: &str, suffix: &str) -> (r: bool)
    ensures
        r == ends_with(s@, suffix@),
{
    let n = s.unicode_len();
    let m = suffix.unicode_len();
    if m > n {
        return false;
    }
    let mut i: usize = 0;
    while i < m
        invariant
            n == s@.len(),
            m == suffix@.len(),
            m <= n,
            i <= m,
            forall|j: int| 0 <= j < i ==> s@[n - m + j] == suffix@[j],
        decreases m - i,
    {
        if s.get_char(n - m + i) != suffix.get_char(i) {
            assert(s@.subrange(n - m, n as int)[i as int] != suffix@[i as int]);
            return false;
        }
        i = i + 1;
    }
    assert(s@.subrange(n - m, n as int) =~= suffix@);
    true
}

/// A copy of a list of instructions.
fn clone_instrs(v: &Vec<Instr>) -> (r: Vec<Instr>)
    ensures
        r@ == v@,
{
    let mut out: Vec<Instr> = Vec::new();
    let mut i: usize = 0;
    while i < v.len()
        invariant
            i <= v.len(),
            out@ == v@.take(i as int),
        decreases v.len() - i,
    {
        out.push(v[i].clone());
        assert(out@ =~= v@.take(i + 1));
        i = i + 1;
    }
    assert(v@.take(v.len() as int) =~= v@);
    out
}

/// The position of the last entry for `name`.
fn find_ident(idents: &Vec<(String, usize)>, name: &str) -> (r: Option<usize>)
    ensures
        r is Some == ident_index(idents_view(idents@), name@) is Some,
        r is Some ==> r->0 < idents@.len() && ident_index(idents_view(idents@), name@) == Some(r->0 as int),
{
    let ghost all = idents_view(idents@);
    let mut i = idents.len();
    assert(all.take(i as int) =~= all);
    while i > 0
        invariant
            i <= idents@.len(),
            all == idents_view(idents@),
            ident_index(all, name@) == ident_index(all.take(i as int), name@),
        decreases i,
    {
        let ghost prefix = all.take(i as int);
        i = i - 1;
        assert(prefix.drop_last() =~= all.take(i as int));
        if str_equal(idents[i].0.as_str(), name) {
            return Some(i);
        }
    }
    None
}

/// Makes `name` stand for function `id`.
fn insert_ident_entry(idents: &mut Vec<(String, usize)>, name: String, id: usize)
    ensures
        idents_view(final(idents)@) == insert_ident(idents_view(old(idents)@), name@, id),
{
    match find_ident(idents, name.as_str()) {
        Some(i) => {
            proof {
                lemma_ident_index(idents_view(old(idents)@), name@);
                assert(ident_index(idents_view(old(idents)@), name@) == Some(i as int));
            }
            idents.set(i, (name, id));
            assert(idents_view(idents@) =~= idents_view(old(idents)@).update(i as int, (name@, id)));
        },
        None => {
            proof { lemma_ident_index(idents_view(old(idents)@), name@); }
            idents.push((name, id));
            assert(idents_view(idents@) =~= idents_view(old(idents)@).push((name@, id)));
        },
    }
}

impl Codegen {
    /// A code generator for `ast`, with the frame code of each function, the calling
    /// convention of `target`, and temporaries numbered from `temps` on.
    pub fn new(functions: Vec<(usize, FrameCode)>, ast: &[Decl], target: Target, temps: usize) -> (r: Codegen)
        ensures
            r@ == (GState {
                listing: Seq::empty(),
                functions: frame_codes_view(functions@),
                stack: Seq::empty(),
                idents: function_idents(view_decls(ast@)),
                callers: Seq::empty(),
                arguments: names_view(target.arguments@),
                ret: target.ret@,
                temps,
                ids: 0,
            }),
    {
        let mut idents: Vec<(String, usize)> = Vec::new();
        let mut i: usize = 0;
        assert(idents_view(idents@) =~= Seq::<(Seq<char>, usize)>::empty());
        assert(ast@.take(0) =~= Seq::<Decl>::empty());
        while i < ast.len()
            invariant
                i <= ast.len(),
                idents_view(idents@) == function_idents(view_decls(ast@.take(i as int))),
            decreases ast.len() - i,
        {
            let ghost before = view_decls(ast@.take(i as int));
            proof {
                assert(ast@.take(i + 1).drop_last() =~= ast@.take(i as int));
                assert(view_decls(ast@.take(i + 1)) == before.push(ast@[i as int]@));
                assert(view_decls(ast@.take(i + 1)).drop_last() =~= before);
            }
            match &ast[i] {
                Decl::Function(f) => {
                    let name = f.name.text();
                    insert_ident_entry(&mut idents, name, f.id);
                },
                _ => {},
            }
            i = i + 1;
        }
        assert(ast@.take(ast.len() as int) =~= ast@);
        let r = Codegen {
            listing: Vec::new(),
            functions,
            stack: Vec::new(),
            idents,
            callers: Vec::new(),
            target,
            temps,
            ids: 0,
        };
        assert(asm_view(r.listing@) =~= Seq::<AsmInstrV>::empty());
        r
    }

    /// The instructions emitted so far.
    pub fn instructions(&self) -> (r: &Vec<AsmInstr>)
        ensures
            asm_view(r@) == self@.listing,
    {
        &self.listing
    }

    /// Emits `instr`, numbered next.
    pub fn emit(&mut self, instr: Instr)
        ensures
            final(self)@ == g_emit(old(self)@, instr@),
    {
        let a = AsmInstr::new(instr, self.ids);
        self.listing.push(a);
        self.ids = if self.ids == usize::MAX { 0 } else { self.ids + 1 };
        assert(asm_view(self.listing@) =~= asm_view(old(self).listing@).push(a@));
    }

    fn emit_all(&mut self, instrs: &Vec<Instr>)
        ensures
            final(self)@ == g_emit_all(old(self)@, instrs_view(instrs@)),
    {
        let ghost all = instrs_view(instrs@);
        let mut i: usize = 0;
        assert(all.take(0) =~= Seq::<InstrV>::empty());
        while i < instrs.len()
            invariant
                i <= instrs.len(),
                all == instrs_view(instrs@),
                self@ == g_emit_all(old(self)@, all.take(i as int)),
            decreases instrs.len() - i,
        {
            assert(all.take(i + 1).drop_last() =~= all.take(i as int));
            self.emit(instrs[i].clone());
            i = i + 1;
        }
        assert(all.take(instrs.len() as int) =~= all);
    }

    fn fresh(&mut self) -> (r: String)
        ensures
            (final(self)@, r@) == g_fresh(old(self)@),
    {
        let name = Temp::new(self.temps);
        self.temps = if self.temps == usize::MAX { 0 } else { self.temps + 1 };
        name
    }

    /// The position of the last frame code of function `id`.
    fn find_frame(&self, id: usize) -> (r: Option<usize>)
        ensures
            match frame_of(self@.functions, id) {
                Some(f) => r is Some && r->0 < self.functions@.len() && self.functions@[r->0 as int].1@ == f,
                None => r is None,
            },
    {
        let ghost all = frame_codes_view(self.functions@);
        let mut i = self.functions.len();
        assert(all.take(i as int) =~= all);
        while i > 0
            invariant
                i <= self.functions@.len(),
                all == frame_codes_view(self.functions@),
                frame_of(all, id) == frame_of(all.take(i as int), id),
            decreases i,
        {
            let ghost prefix = all.take(i as int);
            i = i - 1;
            assert(prefix.drop_last() =~= all.take(i as int));
            if self.functions[i].0 == id {
                return Some(i);
            }
        }
        None
    }

    fn note_call(&mut self)
        ensures
            final(self)@ == note_call(old(self)@),
    {
        if self.stack.len() > 0 {
            let id = self.stack[self.stack.len() - 1];
            let mut k: usize = 0;
            let mut found = false;
            while k < self.callers.len()
                invariant
                    k <= self.callers.len(),
                    found == exists|j: int| 0 <= j < k && self.callers@[j] == id,
                decreases self.callers.len() - k,
            {
                if self.callers[k] == id {
                    found = true;
                }
                k = k + 1;
            }
            if !found {
                self.callers.push(id);
            }
        }
    }
}

/// The names of argument values, prefixed by those already computed.
pub open spec fn values_prefixed(a: Seq<Seq<char>>, o: Option<(GState, Seq<Seq<char>>)>) -> Option<(GState, Seq<Seq<char>>)> {
    match o {
        Some((g, vs)) => Some((g, a + vs)),
        None => None,
    }
}

/// The base and offset of an address `base + offset`.
fn binary_parts(e: &Expr) -> (r: (String, i64))
    requires
        binary_access(e@) is Some,
    ensures
        binary_access(e@) == Some((r.0@, r.1)),
{
    match e {
        Expr::Binary { op, left, right } => {
            assert(e@ == IExpr::Binary { op: *op, left: Box::new((**left)@), right: Box::new((**right)@) });
            match &**left {
                Expr::Temp(t) => {
                    assert((**left)@ == IExpr::Temp(t@));
                    match &**right {
                        Expr::ConstInt(i) => {
                            assert((**right)@ == IExpr::ConstInt(*i));
                            (t.clone(), *i)
                        },
                        _ => vstd::pervasive::unreached(),
                    }
                },
                _ => vstd::pervasive::unreached(),
            }
        },
        _ => vstd::pervasive::unreached(),
    }
}

/// The base and offset of a memory word, or of its address.
fn access(e: &Expr) -> (r: (String, i64))
    requires
        access_of(e@) is Some,
    ensures
        access_of(e@) == Some((r.0@, r.1)),
{
    match e {
        Expr::Mem(m) => binary_parts(m),
        Expr::Binary { .. } => binary_parts(e),
        _ => vstd::pervasive::unreached(),
    }
}

/// Whether `e` is an address whose base is the frame register.
fn is_frame_based(e: &Expr) -> (r: bool)
    ensures
        r == frame_based(e@),
{
    match e {
        Expr::Binary { op, left, right } => {
            assert(e@ == IExpr::Binary { op: *op, left: Box::new((**left)@), right: Box::new((**right)@) });
            match &**left {
                Expr::Temp(t) => {
                    assert((**left)@ == IExpr::Temp(t@));
                    str_equal(t.as_str(), "rbp")
                },
                _ => false,
            }
        },
        _ => false,
    }
}

impl Codegen {
    fn assemble_expr(&mut self, e: &Expr, swap: bool) -> (r: String)
        requires
            g_expr(old(self)@, e@, swap) is Some,
        ensures
            g_expr(old(self)@, e@, swap) == Some((final(self)@, r@)),
        decreases e,
    {
        match e {
            Expr::Binary { op, left, right } => {
                assert(e@ == IExpr::Binary { op: *op, left: Box::new((**left)@), right: Box::new((**right)@) });
                let r = self.assemble_expr(right, false);
                let l = self.assemble_expr(left, true);
                self.emit(Instr::oper(Opcode::from_binop(*op), l.clone(), r, None));
                l
            },
            Expr::ConstInt(i) => {
                let name = self.fresh();
                let mut src = String::from_str("$");
                push_signed(&mut src, *i);
                self.emit(Instr::oper(Opcode::Move, name.clone(), src, None));
                name
            },
            Expr::Mem(inner) => {
                assert(e@ == IExpr::Mem(Box::new((**inner)@)));
                let name = self.fresh();
                let (base, offset) = access(inner);
                let m = mem_operand(&base, offset);
                if swap {
                    self.emit(Instr::oper(Opcode::Move, name.clone(), m, None));
                } else {
                    self.emit(Instr::oper(Opcode::Move, m, name.clone(), None));
                }
                name
            },
            Expr::Call(name, args) => {
                let ghost g0 = self@;
                assert(e@ == IExpr::Call(name@, crate::translate::iexprs(args@)));
                self.note_call();
                let values = self.assemble_args(args);
                let ghost g1 = self@;
                proof {
                    lemma_args_keeps(note_call(g0), crate::translate::iexprs(args@));
                }
                let ghost moves = arg_moves(g0.arguments, names_view(values@));
                let mut k: usize = 0;
                assert(moves.take(0) =~= Seq::<InstrV>::empty());
                while k < values.len()
                    invariant
                        k <= values.len(),
                        values.len() <= g0.arguments.len(),
                        names_view(self.target.arguments@) == g0.arguments,
                        moves == arg_moves(g0.arguments, names_view(values@)),
                        self@ == g_emit_all(g1, moves.take(k as int)),
                    decreases values.len() - k,
                {
                    assert(moves.take(k + 1).drop_last() =~= moves.take(k as int));
                    assert(names_view(self.target.arguments@).len() == self.target.arguments@.len());
                    self.emit(Instr::oper(Opcode::Move, self.target.arguments[k].clone(), values[k].clone(), None));
                    k = k + 1;
                }
                assert(moves.take(values.len() as int) =~= moves);
                proof { lemma_emit_all_keeps(g1, moves); }
                self.emit(Instr::Call { name: name.clone() });
                assert(self@.ret == g0.ret);
                let mut r = String::from_str("%");
                push(&mut r, &self.target.ret);
                r
            },
            Expr::Temp(t) => {
                assert(e@ == IExpr::Temp(t@));
                t.clone()
            },
            _ => vstd::pervasive::unreached(),
        }
    }

    fn assemble_args(&mut self, args: &Vec<Expr>) -> (r: Vec<String>)
        requires
            g_args(old(self)@, crate::translate::iexprs(args@)) is Some,
        ensures
            g_args(old(self)@, crate::translate::iexprs(args@)) == Some((final(self)@, names_view(r@))),
        decreases args,
    {
        let ghost all = crate::translate::iexprs(args@);
        let mut out: Vec<String> = Vec::new();
        let mut i: usize = 0;
        proof {
            assert(all.skip(0) == all);
            assert(names_view(out@) =~= Seq::<Seq<char>>::empty());
            assert(Seq::<Seq<char>>::empty() + g_args(self@, all).unwrap().1 == g_args(self@, all).unwrap().1);
        }
        while i < args.len()
            invariant
                i <= args.len(),
                all == crate::translate::iexprs(args@),
                g_args(old(self)@, all) is Some,
                g_args(old(self)@, all) == values_prefixed(names_view(out@), g_args(self@, all.skip(i as int))),
            decreases args.len() - i,
        {
            proof {
                crate::translate::lemma_iexprs_index(args@, i as int);
                crate::translate::lemma_iexprs_len(args@);
                assert(all.skip(i as int)[0] == args@[i as int]@);
                assert(all.skip(i as int).drop_first() == all.skip(i + 1));
                assert(decreases_to!(args => args@[i as int]));
            }
            let ghost before = out@;
            let x = self.assemble_expr(&args[i], true);
            out.push(x);
            proof {
                assert(names_view(out@) =~= names_view(before).push(x@));
                let tail = g_args(self@, all.skip(i + 1));
                if tail is Some {
                    assert(names_view(before) + (seq![x@] + (tail->0).1) =~= names_view(out@) + (tail->0).1);
                }
            }
            i = i + 1;
        }
        proof {
            crate::translate::lemma_iexprs_len(args@);
            assert(all.skip(i as int).len() == 0);
            assert(names_view(out@) + Seq::<Seq<char>>::empty() == names_view(out@));
        }
        out
    }

    fn assemble_move(&mut self, target: &Expr, expr: &Expr)
        requires
            g_move(old(self)@, target@, expr@) is Some,
        ensures
            g_move(old(self)@, target@, expr@) == Some(final(self)@),
    {
        if is_frame_based(expr) {
            let (base, offset) = binary_parts(expr);
            let t = match target {
                Expr::Temp(t) => t.clone(),
                _ => vstd::pervasive::unreached(),
            };
            self.emit(Instr::oper(Opcode::Move, t, mem_operand(&base, offset), None));
            return;
        }
        let src = match expr {
            Expr::Mem(_) => {
                let temp = self.fresh();
                let (base, offset) = access(expr);
                self.emit(Instr::oper(Opcode::Move, temp.clone(), mem_operand(&base, offset), None));
                temp
            },
            _ => self.assemble_expr(expr, false),
        };
        let dst = match target {
            Expr::Mem(_) | Expr::Binary { .. } => {
                let (base, offset) = access(target);
                mem_operand(&base, offset)
            },
            Expr::Temp(t) => t.clone(),
            _ => vstd::pervasive::unreached(),
        };
        self.emit(Instr::oper(Opcode::Move, dst, src, None));
    }

    fn assemble_stmt(&mut self, s: &Stmt)
        requires
            g_stmt(old(self)@, s@) is Some,
        ensures
            g_stmt(old(self)@, s@) == Some(final(self)@),
        decreases s,
    {
        match s {
            Stmt::Jump(target) => {
                if str_ends_with(target.as_str(), "epilogue") {
                    self.stack.pop();
                }
                self.emit(Instr::oper(Opcode::Jump, String::new(), String::new(), Some(target.clone())));
            },
            Stmt::Label(name) => {
                let found = find_ident(&self.idents, name.as_str());
                proof { lemma_ident_index(self@.idents, name@); }
                self.emit(Instr::oper(Opcode::Label(name.clone()), String::new(), String::new(), None));
                match found {
                    Some(k) => {
                        let id = self.idents[k].1;
                        self.stack.push(id);
                        match self.find_frame(id) {
                            Some(f) => {
                                let prologue = clone_instrs(&self.functions[f].1.prologue);
                                self.emit_all(&prologue);
                            },
                            None => vstd::pervasive::unreached(),
                        }
                    },
                    None => {},
                }
            },
            Stmt::Move { target, expr } => self.assemble_move(target, expr),
            Stmt::CJump { op, condition, t, .. } => {
                let tmp = self.assemble_expr(condition, false);
                let rel = match op {
                    BinOp::Cmp(r) => *r,
                    _ => vstd::pervasive::unreached(),
                };
                match &**condition {
                    Expr::ConstInt(_) => {
                        let one = self.fresh();
                        self.emit(Instr::oper(Opcode::Move, one.clone(), String::from_str("$1"), None));
                        self.emit(Instr::oper(Opcode::Cmp(RelOp::Equal), tmp, one, None));
                        self.emit(Instr::oper(Opcode::CJump(rel), String::new(), String::new(), Some(t.clone())));
                    },
                    _ => {
                        self.emit(Instr::oper(Opcode::CJump(rel), String::new(), String::new(), Some(t.clone())));
                    },
                }
            },
            Stmt::Sequence { left, right } => {
                self.assemble_stmt(left);
                match right {
                    Some(r) => self.assemble_stmt(r),
                    None => {},
                }
            },
            Stmt::Expr(e) => {
                let _ = self.assemble_expr(e, false);
            },
            Stmt::Noop => {},
        }
    }
}

impl Codegen {
    /// Selects instructions for each statement of `ir` in order, then appends the epilogue
    /// of each function.
    pub fn assembly(&mut self, ir: Vec<Stmt>)
        requires
            g_assembly(old(self)@, istmts(ir@)) is Some,
        ensures
            g_assembly(old(self)@, istmts(ir@)) == Some(final(self)@),
    {
        let ghost all = istmts(ir@);
        let mut i: usize = 0;
        assert(all.skip(0) == all);
        while i < ir.len()
            invariant
                i <= ir.len(),
                all == istmts(ir@),
                g_stmts(old(self)@, all) is Some,
                g_stmts(old(self)@, all) == g_stmts(self@, all.skip(i as int)),
            decreases ir.len() - i,
        {
            proof {
                crate::translate::lemma_istmts_index(ir@, i as int);
                crate::translate::lemma_istmts_len(ir@);
                assert(all.skip(i as int)[0] == ir@[i as int]@);
                assert(all.skip(i as int).drop_first() == all.skip(i + 1));
            }
            self.assemble_stmt(&ir[i]);
            i = i + 1;
        }
        proof {
            crate::translate::lemma_istmts_len(ir@);
            assert(all.skip(i as int).len() == 0);
        }
        self.epilogues();
    }

    fn epilogues(&mut self)
        requires
            g_epilogues(old(self)@, old(self)@.idents) is Some,
        ensures
            g_epilogues(old(self)@, old(self)@.idents) == Some(final(self)@),
    {
        let ghost all = old(self)@.idents;
        let mut i: usize = 0;
        assert(all.skip(0) == all);
        while i < self.idents.len()
            invariant
                i <= self.idents.len(),
                all == old(self)@.idents,
                self@.idents == all,
                g_epilogues(old(self)@, all) is Some,
                g_epilogues(old(self)@, all) == g_epilogues(self@, all.skip(i as int)),
            decreases self.idents.len() - i,
        {
            let ghost g0 = self@;
            proof {
                assert(all.skip(i as int)[0] == all[i as int]);
                assert(all.skip(i as int).drop_first() == all.skip(i + 1));
            }
            let id = self.idents[i].1;
            let mut label = self.idents[i].0.clone();
            label.append(".epilogue");
            assert(idents_view(self.idents@)[i as int] == (self.idents@[i as int].0@, self.idents@[i as int].1));
            assert(label@ == all[i as int].0 + ".epilogue"@);
            assert(id == all[i as int].1);
            match self.find_frame(id) {
                Some(f) => {
                    let epilogue = clone_instrs(&self.functions[f].1.epilogue);
                    self.emit(Instr::oper(Opcode::Label(label), String::new(), String::new(), None));
                    self.emit_all(&epilogue);
                    proof {
                        let lab = oper(OpcodeV::Label(all[i as int].0 + ".epilogue"@), Seq::empty(), Seq::empty(), None);
                        lemma_emit_all_keeps(g_emit(g0, lab), instrs_view(epilogue@));
                    }
                },
                None => vstd::pervasive::unreached(),
            }
            i = i + 1;
        }
        assert(all.skip(i as int).len() == 0);
    }

    /// The assembly text of the instructions, each written with the registers of
    /// `registers`, on a line of its own.
    pub fn format(self, registers: &Registers) -> (r: String)
        requires
            asm_wf(self@.listing),
        ensures
            r@ == formatted(self@.listing, registers@),
    {
        let ghost all = self@.listing;
        let mut out = String::new();
        let mut i: usize = 0;
        assert(all.take(0) =~= Seq::<AsmInstrV>::empty());
        while i < self.listing.len()
            invariant
                i <= self.listing.len(),
                all == asm_view(self.listing@),
                asm_wf(all),
                out@ == formatted(all.take(i as int), registers@),
            decreases self.listing.len() - i,
        {
            assert(all.take(i + 1).drop_last() =~= all.take(i as int));
            assert(instr_wf(all[i as int].inner));
            let a = allocate(&self.listing[i], registers);
            let text = a.to_text();
            push(&mut out, &text);
            out.append("\n");
            i = i + 1;
        }
        assert(all.take(self.listing.len() as int) =~= all);
        out
    }
}

/// An instruction with its temporaries replaced by their registers.
fn allocate(a: &AsmInstr, registers: &Registers) -> (r: AsmInstr)
    ensures
        r@ == (AsmInstrV { inner: allocate_instr(a@.inner, registers@), id: a@.id }),
{
    let inner = match &a.inner {
        Instr::Oper { opcode, dst, src, jump } => Instr::Oper {
            opcode: opcode.clone(),
            dst: registers.get(dst.as_str()),
            src: registers.get(src.as_str()),
            jump: match jump {
                Some(j) => Some(j.clone()),
                None => None,
            },
        },
        Instr::Call { name } => Instr::Call { name: name.clone() },
    };
    AsmInstr { inner, id: a.id }
}

// ----------------------------------------------------------------------
// x86-64
// ----------------------------------------------------------------------

/// The System V argument registers of x86-64.
pub open spec fn x86_arguments() -> Seq<Seq<char>> {
    seq!["%rdi"@, "%rsi"@, "%rdx"@, "%rcx"@, "%r8"@, "%r9"@]
}

/// The register that holds a function's result on x86-64.
pub open spec fn x86_result() -> Seq<char> {
    "rax"@
}

/// The frame code of an x86-64 function whose locals take `size` bytes: the prologue saves
/// the caller's frame register, sets the frame register to the stack pointer and reserves
/// the locals; the epilogue undoes that and returns.
pub open spec fn x86_frame(size: i64) -> FrameCodeV {
    FrameCodeV {
        prologue: seq![
            oper(OpcodeV::Push, Seq::empty(), "%rbp"@, None),
            oper(OpcodeV::Move, "%rbp"@, "%rsp"@, None),
            oper(OpcodeV::Sub, "%rsp"@, "$"@ + signed_decimal(size as int), None),
        ],
        epilogue: seq![
            oper(OpcodeV::Move, "%rsp"@, "%rbp"@, None),
            oper(OpcodeV::Pop, Seq::empty(), "%rbp"@, None),
            oper(OpcodeV::Ret, Seq::empty(), Seq::empty(), None),
        ],
    }
}

/// The x86-64 frame code of each function.
pub open spec fn x86_frames(fs: Seq<(usize, FrameV)>) -> Seq<(usize, FrameCodeV)> {
    fs.map_values(|p: (usize, FrameV)| (p.0, x86_frame(p.1.size)))
}

impl Target {
    /// The System V calling convention of x86-64: arguments in `%rdi`, `%rsi`, `%rdx`,
    /// `%rcx`, `%r8` and `%r9`, the result in `rax`.
    pub fn x86_64() -> (r: Target)
        ensures
            names_view(r.arguments@) == x86_arguments(),
            r.ret@ == x86_result(),
    {
        let arguments = vec![
            String::from_str("%rdi"),
            String::from_str("%rsi"),
            String::from_str("%rdx"),
            String::from_str("%rcx"),
            String::from_str("%r8"),
            String::from_str("%r9"),
        ];
        assert(names_view(arguments@) =~= x86_arguments());
        Target { arguments, ret: String::from_str("rax") }
    }
}

impl FrameCode {
    /// The x86-64 frame code of a function whose locals take `size` bytes.
    pub fn x86_64(size: i64) -> (r: FrameCode)
        ensures
            r@ == x86_frame(size),
    {
        let mut reserve = String::from_str("$");
        push_signed(&mut reserve, size);
        let prologue = vec![
            Instr::oper(Opcode::Push, String::new(), String::from_str("%rbp"), None),
            Instr::oper(Opcode::Move, String::from_str("%rbp"), String::from_str("%rsp"), None),
            Instr::oper(Opcode::Sub, String::from_str("%rsp"), reserve, None),
        ];
        let epilogue = vec![
            Instr::oper(Opcode::Move, String::from_str("%rsp"), String::from_str("%rbp"), None),
            Instr::oper(Opcode::Pop, String::new(), String::from_str("%rbp"), None),
            Instr::oper(Opcode::Ret, String::new(), String::new(), None),
        ];
        let r = FrameCode { prologue, epilogue };
        assert(r@.prologue =~= x86_frame(size).prologue);
        assert(r@.epilogue =~= x86_frame(size).epilogue);
        r
    }
}

/// The x86-64 frame code of each translated function.
pub fn frame_codes(frames: &Vec<(usize, Frame)>) -> (r: Vec<(usize, FrameCode)>)
    ensures
        frame_codes_view(r@) == x86_frames(frames_view(frames@)),
{
    let mut out: Vec<(usize, FrameCode)> = Vec::new();
    let mut i: usize = 0;
    while i < frames.len()
        invariant
            i <= frames.len(),
            frame_codes_view(out@) == x86_frames(frames_view(frames@)).take(i as int),
        decreases frames.len() - i,
    {
        let code = FrameCode::x86_64(frames[i].1.size);
        let ghost before = frame_codes_view(out@);
        let ghost entry = (frames@[i as int].0, code@);
        out.push((frames[i].0, code));
        assert(frame_codes_view(out@) =~= before.push(entry));
        assert(frames_view(frames@)[i as int] == (frames@[i as int].0, frames@[i as int].1@));
        assert(x86_frames(frames_view(frames@))[i as int] == entry);
        assert(frame_codes_view(out@) =~= x86_frames(frames_view(frames@)).take(i + 1));
        i = i + 1;
    }
    assert(x86_frames(frames_view(frames@)).take(frames.len() as int) =~= x86_frames(frames_view(frames@)));
    out
}

/// The x86-64 frame code can be written.
pub proof fn lemma_x86_frames_wf(fs: Seq<(usize, FrameV)>)
    ensures
        frames_wf(x86_frames(fs)),
{
}

/// The state in which a program's translation starts.
pub open spec fn initial_translation(
    accesses: Seq<(usize, Seq<char>)>,
    records: Seq<(Seq<char>, Seq<(Seq<char>, Seq<char>)>)>,
) -> TState {
    TState { frames: Seq::empty(), function: None, temps: 0, labels: 0, eseqs: 0, accesses, records }
}

/// The state in which selection for a program starts, after its translation ended in `ts`.
pub open spec fn initial_selection(ts: TState, decls: Seq<DeclV>) -> GState {
    GState {
        listing: Seq::empty(),
        functions: x86_frames(ts.frames),
        stack: Seq::empty(),
        idents: function_idents(decls),
        callers: Seq::empty(),
        arguments: x86_arguments(),
        ret: x86_result(),
        temps: ts.temps,
        ids: 0,
    }
}

/// The x86-64 instructions of a program: its declarations translated, then instructions
/// selected for the translation; `None` where either is not defined.
pub open spec fn program_listing(
    decls: Seq<DeclV>,
    accesses: Seq<(usize, Seq<char>)>,
    records: Seq<(Seq<char>, Seq<(Seq<char>, Seq<char>)>)>,
) -> Option<Seq<AsmInstrV>> {
    match t_decls(initial_translation(accesses, records), decls) {
        None => None,
        Some((ts, ir)) => match g_assembly(initial_selection(ts, decls), ir) {
            None => None,
            Some(g) => Some(g.listing),
        },
    }
}

/// Every instruction of a program can be written, and the instructions are numbered by
/// their positions as long as there are fewer of them than the largest machine number.
pub proof fn law_program_listing(
    decls: Seq<DeclV>,
    accesses: Seq<(usize, Seq<char>)>,
    records: Seq<(Seq<char>, Seq<(Seq<char>, Seq<char>)>)>,
)
    ensures
        program_listing(decls, accesses, records) matches Some(l) ==> asm_wf(l) && (l.len() < usize::MAX ==> forall|k: int|
            0 <= k < l.len() ==> (#[trigger] l[k]).id == k),
{
    if let Some((ts, ir)) = t_decls(initial_translation(accesses, records), decls) {
        lemma_x86_frames_wf(ts.frames);
        lemma_assembly_keeps(initial_selection(ts, decls), ir);
    }
}

/// The x86-64 assembly text of a program: its declarations are translated (with the record
/// of each field access and the records' layouts), instructions are selected for the
/// translation with the System V convention, and each instruction is written with the
/// registers of `registers`.
pub fn assemble_program(
    ast: &[Decl],
    accesses: Vec<(usize, String)>,
    records: Vec<(String, Vec<(String, String)>)>,
    registers: &Registers,
) -> (r: String)
    requires
        program_listing(view_decls(ast@), accesses_view(accesses@), records_view(records@)) is Some,
    ensures
        r@ == formatted(
            program_listing(view_decls(ast@), accesses_view(accesses@), records_view(records@))->0,
            registers@,
        ),
{
    let mut translator = Translator::new(accesses, records);
    let ir = translator.translate(ast);
    let functions = frame_codes(translator.functions());
    let mut codegen = Codegen::new(functions, ast, Target::x86_64(), translator.temps());
    proof {
        lemma_x86_frames_wf(translator@.frames);
        assert(codegen@ == initial_selection(translator@, view_decls(ast@)));
        lemma_assembly_keeps(codegen@, istmts(ir@));
    }
    codegen.assembly(ir);
    codegen.format(registers)
}

} // verus!
