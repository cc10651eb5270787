//! A model of the AArch64 instructions that the back end emits: how they are built, which
//! registers they define and use, where they jump, how registers are substituted into them
//! and how they are written as assembly text.
use vstd::prelude::*;
use crate::translate::RelOp;
use crate::text::{signed_decimal, push_signed, str_equal};
use crate::registers::{Registers, register_of};

verus! {

/// An AArch64 instruction.
#[non_exhaustive]
#[derive(Debug)]
pub enum A64 {
    /// (kind, value)
    Data(String, String),
    /// (name)
    Label(String),
    /// (dst, src, offset)
    LoadImmediate(String, String, i64),
    /// (src, dst, offset)
    StoreImmediate(String, String, i64),
    /// (dst, addr)
    LoadEffective(String, String),
    /// (r1, r2)
    StorePair(String, String),
    /// (r1, r2)
    LoadPair(String, String),
    /// (dst, dst, src)
    Add(String, String, String),
    Sub(String, String, String),
    Mul(String, String, String),
    Div(String, String, String),
    /// (dst, src)
    Move(String, String),
    /// (label, rel)
    Branch(String, Option<RelOp>),
    /// (label)
    BranchLink(String),
    /// (extern)
    Call(String),
    /// (lhs, rhs)
    Compare(String, String),
    Ret,
}

/// The view of an instruction: the same variants over character sequences.
pub enum A64V {
    Data(Seq<char>, Seq<char>),
    Label(Seq<char>),
    LoadImmediate(Seq<char>, Seq<char>, i64),
    StoreImmediate(Seq<char>, Seq<char>, i64),
    LoadEffective(Seq<char>, Seq<char>),
    StorePair(Seq<char>, Seq<char>),
    LoadPair(Seq<char>, Seq<char>),
    Add(Seq<char>, Seq<char>, Seq<char>),
    Sub(Seq<char>, Seq<char>, Seq<char>),
    Mul(Seq<char>, Seq<char>, Seq<char>),
    Div(Seq<char>, Seq<char>, Seq<char>),
    Move(Seq<char>, Seq<char>),
    Branch(Seq<char>, Option<RelOp>),
    BranchLink(Seq<char>),
    Call(Seq<char>),
    Compare(Seq<char>, Seq<char>),
    Ret,
}

impl View for A64 {
    type V = A64V;

    open spec fn view(&self) -> A64V {
        match self {
            A64::Data(k, v) => A64V::Data(k@, v@),
            A64::Label(n) => A64V::Label(n@),
            A64::LoadImmediate(d, s, o) => A64V::LoadImmediate(d@, s@, *o),
            A64::StoreImmediate(s, d, o) => A64V::StoreImmediate(s@, d@, *o),
            A64::LoadEffective(d, a) => A64V::LoadEffective(d@, a@),
            A64::StorePair(a, b) => A64V::StorePair(a@, b@),
            A64::LoadPair(a, b) => A64V::LoadPair(a@, b@),
            A64::Add(d, a, b) => A64V::Add(d@, a@, b@),
            A64::Sub(d, a, b) => A64V::Sub(d@, a@, b@),
            A64::Mul(d, a, b) => A64V::Mul(d@, a@, b@),
            A64::Div(d, a, b) => A64V::Div(d@, a@, b@),
            A64::Move(d, s) => A64V::Move(d@, s@),
            A64::Branch(l, r) => A64V::Branch(l@, *r),
            A64::BranchLink(l) => A64V::BranchLink(l@),
            A64::Call(e) => A64V::Call(e@),
            A64::Compare(a, b) => A64V::Compare(a@, b@),
            A64::Ret => A64V::Ret,
        }
    }
}

/// The view of a list of register names.
pub open spec fn names(v: Seq<String>) -> Seq<Seq<char>> {
    v.map_values(|s: String| s@)
}

/// The frame pointer register, which register allocation never renames.
pub open spec fn frame_pointer() -> Seq<char> {
    "x29"@
}

/// The registers an instruction writes.
pub open spec fn defines_of(i: A64V) -> Seq<Seq<char>> {
    match i {
        A64V::LoadImmediate(dst, _, _) | A64V::LoadEffective(dst, _) | A64V::Add(dst, _, _)
        | A64V::Sub(dst, _, _) | A64V::Mul(dst, _, _) | A64V::Div(dst, _, _) => seq![dst],
        A64V::LoadPair(r1, r2) => seq![r1, r2],
        A64V::Move(dst, _) => seq![dst],
        _ => Seq::empty(),
    }
}

/// The registers an instruction reads; the frame pointer as a base address is not counted.
pub open spec fn uses_of(i: A64V) -> Seq<Seq<char>> {
    match i {
        A64V::StoreImmediate(src, dst, _) => if dst == frame_pointer() {
            seq![src]
        } else {
            seq![src, dst]
        },
        A64V::LoadImmediate(dst, src, _) => if src == frame_pointer() {
            seq![dst]
        } else {
            seq![dst, src]
        },
        A64V::LoadEffective(_, src) | A64V::Move(_, src) => seq![src],
        A64V::StorePair(r1, r2) | A64V::Add(_, r1, r2) | A64V::Sub(_, r1, r2)
        | A64V::Mul(_, r1, r2) | A64V::Div(_, r1, r2) => seq![r1, r2],
        A64V::Compare(lhs, rhs) => seq![lhs, rhs],
        _ => Seq::empty(),
    }
}

/// Whether an instruction is a branch.
pub open spec fn jump_of(i: A64V) -> bool {
    i is Branch || i is BranchLink
}

/// The name an instruction labels.
pub open spec fn label_of(i: A64V) -> Option<Seq<char>> {
    match i {
        A64V::Label(l) => Some(l),
        _ => None,
    }
}

/// The label an instruction branches to.
pub open spec fn target_of(i: A64V) -> Option<Seq<char>> {
    match i {
        A64V::BranchLink(l) | A64V::Branch(l, _) => Some(l),
        _ => None,
    }
}

/// The register that stands for a name after allocation: the frame pointer stays as it is.
pub open spec fn allocated(registers: Seq<(Seq<char>, Seq<char>)>, temp: Seq<char>) -> Seq<char> {
    if temp == frame_pointer() {
        temp
    } else {
        register_of(registers, temp)
    }
}

/// An instruction with its temporaries replaced by their registers. Labels, data, addresses
/// and branch targets are left as they are.
pub open spec fn format_of(i: A64V, r: Seq<(Seq<char>, Seq<char>)>) -> A64V {
    match i {
        A64V::LoadImmediate(d, s, o) => A64V::LoadImmediate(allocated(r, d), allocated(r, s), o),
        A64V::StoreImmediate(s, d, o) => A64V::StoreImmediate(allocated(r, s), allocated(r, d), o),
        A64V::LoadEffective(d, a) => A64V::LoadEffective(allocated(r, d), a),
        A64V::StorePair(a, b) => A64V::StorePair(allocated(r, a), allocated(r, b)),
        A64V::LoadPair(a, b) => A64V::LoadPair(allocated(r, a), allocated(r, b)),
        A64V::Add(d, a, b) => A64V::Add(allocated(r, d), allocated(r, a), allocated(r, b)),
        A64V::Sub(d, a, b) => A64V::Sub(allocated(r, d), allocated(r, a), allocated(r, b)),
        A64V::Mul(d, a, b) => A64V::Mul(allocated(r, d), allocated(r, a), allocated(r, b)),
        A64V::Div(d, a, b) => A64V::Div(allocated(r, d), allocated(r, a), allocated(r, b)),
        A64V::Move(d, s) => A64V::Move(allocated(r, d), allocated(r, s)),
        A64V::Compare(a, b) => A64V::Compare(allocated(r, a), allocated(r, b)),
        _ => i,
    }
}

/// The registers an instruction's text reads are among its uses, and the registers it
/// writes are among its definitions: both operands of an arithmetic instruction, a
/// comparison and a store pair are read; the source of a move, and the source and (unless
/// it is the frame pointer) the base of a store are read; the destination of a load, a move
/// and an arithmetic instruction, and both registers of a load pair, are written.
pub proof fn law_uses_and_defines(i: A64V)
    ensures
        match i {
            A64V::Compare(a, b) | A64V::StorePair(a, b) => uses_of(i).contains(a) && uses_of(i).contains(b),
            A64V::Add(d, a, b) | A64V::Sub(d, a, b) | A64V::Mul(d, a, b) | A64V::Div(d, a, b) =>
                uses_of(i).contains(a) && uses_of(i).contains(b) && defines_of(i).contains(d),
            A64V::Move(d, src) => uses_of(i).contains(src) && defines_of(i).contains(d),
            A64V::StoreImmediate(src, base, _) => uses_of(i).contains(src)
                && (base != frame_pointer() ==> uses_of(i).contains(base)) && defines_of(i).len() == 0,
            A64V::LoadImmediate(d, base, _) => defines_of(i).contains(d)
                && (base != frame_pointer() ==> uses_of(i).contains(base)),
            A64V::LoadEffective(d, _) => defines_of(i).contains(d),
            A64V::LoadPair(a, b) => defines_of(i).contains(a) && defines_of(i).contains(b),
            _ => uses_of(i).len() == 0 && defines_of(i).len() == 0,
        },
{
    match i {
        A64V::Compare(a, b) | A64V::StorePair(a, b) => {
            assert(uses_of(i)[0] == a && uses_of(i)[1] == b);
        },
        A64V::Add(d, a, b) | A64V::Sub(d, a, b) | A64V::Mul(d, a, b) | A64V::Div(d, a, b) => {
            assert(uses_of(i)[0] == a && uses_of(i)[1] == b && defines_of(i)[0] == d);
        },
        A64V::Move(d, src) => {
            assert(uses_of(i)[0] == src && defines_of(i)[0] == d);
        },
        A64V::StoreImmediate(src, base, _) => {
            assert(uses_of(i)[0] == src);
            if base != frame_pointer() {
                assert(uses_of(i)[1] == base);
            }
        },
        A64V::LoadImmediate(d, base, _) => {
            assert(defines_of(i)[0] == d);
            if base != frame_pointer() {
                assert(uses_of(i)[1] == base);
            }
        },
        A64V::LoadEffective(d, _) => {
            assert(defines_of(i)[0] == d);
        },
        A64V::LoadPair(a, b) => {
            assert(defines_of(i)[0] == a && defines_of(i)[1] == b);
        },
        _ => {},
    }
}

/// Substituting registers changes no label, no branch and no branch target.
pub proof fn law_format_keeps_control_flow(i: A64V, r: Seq<(Seq<char>, Seq<char>)>)
    ensures
        jump_of(format_of(i, r)) == jump_of(i),
        label_of(format_of(i, r)) == label_of(i),
        target_of(format_of(i, r)) == target_of(i),
{
}

proof fn lemma_register_not_frame_pointer(r: Seq<(Seq<char>, Seq<char>)>, t: Seq<char>)
    requires
        t != frame_pointer(),
        forall|k: int| 0 <= k < r.len() ==> (#[trigger] r[k]).1 != frame_pointer(),
    ensures
        allocated(r, t) != frame_pointer(),
    decreases r.len(),
{
    if r.len() > 0 && r.last().0 != t {
        assert forall|k: int| 0 <= k < r.drop_last().len() implies (#[trigger] r.drop_last()[k]).1 != frame_pointer() by {
            assert(r.drop_last()[k] == r[k]);
        }
        lemma_register_not_frame_pointer(r.drop_last(), t);
    } else if r.len() > 0 {
        assert(r[r.len() - 1].1 != frame_pointer());
    }
}

/// After substitution an instruction defines the registers of the names it defined before,
/// and (but for an address load, whose address is no register) uses the registers of the
/// names it used before, provided no name was given the frame pointer.
pub proof fn law_format_renames_registers(i: A64V, r: Seq<(Seq<char>, Seq<char>)>)
    requires
        forall|k: int| 0 <= k < r.len() ==> (#[trigger] r[k]).1 != frame_pointer(),
    ensures
        defines_of(format_of(i, r)) == defines_of(i).map_values(|t: Seq<char>| allocated(r, t)),
        !(i is LoadEffective) ==> uses_of(format_of(i, r)) == uses_of(i).map_values(
            |t: Seq<char>| allocated(r, t),
        ),
{
    let f = |t: Seq<char>| allocated(r, t);
    match i {
        A64V::StoreImmediate(src, dst, o) => {
            if dst != frame_pointer() {
                lemma_register_not_frame_pointer(r, dst);
                assert(uses_of(format_of(i, r)) =~= seq![f(src), f(dst)]);
            } else {
                assert(uses_of(format_of(i, r)) =~= seq![f(src)]);
            }
            assert(uses_of(format_of(i, r)) =~= uses_of(i).map_values(f));
        },
        A64V::LoadImmediate(dst, src, o) => {
            if src != frame_pointer() {
                lemma_register_not_frame_pointer(r, src);
                assert(uses_of(format_of(i, r)) =~= seq![f(dst), f(src)]);
            } else {
                assert(uses_of(format_of(i, r)) =~= seq![f(dst)]);
            }
            assert(uses_of(format_of(i, r)) =~= uses_of(i).map_values(f));
        },
        A64V::LoadEffective(..) => {},
        _ => {
            assert(uses_of(format_of(i, r)) =~= uses_of(i).map_values(f));
        },
    }
    assert(defines_of(format_of(i, r)) =~= defines_of(i).map_values(f));
}

/// The condition-code suffix of a conditional branch.
pub open spec fn rel_text(rel: RelOp) -> Seq<char> {
    match rel {
        RelOp::Equal => ".eq"@,
        RelOp::NotEqual => ".ne"@,
        RelOp::Less => ".lt"@,
        RelOp::Greater => ".gt"@,
        RelOp::LessEqual => ".le"@,
        RelOp::GreaterEqual => ".ge"@,
    }
}

/// The indentation of an instruction line.
pub open spec fn pad() -> Seq<char> {
    "        "@
}

/// The assembly text of an instruction.
pub open spec fn a64_text(i: A64V) -> Seq<char> {
    match i {
        A64V::Data(kind, value) => pad() + "."@ + kind + " "@ + value,
        A64V::Label(name) => name + ":"@,
        A64V::LoadImmediate(dst, src, offset) => pad() + "ldr "@ + dst + ", ["@ + src + ", #"@
            + signed_decimal(offset as int) + "]"@,
        A64V::StoreImmediate(src, dst, offset) => pad() + "str "@ + src + ", ["@ + dst + ", #"@
            + signed_decimal(offset as int) + "]"@,
        A64V::LoadEffective(dst, addr) => pad() + "adrp "@ + dst + ", "@ + addr + "@PAGE\n"@
            + pad() + "add "@ + dst + ", "@ + dst + ", "@ + addr + "@PAGEOFF"@,
        A64V::StorePair(r1, r2) => pad() + "stp "@ + r1 + ", "@ + r2 + ", [sp, #-16]!"@,
        A64V::LoadPair(r1, r2) => pad() + "ldp "@ + r1 + ", "@ + r2 + ", [sp], #16"@,
        A64V::Add(dst, r1, r2) => pad() + "add "@ + dst + ", "@ + r1 + ", "@ + r2,
        A64V::Sub(dst, r1, r2) => pad() + "sub "@ + dst + ", "@ + r1 + ", "@ + r2,
        A64V::Mul(dst, r1, r2) => pad() + "mul "@ + dst + ", "@ + r1 + ", "@ + r2,
        A64V::Div(dst, r1, r2) => pad() + "sdiv "@ + dst + ", "@ + r1 + ", "@ + r2,
        A64V::Move(dst, src) => pad() + "mov "@ + dst + ", "@ + src,
        A64V::Branch(label, rel) => match rel {
            Some(rel) => pad() + "b"@ + rel_text(rel) + " "@ + label,
            None => pad() + "b "@ + label,
        },
        A64V::BranchLink(label) => pad() + "bl "@ + label,
        A64V::Call(ext) => pad() + "bl "@ + ext,
        A64V::Compare(lhs, rhs) => pad() + "cmp "@ + lhs + ", "@ + rhs,
        A64V::Ret => pad() + "ret"@,
    }
}

fn push(out: &mut String, s: &String)
    ensures
        final(out)@ == old(out)@ + s@,
{
    out.append(s.as_str());
}

fn push_rel(out: &mut String, rel: RelOp)
    ensures
        final(out)@ == old(out)@ + rel_text(rel),
{
    match rel {
        RelOp::Equal => out.append(".eq"),
        RelOp::NotEqual => out.append(".ne"),
        RelOp::Less => out.append(".lt"),
        RelOp::Greater => out.append(".gt"),
        RelOp::LessEqual => out.append(".le"),
        RelOp::GreaterEqual => out.append(".ge"),
    }
}

/// Appends a three-register instruction: the mnemonic, then the registers separated by commas.
fn push_three(out: &mut String, mnemonic: &str, dst: &String, r1: &String, r2: &String)
    ensures
        final(out)@ == old(out)@ + pad() + mnemonic@ + dst@ + ", "@ + r1@ + ", "@ + r2@,
{
    out.append("        ");
    out.append(mnemonic);
    push(out, dst);
    out.append(", ");
    push(out, r1);
    out.append(", ");
    push(out, r2);
}

impl A64 {
    /// A label.
    pub fn create_label(address: String) -> (r: A64)
        ensures
            r@ == A64V::Label(address@),
    {
        A64::Label(address)
    }

    /// A data directive of the given kind and value.
    pub fn data_fragment(kind: String, value: String) -> (r: A64)
        ensures
            r@ == A64V::Data(kind@, value@),
    {
        A64::Data(kind, value)
    }

    /// Loads the address of `label` into `dst`.
    pub fn load_fragment(dst: String, label: String) -> (r: A64)
        ensures
            r@ == A64V::LoadEffective(dst@, label@),
    {
        A64::LoadEffective(dst, label)
    }

    /// Copies `src` into `dst`.
    pub fn copy(dst: String, src: String) -> (r: A64)
        ensures
            r@ == A64V::Move(dst@, src@),
    {
        A64::Move(dst, src)
    }

    /// Copies the immediate `value` into `dst`.
    pub fn copy_int(dst: String, value: i64) -> (r: A64)
        ensures
            r@ == A64V::Move(dst@, "#"@ + signed_decimal(value as int)),
    {
        let mut imm = String::from_str("#");
        push_signed(&mut imm, value);
        A64::Move(dst, imm)
    }

    /// Adds `src` to `dst`.
    pub fn add(dst: String, src: String) -> (r: A64)
        ensures
            r@ == A64V::Add(dst@, dst@, src@),
    {
        A64::Add(dst.clone(), dst, src)
    }

    /// Subtracts `src` from `dst`.
    pub fn sub(dst: String, src: String) -> (r: A64)
        ensures
            r@ == A64V::Sub(dst@, dst@, src@),
    {
        A64::Sub(dst.clone(), dst, src)
    }

    /// Multiplies `dst` by `src`.
    pub fn mul(dst: String, src: String) -> (r: A64)
        ensures
            r@ == A64V::Mul(dst@, dst@, src@),
    {
        A64::Mul(dst.clone(), dst, src)
    }

    /// Divides `dst` by `src`.
    pub fn div(dst: String, src: String) -> (r: A64)
        ensures
            r@ == A64V::Div(dst@, dst@, src@),
    {
        A64::Div(dst.clone(), dst, src)
    }

    /// Compares `lhs` with `rhs`.
    pub fn compare(lhs: String, rhs: String) -> (r: A64)
        ensures
            r@ == A64V::Compare(lhs@, rhs@),
    {
        A64::Compare(lhs, rhs)
    }

    /// Loads the word at `offset` from `src` into `dst`.
    pub fn load(dst: String, src: String, offset: i64) -> (r: A64)
        ensures
            r@ == A64V::LoadImmediate(dst@, src@, offset),
    {
        A64::LoadImmediate(dst, src, offset)
    }

    /// Stores `src` at `offset` from `addr`.
    pub fn store(src: String, addr: String, offset: i64) -> (r: A64)
        ensures
            r@ == A64V::StoreImmediate(src@, addr@, offset),
    {
        A64::StoreImmediate(src, addr, offset)
    }

    /// An unconditional branch to `label`.
    pub fn create_jump(label: String) -> (r: A64)
        ensures
            r@ == A64V::Branch(label@, None),
    {
        A64::Branch(label, None)
    }

    /// A branch to `label` taken when the last comparison satisfied `rel`.
    pub fn conditional_jump(label: String, rel: RelOp) -> (r: A64)
        ensures
            r@ == A64V::Branch(label@, Some(rel)),
    {
        A64::Branch(label, Some(rel))
    }

    /// A call of the external function `label`.
    pub fn call(label: String) -> (r: A64)
        ensures
            r@ == A64V::Call(label@),
    {
        A64::Call(label)
    }

    /// The registers the instruction writes.
    pub fn defines(&self) -> (r: Vec<String>)
        ensures
            names(r@) == defines_of(self@),
    {
        let r = match self {
            A64::LoadImmediate(dst, ..) | A64::LoadEffective(dst, ..) | A64::Add(dst, ..)
            | A64::Sub(dst, ..) | A64::Mul(dst, ..) | A64::Div(dst, ..) => vec![dst.clone()],
            A64::LoadPair(r1, r2) => vec![r1.clone(), r2.clone()],
            A64::Move(dst, ..) => vec![dst.clone()],
            _ => vec![],
        };
        assert(names(r@) =~= defines_of(self@));
        r
    }

    /// The registers the instruction reads; the frame pointer as a base address is not counted.
    pub fn uses(&self) -> (r: Vec<String>)
        ensures
            names(r@) == uses_of(self@),
    {
        let r = match self {
            A64::StoreImmediate(src, dst, ..) => if str_equal(dst.as_str(), "x29") {
                vec![src.clone()]
            } else {
                vec![src.clone(), dst.clone()]
            },
            A64::LoadImmediate(dst, src, ..) => if str_equal(src.as_str(), "x29") {
                vec![dst.clone()]
            } else {
                vec![dst.clone(), src.clone()]
            },
            A64::LoadEffective(.., src) | A64::Move(_, src) => vec![src.clone()],
            A64::StorePair(r1, r2) | A64::Add(_, r1, r2) | A64::Sub(_, r1, r2)
            | A64::Mul(_, r1, r2) | A64::Div(_, r1, r2) => vec![r1.clone(), r2.clone()],
            A64::Compare(lhs, rhs) => vec![lhs.clone(), rhs.clone()],
            _ => vec![],
        };
        assert(names(r@) =~= uses_of(self@));
        r
    }

    /// Whether the instruction is a branch.
    pub fn jump(&self) -> (r: bool)
        ensures
            r == jump_of(self@),
    {
        matches!(self, A64::Branch(..) | A64::BranchLink(..))
    }

    /// The name the instruction labels, if it is a label.
    pub fn label(&self) -> (r: Option<String>)
        ensures
            match label_of(self@) {
                Some(l) => r is Some && r->0@ == l,
                None => r is None,
            },
    {
        match self {
            A64::Label(label) => Some(label.clone()),
            _ => None,
        }
    }

    /// The label the instruction branches to, if it is a branch.
    pub fn to(&self) -> (r: Option<String>)
        ensures
            match target_of(self@) {
                Some(l) => r is Some && r->0@ == l,
                None => r is None,
            },
    {
        match self {
            A64::BranchLink(label) | A64::Branch(label, ..) => Some(label.clone()),
            _ => None,
        }
    }

    /// The instruction with each temporary replaced by its register.
    pub fn format(self, registers: &Registers) -> (r: A64)
        ensures
            r@ == format_of(self@, registers@),
    {
        match self {
            A64::LoadImmediate(dst, src, offset) => A64::LoadImmediate(
                allocated_name(registers, dst),
                allocated_name(registers, src),
                offset,
            ),
            A64::StoreImmediate(src, dst, offset) => A64::StoreImmediate(
                allocated_name(registers, src),
                allocated_name(registers, dst),
                offset,
            ),
            A64::LoadEffective(dst, addr) => A64::LoadEffective(allocated_name(registers, dst), addr),
            A64::StorePair(r1, r2) => A64::StorePair(
                allocated_name(registers, r1),
                allocated_name(registers, r2),
            ),
            A64::LoadPair(r1, r2) => A64::LoadPair(
                allocated_name(registers, r1),
                allocated_name(registers, r2),
            ),
            A64::Add(dst, r1, r2) => A64::Add(
                allocated_name(registers, dst),
                allocated_name(registers, r1),
                allocated_name(registers, r2),
            ),
            A64::Sub(dst, r1, r2) => A64::Sub(
                allocated_name(registers, dst),
                allocated_name(registers, r1),
                allocated_name(registers, r2),
            ),
            A64::Mul(dst, r1, r2) => A64::Mul(
                allocated_name(registers, dst),
                allocated_name(registers, r1),
                allocated_name(registers, r2),
            ),
            A64::Div(dst, r1, r2) => A64::Div(
                allocated_name(registers, dst),
                allocated_name(registers, r1),
                allocated_name(registers, r2),
            ),
            A64::Move(dst, src) => A64::Move(
                allocated_name(registers, dst),
                allocated_name(registers, src),
            ),
            A64::Compare(lhs, rhs) => A64::Compare(
                allocated_name(registers, lhs),
                allocated_name(registers, rhs),
            ),
            other => other,
        }
    }

    /// The assembly text of the instruction.
    pub fn to_text(&self) -> (r: String)
        ensures
            r@ == a64_text(self@),
    {
        let mut out = String::new();
        match self {
            A64::Data(kind, value) => {
                out.append("        ");
                out.append(".");
                push(&mut out, kind);
                out.append(" ");
                push(&mut out, value);
            },
            A64::Label(name) => {
                push(&mut out, name);
                out.append(":");
            },
            A64::LoadImmediate(dst, src, offset) => {
                out.append("        ");
                out.append("ldr ");
                push(&mut out, dst);
                out.append(", [");
                push(&mut out, src);
                out.append(", #");
                push_signed(&mut out, *offset);
                out.append("]");
            },
            A64::StoreImmediate(src, dst, offset) => {
                out.append("        ");
                out.append("str ");
                push(&mut out, src);
                out.append(", [");
                push(&mut out, dst);
                out.append(", #");
                push_signed(&mut out, *offset);
                out.append("]");
            },
            A64::LoadEffective(dst, addr) => {
                out.append("        ");
                out.append("adrp ");
                push(&mut out, dst);
                out.append(", ");
                push(&mut out, addr);
                out.append("@PAGE\n");
                out.append("        ");
                out.append("add ");
                push(&mut out, dst);
                out.append(", ");
                push(&mut out, dst);
                out.append(", ");
                push(&mut out, addr);
                out.append("@PAGEOFF");
            },
            A64::StorePair(r1, r2) => {
                out.append("        ");
                out.append("stp ");
                push(&mut out, r1);
                out.append(", ");
                push(&mut out, r2);
                out.append(", [sp, #-16]!");
            },
            A64::LoadPair(r1, r2) => {
                out.append("        ");
                out.append("ldp ");
                push(&mut out, r1);
                out.append(", ");
                push(&mut out, r2);
                out.append(", [sp], #16");
            },
            A64::Add(dst, r1, r2) => push_three(&mut out, "add ", dst, r1, r2),
            A64::Sub(dst, r1, r2) => push_three(&mut out, "sub ", dst, r1, r2),
            A64::Mul(dst, r1, r2) => push_three(&mut out, "mul ", dst, r1, r2),
            A64::Div(dst, r1, r2) => push_three(&mut out, "sdiv ", dst, r1, r2),
            A64::Move(dst, src) => {
                out.append("        ");
                out.append("mov ");
                push(&mut out, dst);
                out.append(", ");
                push(&mut out, src);
            },
            A64::Branch(label, rel) => {
                match rel {
                    Some(rel) => {
                        out.append("        ");
                        out.append("b");
                        push_rel(&mut out, *rel);
                        out.append(" ");
                        push(&mut out, label);
                    },
                    None => {
                        out.append("        ");
                        out.append("b ");
                        push(&mut out, label);
                    },
                }
            },
            A64::BranchLink(label) => {
                out.append("        ");
                out.append("bl ");
                push(&mut out, label);
            },
            A64::Call(ext) => {
                out.append("        ");
                out.append("bl ");
                push(&mut out, ext);
            },
            A64::Compare(lhs, rhs) => {
                out.append("        ");
                out.append("cmp ");
                push(&mut out, lhs);
                out.append(", ");
                push(&mut out, rhs);
            },
            A64::Ret => {
                out.append("        ");
                out.append("ret");
            },
        }
        out
    }
}

/// The register that stands for `temp` after allocation; the frame pointer stays as it is.
fn allocated_name(registers: &Registers, temp: String) -> (r: String)
    ensures
        r@ == allocated(registers@, temp@),
{
    if str_equal(temp.as_str(), "x29") {
        temp
    } else {
        registers.get(temp.as_str())
    }
}

} // verus!
