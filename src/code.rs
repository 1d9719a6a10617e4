//! Assembly of function bodies: the locals of a function and the
//! instruction stream.
use vstd::prelude::*;
use crate::leb::{sleb, uleb, LebSerialize, BitwiseSerialize, le_bytes};
use crate::module::{Code, FuncIdx, FuncType, GlobalIdx, LocalIdx, TypeIdx, ValType, WasmModule, MAX_ENTRIES};

verus! {

/// The parameters of a function, which come first in its local index
/// space, and the locals declared after them.
pub struct LocalsManager {
    pub param_types: Vec<ValType>,
    pub local_types: Vec<ValType>,
}

impl LocalsManager {
    /// All locals, parameters first.
    pub open spec fn all_types(&self) -> Seq<ValType> {
        self.param_types@ + self.local_types@
    }

    pub fn new(param_types: Vec<ValType>) -> (r: LocalsManager)
        ensures
            r.param_types@ == param_types@,
            r.local_types@.len() == 0,
    {
        LocalsManager { param_types, local_types: Vec::new() }
    }

    /// The local index of parameter `i`.
    pub fn param(&self, i: u32) -> (r: LocalIdx)
        requires
            i < self.param_types@.len(),
        ensures
            r.idx == i,
    {
        LocalIdx { idx: i }
    }

    /// Declares a new local of type `valtype` and returns its index.
    pub fn add(&mut self, valtype: ValType) -> (r: LocalIdx)
        requires
            old(self).all_types().len() < MAX_ENTRIES,
        ensures
            r.idx == old(self).all_types().len(),
            final(self).param_types == old(self).param_types,
            final(self).local_types@ == old(self).local_types@.push(valtype),
    {
        let r = LocalIdx { idx: (self.param_types.len() + self.local_types.len()) as u32 };
        self.local_types.push(valtype);
        r
    }
}

/// A structured control construct that is open in the instruction stream.
#[derive(Clone, Copy, PartialEq, Eq, Structural, Debug)]
pub enum Control {
    Function,
    Block,
    Loop,
    If,
    Else,
}

/// Control constructs that do not close in order.
#[derive(Clone, Copy, PartialEq, Eq, Structural, Debug)]
pub enum EmitError {
    UnbalancedControl,
}

/// The byte of a block type: none, or one result value.
pub open spec fn block_type_byte(bt: Option<ValType>) -> u8 {
    match bt {
        None => 0x40u8,
        Some(t) => t.spec_value(),
    }
}

fn block_type_value(bt: Option<ValType>) -> (r: u8)
    ensures
        r == block_type_byte(bt),
{
    match bt {
        None => 0x40u8,
        Some(t) => t.value(),
    }
}

/// Appends instructions to a function body and tracks which control
/// constructs are open, the function body itself outermost.
pub struct ExprEmitter {
    pub bytecode: Vec<u8>,
    pub control: Vec<Control>,
}

impl ExprEmitter {
    /// An empty instruction stream inside the function body.
    pub fn new() -> (r: ExprEmitter)
        ensures
            r.bytecode@.len() == 0,
            r.control@ == seq![Control::Function],
    {
        let mut control: Vec<Control> = Vec::new();
        control.push(Control::Function);
        ExprEmitter { bytecode: Vec::new(), control }
    }

    /// The number of open control constructs.
    pub fn depth(&self) -> (r: usize)
        ensures
            r == self.control@.len(),
    {
        self.control.len()
    }

    fn open(&mut self, opcode: u8, kind: Control, bt: Option<ValType>)
        ensures
            final(self).bytecode@ == old(self).bytecode@ + seq![opcode, block_type_byte(bt)],
            final(self).control@ == old(self).control@.push(kind),
    {
        self.bytecode.push(opcode);
        self.bytecode.push(block_type_value(bt));
        self.control.push(kind);
        assert(self.bytecode@ =~= old(self).bytecode@ + seq![opcode, block_type_byte(bt)]);
    }

    /// Opens a block; a branch to it goes to its end.
    pub fn block(&mut self, bt: Option<ValType>)
        ensures
            final(self).bytecode@ == old(self).bytecode@ + seq![0x02u8, block_type_byte(bt)],
            final(self).control@ == old(self).control@.push(Control::Block),
    {
        self.open(0x02u8, Control::Block, bt);
    }

    /// Opens a loop; a branch to it goes to its start.
    pub fn loop_(&mut self, bt: Option<ValType>)
        ensures
            final(self).bytecode@ == old(self).bytecode@ + seq![0x03u8, block_type_byte(bt)],
            final(self).control@ == old(self).control@.push(Control::Loop),
    {
        self.open(0x03u8, Control::Loop, bt);
    }

    /// Opens a conditional on the top of the stack.
    pub fn if_(&mut self, bt: Option<ValType>)
        ensures
            final(self).bytecode@ == old(self).bytecode@ + seq![0x04u8, block_type_byte(bt)],
            final(self).control@ == old(self).control@.push(Control::If),
    {
        self.open(0x04u8, Control::If, bt);
    }

    /// Starts the else branch of the innermost conditional; fails when the
    /// innermost open construct is not a conditional without an else.
    pub fn else_(&mut self) -> (r: Result<(), EmitError>)
        ensures
            r is Ok <==> old(self).control@.len() > 0 && old(self).control@.last() == Control::If,
            r is Ok ==> final(self).bytecode@ == old(self).bytecode@.push(0x05u8)
                && final(self).control@ == old(self).control@.drop_last().push(Control::Else),
            r is Err ==> *final(self) == *old(self),
    {
        let n = self.control.len();
        if n == 0 || self.control[n - 1] != Control::If {
            return Err(EmitError::UnbalancedControl);
        }
        self.control.pop();
        self.control.push(Control::Else);
        self.bytecode.push(0x05u8);
        Ok(())
    }

    /// Closes the innermost open construct, the function body last; fails
    /// when nothing is open.
    pub fn end(&mut self) -> (r: Result<(), EmitError>)
        ensures
            r is Ok <==> old(self).control@.len() > 0,
            r is Ok ==> final(self).bytecode@ == old(self).bytecode@.push(0x0Bu8)
                && final(self).control@ == old(self).control@.drop_last(),
            r is Err ==> *final(self) == *old(self),
    {
        if self.control.len() == 0 {
            return Err(EmitError::UnbalancedControl);
        }
        self.control.pop();
        self.bytecode.push(0x0Bu8);
        Ok(())
    }

    /// Branches through a table of labels by the top of the stack, to
    /// `default` when it is out of range.
    pub fn br_table(&mut self, labels: &Vec<u32>, default: u32)
        ensures
            final(self).bytecode@ == old(self).bytecode@ + seq![0x0Eu8] + uleb((labels@.len() as u32) as nat)
                + labels_wasm(labels@) + uleb(default as nat),
            final(self).control == old(self).control,
    {
        self.bytecode.push(0x0Eu8);
        (labels.len() as u32).leb_serialize(&mut self.bytecode);
        let ghost start = self.bytecode@;
        let mut i: usize = 0;
        while i < labels.len()
            invariant
                i <= labels@.len(),
                self.bytecode@ == start + labels_wasm(labels@.subrange(0, i as int)),
                self.control == old(self).control,
            decreases labels@.len() - i,
        {
            labels[i].leb_serialize(&mut self.bytecode);
            i += 1;
            assert(labels@.subrange(0, i as int).drop_last() =~= labels@.subrange(0, i - 1));
        }
        assert(labels@.subrange(0, labels@.len() as int) =~= labels@);
        default.leb_serialize(&mut self.bytecode);
        assert(self.bytecode@ =~= old(self).bytecode@ + seq![0x0Eu8] + uleb((labels@.len() as u32) as nat)
                + labels_wasm(labels@) + uleb(default as nat));
    }

    pub fn f64_eq(&mut self)
        ensures
            final(self).bytecode@ == old(self).bytecode@ + seq![0x61u8],
            final(self).control == old(self).control,
    {
        self.bytecode.push(0x61u8);
        assert(self.bytecode@ =~= old(self).bytecode@ + seq![0x61u8]);
    }

    pub fn f64_ne(&mut self)
        ensures
            final(self).bytecode@ == old(self).bytecode@ + seq![0x62u8],
            final(self).control == old(self).control,
    {
        self.bytecode.push(0x62u8);
        assert(self.bytecode@ =~= old(self).bytecode@ + seq![0x62u8]);
    }

    pub fn f64_lt(&mut self)
        ensures
            final(self).bytecode@ == old(self).bytecode@ + seq![0x63u8],
            final(self).control == old(self).control,
    {
        self.bytecode.push(0x63u8);
        assert(self.bytecode@ =~= old(self).bytecode@ + seq![0x63u8]);
    }

    pub fn f64_gt(&mut self)
        ensures
            final(self).bytecode@ == old(self).bytecode@ + seq![0x64u8],
            final(self).control == old(self).control,
    {
        self.bytecode.push(0x64u8);
        assert(self.bytecode@ =~= old(self).bytecode@ + seq![0x64u8]);
    }

    pub fn f64_le(&mut self)
        ensures
            final(self).bytecode@ == old(self).bytecode@ + seq![0x65u8],
            final(self).control == old(self).control,
    {
        self.bytecode.push(0x65u8);
        assert(self.bytecode@ =~= old(self).bytecode@ + seq![0x65u8]);
    }

    pub fn f64_ge(&mut self)
        ensures
            final(self).bytecode@ == old(self).bytecode@ + seq![0x66u8],
            final(self).control == old(self).control,
    {
        self.bytecode.push(0x66u8);
        assert(self.bytecode@ =~= old(self).bytecode@ + seq![0x66u8]);
    }

    pub fn f64_neg(&mut self)
        ensures
            final(self).bytecode@ == old(self).bytecode@ + seq![0x9Au8],
            final(self).control == old(self).control,
    {
        self.bytecode.push(0x9Au8);
        assert(self.bytecode@ =~= old(self).bytecode@ + seq![0x9Au8]);
    }

    pub fn f64_trunc(&mut self)
        ensures
            final(self).bytecode@ == old(self).bytecode@ + seq![0x9Du8],
            final(self).control == old(self).control,
    {
        self.bytecode.push(0x9Du8);
        assert(self.bytecode@ =~= old(self).bytecode@ + seq![0x9Du8]);
    }

    pub fn f64_convert_i32_u(&mut self)
        ensures
            final(self).bytecode@ == old(self).bytecode@ + seq![0xB8u8],
            final(self).control == old(self).control,
    {
        self.bytecode.push(0xB8u8);
        assert(self.bytecode@ =~= old(self).bytecode@ + seq![0xB8u8]);
    }

    pub fn i32_trunc_f64_u(&mut self)
        ensures
            final(self).bytecode@ == old(self).bytecode@ + seq![0xABu8],
            final(self).control == old(self).control,
    {
        self.bytecode.push(0xABu8);
        assert(self.bytecode@ =~= old(self).bytecode@ + seq![0xABu8]);
    }

    pub fn i64_and(&mut self)
        ensures
            final(self).bytecode@ == old(self).bytecode@ + seq![0x83u8],
            final(self).control == old(self).control,
    {
        self.bytecode.push(0x83u8);
        assert(self.bytecode@ =~= old(self).bytecode@ + seq![0x83u8]);
    }

    pub fn i64_or(&mut self)
        ensures
            final(self).bytecode@ == old(self).bytecode@ + seq![0x84u8],
            final(self).control == old(self).control,
    {
        self.bytecode.push(0x84u8);
        assert(self.bytecode@ =~= old(self).bytecode@ + seq![0x84u8]);
    }

    pub fn i64_shl(&mut self)
        ensures
            final(self).bytecode@ == old(self).bytecode@ + seq![0x86u8],
            final(self).control == old(self).control,
    {
        self.bytecode.push(0x86u8);
        assert(self.bytecode@ =~= old(self).bytecode@ + seq![0x86u8]);
    }

    pub fn i64_shr_u(&mut self)
        ensures
            final(self).bytecode@ == old(self).bytecode@ + seq![0x88u8],
            final(self).control == old(self).control,
    {
        self.bytecode.push(0x88u8);
        assert(self.bytecode@ =~= old(self).bytecode@ + seq![0x88u8]);
    }

    pub fn i32_wrap_i64(&mut self)
        ensures
            final(self).bytecode@ == old(self).bytecode@ + seq![0xA7u8],
            final(self).control == old(self).control,
    {
        self.bytecode.push(0xA7u8);
        assert(self.bytecode@ =~= old(self).bytecode@ + seq![0xA7u8]);
    }

    pub fn i64_extend_i32_u(&mut self)
        ensures
            final(self).bytecode@ == old(self).bytecode@ + seq![0xADu8],
            final(self).control == old(self).control,
    {
        self.bytecode.push(0xADu8);
        assert(self.bytecode@ =~= old(self).bytecode@ + seq![0xADu8]);
    }

    pub fn i64_trunc_f64_u(&mut self)
        ensures
            final(self).bytecode@ == old(self).bytecode@ + seq![0xB1u8],
            final(self).control == old(self).control,
    {
        self.bytecode.push(0xB1u8);
        assert(self.bytecode@ =~= old(self).bytecode@ + seq![0xB1u8]);
    }

    pub fn f64_convert_i64_u(&mut self)
        ensures
            final(self).bytecode@ == old(self).bytecode@ + seq![0xBAu8],
            final(self).control == old(self).control,
    {
        self.bytecode.push(0xBAu8);
        assert(self.bytecode@ =~= old(self).bytecode@ + seq![0xBAu8]);
    }

    /// Calls through the table by the type of the callee.
    pub fn call_indirect(&mut self, type_idx: TypeIdx)
        ensures
            final(self).bytecode@ == old(self).bytecode@ + seq![0x11u8] + uleb(type_idx.idx as nat) + seq![0x00u8],
            final(self).control == old(self).control,
    {
        self.bytecode.push(0x11u8);
        type_idx.idx.leb_serialize(&mut self.bytecode);
        self.bytecode.push(0x00u8);
        assert(self.bytecode@ =~= old(self).bytecode@ + seq![0x11u8] + uleb(type_idx.idx as nat) + seq![0x00u8]);
    }

    /// Traps.
    pub fn unreachable(&mut self)
        ensures
            final(self).bytecode@ == old(self).bytecode@ + seq![0x00u8],
            final(self).control == old(self).control,
    {
        self.bytecode.push(0x00u8);
        assert(self.bytecode@ =~= old(self).bytecode@ + seq![0x00u8]);
    }

    /// Does nothing.
    pub fn nop(&mut self)
        ensures
            final(self).bytecode@ == old(self).bytecode@ + seq![0x01u8],
            final(self).control == old(self).control,
    {
        self.bytecode.push(0x01u8);
        assert(self.bytecode@ =~= old(self).bytecode@ + seq![0x01u8]);
    }

    /// Returns from the function.
    pub fn return_(&mut self)
        ensures
            final(self).bytecode@ == old(self).bytecode@ + seq![0x0Fu8],
            final(self).control == old(self).control,
    {
        self.bytecode.push(0x0Fu8);
        assert(self.bytecode@ =~= old(self).bytecode@ + seq![0x0Fu8]);
    }

    /// Drops the top of the stack.
    pub fn drop(&mut self)
        ensures
            final(self).bytecode@ == old(self).bytecode@ + seq![0x1Au8],
            final(self).control == old(self).control,
    {
        self.bytecode.push(0x1Au8);
        assert(self.bytecode@ =~= old(self).bytecode@ + seq![0x1Au8]);
    }

    /// Picks one of two values by a condition.
    pub fn select(&mut self)
        ensures
            final(self).bytecode@ == old(self).bytecode@ + seq![0x1Bu8],
            final(self).control == old(self).control,
    {
        self.bytecode.push(0x1Bu8);
        assert(self.bytecode@ =~= old(self).bytecode@ + seq![0x1Bu8]);
    }

    pub fn i32_eqz(&mut self)
        ensures
            final(self).bytecode@ == old(self).bytecode@ + seq![0x45u8],
            final(self).control == old(self).control,
    {
        self.bytecode.push(0x45u8);
        assert(self.bytecode@ =~= old(self).bytecode@ + seq![0x45u8]);
    }

    pub fn i32_eq(&mut self)
        ensures
            final(self).bytecode@ == old(self).bytecode@ + seq![0x46u8],
            final(self).control == old(self).control,
    {
        self.bytecode.push(0x46u8);
        assert(self.bytecode@ =~= old(self).bytecode@ + seq![0x46u8]);
    }

    pub fn i32_ne(&mut self)
        ensures
            final(self).bytecode@ == old(self).bytecode@ + seq![0x47u8],
            final(self).control == old(self).control,
    {
        self.bytecode.push(0x47u8);
        assert(self.bytecode@ =~= old(self).bytecode@ + seq![0x47u8]);
    }

    pub fn i32_lt_s(&mut self)
        ensures
            final(self).bytecode@ == old(self).bytecode@ + seq![0x48u8],
            final(self).control == old(self).control,
    {
        self.bytecode.push(0x48u8);
        assert(self.bytecode@ =~= old(self).bytecode@ + seq![0x48u8]);
    }

    pub fn i32_lt_u(&mut self)
        ensures
            final(self).bytecode@ == old(self).bytecode@ + seq![0x49u8],
            final(self).control == old(self).control,
    {
        self.bytecode.push(0x49u8);
        assert(self.bytecode@ =~= old(self).bytecode@ + seq![0x49u8]);
    }

    pub fn i32_gt_s(&mut self)
        ensures
            final(self).bytecode@ == old(self).bytecode@ + seq![0x4Au8],
            final(self).control == old(self).control,
    {
        self.bytecode.push(0x4Au8);
        assert(self.bytecode@ =~= old(self).bytecode@ + seq![0x4Au8]);
    }

    pub fn i32_gt_u(&mut self)
        ensures
            final(self).bytecode@ == old(self).bytecode@ + seq![0x4Bu8],
            final(self).control == old(self).control,
    {
        self.bytecode.push(0x4Bu8);
        assert(self.bytecode@ =~= old(self).bytecode@ + seq![0x4Bu8]);
    }

    pub fn i32_add(&mut self)
        ensures
            final(self).bytecode@ == old(self).bytecode@ + seq![0x6Au8],
            final(self).control == old(self).control,
    {
        self.bytecode.push(0x6Au8);
        assert(self.bytecode@ =~= old(self).bytecode@ + seq![0x6Au8]);
    }

    pub fn i32_sub(&mut self)
        ensures
            final(self).bytecode@ == old(self).bytecode@ + seq![0x6Bu8],
            final(self).control == old(self).control,
    {
        self.bytecode.push(0x6Bu8);
        assert(self.bytecode@ =~= old(self).bytecode@ + seq![0x6Bu8]);
    }

    pub fn i32_mul(&mut self)
        ensures
            final(self).bytecode@ == old(self).bytecode@ + seq![0x6Cu8],
            final(self).control == old(self).control,
    {
        self.bytecode.push(0x6Cu8);
        assert(self.bytecode@ =~= old(self).bytecode@ + seq![0x6Cu8]);
    }

    pub fn i32_and(&mut self)
        ensures
            final(self).bytecode@ == old(self).bytecode@ + seq![0x71u8],
            final(self).control == old(self).control,
    {
        self.bytecode.push(0x71u8);
        assert(self.bytecode@ =~= old(self).bytecode@ + seq![0x71u8]);
    }

    pub fn i32_or(&mut self)
        ensures
            final(self).bytecode@ == old(self).bytecode@ + seq![0x72u8],
            final(self).control == old(self).control,
    {
        self.bytecode.push(0x72u8);
        assert(self.bytecode@ =~= old(self).bytecode@ + seq![0x72u8]);
    }

    pub fn i64_add(&mut self)
        ensures
            final(self).bytecode@ == old(self).bytecode@ + seq![0x7Cu8],
            final(self).control == old(self).control,
    {
        self.bytecode.push(0x7Cu8);
        assert(self.bytecode@ =~= old(self).bytecode@ + seq![0x7Cu8]);
    }

    pub fn i64_sub(&mut self)
        ensures
            final(self).bytecode@ == old(self).bytecode@ + seq![0x7Du8],
            final(self).control == old(self).control,
    {
        self.bytecode.push(0x7Du8);
        assert(self.bytecode@ =~= old(self).bytecode@ + seq![0x7Du8]);
    }

    pub fn i64_mul(&mut self)
        ensures
            final(self).bytecode@ == old(self).bytecode@ + seq![0x7Eu8],
            final(self).control == old(self).control,
    {
        self.bytecode.push(0x7Eu8);
        assert(self.bytecode@ =~= old(self).bytecode@ + seq![0x7Eu8]);
    }

    pub fn f64_add(&mut self)
        ensures
            final(self).bytecode@ == old(self).bytecode@ + seq![0xA0u8],
            final(self).control == old(self).control,
    {
        self.bytecode.push(0xA0u8);
        assert(self.bytecode@ =~= old(self).bytecode@ + seq![0xA0u8]);
    }

    pub fn f64_sub(&mut self)
        ensures
            final(self).bytecode@ == old(self).bytecode@ + seq![0xA1u8],
            final(self).control == old(self).control,
    {
        self.bytecode.push(0xA1u8);
        assert(self.bytecode@ =~= old(self).bytecode@ + seq![0xA1u8]);
    }

    pub fn f64_mul(&mut self)
        ensures
            final(self).bytecode@ == old(self).bytecode@ + seq![0xA2u8],
            final(self).control == old(self).control,
    {
        self.bytecode.push(0xA2u8);
        assert(self.bytecode@ =~= old(self).bytecode@ + seq![0xA2u8]);
    }

    pub fn f64_div(&mut self)
        ensures
            final(self).bytecode@ == old(self).bytecode@ + seq![0xA3u8],
            final(self).control == old(self).control,
    {
        self.bytecode.push(0xA3u8);
        assert(self.bytecode@ =~= old(self).bytecode@ + seq![0xA3u8]);
    }

    /// Branches to the enclosing block `label` levels out.
    pub fn br(&mut self, label: u32)
        ensures
            final(self).bytecode@ == old(self).bytecode@ + seq![0x0Cu8] + uleb(label as nat),
            final(self).control == old(self).control,
    {
        self.bytecode.push(0x0Cu8);
        label.leb_serialize(&mut self.bytecode);
        assert(self.bytecode@ =~= old(self).bytecode@ + seq![0x0Cu8] + uleb(label as nat));
    }

    /// Branches out `label` levels if the top of the stack is not zero.
    pub fn br_if(&mut self, label: u32)
        ensures
            final(self).bytecode@ == old(self).bytecode@ + seq![0x0Du8] + uleb(label as nat),
            final(self).control == old(self).control,
    {
        self.bytecode.push(0x0Du8);
        label.leb_serialize(&mut self.bytecode);
        assert(self.bytecode@ =~= old(self).bytecode@ + seq![0x0Du8] + uleb(label as nat));
    }

    /// Calls a function.
    pub fn call(&mut self, func_idx: FuncIdx)
        ensures
            final(self).bytecode@ == old(self).bytecode@ + seq![0x10u8] + uleb(func_idx.idx as nat),
            final(self).control == old(self).control,
    {
        self.bytecode.push(0x10u8);
        func_idx.idx.leb_serialize(&mut self.bytecode);
        assert(self.bytecode@ =~= old(self).bytecode@ + seq![0x10u8] + uleb(func_idx.idx as nat));
    }

    pub fn local_get(&mut self, local_idx: LocalIdx)
        ensures
            final(self).bytecode@ == old(self).bytecode@ + seq![0x20u8] + uleb(local_idx.idx as nat),
            final(self).control == old(self).control,
    {
        self.bytecode.push(0x20u8);
        local_idx.idx.leb_serialize(&mut self.bytecode);
        assert(self.bytecode@ =~= old(self).bytecode@ + seq![0x20u8] + uleb(local_idx.idx as nat));
    }

    pub fn local_set(&mut self, local_idx: LocalIdx)
        ensures
            final(self).bytecode@ == old(self).bytecode@ + seq![0x21u8] + uleb(local_idx.idx as nat),
            final(self).control == old(self).control,
    {
        self.bytecode.push(0x21u8);
        local_idx.idx.leb_serialize(&mut self.bytecode);
        assert(self.bytecode@ =~= old(self).bytecode@ + seq![0x21u8] + uleb(local_idx.idx as nat));
    }

    pub fn local_tee(&mut self, local_idx: LocalIdx)
        ensures
            final(self).bytecode@ == old(self).bytecode@ + seq![0x22u8] + uleb(local_idx.idx as nat),
            final(self).control == old(self).control,
    {
        self.bytecode.push(0x22u8);
        local_idx.idx.leb_serialize(&mut self.bytecode);
        assert(self.bytecode@ =~= old(self).bytecode@ + seq![0x22u8] + uleb(local_idx.idx as nat));
    }

    pub fn global_get(&mut self, global_idx: GlobalIdx)
        ensures
            final(self).bytecode@ == old(self).bytecode@ + seq![0x23u8] + uleb(global_idx.idx as nat),
            final(self).control == old(self).control,
    {
        self.bytecode.push(0x23u8);
        global_idx.idx.leb_serialize(&mut self.bytecode);
        assert(self.bytecode@ =~= old(self).bytecode@ + seq![0x23u8] + uleb(global_idx.idx as nat));
    }

    pub fn global_set(&mut self, global_idx: GlobalIdx)
        ensures
            final(self).bytecode@ == old(self).bytecode@ + seq![0x24u8] + uleb(global_idx.idx as nat),
            final(self).control == old(self).control,
    {
        self.bytecode.push(0x24u8);
        global_idx.idx.leb_serialize(&mut self.bytecode);
        assert(self.bytecode@ =~= old(self).bytecode@ + seq![0x24u8] + uleb(global_idx.idx as nat));
    }

    pub fn i32_const(&mut self, value: i32)
        ensures
            final(self).bytecode@ == old(self).bytecode@ + seq![0x41u8] + sleb(value as int),
            final(self).control == old(self).control,
    {
        self.bytecode.push(0x41u8);
        value.leb_serialize(&mut self.bytecode);
        assert(self.bytecode@ =~= old(self).bytecode@ + seq![0x41u8] + sleb(value as int));
    }

    pub fn i64_const(&mut self, value: i64)
        ensures
            final(self).bytecode@ == old(self).bytecode@ + seq![0x42u8] + sleb(value as int),
            final(self).control == old(self).control,
    {
        self.bytecode.push(0x42u8);
        value.leb_serialize(&mut self.bytecode);
        assert(self.bytecode@ =~= old(self).bytecode@ + seq![0x42u8] + sleb(value as int));
    }

    /// Pushes a 32-bit float given by its bit pattern.
    pub fn f32_const(&mut self, bits: u32)
        ensures
            final(self).bytecode@ == old(self).bytecode@ + seq![0x43u8] + le_bytes(bits as nat, 4),
            final(self).control == old(self).control,
    {
        self.bytecode.push(0x43u8);
        bits.bitwise_serialize(&mut self.bytecode);
        assert(self.bytecode@ =~= old(self).bytecode@ + seq![0x43u8] + le_bytes(bits as nat, 4));
    }

    /// Pushes a 64-bit float given by its bit pattern.
    pub fn f64_const(&mut self, bits: u64)
        ensures
            final(self).bytecode@ == old(self).bytecode@ + seq![0x44u8] + le_bytes(bits as nat, 8),
            final(self).control == old(self).control,
    {
        self.bytecode.push(0x44u8);
        bits.bitwise_serialize(&mut self.bytecode);
        assert(self.bytecode@ =~= old(self).bytecode@ + seq![0x44u8] + le_bytes(bits as nat, 8));
    }

    pub fn i32_load(&mut self, align: u32, offset: u32)
        ensures
            final(self).bytecode@ == old(self).bytecode@ + seq![0x28u8] + uleb(align as nat) + uleb(offset as nat),
            final(self).control == old(self).control,
    {
        self.bytecode.push(0x28u8);
        align.leb_serialize(&mut self.bytecode);
        offset.leb_serialize(&mut self.bytecode);
        assert(self.bytecode@ =~= old(self).bytecode@ + seq![0x28u8] + uleb(align as nat) + uleb(offset as nat));
    }

    pub fn i64_load(&mut self, align: u32, offset: u32)
        ensures
            final(self).bytecode@ == old(self).bytecode@ + seq![0x29u8] + uleb(align as nat) + uleb(offset as nat),
            final(self).control == old(self).control,
    {
        self.bytecode.push(0x29u8);
        align.leb_serialize(&mut self.bytecode);
        offset.leb_serialize(&mut self.bytecode);
        assert(self.bytecode@ =~= old(self).bytecode@ + seq![0x29u8] + uleb(align as nat) + uleb(offset as nat));
    }

    pub fn f64_load(&mut self, align: u32, offset: u32)
        ensures
            final(self).bytecode@ == old(self).bytecode@ + seq![0x2Bu8] + uleb(align as nat) + uleb(offset as nat),
            final(self).control == old(self).control,
    {
        self.bytecode.push(0x2Bu8);
        align.leb_serialize(&mut self.bytecode);
        offset.leb_serialize(&mut self.bytecode);
        assert(self.bytecode@ =~= old(self).bytecode@ + seq![0x2Bu8] + uleb(align as nat) + uleb(offset as nat));
    }

    pub fn i32_store(&mut self, align: u32, offset: u32)
        ensures
            final(self).bytecode@ == old(self).bytecode@ + seq![0x36u8] + uleb(align as nat) + uleb(offset as nat),
            final(self).control == old(self).control,
    {
        self.bytecode.push(0x36u8);
        align.leb_serialize(&mut self.bytecode);
        offset.leb_serialize(&mut self.bytecode);
        assert(self.bytecode@ =~= old(self).bytecode@ + seq![0x36u8] + uleb(align as nat) + uleb(offset as nat));
    }

    pub fn i64_store(&mut self, align: u32, offset: u32)
        ensures
            final(self).bytecode@ == old(self).bytecode@ + seq![0x37u8] + uleb(align as nat) + uleb(offset as nat),
            final(self).control == old(self).control,
    {
        self.bytecode.push(0x37u8);
        align.leb_serialize(&mut self.bytecode);
        offset.leb_serialize(&mut self.bytecode);
        assert(self.bytecode@ =~= old(self).bytecode@ + seq![0x37u8] + uleb(align as nat) + uleb(offset as nat));
    }

    pub fn f64_store(&mut self, align: u32, offset: u32)
        ensures
            final(self).bytecode@ == old(self).bytecode@ + seq![0x39u8] + uleb(align as nat) + uleb(offset as nat),
            final(self).control == old(self).control,
    {
        self.bytecode.push(0x39u8);
        align.leb_serialize(&mut self.bytecode);
        offset.leb_serialize(&mut self.bytecode);
        assert(self.bytecode@ =~= old(self).bytecode@ + seq![0x39u8] + uleb(align as nat) + uleb(offset as nat));
    }
}

/// The labels of a branch table, one after another.
pub open spec fn labels_wasm(labels: Seq<u32>) -> Seq<u8>
    decreases labels.len(),
{
    if labels.len() == 0 {
        Seq::empty()
    } else {
        labels_wasm(labels.drop_last()) + uleb(labels.last() as nat)
    }
}

/// The declared locals of a function body, one entry of count 1 each.
pub open spec fn locals_wasm(types: Seq<ValType>) -> Seq<u8> {
    uleb((types.len() as u32) as nat) + local_entries_wasm(types)
}

pub open spec fn local_entries_wasm(types: Seq<ValType>) -> Seq<u8>
    decreases types.len(),
{
    if types.len() == 0 {
        Seq::empty()
    } else {
        local_entries_wasm(types.drop_last()) + seq![1u8, types.last().spec_value()]
    }
}

/// Builds the body of one function: its locals and its instructions.
pub struct CodeBuilder {
    pub functype: FuncType,
    pub locals_builder: LocalsManager,
    pub expr_builder: ExprEmitter,
}

impl CodeBuilder {
    /// A builder for a function of type `functype`, with its parameters as
    /// the first locals and an empty body.
    pub fn new(functype: FuncType) -> (r: CodeBuilder)
        ensures
            r.functype@ == functype@,
            r.locals_builder.param_types@ == functype.param_types@,
            r.locals_builder.local_types@.len() == 0,
            r.expr_builder.bytecode@.len() == 0,
            r.expr_builder.control@ == seq![Control::Function],
    {
        let params = functype.duplicate().param_types;
        CodeBuilder { functype, locals_builder: LocalsManager::new(params), expr_builder: ExprEmitter::new() }
    }

    /// The locals manager and the instruction emitter, borrowed together.
    pub fn split(&mut self) -> (r: (&mut LocalsManager, &mut ExprEmitter))
        ensures
            *r.0 == old(self).locals_builder,
            *r.1 == old(self).expr_builder,
            final(self).locals_builder == *final(r.0),
            final(self).expr_builder == *final(r.1),
            final(self).functype == old(self).functype,
    {
        (&mut self.locals_builder, &mut self.expr_builder)
    }

    /// The bytes of the function body: its declared locals, then its code.
    pub open spec fn spec_body(&self) -> Seq<u8> {
        locals_wasm(self.locals_builder.local_types@) + self.expr_builder.bytecode@
    }

    pub fn body(&self) -> (r: Vec<u8>)
        ensures
            r@ == self.spec_body(),
    {
        let types = &self.locals_builder.local_types;
        let mut out: Vec<u8> = Vec::new();
        (types.len() as u32).leb_serialize(&mut out);
        let ghost start = out@;
        let mut i: usize = 0;
        while i < types.len()
            invariant
                i <= types@.len(),
                out@ == start + local_entries_wasm(types@.subrange(0, i as int)),
            decreases types@.len() - i,
        {
            out.push(1u8);
            out.push(types[i].value());
            i += 1;
            assert(types@.subrange(0, i as int).drop_last() =~= types@.subrange(0, i - 1));
            assert(out@ =~= start + local_entries_wasm(types@.subrange(0, i as int)));
        }
        assert(types@.subrange(0, types@.len() as int) =~= types@);
        let bytes = &self.expr_builder.bytecode;
        let mut j: usize = 0;
        let ghost mid = out@;
        while j < bytes.len()
            invariant
                j <= bytes@.len(),
                out@ == mid + bytes@.subrange(0, j as int),
            decreases bytes@.len() - j,
        {
            out.push(bytes[j]);
            j += 1;
            assert(out@ =~= mid + bytes@.subrange(0, j as int));
        }
        assert(bytes@.subrange(0, bytes@.len() as int) =~= bytes@);
        assert(out@ =~= self.spec_body());
        out
    }
}

impl WasmModule {
    /// Commits the body that `code_builder` holds as the body of the local
    /// function `func_idx`; fails when a control construct of the body,
    /// or the body itself, is still open.
    pub fn commit_func(&mut self, func_idx: FuncIdx, code_builder: CodeBuilder) -> (r: Result<(), EmitError>)
        requires
            old(self).wf(),
            old(self).is_local_func(func_idx),
        ensures
            final(self).wf(),
            r is Ok <==> code_builder.expr_builder.control@.len() == 0,
            r is Err ==> final(self).code_section == old(self).code_section,
            r is Ok ==> {
                let i = func_idx.idx - old(self).num_imports();
                &&& final(self).code_section.content@.len() == old(self).code_section.content@.len()
                &&& final(self).code_section.content@[i].func matches Some(b) && b@ == code_builder.spec_body()
                &&& forall|j: int| 0 <= j < old(self).num_funcs() && j != i ==>
                    #[trigger] final(self).code_section.content@[j] == old(self).code_section.content@[j]
            },
            final(self).type_section == old(self).type_section,
            final(self).import_section == old(self).import_section,
            final(self).func_section == old(self).func_section,
            final(self).table_section == old(self).table_section,
            final(self).mem_section == old(self).mem_section,
            final(self).global_section == old(self).global_section,
            final(self).export_section == old(self).export_section,
            final(self).start_section == old(self).start_section,
            final(self).elem_section == old(self).elem_section,
            final(self).data_section == old(self).data_section,
    {
        if code_builder.expr_builder.depth() != 0 {
            return Err(EmitError::UnbalancedControl);
        }
        let i = (func_idx.idx as usize) - self.import_section.content.len();
        let body = code_builder.body();
        self.code_section.content.set(i, Code { func: Some(body) });
        Ok(())
    }
}

} // verus!
