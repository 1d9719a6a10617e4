//! Scratch space: extra locals that an encoder may borrow for a while,
//! reused across uses so that a function declares few of them. Pushes and
//! pops are to balance within every function.
use vstd::prelude::*;
use crate::code::LocalsManager;
use crate::module::{LocalIdx, ValType, MAX_ENTRIES};

verus! {

/// A pool of scratch locals per value type, each with a stack pointer:
/// entries below the pointer are in use, those above it are free for reuse.
pub struct Scratch<'a> {
    pub locals_builder: &'a mut LocalsManager,
    pub i32_buffer: Vec<LocalIdx>,
    pub i64_buffer: Vec<LocalIdx>,
    pub f32_buffer: Vec<LocalIdx>,
    pub f64_buffer: Vec<LocalIdx>,
    pub i32_idx: usize,
    pub i64_idx: usize,
    pub f32_idx: usize,
    pub f64_idx: usize,
}

/// Every entry of `buffer` is a local of type `t` of `locals`.
pub open spec fn pool_wf(locals: LocalsManager, buffer: Seq<LocalIdx>, idx: usize, t: ValType) -> bool {
    &&& idx <= buffer.len()
    &&& buffer.len() <= locals.all_types().len()
    &&& forall|i: int|
        0 <= i < buffer.len() ==> (#[trigger] buffer[i]).idx < locals.all_types().len()
            && locals.all_types()[buffer[i].idx as int] == t
}

proof fn lemma_pool_extend(
    before: LocalsManager,
    after: LocalsManager,
    buffer: Seq<LocalIdx>,
    idx: usize,
    t: ValType,
)
    requires
        pool_wf(before, buffer, idx, t),
        after.all_types().len() >= before.all_types().len(),
        forall|i: int| 0 <= i < before.all_types().len() ==> after.all_types()[i] == before.all_types()[i],
    ensures
        pool_wf(after, buffer, idx, t),
{
    assert forall|i: int| 0 <= i < buffer.len() implies (#[trigger] buffer[i]).idx < after.all_types().len()
        && after.all_types()[buffer[i].idx as int] == t by {
        assert(before.all_types()[buffer[i].idx as int] == t);
    }
}

impl<'a> Scratch<'a> {
    /// The four stack pointers, for i32, i64, f32 and f64.
    pub open spec fn counters(&self) -> (int, int, int, int) {
        (self.i32_idx as int, self.i64_idx as int, self.f32_idx as int, self.f64_idx as int)
    }

    pub open spec fn wf(&self) -> bool {
        &&& pool_wf(*self.locals_builder, self.i32_buffer@, self.i32_idx, ValType::I32)
        &&& pool_wf(*self.locals_builder, self.i64_buffer@, self.i64_idx, ValType::I64)
        &&& pool_wf(*self.locals_builder, self.f32_buffer@, self.f32_idx, ValType::F32)
        &&& pool_wf(*self.locals_builder, self.f64_buffer@, self.f64_idx, ValType::F64)
    }

    /// The pool of type `t`: its buffer and its stack pointer.
    pub open spec fn pool(&self, t: ValType) -> (Seq<LocalIdx>, usize) {
        match t {
            ValType::I32 => (self.i32_buffer@, self.i32_idx),
            ValType::I64 => (self.i64_buffer@, self.i64_idx),
            ValType::F32 => (self.f32_buffer@, self.f32_idx),
            ValType::F64 => (self.f64_buffer@, self.f64_idx),
        }
    }

    /// What a push of type `t` leaves: the pointer one higher, a new local
    /// declared only when no free entry was left, every other pool as it was.
    pub open spec fn pushed(&self, next: Self, t: ValType, r: LocalIdx) -> bool {
        let (buf, idx) = self.pool(t);
        let (nbuf, nidx) = next.pool(t);
        &&& nidx == idx + 1
        &&& nbuf.len() >= nidx
        &&& r == nbuf[idx as int]
        &&& idx < buf.len() ==> nbuf == buf && *next.locals_builder == *self.locals_builder
        &&& idx == buf.len() ==> nbuf == buf.push(r) && r.idx == self.locals_builder.all_types().len()
            && next.locals_builder.param_types == self.locals_builder.param_types
            && next.locals_builder.local_types@ == self.locals_builder.local_types@.push(t)
        &&& forall|u: ValType| u != t ==> #[trigger] next.pool(u) == self.pool(u)
    }

    /// What a pop of type `t` leaves: the pointer one lower, all else kept.
    pub open spec fn popped(&self, next: Self, t: ValType) -> bool {
        &&& next.pool(t).1 == self.pool(t).1 - 1
        &&& next.pool(t).0 == self.pool(t).0
        &&& *next.locals_builder == *self.locals_builder
        &&& forall|u: ValType| u != t ==> #[trigger] next.pool(u) == self.pool(u)
    }

    pub fn new(locals_builder: &'a mut LocalsManager) -> (r: Scratch<'a>)
        ensures
            r.wf(),
            *r.locals_builder == *old(locals_builder),
            *final(locals_builder) == *final(r.locals_builder),
            r.counters() == (0int, 0int, 0int, 0int),
            r.i32_buffer@.len() == 0,
            r.i64_buffer@.len() == 0,
            r.f32_buffer@.len() == 0,
            r.f64_buffer@.len() == 0,
    {
        Scratch {
            locals_builder: locals_builder,
            i32_buffer: Vec::new(),
            i64_buffer: Vec::new(),
            f32_buffer: Vec::new(),
            f64_buffer: Vec::new(),
            i32_idx: 0,
            i64_idx: 0,
            f32_idx: 0,
            f64_idx: 0,
        }
    }

    /// Borrows a scratch local of type i32, declaring a new one only when
    /// every one declared so far is in use.
    pub fn push_i32(&mut self) -> (r: LocalIdx)
        requires
            old(self).wf(),
            old(self).locals_builder.all_types().len() < MAX_ENTRIES,
        ensures
            final(self).wf(),
            old(self).pushed(*final(self), ValType::I32, r),
            *final(final(self).locals_builder) == *final(old(self).locals_builder),
    {
        let ghost before = *self.locals_builder;
        let r = Self::push_impl(
            &mut self.locals_builder,
            ValType::I32,
            &mut self.i32_buffer,
            &mut self.i32_idx,
        );
        proof {
            lemma_pool_extend(before, *self.locals_builder, self.i64_buffer@, self.i64_idx, ValType::I64);
            lemma_pool_extend(before, *self.locals_builder, self.f32_buffer@, self.f32_idx, ValType::F32);
            lemma_pool_extend(before, *self.locals_builder, self.f64_buffer@, self.f64_idx, ValType::F64);
        }
        r
    }

    /// Borrows a scratch local of type i64, declaring a new one only when
    /// every one declared so far is in use.
    pub fn push_i64(&mut self) -> (r: LocalIdx)
        requires
            old(self).wf(),
            old(self).locals_builder.all_types().len() < MAX_ENTRIES,
        ensures
            final(self).wf(),
            old(self).pushed(*final(self), ValType::I64, r),
            *final(final(self).locals_builder) == *final(old(self).locals_builder),
    {
        let ghost before = *self.locals_builder;
        let r = Self::push_impl(
            &mut self.locals_builder,
            ValType::I64,
            &mut self.i64_buffer,
            &mut self.i64_idx,
        );
        proof {
            lemma_pool_extend(before, *self.locals_builder, self.i32_buffer@, self.i32_idx, ValType::I32);
            lemma_pool_extend(before, *self.locals_builder, self.f32_buffer@, self.f32_idx, ValType::F32);
            lemma_pool_extend(before, *self.locals_builder, self.f64_buffer@, self.f64_idx, ValType::F64);
        }
        r
    }

    /// Borrows a scratch local of type f32, declaring a new one only when
    /// every one declared so far is in use.
    pub fn push_f32(&mut self) -> (r: LocalIdx)
        requires
            old(self).wf(),
            old(self).locals_builder.all_types().len() < MAX_ENTRIES,
        ensures
            final(self).wf(),
            old(self).pushed(*final(self), ValType::F32, r),
            *final(final(self).locals_builder) == *final(old(self).locals_builder),
    {
        let ghost before = *self.locals_builder;
        let r = Self::push_impl(
            &mut self.locals_builder,
            ValType::F32,
            &mut self.f32_buffer,
            &mut self.f32_idx,
        );
        proof {
            lemma_pool_extend(before, *self.locals_builder, self.i32_buffer@, self.i32_idx, ValType::I32);
            lemma_pool_extend(before, *self.locals_builder, self.i64_buffer@, self.i64_idx, ValType::I64);
            lemma_pool_extend(before, *self.locals_builder, self.f64_buffer@, self.f64_idx, ValType::F64);
        }
        r
    }

    /// Borrows a scratch local of type f64, declaring a new one only when
    /// every one declared so far is in use.
    pub fn push_f64(&mut self) -> (r: LocalIdx)
        requires
            old(self).wf(),
            old(self).locals_builder.all_types().len() < MAX_ENTRIES,
        ensures
            final(self).wf(),
            old(self).pushed(*final(self), ValType::F64, r),
            *final(final(self).locals_builder) == *final(old(self).locals_builder),
    {
        let ghost before = *self.locals_builder;
        let r = Self::push_impl(
            &mut self.locals_builder,
            ValType::F64,
            &mut self.f64_buffer,
            &mut self.f64_idx,
        );
        proof {
            lemma_pool_extend(before, *self.locals_builder, self.i32_buffer@, self.i32_idx, ValType::I32);
            lemma_pool_extend(before, *self.locals_builder, self.i64_buffer@, self.i64_idx, ValType::I64);
            lemma_pool_extend(before, *self.locals_builder, self.f32_buffer@, self.f32_idx, ValType::F32);
        }
        r
    }

    /// Returns the scratch local of type i32 borrowed last.
    pub fn pop_i32(&mut self)
        requires
            old(self).wf(),
            old(self).i32_idx > 0,
        ensures
            final(self).wf(),
            old(self).popped(*final(self), ValType::I32),
            *final(final(self).locals_builder) == *final(old(self).locals_builder),
    {
        Self::pop_impl(&mut self.i32_idx)
    }

    /// Returns the scratch local of type i64 borrowed last.
    pub fn pop_i64(&mut self)
        requires
            old(self).wf(),
            old(self).i64_idx > 0,
        ensures
            final(self).wf(),
            old(self).popped(*final(self), ValType::I64),
            *final(final(self).locals_builder) == *final(old(self).locals_builder),
    {
        Self::pop_impl(&mut self.i64_idx)
    }

    /// Returns the scratch local of type f32 borrowed last.
    pub fn pop_f32(&mut self)
        requires
            old(self).wf(),
            old(self).f32_idx > 0,
        ensures
            final(self).wf(),
            old(self).popped(*final(self), ValType::F32),
            *final(final(self).locals_builder) == *final(old(self).locals_builder),
    {
        Self::pop_impl(&mut self.f32_idx)
    }

    /// Returns the scratch local of type f64 borrowed last.
    pub fn pop_f64(&mut self)
        requires
            old(self).wf(),
            old(self).f64_idx > 0,
        ensures
            final(self).wf(),
            old(self).popped(*final(self), ValType::F64),
            *final(final(self).locals_builder) == *final(old(self).locals_builder),
    {
        Self::pop_impl(&mut self.f64_idx)
    }

    /// The number of locals of the function, counting its parameters.
    pub open spec fn spec_num_locals(&self) -> nat {
        self.locals_builder.all_types().len()
    }

    /// Whether one more local can be declared.
    pub fn can_add_local(&self) -> (r: bool)
        ensures
            r == (self.spec_num_locals() < MAX_ENTRIES),
    {
        let p = self.locals_builder.param_types.len();
        let l = self.locals_builder.local_types.len();
        p < MAX_ENTRIES && l < MAX_ENTRIES - p
    }

    /// Declares a local of type `t` for other use than scratch space,
    /// leaving every pool as it is.
    pub fn add_local(&mut self, t: ValType) -> (r: LocalIdx)
        requires
            old(self).wf(),
            old(self).locals_builder.all_types().len() < MAX_ENTRIES,
        ensures
            final(self).wf(),
            r.idx == old(self).locals_builder.all_types().len(),
            final(self).locals_builder.local_types@ == old(self).locals_builder.local_types@.push(t),
            final(self).locals_builder.param_types == old(self).locals_builder.param_types,
            forall|u: ValType| #[trigger] final(self).pool(u) == old(self).pool(u),
            *final(final(self).locals_builder) == *final(old(self).locals_builder),
    {
        let ghost before = *self.locals_builder;
        let r = self.locals_builder.add(t);
        proof {
            assert(self.locals_builder.all_types() =~= before.all_types().push(t));
            lemma_pool_extend(before, *self.locals_builder, self.i32_buffer@, self.i32_idx, ValType::I32);
            lemma_pool_extend(before, *self.locals_builder, self.i64_buffer@, self.i64_idx, ValType::I64);
            lemma_pool_extend(before, *self.locals_builder, self.f32_buffer@, self.f32_idx, ValType::F32);
            lemma_pool_extend(before, *self.locals_builder, self.f64_buffer@, self.f64_idx, ValType::F64);
        }
        r
    }

    fn push_impl(
        locals_builder: &mut LocalsManager,
        valtype: ValType,
        buffer: &mut Vec<LocalIdx>,
        idx: &mut usize,
    ) -> (r: LocalIdx)
        requires
            pool_wf(*old(locals_builder), old(buffer)@, *old(idx), valtype),
            old(locals_builder).all_types().len() < MAX_ENTRIES,
        ensures
            pool_wf(*final(locals_builder), final(buffer)@, *final(idx), valtype),
            *final(idx) == *old(idx) + 1,
            r == final(buffer)@[*old(idx) as int],
            *old(idx) < old(buffer)@.len() ==> final(buffer)@ == old(buffer)@ && *final(locals_builder) == *old(locals_builder),
            *old(idx) == old(buffer)@.len() ==> final(buffer)@ == old(buffer)@.push(r)
                && r.idx == old(locals_builder).all_types().len()
                && final(locals_builder).param_types == old(locals_builder).param_types
                && final(locals_builder).local_types@ == old(locals_builder).local_types@.push(valtype),
    {
        if *idx == buffer.len() {
            let ghost before = *locals_builder;
            let l = locals_builder.add(valtype);
            buffer.push(l);
            assert(locals_builder.all_types() =~= before.all_types().push(valtype));
            assert forall|i: int| 0 <= i < buffer@.len() implies (#[trigger] buffer@[i]).idx < locals_builder.all_types().len()
                && locals_builder.all_types()[buffer@[i].idx as int] == valtype by {
                if i < buffer@.len() - 1 {
                    assert(buffer@[i] == old(buffer)@[i]);
                }
            }
        }
        let ret: LocalIdx = buffer[*idx];
        *idx += 1;
        ret
    }

    fn pop_impl(idx: &mut usize)
        requires
            *old(idx) > 0,
        ensures
            *final(idx) == *old(idx) - 1,
    {
        *idx -= 1;
    }
}

/// A push or a pop on the scratch pool of one value type.
pub enum ScratchOp {
    Push(ValType),
    Pop(ValType),
}

/// How an operation moves the stack pointer of the pool of type `t`.
pub open spec fn op_delta(op: ScratchOp, t: ValType) -> int {
    match op {
        ScratchOp::Push(u) => if u == t { 1 } else { 0 },
        ScratchOp::Pop(u) => if u == t { -1 } else { 0 },
    }
}

/// Pushes minus pops of type `t` in `ops`.
pub open spec fn net(ops: Seq<ScratchOp>, t: ValType) -> int
    decreases ops.len(),
{
    if ops.len() == 0 {
        0
    } else {
        net(ops.drop_last(), t) + op_delta(ops.last(), t)
    }
}

/// Balanced pushes and pops: per type, no prefix pops more than it has
/// pushed, and the whole pops as many as it pushes.
pub open spec fn balanced(ops: Seq<ScratchOp>) -> bool {
    &&& forall|k: int, t: ValType| 0 <= k <= ops.len() ==> #[trigger] net(ops.take(k), t) >= 0
    &&& forall|t: ValType| #[trigger] net(ops, t) == 0
}

/// `next` is what the operation `op` leaves of `prev`.
pub open spec fn scratch_step<'a>(prev: Scratch<'a>, next: Scratch<'a>, op: ScratchOp) -> bool {
    match op {
        ScratchOp::Push(t) => exists|r: LocalIdx| prev.pushed(next, t, r),
        ScratchOp::Pop(t) => prev.popped(next, t),
    }
}

/// After a balanced run of pushes and pops every stack pointer is back
/// where it started (so a pool that starts empty ends empty), and no pop
/// of the run finds its pool's pointer at or below where it started.
pub proof fn lemma_scratch_balance<'a>(states: Seq<Scratch<'a>>, ops: Seq<ScratchOp>)
    requires
        states.len() == ops.len() + 1,
        forall|k: int| 0 <= k < ops.len() ==> scratch_step(#[trigger] states[k], states[k + 1], ops[k]),
        balanced(ops),
    ensures
        states.last().counters() == states[0].counters(),
        forall|k: int, t: ValType|
            0 <= k < ops.len() && ops[k] == ScratchOp::Pop(t) ==> #[trigger] states[k].pool(t).1 > states[0].pool(t).1,
{
    assert forall|k: int, t: ValType| 0 <= k <= ops.len() implies #[trigger] states[k].pool(t).1 == states[0].pool(t).1 + net(ops.take(k), t) by {
        lemma_scratch_prefix(states, ops, k, t);
    }
    assert(ops.take(ops.len() as int) =~= ops);
    let n = ops.len() as int;
    assert(states[n].pool(ValType::I32).1 == states[0].pool(ValType::I32).1 + net(ops.take(n), ValType::I32));
    assert(states[n].pool(ValType::I64).1 == states[0].pool(ValType::I64).1 + net(ops.take(n), ValType::I64));
    assert(states[n].pool(ValType::F32).1 == states[0].pool(ValType::F32).1 + net(ops.take(n), ValType::F32));
    assert(states[n].pool(ValType::F64).1 == states[0].pool(ValType::F64).1 + net(ops.take(n), ValType::F64));
    assert forall|k: int, t: ValType| 0 <= k < ops.len() && ops[k] == ScratchOp::Pop(t) implies #[trigger] states[k].pool(t).1 > states[0].pool(t).1 by {
        lemma_scratch_prefix(states, ops, k, t);
        assert(ops.take(k + 1).drop_last() =~= ops.take(k));
        assert(net(ops.take(k + 1), t) >= 0);
    }
}

proof fn lemma_scratch_prefix<'a>(states: Seq<Scratch<'a>>, ops: Seq<ScratchOp>, k: int, t: ValType)
    requires
        states.len() == ops.len() + 1,
        forall|j: int| 0 <= j < ops.len() ==> scratch_step(#[trigger] states[j], states[j + 1], ops[j]),
        0 <= k <= ops.len(),
    ensures
        states[k].pool(t).1 == states[0].pool(t).1 + net(ops.take(k), t),
    decreases k,
{
    if k > 0 {
        lemma_scratch_prefix(states, ops, k - 1, t);
        assert(ops.take(k).drop_last() =~= ops.take(k - 1));
        assert(scratch_step(states[k - 1], states[k], ops[k - 1]));
        match ops[k - 1] {
            ScratchOp::Push(u) => {
                let r = choose|r: LocalIdx| #[trigger] states[k - 1].pushed(states[k], u, r);
                if u != t {
                    assert(states[k].pool(t) == states[k - 1].pool(t));
                }
            },
            ScratchOp::Pop(u) => {
                if u != t {
                    assert(states[k].pool(t) == states[k - 1].pool(t));
                }
            },
        }
    } else {
        assert(ops.take(0) =~= Seq::<ScratchOp>::empty());
    }
}

} // verus!
