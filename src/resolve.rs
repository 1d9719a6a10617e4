//! Scope analysis: an explicit stack of scopes that binds names to
//! variable locations, and records which variables closures capture.
use vstd::prelude::*;
use vstd::utf8::encode_utf8;
use crate::estree::{const_list, const_stmt, number_literal, Node, NodeKind, PreVar, Program, VarLocId};

verus! {

/// How a name is declared: `var` and functions hoist to the enclosing
/// function scope; `let` and `const` belong to the innermost block.
#[derive(Clone, Copy, PartialEq, Eq, Structural, Debug)]
pub enum DeclKind {
    Var,
    Let,
    Const,
}

impl DeclKind {
    pub open spec fn spec_is_lexical(self) -> bool {
        !(self is Var)
    }

    pub fn is_lexical(&self) -> (r: bool)
        ensures
            r == self.spec_is_lexical(),
    {
        match self {
            DeclKind::Var => false,
            _ => true,
        }
    }
}

/// Errors of scope analysis that the user's program causes.
#[derive(Clone, Copy, PartialEq, Eq, Structural, Debug)]
pub enum ResolveError {
    /// A `let` or `const` declared twice in one scope, or beside a `var`.
    DuplicateBinding,
    /// A name with no declaration, in strict mode.
    UndeclaredGlobal,
    /// More variables in one depth than an index can count.
    TooManyVariables,
    /// A node that the compiler does not handle.
    UnsupportedNode,
    /// The left side of an assignment is not a variable.
    InvalidAssignTarget,
}

/// What resolution records on a scope node: address-taken indices once
/// each, captured locations once each and none of them global.
pub open spec fn marks_ok(address_taken: Seq<usize>, captured: Seq<VarLocId>) -> bool {
    &&& address_taken.no_duplicates()
    &&& captured.no_duplicates()
    &&& forall|i: int| 0 <= i < captured.len() ==> (#[trigger] captured[i]).depth >= 1
}

/// One scope: the names declared in it with their locations, and what the
/// analysis learns of it.
pub struct Frame {
    pub names: Vec<String>,
    pub ids: Vec<VarLocId>,
    pub lexical: Vec<bool>,
    /// Whether this is the scope of a function (or of the program).
    pub is_function: bool,
    /// Function nesting depth of this scope.
    pub depth: usize,
    /// Indices of variables of this scope that a nested function uses.
    pub address_taken: Vec<usize>,
    /// Variables of enclosing functions that this function uses.
    pub captured: Vec<VarLocId>,
}

impl Frame {
    pub open spec fn wf(&self) -> bool {
        &&& self.names@.len() == self.ids@.len()
        &&& self.names@.len() == self.lexical@.len()
        &&& forall|i: int, j: int| 0 <= i < j < self.names@.len() ==> (#[trigger] self.names@[i])@ != (#[trigger] self.names@[j])@
        &&& marks_ok(self.address_taken@, self.captured@)
    }

    /// The position of `name` in this scope, if it is declared here.
    pub open spec fn find(&self, name: Seq<char>) -> Option<int> {
        if exists|i: int| 0 <= i < self.names@.len() && #[trigger] self.names@[i]@ == name {
            Some(choose|i: int| 0 <= i < self.names@.len() && #[trigger] self.names@[i]@ == name)
        } else {
            None
        }
    }

    fn new(is_function: bool, depth: usize) -> (r: Frame)
        ensures
            r.wf(),
            r.names@.len() == 0,
            r.ids@.len() == 0,
            r.lexical@.len() == 0,
            r.is_function == is_function,
            r.depth == depth,
            r.address_taken@.len() == 0,
            r.captured@.len() == 0,
    {
        Frame {
            names: Vec::new(),
            ids: Vec::new(),
            lexical: Vec::new(),
            is_function,
            depth,
            address_taken: Vec::new(),
            captured: Vec::new(),
        }
    }

    /// The position of `name` in this scope, if it is declared here.
    fn position(&self, name: &String) -> (r: Option<usize>)
        ensures
            r matches Some(i) ==> i < self.names@.len() && self.names@[i as int]@ == name@,
            r is None ==> self.find(name@) is None,
    {
        let mut i: usize = 0;
        while i < self.names.len()
            invariant
                i <= self.names@.len(),
                forall|j: int| 0 <= j < i ==> #[trigger] self.names@[j]@ != name@,
            decreases self.names@.len() - i,
        {
            if self.names[i] == *name {
                return Some(i);
            }
            i += 1;
        }
        None
    }
}

/// The scopes open at a point of the traversal, the program scope at the
/// bottom, with a counter of issued indices per depth that never goes back.
pub struct ScopeStack {
    pub frames: Vec<Frame>,
    pub next_index: Vec<usize>,
    pub strict: bool,
    /// Every location issued so far, in order.
    pub issued: Ghost<Seq<VarLocId>>,
}

impl ScopeStack {
    pub open spec fn wf(&self) -> bool {
        &&& self.frames@.len() > 0
        &&& self.frames@[0].is_function
        &&& self.frames@[0].depth == 0
        &&& forall|k: int| 0 <= k < self.frames@.len() ==> (#[trigger] self.frames@[k]).wf()
        &&& forall|k: int| 0 <= k < self.frames@.len() ==> (#[trigger] self.frames@[k]).depth < self.next_index@.len()
        &&& forall|k: int, i: int| 0 <= k < self.frames@.len() && 0 <= i < self.frames@[k].ids@.len()
            ==> (#[trigger] self.frames@[k].ids@[i]).depth == self.frames@[k].depth
        &&& forall|i: int| 0 <= i < self.issued@.len() ==> (#[trigger] self.issued@[i]).depth < self.next_index@.len()
            && self.issued@[i].index < self.next_index@[self.issued@[i].depth as int]
        &&& forall|i: int, j: int| 0 <= i < j < self.issued@.len() && (#[trigger] self.issued@[i]).depth
            == (#[trigger] self.issued@[j]).depth ==> self.issued@[i].index < self.issued@[j].index
    }

    /// No scope holds any name.
    pub open spec fn no_names(&self) -> bool {
        forall|k: int| 0 <= k < self.frames@.len() ==> (#[trigger] self.frames@[k]).names@.len() == 0
    }

    /// No scope holds a `let` or `const` binding.
    pub open spec fn no_lexical(&self) -> bool {
        forall|k: int, i: int| 0 <= k < self.frames@.len() && 0 <= i < self.frames@[k].lexical@.len()
            ==> !(#[trigger] self.frames@[k].lexical@[i])
    }

    /// The innermost scope.
    pub open spec fn top(&self) -> Frame {
        self.frames@.last()
    }

    /// `k` is the position of the innermost function scope.
    pub open spec fn innermost_function(&self, k: int) -> bool {
        &&& 0 <= k < self.frames@.len()
        &&& self.frames@[k].is_function
        &&& forall|m: int| k < m < self.frames@.len() ==> !(#[trigger] self.frames@[m]).is_function
    }

    /// `k` is the scope that a declaration of kind `kind` goes to.
    pub open spec fn target(&self, kind: DeclKind, k: int) -> bool {
        if kind.spec_is_lexical() {
            k == self.frames@.len() - 1
        } else {
            self.innermost_function(k)
        }
    }

    /// A stack holding only the program scope.
    pub fn new(strict: bool) -> (r: ScopeStack)
        ensures
            r.wf(),
            r.frames@.len() == 1,
            r.issued@.len() == 0,
            r.strict == strict,
            r.no_lexical(),
            r.no_names(),
    {
        let mut frames: Vec<Frame> = Vec::new();
        frames.push(Frame::new(true, 0));
        let mut next_index: Vec<usize> = Vec::new();
        next_index.push(0);
        ScopeStack { frames, next_index, strict, issued: Ghost(Seq::empty()) }
    }

    fn innermost_function_index(&self) -> (r: usize)
        requires
            self.wf(),
        ensures
            self.innermost_function(r as int),
    {
        let mut k: usize = self.frames.len() - 1;
        while !self.frames[k].is_function
            invariant
                self.wf(),
                k < self.frames@.len(),
                forall|m: int| k < m < self.frames@.len() ==> !(#[trigger] self.frames@[m]).is_function,
            decreases k,
        {
            k -= 1;
        }
        k
    }

    /// Whether a function scope may be opened inside the innermost scope.
    pub fn can_open_function(&self) -> (r: bool)
        requires
            self.wf(),
        ensures
            r == (self.top().depth < usize::MAX),
    {
        self.frames[self.frames.len() - 1].depth < usize::MAX
    }

    /// Opens the scope of a function, one level deeper.
    pub fn push_function(&mut self)
        requires
            old(self).wf(),
            old(self).top().depth < usize::MAX,
        ensures
            final(self).wf(),
            old(self).no_names() ==> final(self).no_names(),
            old(self).no_lexical() ==> final(self).no_lexical(),
            final(self).frames@.len() == old(self).frames@.len() + 1,
            forall|k: int| 0 <= k < old(self).frames@.len() ==> #[trigger] final(self).frames@[k] == old(self).frames@[k],
            final(self).top().is_function,
            final(self).top().depth == old(self).top().depth + 1,
            final(self).top().names@.len() == 0,
            final(self).top().address_taken@.len() == 0,
            final(self).top().captured@.len() == 0,
            final(self).issued == old(self).issued,
            final(self).strict == old(self).strict,
    {
        let depth = self.frames[self.frames.len() - 1].depth + 1;
        if self.next_index.len() == depth {
            self.next_index.push(0);
        }
        self.frames.push(Frame::new(true, depth));
        proof {
            assert forall|k: int| 0 <= k < self.frames@.len() implies (#[trigger] self.frames@[k]).wf()
                && self.frames@[k].depth < self.next_index@.len() by {
                if k < old(self).frames@.len() {
                    assert(self.frames@[k] == old(self).frames@[k]);
                }
            }
            assert forall|k: int, i: int| 0 <= k < self.frames@.len() && 0 <= i < self.frames@[k].ids@.len()
                implies (#[trigger] self.frames@[k].ids@[i]).depth == self.frames@[k].depth by {
                if k < old(self).frames@.len() {
                    assert(self.frames@[k] == old(self).frames@[k]);
                    assert(old(self).frames@[k].ids@[i].depth == old(self).frames@[k].depth);
                } else {
                    assert(self.frames@[k].ids@.len() == 0);
                }
            }
        }
        assert forall|i: int| 0 <= i < self.issued@.len() implies (#[trigger] self.issued@[i]).depth < self.next_index@.len()
            && self.issued@[i].index < self.next_index@[self.issued@[i].depth as int] by {
            assert(old(self).issued@[i].index < old(self).next_index@[self.issued@[i].depth as int]);
        }
    }

    /// Opens the scope of a block, at the same depth.
    pub fn push_block(&mut self)
        requires
            old(self).wf(),
        ensures
            final(self).wf(),
            old(self).no_names() ==> final(self).no_names(),
            old(self).no_lexical() ==> final(self).no_lexical(),
            final(self).frames@.len() == old(self).frames@.len() + 1,
            forall|k: int| 0 <= k < old(self).frames@.len() ==> #[trigger] final(self).frames@[k] == old(self).frames@[k],
            !final(self).top().is_function,
            final(self).top().depth == old(self).top().depth,
            final(self).top().names@.len() == 0,
            final(self).top().address_taken@.len() == 0,
            final(self).top().captured@.len() == 0,
            final(self).issued == old(self).issued,
            final(self).next_index == old(self).next_index,
            final(self).strict == old(self).strict,
    {
        let depth = self.frames[self.frames.len() - 1].depth;
        self.frames.push(Frame::new(false, depth));
        proof {
            assert forall|k: int| 0 <= k < self.frames@.len() implies (#[trigger] self.frames@[k]).wf()
                && self.frames@[k].depth < self.next_index@.len() by {
                if k < old(self).frames@.len() {
                    assert(self.frames@[k] == old(self).frames@[k]);
                }
            }
            assert forall|k: int, i: int| 0 <= k < self.frames@.len() && 0 <= i < self.frames@[k].ids@.len()
                implies (#[trigger] self.frames@[k].ids@[i]).depth == self.frames@[k].depth by {
                if k < old(self).frames@.len() {
                    assert(self.frames@[k] == old(self).frames@[k]);
                    assert(old(self).frames@[k].ids@[i].depth == old(self).frames@[k].depth);
                } else {
                    assert(self.frames@[k].ids@.len() == 0);
                }
            }
        }
    }

    /// Closes the innermost scope and hands it back, with what was learnt
    /// of its variables.
    pub fn pop(&mut self) -> (r: Frame)
        requires
            old(self).wf(),
            old(self).frames@.len() > 1,
        ensures
            final(self).wf(),
            old(self).no_names() ==> final(self).no_names(),
            old(self).no_lexical() ==> final(self).no_lexical(),
            r == old(self).top(),
            final(self).frames@ == old(self).frames@.drop_last(),
            final(self).issued == old(self).issued,
            final(self).next_index == old(self).next_index,
            final(self).strict == old(self).strict,
    {
        let r = self.frames.pop();
        proof {
            assert forall|k: int| 0 <= k < self.frames@.len() implies (#[trigger] self.frames@[k]).wf()
                && self.frames@[k].depth < self.next_index@.len() by {
                assert(self.frames@[k] == old(self).frames@[k]);
            }
            assert forall|k: int, i: int| 0 <= k < self.frames@.len() && 0 <= i < self.frames@[k].ids@.len()
                implies (#[trigger] self.frames@[k].ids@[i]).depth == self.frames@[k].depth by {
                assert(self.frames@[k] == old(self).frames@[k]);
                assert(old(self).frames@[k].ids@[i].depth == old(self).frames@[k].depth);
            }
        }
        match r {
            Some(f) => f,
            None => Frame::new(false, 0),
        }
    }

    /// What declaring `name` with kind `kind` in the scope at `k` does:
    /// a second declaration fails unless both are `var`, in which case the
    /// first location is kept; a new name gets the next index of the
    /// scope's depth, unless that depth has run out of indices.
    pub open spec fn declared_in(
        &self,
        next: ScopeStack,
        k: int,
        name: String,
        kind: DeclKind,
        r: Result<VarLocId, ResolveError>,
    ) -> bool {
        let f = self.frames@[k];
        let d = f.depth as int;
        let id = VarLocId { depth: f.depth, index: self.next_index@[d] };
        match f.find(name@) {
            Some(i) => if kind.spec_is_lexical() || f.lexical@[i] {
                r == Err::<VarLocId, ResolveError>(ResolveError::DuplicateBinding) && next == *self
            } else {
                r == Ok::<VarLocId, ResolveError>(f.ids@[i]) && next == *self
            },
            None => if self.next_index@[d] == usize::MAX {
                r == Err::<VarLocId, ResolveError>(ResolveError::TooManyVariables) && next == *self
            } else {
                &&& r == Ok::<VarLocId, ResolveError>(id)
                &&& next.issued@ == self.issued@.push(id)
                &&& next.next_index@ == self.next_index@.update(d, (self.next_index@[d] + 1) as usize)
                &&& next.frames@.len() == self.frames@.len()
                &&& next.frames@[k].names@ == f.names@.push(name)
                &&& next.frames@[k].ids@ == f.ids@.push(id)
                &&& next.frames@[k].lexical@ == f.lexical@.push(kind.spec_is_lexical())
                &&& next.frames@[k].is_function == f.is_function
                &&& next.frames@[k].depth == f.depth
                &&& next.frames@[k].address_taken == f.address_taken
                &&& next.frames@[k].captured == f.captured
                &&& forall|m: int| 0 <= m < self.frames@.len() && m != k ==> #[trigger] next.frames@[m] == self.frames@[m]
                &&& next.strict == self.strict
            },
        }
    }

    /// Declares `name` with the given kind: `var` in the innermost function
    /// scope, `let` and `const` in the innermost scope.
    pub fn declare(&mut self, name: String, kind: DeclKind) -> (r: Result<VarLocId, ResolveError>)
        requires
            old(self).wf(),
        ensures
            final(self).wf(),
            final(self).frames@.len() == old(self).frames@.len(),
            final(self).strict == old(self).strict,
            !(r matches Err(ResolveError::UnsupportedNode)),
            !(r matches Err(ResolveError::InvalidAssignTarget)),
            !(r matches Err(ResolveError::UndeclaredGlobal)),
            old(self).no_lexical() && !kind.spec_is_lexical() ==> final(self).no_lexical()
                && !(r matches Err(ResolveError::DuplicateBinding)),
            forall|k: int| old(self).target(kind, k) ==> old(self).declared_in(*final(self), k, name, kind, r),
    {
        let k = if kind.is_lexical() {
            self.frames.len() - 1
        } else {
            self.innermost_function_index()
        };
        proof {
            assert forall|k2: int| self.target(kind, k2) implies k2 == k by {
                if !kind.spec_is_lexical() && k2 != k {
                    if k2 < k {
                        assert(!self.frames@[k as int].is_function);
                    } else {
                        assert(!self.frames@[k2].is_function);
                    }
                }
            }
        }
        self.declare_in(k, name, kind)
    }

    fn declare_in(&mut self, k: usize, name: String, kind: DeclKind) -> (r: Result<VarLocId, ResolveError>)
        requires
            old(self).wf(),
            k < old(self).frames@.len(),
        ensures
            final(self).wf(),
            final(self).frames@.len() == old(self).frames@.len(),
            final(self).strict == old(self).strict,
            !(r matches Err(ResolveError::UnsupportedNode)),
            !(r matches Err(ResolveError::InvalidAssignTarget)),
            !(r matches Err(ResolveError::UndeclaredGlobal)),
            old(self).no_lexical() && !kind.spec_is_lexical() ==> final(self).no_lexical()
                && !(r matches Err(ResolveError::DuplicateBinding)),
            old(self).declared_in(*final(self), k as int, name, kind, r),
    {
        match self.frames[k].position(&name) {
            Some(i) => {
                proof {
                    let f = self.frames@[k as int];
                    assert(f.find(name@) is Some);
                    let j = f.find(name@)->0;
                    assert(f.names@[j]@ == name@);
                    assert(j == i as int);
                }
                if kind.is_lexical() || self.frames[k].lexical[i] {
                    Err(ResolveError::DuplicateBinding)
                } else {
                    Ok(self.frames[k].ids[i])
                }
            },
            None => {
                let d = self.frames[k].depth;
                if self.next_index[d] == usize::MAX {
                    return Err(ResolveError::TooManyVariables);
                }
                let id = VarLocId { depth: d, index: self.next_index[d] };
                self.next_index.set(d, self.next_index[d] + 1);
                self.frames[k].names.push(name);
                self.frames[k].ids.push(id);
                self.frames[k].lexical.push(kind.is_lexical());
                self.issued = Ghost(self.issued@.push(id));
                proof {
                    let o = old(self).frames@[k as int];
                    let f = self.frames@[k as int];
                    assert(f.names@ == o.names@.push(name));
                    assert forall|a: int, b: int| 0 <= a < b < f.names@.len() implies (#[trigger] f.names@[a])@
                        != (#[trigger] f.names@[b])@ by {
                        if b == f.names@.len() - 1 {
                            assert(o.find(name@) is None);
                            assert(f.names@[a] == o.names@[a]);
                            if o.names@[a]@ == name@ {
                                assert(exists|q: int| 0 <= q < o.names@.len() && #[trigger] o.names@[q]@ == name@);
                            }
                        } else {
                            assert(f.names@[a] == o.names@[a]);
                            assert(f.names@[b] == o.names@[b]);
                        }
                    }
                    assert(f.wf());
                    assert forall|m: int| 0 <= m < self.frames@.len() implies (#[trigger] self.frames@[m]).wf()
                        && self.frames@[m].depth < self.next_index@.len() by {
                        if m != k as int {
                            assert(self.frames@[m] == old(self).frames@[m]);
                        }
                    }
                    assert forall|m: int, i: int| 0 <= m < self.frames@.len() && 0 <= i < self.frames@[m].ids@.len()
                        implies (#[trigger] self.frames@[m].ids@[i]).depth == self.frames@[m].depth by {
                        if m != k as int {
                            assert(self.frames@[m] == old(self).frames@[m]);
                            assert(old(self).frames@[m].ids@[i].depth == old(self).frames@[m].depth);
                        } else if i < o.ids@.len() {
                            assert(f.ids@[i] == o.ids@[i]);
                            assert(o.ids@[i].depth == o.depth);
                        }
                    }
                }
                Ok(id)
            },
        }
    }
}

/// The position of the innermost scope among `frames` that declares `name`.
pub open spec fn lookup(frames: Seq<Frame>, name: Seq<char>) -> Option<int>
    decreases frames.len(),
{
    if frames.len() == 0 {
        None
    } else if frames.last().find(name) is Some {
        Some(frames.len() - 1)
    } else {
        lookup(frames.drop_last(), name)
    }
}

proof fn lemma_lookup(frames: Seq<Frame>, name: Seq<char>)
    ensures
        lookup(frames, name) matches Some(k) ==> 0 <= k < frames.len() && frames[k].find(name) is Some
            && forall|m: int| k < m < frames.len() ==> (#[trigger] frames[m]).find(name) is None,
        lookup(frames, name) is None ==> forall|m: int| 0 <= m < frames.len() ==> (#[trigger] frames[m]).find(name) is None,
    decreases frames.len(),
{
    if frames.len() > 0 {
        lemma_lookup(frames.drop_last(), name);
        if frames.last().find(name) is None {
            assert forall|m: int| 0 <= m < frames.len() - 1 implies #[trigger] frames[m] == frames.drop_last()[m] by {}
        }
    }
}

/// `next` holds `x` in addition to what `prev` holds, once.
pub open spec fn pushed_once<T>(prev: Seq<T>, next: Seq<T>, x: T) -> bool {
    if prev.contains(x) {
        next == prev
    } else {
        next == prev.push(x)
    }
}

fn push_unique_index(v: &mut Vec<usize>, x: usize)
    ensures
        pushed_once(old(v)@, final(v)@, x),
{
    let mut i: usize = 0;
    while i < v.len()
        invariant
            i <= v@.len(),
            v@ == old(v)@,
            forall|j: int| 0 <= j < i ==> v@[j] != x,
        decreases v@.len() - i,
    {
        if v[i] == x {
            return;
        }
        i += 1;
    }
    v.push(x);
}

fn push_unique_id(v: &mut Vec<VarLocId>, x: VarLocId)
    ensures
        pushed_once(old(v)@, final(v)@, x),
{
    let mut i: usize = 0;
    while i < v.len()
        invariant
            i <= v@.len(),
            v@ == old(v)@,
            forall|j: int| 0 <= j < i ==> v@[j] != x,
        decreases v@.len() - i,
    {
        if v[i] == x {
            return;
        }
        i += 1;
    }
    v.push(x);
}

impl ScopeStack {
    /// A use of a variable declared at `k` from the innermost scope crosses
    /// a function boundary.
    pub open spec fn crosses(&self, k: int) -> bool {
        exists|m: int| k < m < self.frames@.len() && (#[trigger] self.frames@[m]).is_function
    }

    /// Binds a use of `name` to the innermost declaration of it. A use of a
    /// non-global variable from inside a nested function marks it address
    /// taken in its scope and captured by every function in between. An
    /// undeclared name fails in strict mode and is otherwise declared as a
    /// global.
    pub fn resolve_use(&mut self, name: &String) -> (r: Result<VarLocId, ResolveError>)
        requires
            old(self).wf(),
        ensures
            final(self).wf(),
            final(self).frames@.len() == old(self).frames@.len(),
            final(self).strict == old(self).strict,
            !syntax_error(r),
            old(self).no_lexical() ==> final(self).no_lexical() && !(r matches Err(ResolveError::DuplicateBinding)),
            old(self).no_names() && old(self).strict ==> r is Err && *final(self) == *old(self),
            match lookup(old(self).frames@, name@) {
                Some(k) => {
                    let f = old(self).frames@[k];
                    let id = f.ids@[f.find(name@)->0];
                    let marks = id.depth > 0 && old(self).crosses(k);
                    &&& r == Ok::<VarLocId, ResolveError>(id)
                    &&& final(self).issued == old(self).issued
                    &&& final(self).next_index == old(self).next_index
                    &&& final(self).strict == old(self).strict
                    &&& final(self).frames@.len() == old(self).frames@.len()
                    &&& forall|m: int| 0 <= m < old(self).frames@.len() ==> {
                        let o = #[trigger] old(self).frames@[m];
                        let n = final(self).frames@[m];
                        &&& n.names == o.names
                        &&& n.ids == o.ids
                        &&& n.lexical == o.lexical
                        &&& n.is_function == o.is_function
                        &&& n.depth == o.depth
                        &&& if marks && m == k {
                            pushed_once(o.address_taken@, n.address_taken@, id.index)
                        } else {
                            n.address_taken == o.address_taken
                        }
                        &&& if marks && k < m && o.is_function {
                            pushed_once(o.captured@, n.captured@, id)
                        } else {
                            n.captured == o.captured
                        }
                    }
                },
                None => if old(self).strict {
                    r == Err::<VarLocId, ResolveError>(ResolveError::UndeclaredGlobal) && *final(self) == *old(self)
                } else {
                    old(self).declared_in(*final(self), 0, *name, DeclKind::Var, r)
                },
            },
    {
        proof {
            lemma_lookup(self.frames@, name@);
        }
        let n = self.frames.len();
        let mut k: usize = n;
        let mut found: Option<usize> = None;
        while k > 0
            invariant_except_break
                found is None,
                forall|m: int| k <= m < n ==> (#[trigger] self.frames@[m]).find(name@) is None,
            invariant
                self.wf(),
                n == self.frames@.len(),
                k <= n,
                *self == *old(self),
            ensures
                found is None ==> forall|m: int| 0 <= m < n ==> (#[trigger] self.frames@[m]).find(name@) is None,
                found matches Some(i) ==> k < n && i < self.frames@[k as int].names@.len()
                    && self.frames@[k as int].names@[i as int]@ == name@
                    && forall|m: int| k < m < n ==> (#[trigger] self.frames@[m]).find(name@) is None,
            decreases k,
        {
            k -= 1;
            match self.frames[k].position(name) {
                Some(i) => {
                    found = Some(i);
                    break;
                },
                None => {},
            }
        }
        match found {
            None => {
                if self.strict {
                    return Err(ResolveError::UndeclaredGlobal);
                }
                let owned = name.clone();
                self.declare_in(0, owned, DeclKind::Var)
            },
            Some(i) => {
                let ghost fk = self.frames@[k as int];
                proof {
                    assert(fk.find(name@) is Some);
                    let j = fk.find(name@)->0;
                    assert(fk.names@[j]@ == name@);
                    assert(j == i as int);
                    if lookup(self.frames@, name@) != Some(k as int) {
                        let k2 = lookup(self.frames@, name@)->0;
                        assert(self.frames@[k2].find(name@) is Some);
                    }
                }
                let id = self.frames[k].ids[i];
                if id.depth > 0 {
                    let mut crosses = false;
                    let mut m: usize = k + 1;
                    while m < n
                        invariant
                            k < m <= n,
                            n == self.frames@.len(),
                            n == old(self).frames@.len(),
                            self.issued == old(self).issued,
                            self.next_index == old(self).next_index,
                            self.strict == old(self).strict,
                            crosses <==> exists|q: int| k < q < m && (#[trigger] old(self).frames@[q]).is_function,
                            forall|q: int| 0 <= q < n ==> {
                                let o = #[trigger] old(self).frames@[q];
                                let f = self.frames@[q];
                                &&& f.names == o.names
                                &&& f.ids == o.ids
                                &&& f.lexical == o.lexical
                                &&& f.is_function == o.is_function
                                &&& f.depth == o.depth
                                &&& f.address_taken == o.address_taken
                                &&& if k < q < m && o.is_function {
                                    pushed_once(o.captured@, f.captured@, id)
                                } else {
                                    f.captured == o.captured
                                }
                            },
                        decreases n - m,
                    {
                        if self.frames[m].is_function {
                            assert(old(self).frames@[m as int].is_function);
                            crosses = true;
                            push_unique_id(&mut self.frames[m].captured, id);
                        } else {
                            assert(!old(self).frames@[m as int].is_function);
                        }
                        m += 1;
                    }
                    if crosses {
                        push_unique_index(&mut self.frames[k].address_taken, id.index);
                    }
                }
                proof {
                    assert forall|q: int| 0 <= q < n implies (#[trigger] self.frames@[q]).wf()
                        && self.frames@[q].depth < self.next_index@.len() by {
                        assert(self.frames@[q].names == old(self).frames@[q].names);
                        assert(old(self).frames@[q].wf());
                    }
                    assert forall|q: int, j: int| 0 <= q < n && 0 <= j < self.frames@[q].ids@.len()
                        implies (#[trigger] self.frames@[q].ids@[j]).depth == self.frames@[q].depth by {
                        assert(self.frames@[q].ids == old(self).frames@[q].ids);
                        assert(old(self).frames@[q].ids@[j].depth == old(self).frames@[q].depth);
                    }
                    assert(self.frames@[0].is_function == old(self).frames@[0].is_function);
                    if old(self).no_lexical() {
                        assert forall|k: int, i: int| 0 <= k < self.frames@.len() && 0 <= i < self.frames@[k].lexical@.len()
                            implies !(#[trigger] self.frames@[k].lexical@[i]) by {
                            assert(self.frames@[k].lexical == old(self).frames@[k].lexical);
                        }
                    }
                }
                Ok(id)
            },
        }
    }
}

/// The kind of a variable declaration by its keyword: `let`, `const`, or
/// anything else as `var`.
pub open spec fn decl_kind_of(keyword: Seq<u8>) -> DeclKind {
    if keyword == seq![108u8, 101u8, 116u8] {
        DeclKind::Let
    } else if keyword == seq![99u8, 111u8, 110u8, 115u8, 116u8] {
        DeclKind::Const
    } else {
        DeclKind::Var
    }
}

fn decl_kind(keyword: &String) -> (r: DeclKind)
    ensures
        r == decl_kind_of(encode_utf8(keyword@)),
{
    let b = keyword.as_str().as_bytes();
    if b.len() == 3 && b[0] == 108u8 && b[1] == 101u8 && b[2] == 116u8 {
        assert(b@ =~= seq![108u8, 101u8, 116u8]);
        DeclKind::Let
    } else if b.len() == 5 && b[0] == 99u8 && b[1] == 111u8 && b[2] == 110u8 && b[3] == 115u8 && b[4] == 116u8 {
        assert(b@ =~= seq![99u8, 111u8, 110u8, 115u8, 116u8]);
        DeclKind::Const
    } else {
        DeclKind::Var
    }
}

/// The name of an identifier node.
fn identifier_name(node: &Node) -> (r: Result<String, ResolveError>)
    ensures
        r is Ok <==> node.kind is Identifier,
        r matches Ok(n) ==> n@ == node.kind->Identifier_0.name@,
        r matches Err(e) ==> e == ResolveError::UnsupportedNode,
{
    match &node.kind {
        NodeKind::Identifier(ident) => Ok(ident.name.clone()),
        _ => Err(ResolveError::UnsupportedNode),
    }
}

/// The frame-preserving effect every step of the traversal has on the
/// scope stack.
pub open spec fn keeps_frames(prev: ScopeStack, next: ScopeStack) -> bool {
    &&& next.wf()
    &&& next.frames@.len() == prev.frames@.len()
    &&& next.strict == prev.strict
}

/// Declares what hoists to the function scope from `stmts`: `var`
/// declarations anywhere outside nested functions, and the functions
/// declared at this level.
fn hoist(stmts: &Vec<Node>, st: &mut ScopeStack, top_level: bool) -> (r: Result<(), ResolveError>)
    requires
        old(st).wf(),
    ensures
        keeps_frames(*old(st), *final(st)),
        decl_free_list(stmts@) ==> r is Ok && *final(st) == *old(st),
        name_free_list(stmts@) ==> r is Ok,
        old(st).no_lexical() && lexical_free_list(stmts@) ==> final(st).no_lexical() && !(r matches Err(ResolveError::DuplicateBinding)),
        syntax_error(r) ==> !supported_list(stmts@),
        !(r matches Err(ResolveError::UndeclaredGlobal)),
    decreases stmts,
{
    proof {
        lemma_supported_list(stmts@);
        lemma_lexical_free_list(stmts@);
        lemma_name_free_list(stmts@);
        lemma_decl_free_list(stmts@);
    }
    let mut i: usize = 0;
    while i < stmts.len()
        invariant
            i <= stmts@.len(),
            keeps_frames(*old(st), *st),
            supported_list(stmts@) ==> forall|j: int| 0 <= j < stmts@.len() ==> supported(#[trigger] stmts@[j]),
            lexical_free_list(stmts@) ==> forall|j: int| 0 <= j < stmts@.len() ==> lexical_free(#[trigger] stmts@[j]),
            name_free_list(stmts@) ==> forall|j: int| 0 <= j < stmts@.len() ==> name_free(#[trigger] stmts@[j]),
            decl_free_list(stmts@) ==> forall|j: int| 0 <= j < stmts@.len() ==> decl_free(#[trigger] stmts@[j]),
            decl_free_list(stmts@) ==> *st == *old(st),
            old(st).no_lexical() && lexical_free_list(stmts@) ==> st.no_lexical(),
        decreases stmts@.len() - i,
    {
        let r = hoist_node(&stmts[i], st, top_level);
        if r.is_err() {
            return r;
        }
        i += 1;
    }
    Ok(())
}

fn hoist_node(node: &Node, st: &mut ScopeStack, top_level: bool) -> (r: Result<(), ResolveError>)
    requires
        old(st).wf(),
    ensures
        keeps_frames(*old(st), *final(st)),
        decl_free(*node) ==> r is Ok && *final(st) == *old(st),
        name_free(*node) ==> r is Ok,
        old(st).no_lexical() && lexical_free(*node) ==> final(st).no_lexical() && !(r matches Err(ResolveError::DuplicateBinding)),
        syntax_error(r) ==> !supported(*node),
        !(r matches Err(ResolveError::UndeclaredGlobal)),
    decreases node,
{
    match &node.kind {
        NodeKind::VariableDeclaration(decl) => {
            if decl_kind(&decl.kind) == DeclKind::Var {
                proof {
                    lemma_supported_list(decl.declarations@);
                }
                let mut i: usize = 0;
                while i < decl.declarations.len()
                    invariant
                        i <= decl.declarations@.len(),
                        keeps_frames(*old(st), *st),
                        supported(*node) ==> forall|j: int| 0 <= j < decl.declarations@.len() ==> (
                        #[trigger] decl.declarations@[j]).kind is VariableDeclarator && supported(decl.declarations@[j]),
                        old(st).no_lexical() && lexical_free(*node) ==> st.no_lexical(),
                        !name_free(*node),
                        !decl_free(*node),
                    decreases decl.declarations@.len() - i,
                {
                    match &decl.declarations[i].kind {
                        NodeKind::VariableDeclarator(d) => {
                            let name = identifier_name(&d.id)?;
                            st.declare(name, DeclKind::Var)?;
                        },
                        _ => {
                            return Err(ResolveError::UnsupportedNode);
                        },
                    }
                    i += 1;
                }
            }
            Ok(())
        },
        NodeKind::FunctionDeclaration(f) => {
            if top_level {
                let name = identifier_name(&f.id)?;
                st.declare(name, DeclKind::Var)?;
            }
            Ok(())
        },
        NodeKind::BlockStatement(b) => {
            assert(lexical_free(*node) ==> lexical_free_list(b.body@));
            let r = hoist(&b.body, st, false);
            assert(syntax_error(r) ==> !supported(*node));
            r
        },
        NodeKind::IfStatement(s) => {
            assert(lexical_free(*node) ==> lexical_free(*s.consequent) && lexical_free_opt(s.alternate));
            hoist_node(&s.consequent, st, false)?;
            match &s.alternate {
                Some(a) => {
                    let r = hoist_node(a, st, false);
                    assert(syntax_error(r) ==> !supported_opt(s.alternate));
                    r
                },
                None => Ok(()),
            }
        },
        NodeKind::LabeledStatement(s) => {
            assert(lexical_free(*node) ==> lexical_free(*s.body));
            let r = hoist_node(&s.body, st, false);
            assert(syntax_error(r) ==> !supported(*node));
            r
        },
        NodeKind::WithStatement(s) => {
            assert(lexical_free(*node) ==> lexical_free(*s.body));
            let r = hoist_node(&s.body, st, false);
            assert(syntax_error(r) ==> !supported(*node));
            r
        },
        NodeKind::ImportDeclaration(d) => {
            if !top_level {
                return Err(ResolveError::UnsupportedNode);
            }
            let mut i: usize = 0;
            while i < d.specifiers.len()
                invariant
                    i <= d.specifiers@.len(),
                    keeps_frames(*old(st), *st),
                    !supported(*node),
                    !lexical_free(*node),
                    !name_free(*node),
                    !decl_free(*node),
                decreases d.specifiers@.len() - i,
            {
                let local = match &d.specifiers[i].kind {
                    NodeKind::ImportSpecifier(x) => &x.local,
                    NodeKind::ImportDefaultSpecifier(x) => &x.local,
                    NodeKind::ImportNamespaceSpecifier(x) => &x.local,
                    _ => {
                        return Err(ResolveError::UnsupportedNode);
                    },
                };
                let name = identifier_name(local)?;
                st.declare(name, DeclKind::Const)?;
                i += 1;
            }
            Ok(())
        },
        _ => Ok(()),
    }
}

/// Declares the block-scoped names of `stmts` in the innermost scope:
/// `let` and `const`, and the functions of a nested block.
fn declare_lexical(stmts: &Vec<Node>, st: &mut ScopeStack, top_level: bool) -> (r: Result<(), ResolveError>)
    requires
        old(st).wf(),
    ensures
        keeps_frames(*old(st), *final(st)),
        declares_twice(stmts@) ==> r is Err,
        decl_free_list(stmts@) ==> r is Ok && *final(st) == *old(st),
        name_free_list(stmts@) ==> r is Ok,
        old(st).no_lexical() && lexical_free_list(stmts@) && (top_level || no_functions(stmts@)) ==> final(st).no_lexical() && !(r matches Err(ResolveError::DuplicateBinding)),
        syntax_error(r) ==> !supported_list(stmts@),
        !(r matches Err(ResolveError::UndeclaredGlobal)),
{
    proof {
        lemma_supported_list(stmts@);
        lemma_lexical_free_list(stmts@);
        lemma_name_free_list(stmts@);
        lemma_decl_free_list(stmts@);
    }
    let mut i: usize = 0;
    while i < stmts.len()
        invariant
            i <= stmts@.len(),
            keeps_frames(*old(st), *st),
            supported_list(stmts@) ==> forall|j: int| 0 <= j < stmts@.len() ==> supported(#[trigger] stmts@[j]),
            lexical_free_list(stmts@) ==> forall|j: int| 0 <= j < stmts@.len() ==> lexical_free(#[trigger] stmts@[j]),
            name_free_list(stmts@) ==> forall|j: int| 0 <= j < stmts@.len() ==> name_free(#[trigger] stmts@[j]),
            decl_free_list(stmts@) ==> forall|j: int| 0 <= j < stmts@.len() ==> decl_free(#[trigger] stmts@[j]),
            decl_free_list(stmts@) ==> *st == *old(st),
            old(st).no_lexical() && lexical_free_list(stmts@) && (top_level || no_functions(stmts@)) ==> st.no_lexical(),
            forall|q: int| 0 <= q < i && (#[trigger] let_name(stmts@[q])) is Some ==> st.top().find(let_name(stmts@[q])->0) is Some,
            forall|a: int, b: int| 0 <= a < b < i && let_name(stmts@[a]) is Some ==> #[trigger] let_name(stmts@[a])
                != #[trigger] let_name(stmts@[b]),
        decreases stmts@.len() - i,
    {
        let ghost st_before = *st;
        match &stmts[i].kind {
            NodeKind::VariableDeclaration(decl) => {
                let kind = decl_kind(&decl.kind);
                if kind != DeclKind::Var {
                    proof {
                        lemma_supported_list(decl.declarations@);
                        assert(!name_free(stmts@[i as int]));
                        assert(!decl_free(stmts@[i as int]));
                    }
                    let mut j: usize = 0;
                    while j < decl.declarations.len()
                        invariant
                            j <= decl.declarations@.len(),
                            keeps_frames(*old(st), *st),
                            supported_list(stmts@) ==> forall|q: int| 0 <= q < decl.declarations@.len() ==> (
                            #[trigger] decl.declarations@[q]).kind is VariableDeclarator && supported(decl.declarations@[q]),
                            !(old(st).no_lexical() && lexical_free_list(stmts@) && (top_level || no_functions(stmts@))),
                            !name_free_list(stmts@),
                            !decl_free_list(stmts@),
                            i < stmts@.len(),
                            stmts@[i as int].kind == NodeKind::VariableDeclaration(*decl),
                            kind.spec_is_lexical(),
                            forall|q: int| 0 <= q < i && (#[trigger] let_name(stmts@[q])) is Some ==> st.top().find(let_name(stmts@[q])->0) is Some,
                            j > 0 && let_name(stmts@[i as int]) is Some ==> st.top().find(let_name(stmts@[i as int])->0) is Some,
                            j > 0 && let_name(stmts@[i as int]) is Some ==> forall|q: int| 0 <= q < i && (#[trigger] let_name(stmts@[q])) is Some ==> let_name(stmts@[q]) != let_name(stmts@[i as int]),
                        decreases decl.declarations@.len() - j,
                    {
                        let ghost pre = *st;
                        match &decl.declarations[j].kind {
                            NodeKind::VariableDeclarator(d) => {
                                let name = identifier_name(&d.id)?;
                                let dr = st.declare(name, kind);
                                match dr {
                                    Err(e) => {
                                        return Err(e);
                                    },
                                    Ok(_) => {},
                                }
                                proof {
                                    let k = pre.frames@.len() - 1;
                                    assert(pre.target(kind, k));
                                    assert(pre.declared_in(*st, k, name, kind, dr));
                                    assert(pre.frames@[k].find(name@) is None);
                                    assert(st.frames@[k].names@ == pre.frames@[k].names@.push(name));
                                    assert forall|q: int| 0 <= q < i && (#[trigger] let_name(stmts@[q])) is Some implies st.top().find(let_name(stmts@[q])->0) is Some by {
                                        lemma_find_push(pre.frames@[k], st.frames@[k], name, let_name(stmts@[q])->0);
                                    }
                                    lemma_find_pushed(pre.frames@[k], st.frames@[k], name);
                                    if j > 0 && let_name(stmts@[i as int]) is Some {
                                        lemma_find_push(pre.frames@[k], st.frames@[k], name, let_name(stmts@[i as int])->0);
                                    }
                                    if j == 0 && let_name(stmts@[i as int]) is Some {
                                        assert(let_name(stmts@[i as int])->0 == name@);
                                        assert forall|q: int| 0 <= q < i && (#[trigger] let_name(stmts@[q])) is Some implies let_name(stmts@[q]) != let_name(stmts@[i as int]) by {
                                            if let_name(stmts@[q]) == let_name(stmts@[i as int]) {
                                                assert(pre.top().find(name@) is Some);
                                            }
                                        }
                                    }
                                }
                            },
                            _ => {
                                return Err(ResolveError::UnsupportedNode);
                            },
                        }
                        j += 1;
                    }
                }
            },
            NodeKind::FunctionDeclaration(f) => {
                if !top_level {
                    let name = identifier_name(&f.id)?;
                    let ghost pre = *st;
                    let dr = st.declare(name, DeclKind::Let);
                    match dr {
                        Err(e) => {
                            return Err(e);
                        },
                        Ok(_) => {},
                    }
                    proof {
                        let k = pre.frames@.len() - 1;
                        assert(pre.target(DeclKind::Let, k));
                        assert(pre.declared_in(*st, k, name, DeclKind::Let, dr));
                        assert(st.frames@[k].names@ == pre.frames@[k].names@.push(name));
                        assert forall|q: int| 0 <= q < i && (#[trigger] let_name(stmts@[q])) is Some implies st.top().find(let_name(stmts@[q])->0) is Some by {
                            lemma_find_push(pre.frames@[k], st.frames@[k], name, let_name(stmts@[q])->0);
                        }
                    }
                }
            },
            _ => {},
        }
        i += 1;
    }
    Ok(())
}

/// The tree is in the form resolution handles: no nested programs,
/// function expressions or imports; declared names, parameters and the
/// targets of assignments and updates are identifiers; declarations hold
/// declarators.
pub open spec fn supported(n: Node) -> bool
    decreases n,
{
    match n.kind {
        NodeKind::Program(_) => false,
        NodeKind::FunctionExpression(f) => idents(f.params@) && supported(*f.body),
        NodeKind::ImportDeclaration(_) => false,
        NodeKind::ImportSpecifier(_) => false,
        NodeKind::ImportDefaultSpecifier(_) => false,
        NodeKind::ImportNamespaceSpecifier(_) => false,
        NodeKind::ExpressionStatement(e) => supported(*e.expression),
        NodeKind::BlockStatement(b) => supported_list(b.body@),
        NodeKind::WithStatement(w) => supported(*w.object) && supported(*w.body),
        NodeKind::ReturnStatement(r) => supported_opt(r.argument),
        NodeKind::LabeledStatement(l) => supported(*l.body),
        NodeKind::IfStatement(i) => supported(*i.test) && supported(*i.consequent) && supported_opt(i.alternate),
        NodeKind::FunctionDeclaration(f) => f.id.kind is Identifier && idents(f.params@) && supported(*f.body),
        NodeKind::ArrowFunctionExpression(f) => idents(f.params@) && supported(*f.body),
        NodeKind::VariableDeclaration(d) => supported_decls(d.declarations@),
        NodeKind::VariableDeclarator(d) => d.id.kind is Identifier && supported_opt(d.init),
        NodeKind::UnaryExpression(u) => supported(*u.argument),
        NodeKind::UpdateExpression(u) => u.argument.kind is Identifier,
        NodeKind::BinaryExpression(b) => supported(*b.left) && supported(*b.right),
        NodeKind::LogicalExpression(b) => supported(*b.left) && supported(*b.right),
        NodeKind::AssignmentExpression(a) => a.left.kind is Identifier && supported(*a.right),
        NodeKind::ConditionalExpression(c) => supported(*c.test) && supported(*c.consequent) && supported(*c.alternate),
        NodeKind::CallExpression(c) => supported(*c.callee) && supported_list(c.arguments@),
        _ => true,
    }
}

pub open spec fn supported_opt(n: Option<Box<Node>>) -> bool
    decreases n,
{
    match n {
        Some(b) => supported(*b),
        None => true,
    }
}

pub open spec fn supported_list(s: Seq<Node>) -> bool
    decreases s,
{
    if s.len() == 0 {
        true
    } else {
        supported_list(s.drop_last()) && supported(s.last())
    }
}

pub open spec fn supported_decls(s: Seq<Node>) -> bool
    decreases s,
{
    if s.len() == 0 {
        true
    } else {
        supported_decls(s.drop_last()) && s.last().kind is VariableDeclarator && supported(s.last())
    }
}

/// Every node of `s` is an identifier.
pub open spec fn idents(s: Seq<Node>) -> bool {
    forall|j: int| 0 <= j < s.len() ==> (#[trigger] s[j]).kind is Identifier
}

/// The error is one of the tree's form: an unsupported node or an invalid
/// assignment target.
pub open spec fn syntax_error<T>(r: Result<T, ResolveError>) -> bool {
    r matches Err(ResolveError::UnsupportedNode) || r matches Err(ResolveError::InvalidAssignTarget)
}

proof fn lemma_supported_list(s: Seq<Node>)
    ensures
        supported_list(s) <==> forall|j: int| 0 <= j < s.len() ==> supported(#[trigger] s[j]),
        supported_decls(s) <==> forall|j: int| 0 <= j < s.len() ==> (#[trigger] s[j]).kind is VariableDeclarator
            && supported(s[j]),
    decreases s.len(),
{
    if s.len() > 0 {
        let d = s.drop_last();
        lemma_supported_list(d);
        assert forall|j: int| 0 <= j < d.len() implies #[trigger] d[j] == s[j] by {}
        if supported_list(s) {
            assert forall|j: int| 0 <= j < s.len() implies supported(#[trigger] s[j]) by {
                if j < s.len() - 1 {
                    assert(d[j] == s[j]);
                }
            }
        }
        if forall|j: int| 0 <= j < s.len() ==> supported(#[trigger] s[j]) {
            assert forall|j: int| 0 <= j < d.len() implies supported(#[trigger] d[j]) by {
                assert(d[j] == s[j]);
            }
            assert(supported(s[s.len() - 1]));
        }
        if supported_decls(s) {
            assert forall|j: int| 0 <= j < s.len() implies (#[trigger] s[j]).kind is VariableDeclarator
                && supported(s[j]) by {
                if j < s.len() - 1 {
                    assert(d[j] == s[j]);
                }
            }
        }
        if forall|j: int| 0 <= j < s.len() ==> (#[trigger] s[j]).kind is VariableDeclarator && supported(s[j]) {
            assert forall|j: int| 0 <= j < d.len() implies (#[trigger] d[j]).kind is VariableDeclarator
                && supported(d[j]) by {
                assert(d[j] == s[j]);
            }
            assert(s[s.len() - 1].kind is VariableDeclarator);
        }
    }
}

/// The tree declares nothing block-scoped: no `let` or `const`, no
/// import, and no function declared in a nested block (a function body's
/// own functions are hoisted like `var`). Such a tree cannot declare a
/// name twice in a way that fails.
pub open spec fn lexical_free(n: Node) -> bool
    decreases n, 0int,
{
    match n.kind {
        NodeKind::VariableDeclaration(d) => decl_kind_of(encode_utf8(d.kind@)) == DeclKind::Var
            && lexical_free_list(d.declarations@),
        NodeKind::ImportDeclaration(_) => false,
        NodeKind::BlockStatement(b) => lexical_free_list(b.body@) && no_functions(b.body@),
        NodeKind::FunctionDeclaration(f) => lexical_free(*f.id) && lexical_free_body(*f.body),
        NodeKind::ArrowFunctionExpression(f) => lexical_free_body(*f.body),
        NodeKind::FunctionExpression(f) => lexical_free_body(*f.body),
        NodeKind::ExpressionStatement(e) => lexical_free(*e.expression),
        NodeKind::WithStatement(w) => lexical_free(*w.object) && lexical_free(*w.body),
        NodeKind::ReturnStatement(r) => lexical_free_opt(r.argument),
        NodeKind::LabeledStatement(l) => lexical_free(*l.body),
        NodeKind::IfStatement(i) => lexical_free(*i.test) && lexical_free(*i.consequent) && lexical_free_opt(
            i.alternate,
        ),
        NodeKind::VariableDeclarator(d) => lexical_free(*d.id) && lexical_free_opt(d.init),
        NodeKind::UnaryExpression(u) => lexical_free(*u.argument),
        NodeKind::UpdateExpression(u) => lexical_free(*u.argument),
        NodeKind::BinaryExpression(b) => lexical_free(*b.left) && lexical_free(*b.right),
        NodeKind::LogicalExpression(b) => lexical_free(*b.left) && lexical_free(*b.right),
        NodeKind::AssignmentExpression(a) => lexical_free(*a.left) && lexical_free(*a.right),
        NodeKind::ConditionalExpression(c) => lexical_free(*c.test) && lexical_free(*c.consequent)
            && lexical_free(*c.alternate),
        NodeKind::CallExpression(c) => lexical_free(*c.callee) && lexical_free_list(c.arguments@),
        _ => true,
    }
}

/// A function body is lexical-free: its own functions may be declared.
pub open spec fn lexical_free_body(b: Node) -> bool
    decreases b, 1int,
{
    match b.kind {
        NodeKind::BlockStatement(bb) => lexical_free_list(bb.body@),
        _ => lexical_free(b),
    }
}

pub open spec fn lexical_free_opt(n: Option<Box<Node>>) -> bool
    decreases n, 0int,
{
    match n {
        Some(b) => lexical_free(*b),
        None => true,
    }
}

pub open spec fn lexical_free_list(s: Seq<Node>) -> bool
    decreases s, 0int,
{
    if s.len() == 0 {
        true
    } else {
        lexical_free_list(s.drop_last()) && lexical_free(s.last())
    }
}

/// No statement of `s` declares a function.
pub open spec fn no_functions(s: Seq<Node>) -> bool {
    forall|j: int| 0 <= j < s.len() ==> !((#[trigger] s[j]).kind is FunctionDeclaration)
}

proof fn lemma_lexical_free_list(s: Seq<Node>)
    ensures
        lexical_free_list(s) <==> forall|j: int| 0 <= j < s.len() ==> lexical_free(#[trigger] s[j]),
    decreases s.len(),
{
    if s.len() > 0 {
        let d = s.drop_last();
        lemma_lexical_free_list(d);
        if lexical_free_list(s) {
            assert forall|j: int| 0 <= j < s.len() implies lexical_free(#[trigger] s[j]) by {
                if j < s.len() - 1 {
                    assert(d[j] == s[j]);
                }
            }
        }
        if forall|j: int| 0 <= j < s.len() ==> lexical_free(#[trigger] s[j]) {
            assert forall|j: int| 0 <= j < d.len() implies lexical_free(#[trigger] d[j]) by {
                assert(d[j] == s[j]);
            }
            assert(lexical_free(s[s.len() - 1]));
        }
    }
}

/// The parts of the tree that resolution visits hold no form it refuses
/// outright: no nested program, no lone import specifier, and every
/// assignment or update targets an identifier.
pub open spec fn targets_ok(n: Node) -> bool
    decreases n,
{
    match n.kind {
        NodeKind::Program(_) => false,
        NodeKind::ImportSpecifier(_) => false,
        NodeKind::ImportDefaultSpecifier(_) => false,
        NodeKind::ImportNamespaceSpecifier(_) => false,
        NodeKind::ExpressionStatement(e) => targets_ok(*e.expression),
        NodeKind::BlockStatement(b) => targets_ok_list(b.body@),
        NodeKind::WithStatement(w) => targets_ok(*w.object) && targets_ok(*w.body),
        NodeKind::ReturnStatement(r) => targets_ok_opt(r.argument),
        NodeKind::LabeledStatement(l) => targets_ok(*l.body),
        NodeKind::IfStatement(i) => targets_ok(*i.test) && targets_ok(*i.consequent) && targets_ok_opt(i.alternate),
        NodeKind::FunctionDeclaration(f) => targets_ok(*f.id) && targets_ok(*f.body),
        NodeKind::FunctionExpression(f) => targets_ok(*f.body),
        NodeKind::ArrowFunctionExpression(f) => targets_ok(*f.body),
        NodeKind::VariableDeclaration(d) => targets_ok_list(d.declarations@),
        NodeKind::VariableDeclarator(d) => targets_ok(*d.id) && targets_ok_opt(d.init),
        NodeKind::UnaryExpression(u) => targets_ok(*u.argument),
        NodeKind::UpdateExpression(u) => u.argument.kind is Identifier,
        NodeKind::BinaryExpression(b) => targets_ok(*b.left) && targets_ok(*b.right),
        NodeKind::LogicalExpression(b) => targets_ok(*b.left) && targets_ok(*b.right),
        NodeKind::AssignmentExpression(a) => a.left.kind is Identifier && targets_ok(*a.right),
        NodeKind::ConditionalExpression(c) => targets_ok(*c.test) && targets_ok(*c.consequent) && targets_ok(*c.alternate),
        NodeKind::CallExpression(c) => targets_ok(*c.callee) && targets_ok_list(c.arguments@),
        _ => true,
    }
}

pub open spec fn targets_ok_opt(n: Option<Box<Node>>) -> bool
    decreases n,
{
    match n {
        Some(b) => targets_ok(*b),
        None => true,
    }
}

pub open spec fn targets_ok_list(s: Seq<Node>) -> bool
    decreases s,
{
    if s.len() == 0 {
        true
    } else {
        targets_ok_list(s.drop_last()) && targets_ok(s.last())
    }
}

proof fn lemma_targets_ok_list(s: Seq<Node>)
    ensures
        targets_ok_list(s) <==> forall|j: int| 0 <= j < s.len() ==> targets_ok(#[trigger] s[j]),
    decreases s.len(),
{
    if s.len() > 0 {
        let d = s.drop_last();
        lemma_targets_ok_list(d);
        if targets_ok_list(s) {
            assert forall|j: int| 0 <= j < s.len() implies targets_ok(#[trigger] s[j]) by {
                if j < s.len() - 1 {
                    assert(d[j] == s[j]);
                }
            }
        }
        if forall|j: int| 0 <= j < s.len() ==> targets_ok(#[trigger] s[j]) {
            assert forall|j: int| 0 <= j < d.len() implies targets_ok(#[trigger] d[j]) by {
                assert(d[j] == s[j]);
            }
            assert(targets_ok(s[s.len() - 1]));
        }
    }
}

/// The tree names nothing: no identifier, declaration, function or
/// import anywhere, and only nodes resolution walks through. Resolving such
/// a tree cannot fail.
pub open spec fn name_free(n: Node) -> bool
    decreases n,
{
    match n.kind {
        NodeKind::Literal(_) => true,
        NodeKind::EmptyStatement(_) => true,
        NodeKind::DebuggerStatement(_) => true,
        NodeKind::ExpressionStatement(e) => name_free(*e.expression),
        NodeKind::BlockStatement(b) => name_free_list(b.body@),
        NodeKind::ReturnStatement(r) => match r.argument {
            Some(a) => name_free(*a),
            None => true,
        },
        NodeKind::IfStatement(i) => name_free(*i.test) && name_free(*i.consequent) && match i.alternate {
            Some(a) => name_free(*a),
            None => true,
        },
        NodeKind::UnaryExpression(u) => name_free(*u.argument),
        NodeKind::BinaryExpression(b) => name_free(*b.left) && name_free(*b.right),
        NodeKind::LogicalExpression(b) => name_free(*b.left) && name_free(*b.right),
        NodeKind::ConditionalExpression(c) => name_free(*c.test) && name_free(*c.consequent) && name_free(*c.alternate),
        _ => false,
    }
}

pub open spec fn name_free_list(s: Seq<Node>) -> bool
    decreases s,
{
    if s.len() == 0 {
        true
    } else {
        name_free_list(s.drop_last()) && name_free(s.last())
    }
}

proof fn lemma_name_free_list(s: Seq<Node>)
    ensures
        name_free_list(s) <==> forall|j: int| 0 <= j < s.len() ==> name_free(#[trigger] s[j]),
    decreases s.len(),
{
    if s.len() > 0 {
        let d = s.drop_last();
        lemma_name_free_list(d);
        if name_free_list(s) {
            assert forall|j: int| 0 <= j < s.len() implies name_free(#[trigger] s[j]) by {
                if j < s.len() - 1 {
                    assert(d[j] == s[j]);
                }
            }
        }
        if forall|j: int| 0 <= j < s.len() ==> name_free(#[trigger] s[j]) {
            assert forall|j: int| 0 <= j < d.len() implies name_free(#[trigger] d[j]) by {
                assert(d[j] == s[j]);
            }
            assert(name_free(s[s.len() - 1]));
        }
    }
}

/// The tree declares nothing: no variable, function, parameter or import.
pub open spec fn decl_free(n: Node) -> bool
    decreases n,
{
    match n.kind {
        NodeKind::VariableDeclaration(_) => false,
        NodeKind::VariableDeclarator(_) => false,
        NodeKind::FunctionDeclaration(_) => false,
        NodeKind::FunctionExpression(_) => false,
        NodeKind::ArrowFunctionExpression(_) => false,
        NodeKind::ImportDeclaration(_) => false,
        NodeKind::ImportSpecifier(_) => false,
        NodeKind::ImportDefaultSpecifier(_) => false,
        NodeKind::ImportNamespaceSpecifier(_) => false,
        NodeKind::Program(_) => false,
        NodeKind::ExpressionStatement(e) => decl_free(*e.expression),
        NodeKind::BlockStatement(b) => decl_free_list(b.body@),
        NodeKind::WithStatement(w) => decl_free(*w.object) && decl_free(*w.body),
        NodeKind::ReturnStatement(r) => match r.argument {
            Some(a) => decl_free(*a),
            None => true,
        },
        NodeKind::LabeledStatement(l) => decl_free(*l.body),
        NodeKind::IfStatement(i) => decl_free(*i.test) && decl_free(*i.consequent) && match i.alternate {
            Some(a) => decl_free(*a),
            None => true,
        },
        NodeKind::UnaryExpression(u) => decl_free(*u.argument),
        NodeKind::UpdateExpression(u) => decl_free(*u.argument),
        NodeKind::BinaryExpression(b) => decl_free(*b.left) && decl_free(*b.right),
        NodeKind::LogicalExpression(b) => decl_free(*b.left) && decl_free(*b.right),
        NodeKind::AssignmentExpression(a) => decl_free(*a.left) && decl_free(*a.right),
        NodeKind::ConditionalExpression(c) => decl_free(*c.test) && decl_free(*c.consequent) && decl_free(*c.alternate),
        NodeKind::CallExpression(c) => decl_free(*c.callee) && decl_free_list(c.arguments@),
        _ => true,
    }
}

pub open spec fn decl_free_list(s: Seq<Node>) -> bool
    decreases s,
{
    if s.len() == 0 {
        true
    } else {
        decl_free_list(s.drop_last()) && decl_free(s.last())
    }
}

/// The tree uses a name: an identifier in an expression.
pub open spec fn has_use(n: Node) -> bool
    decreases n,
{
    match n.kind {
        NodeKind::Identifier(_) => true,
        NodeKind::ExpressionStatement(e) => has_use(*e.expression),
        NodeKind::ReturnStatement(r) => match r.argument {
            Some(a) => has_use(*a),
            None => false,
        },
        NodeKind::UnaryExpression(u) => has_use(*u.argument),
        NodeKind::BinaryExpression(b) => has_use(*b.left) || has_use(*b.right),
        NodeKind::LogicalExpression(b) => has_use(*b.left) || has_use(*b.right),
        NodeKind::ConditionalExpression(c) => has_use(*c.test) || has_use(*c.consequent) || has_use(*c.alternate),
        _ => false,
    }
}

pub open spec fn has_use_list(s: Seq<Node>) -> bool {
    exists|j: int| 0 <= j < s.len() && has_use(#[trigger] s[j])
}

proof fn lemma_decl_free_list(s: Seq<Node>)
    ensures
        decl_free_list(s) <==> forall|j: int| 0 <= j < s.len() ==> decl_free(#[trigger] s[j]),
    decreases s.len(),
{
    if s.len() > 0 {
        let d = s.drop_last();
        lemma_decl_free_list(d);
        if decl_free_list(s) {
            assert forall|j: int| 0 <= j < s.len() implies decl_free(#[trigger] s[j]) by {
                if j < s.len() - 1 {
                    assert(d[j] == s[j]);
                }
            }
        }
        if forall|j: int| 0 <= j < s.len() ==> decl_free(#[trigger] s[j]) {
            assert forall|j: int| 0 <= j < d.len() implies decl_free(#[trigger] d[j]) by {
                assert(d[j] == s[j]);
            }
            assert(decl_free(s[s.len() - 1]));
        }
    }
}

/// The name a `let` or `const` statement declares first, if it is one.
pub open spec fn let_name(n: Node) -> Option<Seq<char>> {
    match n.kind {
        NodeKind::VariableDeclaration(d) => if decl_kind_of(encode_utf8(d.kind@)) != DeclKind::Var
            && d.declarations@.len() > 0 {
            match d.declarations@[0].kind {
                NodeKind::VariableDeclarator(v) => match v.id.kind {
                    NodeKind::Identifier(i) => Some(i.name@),
                    _ => None,
                },
                _ => None,
            }
        } else {
            None
        },
        _ => None,
    }
}

/// Two `let` or `const` statements of `s` declare the same name.
pub open spec fn declares_twice(s: Seq<Node>) -> bool {
    exists|a: int, b: int|
        0 <= a < b < s.len() && let_name(s[a]) is Some && #[trigger] let_name(s[a]) == #[trigger] let_name(s[b])
}

proof fn lemma_find_push(f1: Frame, f2: Frame, y: String, x: Seq<char>)
    requires
        f2.names@ == f1.names@.push(y),
        f1.find(x) is Some,
    ensures
        f2.find(x) is Some,
{
    let i = f1.find(x)->0;
    assert(f2.names@[i] == f1.names@[i]);
}

proof fn lemma_find_pushed(f1: Frame, f2: Frame, y: String)
    requires
        f2.names@ == f1.names@.push(y),
    ensures
        f2.find(y@) is Some,
{
    assert(f2.names@[f1.names@.len() as int]@ == y@);
}

/// Every identifier use under `node` is bound to a variable location
/// (`Target`), and every scope node records its address-taken and captured
/// variables once each, captured ones never global. Parameters, labels
/// and the names of import sources are not uses.
pub open spec fn bound(node: Node) -> bool
    decreases node,
{
    match node.kind {
        NodeKind::Identifier(i) => i.prevar matches Some(PreVar::Target(_)),
        NodeKind::ImportDeclaration(d) => bound_list(d.specifiers@),
        NodeKind::ImportSpecifier(x) => bound(*x.local),
        NodeKind::ImportDefaultSpecifier(x) => bound(*x.local),
        NodeKind::ImportNamespaceSpecifier(x) => bound(*x.local),
        NodeKind::ExpressionStatement(e) => bound(*e.expression),
        NodeKind::BlockStatement(b) => bound_list(b.body@) && b.address_taken_vars@.no_duplicates(),
        NodeKind::WithStatement(w) => bound(*w.object) && bound(*w.body),
        NodeKind::ReturnStatement(r) => bound_opt(r.argument),
        NodeKind::LabeledStatement(l) => bound(*l.body),
        NodeKind::IfStatement(i) => bound(*i.test) && bound(*i.consequent) && bound_opt(i.alternate),
        NodeKind::FunctionDeclaration(f) => bound(*f.id) && bound(*f.body) && marks_ok(
            f.address_taken_vars@,
            f.captured_vars@,
        ),
        NodeKind::ArrowFunctionExpression(f) => bound(*f.body) && marks_ok(f.address_taken_vars@, f.captured_vars@),
        NodeKind::FunctionExpression(f) => bound(*f.body) && marks_ok(f.address_taken_vars@, f.captured_vars@),
        NodeKind::VariableDeclaration(d) => bound_list(d.declarations@),
        NodeKind::VariableDeclarator(d) => bound(*d.id) && bound_opt(d.init),
        NodeKind::UnaryExpression(u) => bound(*u.argument),
        NodeKind::UpdateExpression(u) => bound(*u.argument),
        NodeKind::BinaryExpression(b) => bound(*b.left) && bound(*b.right),
        NodeKind::LogicalExpression(b) => bound(*b.left) && bound(*b.right),
        NodeKind::AssignmentExpression(a) => bound(*a.left) && bound(*a.right),
        NodeKind::ConditionalExpression(c) => bound(*c.test) && bound(*c.consequent) && bound(*c.alternate),
        NodeKind::CallExpression(c) => bound(*c.callee) && bound_list(c.arguments@),
        _ => true,
    }
}

pub open spec fn bound_opt(node: Option<Box<Node>>) -> bool
    decreases node,
{
    match node {
        Some(b) => bound(*b),
        None => true,
    }
}

pub open spec fn bound_list(s: Seq<Node>) -> bool
    decreases s,
{
    if s.len() == 0 {
        true
    } else {
        bound_list(s.drop_last()) && bound(s.last())
    }
}

proof fn lemma_bound_list(s: Seq<Node>)
    requires
        forall|j: int| 0 <= j < s.len() ==> bound(#[trigger] s[j]),
    ensures
        bound_list(s),
    decreases s.len(),
{
    if s.len() > 0 {
        let d = s.drop_last();
        assert forall|j: int| 0 <= j < d.len() implies bound(#[trigger] d[j]) by {
            assert(d[j] == s[j]);
        }
        lemma_bound_list(d);
    }
}

fn is_identifier(node: &Node) -> (r: bool)
    ensures
        r == node.kind is Identifier,
{
    match &node.kind {
        NodeKind::Identifier(_) => true,
        _ => false,
    }
}

/// Binds every identifier use in `nodes`, in order.
fn resolve_list(nodes: &mut Vec<Node>, st: &mut ScopeStack) -> (r: Result<(), ResolveError>)
    requires
        old(st).wf(),
    ensures
        keeps_frames(*old(st), *final(st)),
        old(st).no_names() && old(st).strict && decl_free_list(old(nodes)@) ==> final(st).no_names(),
        old(st).no_names() && old(st).strict && decl_free_list(old(nodes)@) && has_use_list(old(nodes)@) ==> r is Err,
        const_list(old(nodes)@) ==> r is Ok && final(nodes)@ == old(nodes)@,
        name_free_list(old(nodes)@) ==> r is Ok,
        r is Ok ==> targets_ok_list(old(nodes)@),
        old(st).no_lexical() && lexical_free_list(old(nodes)@) ==> final(st).no_lexical() && !(r matches Err(ResolveError::DuplicateBinding)),
        syntax_error(r) ==> !supported_list(old(nodes)@),
        r matches Err(ResolveError::UndeclaredGlobal) ==> old(st).strict,
        r is Ok ==> bound_list(final(nodes)@),
    decreases *old(nodes), 1int,
{
    proof {
        lemma_supported_list(old(nodes)@);
        lemma_lexical_free_list(old(nodes)@);
        lemma_targets_ok_list(old(nodes)@);
        lemma_name_free_list(old(nodes)@);
        lemma_decl_free_list(old(nodes)@);
    }
    let n = nodes.len();
    let mut i: usize = 0;
    while i < n
        invariant
            n == nodes@.len(),
            n == old(nodes)@.len(),
            i <= n,
            keeps_frames(*old(st), *st),
            supported_list(old(nodes)@) ==> forall|j: int| 0 <= j < n ==> supported(#[trigger] old(nodes)@[j]),
            lexical_free_list(old(nodes)@) ==> forall|j: int| 0 <= j < n ==> lexical_free(#[trigger] old(nodes)@[j]),
            name_free_list(old(nodes)@) ==> forall|j: int| 0 <= j < n ==> name_free(#[trigger] old(nodes)@[j]),
            decl_free_list(old(nodes)@) ==> forall|j: int| 0 <= j < n ==> decl_free(#[trigger] old(nodes)@[j]),
            old(st).no_names() && old(st).strict && decl_free_list(old(nodes)@) ==> st.no_names(),
            old(st).no_names() && old(st).strict && decl_free_list(old(nodes)@) ==> forall|j: int| 0 <= j < i ==> !has_use(#[trigger] old(nodes)@[j]),
            const_list(old(nodes)@) ==> forall|j: int| 0 <= j < n ==> #[trigger] nodes@[j] == old(nodes)@[j],
            old(st).no_lexical() && lexical_free_list(old(nodes)@) ==> st.no_lexical(),
            forall|j: int| 0 <= j < i ==> targets_ok(#[trigger] old(nodes)@[j]),
            forall|j: int| i <= j < n ==> #[trigger] nodes@[j] == old(nodes)@[j],
            forall|j: int| 0 <= j < i ==> bound(#[trigger] nodes@[j]),
        decreases n - i,
    {
        resolve_node(&mut nodes[i], st)?;
        i += 1;
    }
    proof {
        lemma_bound_list(nodes@);
    }
    Ok(())
}

fn resolve_opt(node: &mut Option<Box<Node>>, st: &mut ScopeStack) -> (r: Result<(), ResolveError>)
    requires
        old(st).wf(),
    ensures
        keeps_frames(*old(st), *final(st)),
        old(st).no_names() && old(st).strict && (*old(node) matches Some(b) ==> decl_free(*b)) ==> final(st).no_names(),
        old(st).no_names() && old(st).strict && (*old(node) matches Some(b) && decl_free(*b) && has_use(*b)) ==> r is Err,
        (*old(node) matches Some(b) && number_literal(*b) is Some) ==> r is Ok && *final(node) == *old(node),
        (*old(node) matches Some(b) ==> name_free(*b)) ==> r is Ok,
        r is Ok ==> targets_ok_opt(*old(node)),
        old(st).no_lexical() && lexical_free_opt(*old(node)) ==> final(st).no_lexical() && !(r matches Err(ResolveError::DuplicateBinding)),
        syntax_error(r) ==> !supported_opt(*old(node)),
        r matches Err(ResolveError::UndeclaredGlobal) ==> old(st).strict,
        r is Ok ==> bound_opt(*final(node)),
    decreases *old(node), 1int,
{
    match node {
        Some(b) => resolve_node(&mut **b, st),
        None => Ok(()),
    }
}

/// Resolves the body of a function inside its own scope: parameters and
/// hoisted names first, then the body's block-scoped names, then uses.
fn resolve_function_scope(params: &Vec<Node>, body: &mut Node, st: &mut ScopeStack) -> (r: Result<(), ResolveError>)
    requires
        old(st).wf(),
    ensures
        keeps_frames(*old(st), *final(st)),
        r is Ok ==> targets_ok(*old(body)),
        old(st).no_lexical() && lexical_free_body(*old(body)) ==> final(st).no_lexical() && !(r matches Err(ResolveError::DuplicateBinding)),
        syntax_error(r) ==> !(idents(params@) && supported(*old(body))),
        r matches Err(ResolveError::UndeclaredGlobal) ==> old(st).strict,
        r is Ok ==> bound(*final(body)),
    decreases *old(body), 2int,
{
    let mut i: usize = 0;
    while i < params.len()
        invariant
            i <= params@.len(),
            keeps_frames(*old(st), *st),
            old(st).no_lexical() ==> st.no_lexical(),
        decreases params@.len() - i,
    {
        let name = identifier_name(&params[i])?;
        st.declare(name, DeclKind::Var)?;
        i += 1;
    }
    match &mut body.kind {
        NodeKind::BlockStatement(b) => {
            b.address_taken_vars = Vec::new();
            hoist(&b.body, st, true)?;
            declare_lexical(&b.body, st, true)?;
            resolve_list(&mut b.body, st)
        },
        _ => resolve_node(body, st),
    }
}

/// Binds each identifier use under `node` to its variable location and
/// records, on each function and block, what its nested functions capture.
fn resolve_node(node: &mut Node, st: &mut ScopeStack) -> (r: Result<(), ResolveError>)
    requires
        old(st).wf(),
    ensures
        keeps_frames(*old(st), *final(st)),
        old(st).no_names() && old(st).strict && decl_free(*old(node)) ==> final(st).no_names(),
        old(st).no_names() && old(st).strict && decl_free(*old(node)) && has_use(*old(node)) ==> r is Err,
        (const_stmt(*old(node)) || number_literal(*old(node)) is Some) ==> r is Ok && *final(node) == *old(node),
        name_free(*old(node)) ==> r is Ok,
        r is Ok ==> targets_ok(*old(node)),
        old(st).no_lexical() && lexical_free(*old(node)) ==> final(st).no_lexical() && !(r matches Err(ResolveError::DuplicateBinding)),
        syntax_error(r) ==> !supported(*old(node)),
        r matches Err(ResolveError::UndeclaredGlobal) ==> old(st).strict,
        r is Ok ==> bound(*final(node)),
    decreases *old(node), 1int,
{
    match &mut node.kind {
        NodeKind::Identifier(ident) => {
            let id = st.resolve_use(&ident.name)?;
            ident.prevar = Some(PreVar::Target(id));
            Ok(())
        },
        NodeKind::Literal(_) | NodeKind::EmptyStatement(_) | NodeKind::DebuggerStatement(_)
        | NodeKind::Directive(_) | NodeKind::BreakStatement(_) | NodeKind::ContinueStatement(_) => Ok(()),
        NodeKind::Program(_) | NodeKind::ImportSpecifier(_)
        | NodeKind::ImportDefaultSpecifier(_) | NodeKind::ImportNamespaceSpecifier(_) => Err(
            ResolveError::UnsupportedNode,
        ),
        NodeKind::ImportDeclaration(d) => resolve_imports(&mut d.specifiers, st),
        NodeKind::ExpressionStatement(e) => resolve_node(&mut *e.expression, st),
        NodeKind::BlockStatement(b) => {
            st.push_block();
            let r = resolve_block_body(&mut b.body, st);
            let frame = st.pop();
            b.address_taken_vars = frame.address_taken;
            r
        },
        NodeKind::WithStatement(w) => {
            resolve_node(&mut *w.object, st)?;
            resolve_node(&mut *w.body, st)
        },
        NodeKind::ReturnStatement(ret) => resolve_opt(&mut ret.argument, st),
        NodeKind::LabeledStatement(l) => resolve_node(&mut *l.body, st),
        NodeKind::IfStatement(i) => {
            resolve_node(&mut *i.test, st)?;
            resolve_node(&mut *i.consequent, st)?;
            resolve_opt(&mut i.alternate, st)
        },
        NodeKind::FunctionDeclaration(f) => {
            resolve_node(&mut *f.id, st)?;
            if !st.can_open_function() {
                return Err(ResolveError::TooManyVariables);
            }
            st.push_function();
            let r = resolve_function_scope(&f.params, &mut *f.body, st);
            let frame = st.pop();
            f.address_taken_vars = frame.address_taken;
            f.captured_vars = frame.captured;
            r
        },
        NodeKind::FunctionExpression(f) => {
            if !st.can_open_function() {
                return Err(ResolveError::TooManyVariables);
            }
            st.push_function();
            let r = resolve_function_scope(&f.params, &mut *f.body, st);
            let frame = st.pop();
            f.address_taken_vars = frame.address_taken;
            f.captured_vars = frame.captured;
            r
        },
        NodeKind::ArrowFunctionExpression(f) => {
            if !st.can_open_function() {
                return Err(ResolveError::TooManyVariables);
            }
            st.push_function();
            let r = resolve_function_scope(&f.params, &mut *f.body, st);
            let frame = st.pop();
            f.address_taken_vars = frame.address_taken;
            f.captured_vars = frame.captured;
            r
        },
        NodeKind::VariableDeclaration(d) => {
            proof {
                lemma_supported_list(d.declarations@);
            }
            resolve_list(&mut d.declarations, st)
        },
        NodeKind::VariableDeclarator(d) => {
            resolve_node(&mut *d.id, st)?;
            resolve_opt(&mut d.init, st)
        },
        NodeKind::UnaryExpression(u) => resolve_node(&mut *u.argument, st),
        NodeKind::UpdateExpression(u) => {
            if !is_identifier(&u.argument) {
                return Err(ResolveError::InvalidAssignTarget);
            }
            resolve_node(&mut *u.argument, st)
        },
        NodeKind::BinaryExpression(b) => {
            resolve_node(&mut *b.left, st)?;
            resolve_node(&mut *b.right, st)
        },
        NodeKind::LogicalExpression(b) => {
            resolve_node(&mut *b.left, st)?;
            resolve_node(&mut *b.right, st)
        },
        NodeKind::AssignmentExpression(a) => {
            if !is_identifier(&a.left) {
                return Err(ResolveError::InvalidAssignTarget);
            }
            resolve_node(&mut *a.left, st)?;
            resolve_node(&mut *a.right, st)
        },
        NodeKind::ConditionalExpression(c) => {
            resolve_node(&mut *c.test, st)?;
            resolve_node(&mut *c.consequent, st)?;
            resolve_node(&mut *c.alternate, st)
        },
        NodeKind::CallExpression(c) => {
            resolve_node(&mut *c.callee, st)?;
            resolve_list(&mut c.arguments, st)
        },
    }
}

fn resolve_block_body(body: &mut Vec<Node>, st: &mut ScopeStack) -> (r: Result<(), ResolveError>)
    requires
        old(st).wf(),
    ensures
        keeps_frames(*old(st), *final(st)),
        old(st).no_names() && old(st).strict && decl_free_list(old(body)@) ==> final(st).no_names(),
        old(st).no_names() && old(st).strict && decl_free_list(old(body)@) && has_use_list(old(body)@) ==> r is Err,
        name_free_list(old(body)@) ==> r is Ok,
        r is Ok ==> targets_ok_list(old(body)@),
        old(st).no_lexical() && lexical_free_list(old(body)@) && no_functions(old(body)@) ==> final(st).no_lexical() && !(r matches Err(ResolveError::DuplicateBinding)),
        syntax_error(r) ==> !supported_list(old(body)@),
        r matches Err(ResolveError::UndeclaredGlobal) ==> old(st).strict,
        r is Ok ==> bound_list(final(body)@),
    decreases *old(body), 2int,
{
    declare_lexical(body, st, false)?;
    resolve_list(body, st)
}

fn resolve_imports(specifiers: &mut Vec<Node>, st: &mut ScopeStack) -> (r: Result<(), ResolveError>)
    requires
        old(st).wf(),
    ensures
        keeps_frames(*old(st), *final(st)),
        r matches Err(ResolveError::UndeclaredGlobal) ==> old(st).strict,
        r is Ok ==> bound_list(final(specifiers)@),
    decreases *old(specifiers), 1int,
{
    let n = specifiers.len();
    let mut i: usize = 0;
    while i < n
        invariant
            n == specifiers@.len(),
            n == old(specifiers)@.len(),
            i <= n,
            keeps_frames(*old(st), *st),
            forall|j: int| i <= j < n ==> #[trigger] specifiers@[j] == old(specifiers)@[j],
            forall|j: int| 0 <= j < i ==> bound(#[trigger] specifiers@[j]),
        decreases n - i,
    {
        match &mut specifiers[i].kind {
            NodeKind::ImportSpecifier(x) => resolve_node(&mut *x.local, st)?,
            NodeKind::ImportDefaultSpecifier(x) => resolve_node(&mut *x.local, st)?,
            NodeKind::ImportNamespaceSpecifier(x) => resolve_node(&mut *x.local, st)?,
            _ => {
                return Err(ResolveError::UnsupportedNode);
            },
        }
        i += 1;
    }
    proof {
        lemma_bound_list(specifiers@);
    }
    Ok(())
}

/// Resolves a whole program: top-level `var`, function and import names
/// are globals, then every use is bound. In strict mode an undeclared name
/// fails; otherwise it becomes a global. On success the program's scope
/// stack is returned, with every location it issued.
pub fn resolve_program(program: &mut Program, strict: bool) -> (r: Result<ScopeStack, ResolveError>)
    ensures
        r matches Ok(st) ==> st.wf() && st.frames@.len() == 1 && st.strict == strict,
        r is Ok ==> bound_list(final(program).body@),
        syntax_error(r) ==> !supported_list(old(program).body@),
        r matches Err(ResolveError::UndeclaredGlobal) ==> strict,
        r matches Err(ResolveError::DuplicateBinding) ==> !lexical_free_list(old(program).body@),
        !targets_ok_list(old(program).body@) ==> r is Err,
        const_list(old(program).body@) ==> r is Ok && final(program).body@ == old(program).body@,
        name_free_list(old(program).body@) ==> r is Ok,
        strict && decl_free_list(old(program).body@) && has_use_list(old(program).body@) ==> r is Err,
        declares_twice(old(program).body@) ==> r is Err,
{
    let mut st = ScopeStack::new(strict);
    proof {
        lemma_name_free_list(program.body@);
        if const_list(program.body@) {
            assert forall|j: int| 0 <= j < program.body@.len() implies name_free(#[trigger] program.body@[j]) by {
                let n = program.body@[j];
                assert(const_stmt(n));
                match n.kind {
                    NodeKind::ExpressionStatement(e) => {
                        assert(e.expression.kind is Literal);
                        assert(name_free(*e.expression));
                    },
                    NodeKind::ReturnStatement(r) => {
                        match r.argument {
                            Some(a) => {
                                assert(a.kind is Literal);
                                assert(name_free(*a));
                            },
                            None => {},
                        }
                    },
                    _ => {},
                }
            }
        }
    }
    hoist(&program.body, &mut st, true)?;
    declare_lexical(&program.body, &mut st, true)?;
    resolve_list(&mut program.body, &mut st)?;
    Ok(st)
}

/// Every location the scope stack has issued is unique: two issued at the
/// same depth have different indices, so no (depth, index) pair is issued
/// twice, however scopes were opened and closed in between.
pub proof fn lemma_resolver_uniqueness(s: ScopeStack)
    requires
        s.wf(),
    ensures
        forall|i: int, j: int|
            0 <= i < s.issued@.len() && 0 <= j < s.issued@.len() && i != j
                && (#[trigger] s.issued@[i]).depth == (#[trigger] s.issued@[j]).depth
                ==> s.issued@[i].index != s.issued@[j].index,
{
    assert forall|i: int, j: int|
        0 <= i < s.issued@.len() && 0 <= j < s.issued@.len() && i != j
            && (#[trigger] s.issued@[i]).depth == (#[trigger] s.issued@[j]).depth
            implies s.issued@[i].index != s.issued@[j].index by {
        if i < j {
            assert(s.issued@[i].index < s.issued@[j].index);
        } else {
            assert(s.issued@[j].index < s.issued@[i].index);
        }
    }
}

} // verus!
