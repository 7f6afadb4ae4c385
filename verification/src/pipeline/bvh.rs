//! Bookkeeping of BVH traversal: a fixed-size stack of node indices.
use vstd::prelude::*;

verus! {

/// Node index that stands for "no node" (the root of an empty hierarchy).
pub const NULL_NODE: u32 = 0xFFFF_FFFF;

/// Capacity of the traversal stack.
pub const TRAVERSAL_STACK: usize = 64;

/// The stack after pushing the children of a node: only children whose
/// boxes the ray passes are pushed, and when both pass the nearer one is
/// pushed last so that it is popped first.
pub open spec fn pushed_children(
    stack: Seq<u32>,
    left: u32,
    right: u32,
    pass_l: bool,
    pass_r: bool,
    left_nearer: bool,
) -> Seq<u32> {
    if pass_l && pass_r {
        if left_nearer { stack.push(right).push(left) } else { stack.push(left).push(right) }
    } else if pass_l {
        stack.push(left)
    } else if pass_r {
        stack.push(right)
    } else {
        stack
    }
}

/// A stack of node indices that lives entirely in a fixed array.
pub struct TraversalStack {
    data: [u32; 64],
    sp: usize,
}

impl TraversalStack {
    /// The pending node indices, bottom first.
    pub closed spec fn items(&self) -> Seq<u32> {
        self.data@.subrange(0, self.sp as int)
    }

    /// The stack pointer never leaves the array.
    #[verifier::type_invariant]
    spec fn within_capacity(&self) -> bool {
        self.sp <= TRAVERSAL_STACK
    }

    /// A stack holding only `root`.
    pub fn new(root: u32) -> (s: Self)
        ensures
            s.items() == seq![root],
    {
        let mut data = [0u32; 64];
        data[0] = root;
        let s = TraversalStack { data, sp: 1 };
        assert(s.items() =~= seq![root]);
        s
    }

    /// Number of pending node indices.
    pub fn len(&self) -> (n: usize)
        ensures
            n == self.items().len(),
            n <= TRAVERSAL_STACK,
    {
        proof {
            use_type_invariant(self);
        }
        self.sp
    }

    /// Takes the most recently pushed index.
    pub fn pop(&mut self) -> (r: Option<u32>)
        ensures
            old(self).items().len() == 0 ==> r is None && final(self).items() == old(self).items(),
            old(self).items().len() > 0 ==> r == Some(old(self).items().last()) && final(self).items()
                == old(self).items().drop_last(),
    {
        proof {
            use_type_invariant(&*self);
        }
        if self.sp == 0 {
            return None;
        }
        self.sp = self.sp - 1;
        let v = self.data[self.sp];
        assert(self.items() =~= old(self).items().drop_last());
        Some(v)
    }

    /// Pushes the children of a node given the outcome of the ray's box
    /// tests: `pass_l`/`pass_r` tell whether the ray passes each child's
    /// box within the current interval, `left_nearer` whether the left box
    /// is entered no later than the right one.
    pub fn push_children(&mut self, left: u32, right: u32, pass_l: bool, pass_r: bool, left_nearer: bool)
        requires
            old(self).items().len() + 2 <= TRAVERSAL_STACK,
        ensures
            final(self).items() == pushed_children(old(self).items(), left, right, pass_l, pass_r, left_nearer),
    {
        proof {
            use_type_invariant(&*self);
        }
        if !pass_l && !pass_r {
            return;
        }
        let sp = self.sp;
        if pass_l && pass_r {
            if left_nearer {
                self.data[sp] = right;
                self.data[sp + 1] = left;
            } else {
                self.data[sp] = left;
                self.data[sp + 1] = right;
            }
            self.sp = sp + 2;
            assert(self.items() =~= pushed_children(old(self).items(), left, right, pass_l, pass_r, left_nearer));
            return;
        }
        self.data[sp] = if pass_l { left } else { right };
        self.sp = sp + 1;
        assert(self.items() =~= pushed_children(old(self).items(), left, right, pass_l, pass_r, left_nearer));
    }
}

/// When both children pass, the nearer one is visited next and the farther
/// one right after; children that do not pass are never visited.
pub proof fn lemma_nearer_child_first(stack: Seq<u32>, left: u32, right: u32, pass_l: bool, pass_r: bool, left_nearer: bool)
    ensures
        ({
            let after = pushed_children(stack, left, right, pass_l, pass_r, left_nearer);
            &&& pass_l && pass_r ==> after.last() == (if left_nearer { left } else { right }) && after.drop_last().last() == (
            if left_nearer { right } else { left })
            &&& after.subrange(0, stack.len() as int) == stack
            &&& after.len() == stack.len() + (if pass_l { 1int } else { 0 }) + (if pass_r { 1int } else { 0 })
            &&& forall|k: int| stack.len() <= k < after.len() ==> (#[trigger] after[k] == left && pass_l) || (after[k] == right && pass_r)
        }),
{
    let after = pushed_children(stack, left, right, pass_l, pass_r, left_nearer);
    assert(after.subrange(0, stack.len() as int) =~= stack);
}

} // verus!
