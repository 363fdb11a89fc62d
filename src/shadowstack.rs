//! A bounded stack of return addresses, kept apart from the emulated
//! program's own stack, to catch a return to an address other than the one
//! the matching call recorded.
use vstd::prelude::*;

verus! {

/// How many return addresses the shadow stack holds.
pub const SHADOW_STACK_SIZE: usize = 255;

/// The stack after pushing `x` onto `s`, or `None` when it is full.
pub open spec fn push_spec(s: Seq<u64>, x: u64) -> Option<Seq<u64>> {
    if s.len() < SHADOW_STACK_SIZE {
        Some(s.push(x))
    } else {
        None
    }
}

/// The value popped from `s` and the stack left behind, or `None` when it
/// is empty.
pub open spec fn pop_spec(s: Seq<u64>) -> Option<(u64, Seq<u64>)> {
    if s.len() > 0 {
        Some((s.last(), s.drop_last()))
    } else {
        None
    }
}

/// The stack after pushing every element of `xs`, first to last, or `None`
/// when one of the pushes fails.
pub open spec fn push_all(s: Seq<u64>, xs: Seq<u64>) -> Option<Seq<u64>>
    decreases xs.len(),
{
    if xs.len() == 0 {
        Some(s)
    } else {
        match push_all(s, xs.drop_last()) {
            Some(t) => push_spec(t, xs.last()),
            None => None,
        }
    }
}

/// The values of `n` pops in the order they come out, and the stack left
/// behind, or `None` when one of the pops fails.
pub open spec fn pop_n(s: Seq<u64>, n: nat) -> Option<(Seq<u64>, Seq<u64>)>
    decreases n,
{
    if n == 0 {
        Some((Seq::empty(), s))
    } else {
        match pop_spec(s) {
            Some((x, t)) => match pop_n(t, (n - 1) as nat) {
                Some((ys, u)) => Some((seq![x] + ys, u)),
                None => None,
            },
            None => None,
        }
    }
}

/// Pushing `a1..an` and then popping `n` times gives `an..a1` and leaves
/// the stack as it was; a pop from an empty stack fails, and so does a push
/// onto a full one.
pub proof fn lemma_lifo(s: Seq<u64>, xs: Seq<u64>, x: u64)
    requires
        s.len() + xs.len() <= SHADOW_STACK_SIZE,
    ensures
        push_all(s, xs) == Some(s + xs),
        pop_n(s + xs, xs.len()) == Some((xs.reverse(), s)),
        pop_spec(Seq::empty()) is None,
        push_spec(s + xs, x) is None <==> s.len() + xs.len() == SHADOW_STACK_SIZE,
    decreases xs.len(),
{
    if xs.len() > 0 {
        let init = xs.drop_last();
        lemma_lifo(s, init, x);
        assert(s + init + seq![xs.last()] == s + xs);
        assert((s + xs).drop_last() == s + init);
        assert(seq![xs.last()] + init.reverse() == xs.reverse());
    }
}

/// The shadow stack: `stack[0..sp]` are the addresses pushed and not yet
/// popped, the latest at `sp - 1`.
pub struct ShadowStack {
    sp: usize,
    stack: [u64; SHADOW_STACK_SIZE],
}

impl View for ShadowStack {
    type V = Seq<u64>;

    closed spec fn view(&self) -> Seq<u64> {
        self.stack@.subrange(0, self.sp as int)
    }
}

impl ShadowStack {
    /// Every slot of the array, in use or not.
    pub closed spec fn slots(&self) -> Seq<u64> {
        self.stack@
    }

    /// The stack pointer is within the array.
    pub closed spec fn wf(&self) -> bool {
        self.sp <= SHADOW_STACK_SIZE
    }

    /// A well-formed stack holds at most its capacity.
    pub proof fn lemma_len(&self)
        requires
            self.wf(),
        ensures
            self@.len() <= SHADOW_STACK_SIZE,
    {
    }

    /// A shadow stack over `stack` whose first `sp` slots are in use.
    pub fn new(sp: usize, stack: [u64; SHADOW_STACK_SIZE]) -> (r: Self)
        requires
            sp <= SHADOW_STACK_SIZE,
        ensures
            r.wf(),
            r.slots() == stack@,
            r@ == stack@.subrange(0, sp as int),
    {
        Self { sp, stack }
    }

    /// Pushes `data`; on a full stack this is an error and changes nothing.
    pub fn push(&mut self, data: u64) -> (r: Result<(), String>)
        requires
            old(self).wf(),
        ensures
            final(self).wf(),
            match r {
                Ok(_) => push_spec(old(self)@, data) == Some(final(self)@),
                Err(_) => push_spec(old(self)@, data) is None && *final(self) == *old(self),
            },
            r is Ok ==> final(self).slots() == old(self).slots().update(old(self)@.len() as int, data),
    {
        if self.sp >= SHADOW_STACK_SIZE {
            return Err("Error, shadowstack is full".to_string());
        }
        self.stack[self.sp] = data;
        self.sp += 1;
        assert(self@ == old(self)@.push(data));
        Ok(())
    }

    /// Pops the latest address; on an empty stack this is an error and
    /// changes nothing.
    pub fn pop(&mut self) -> (r: Result<u64, String>)
        requires
            old(self).wf(),
        ensures
            final(self).wf(),
            match r {
                Ok(v) => pop_spec(old(self)@) == Some((v, final(self)@)),
                Err(_) => pop_spec(old(self)@) is None && *final(self) == *old(self),
            },
            final(self).slots() == old(self).slots(),
    {
        if self.sp < 1 {
            return Err("Error, shadowstack stack pointer will be under zero".to_string());
        }
        let ret = self.stack[self.sp - 1];
        self.sp -= 1;
        assert(self@ == old(self)@.drop_last());
        Ok(ret)
    }

    /// The latest address, without popping it; `None` on an empty stack.
    pub fn top(&self) -> (r: Option<u64>)
        requires
            self.wf(),
        ensures
            match r {
                Some(v) => pop_spec(self@) is Some && pop_spec(self@).unwrap().0 == v,
                None => pop_spec(self@) is None,
            },
    {
        if self.sp < 1 {
            None
        } else {
            Some(self.stack[self.sp - 1])
        }
    }

    /// The number of addresses on the stack.
    pub fn get_sp(&self) -> (r: usize)
        requires
            self.wf(),
        ensures
            r == self@.len(),
    {
        self.sp
    }

    /// Slot `i` of the array, in use or not.
    pub fn get_stack(&self, i: usize) -> (r: u64)
        requires
            i < SHADOW_STACK_SIZE,
        ensures
            r == self.slots()[i as int],
    {
        self.stack[i]
    }
}

} // verus!
