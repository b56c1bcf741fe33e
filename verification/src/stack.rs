//! The fixed-depth shift-register operand stack.
//!
//! The stack is always exactly `STACK_SIZE` slots deep; pushing ages every
//! value one slot toward the bottom and silently discards the bottom-most
//! one, and the binary-operator collapse shifts every slot one position
//! toward the top, duplicating the former last slot.  The slot type is
//! generic: the inline-math layer instantiates it with its numeric type and
//! feeds computed operator results back in through `apply_unary` and
//! `apply_binary`.

use vstd::prelude::*;

verus! {

/// Number of slots; the stack is always exactly this deep.
pub const STACK_SIZE: usize = 10;

/// The top slot after pushing `v`: every old value ages one slot toward the
/// bottom and the bottom-most value is discarded.
pub open spec fn pushed<T>(s: Seq<T>, v: T) -> Seq<T> {
    seq![v] + s.drop_last()
}

/// Every slot shifts one position toward the bottom; the top keeps its value
/// (it is fed from itself) and the bottom-most value is discarded.
pub open spec fn rolled_up<T>(s: Seq<T>) -> Seq<T> {
    seq![s[0]] + s.drop_last()
}

/// Every slot shifts one position toward the top; the last slot keeps its
/// value (nothing is cleared, only shifted).
pub open spec fn rolled_down<T>(s: Seq<T>) -> Seq<T> {
    s.drop_first() + seq![s.last()]
}

/// The stack after a binary operator: its result `r` replaces the slot
/// beneath the top and the stack collapses one position toward the top.
pub open spec fn collapsed<T>(s: Seq<T>, r: T) -> Seq<T> {
    rolled_down(s.update(1, r))
}

/// A fixed array of exactly `STACK_SIZE` operand slots.  Slot 0 is the top
/// ("X"), slot 1 is "Y", slot 2 is "Z".
#[derive(Debug)]
pub struct RegisterStack<T> {
    slots: Vec<T>,
}

impl<T> View for RegisterStack<T> {
    type V = Seq<T>;

    closed spec fn view(&self) -> Seq<T> {
        self.slots@
    }
}

impl<T: Copy> RegisterStack<T> {
    /// The stack is well formed when it holds exactly `STACK_SIZE` slots;
    /// every operation preserves this.
    pub open spec fn wf(self) -> bool {
        self@.len() == STACK_SIZE
    }

    /// A fresh stack with every slot holding `fill`.
    pub fn new(fill: T) -> (r: Self)
        ensures
            r.wf(),
            forall|i: int| 0 <= i < STACK_SIZE ==> r@[i] == fill,
    {
        let mut slots: Vec<T> = Vec::new();
        let mut i: usize = 0;
        while i < STACK_SIZE
            invariant
                i <= STACK_SIZE,
                slots@.len() == i,
                forall|j: int| 0 <= j < i ==> slots@[j] == fill,
            decreases STACK_SIZE - i,
        {
            slots.push(fill);
            i = i + 1;
        }
        RegisterStack { slots }
    }

    /// The top slot ("X").
    pub fn get_x(&self) -> (r: T)
        requires
            self.wf(),
        ensures
            r == self@[0],
    {
        self.slots[0]
    }

    /// The second slot ("Y").
    pub fn get_y(&self) -> (r: T)
        requires
            self.wf(),
        ensures
            r == self@[1],
    {
        self.slots[1]
    }

    /// The third slot ("Z").
    pub fn get_z(&self) -> (r: T)
        requires
            self.wf(),
        ensures
            r == self@[2],
    {
        self.slots[2]
    }

    /// Pushes an operand: ages every slot one position toward the bottom
    /// (discarding the bottom-most value), then writes `v` into the top slot.
    pub fn set_x(&mut self, v: T)
        requires
            old(self).wf(),
        ensures
            final(self).wf(),
            final(self)@ == pushed(old(self)@, v),
    {
        self.roll_up();
        self.slots[0] = v;
        proof {
            assert(self@ =~= pushed(old(self)@, v));
        }
    }

    /// Writes the second slot in place.
    pub fn set_y(&mut self, v: T)
        requires
            old(self).wf(),
        ensures
            final(self).wf(),
            final(self)@ == old(self)@.update(1, v),
    {
        self.slots[1] = v;
    }

    /// Writes the third slot in place.
    pub fn set_z(&mut self, v: T)
        requires
            old(self).wf(),
        ensures
            final(self).wf(),
            final(self)@ == old(self)@.update(2, v),
    {
        self.slots[2] = v;
    }

    /// The primitive under the unary operators: replaces the top slot with
    /// the computed result, touching nothing else.
    pub fn apply_unary(&mut self, r: T)
        requires
            old(self).wf(),
        ensures
            final(self).wf(),
            final(self)@ == old(self)@.update(0, r),
    {
        self.slots[0] = r;
    }

    /// The primitive under the binary operators: writes the computed result
    /// into the slot beneath the top, then collapses the stack one position
    /// toward the top, so the result ends on top.
    pub fn apply_binary(&mut self, r: T)
        requires
            old(self).wf(),
        ensures
            final(self).wf(),
            final(self)@ == collapsed(old(self)@, r),
            final(self)@[0] == r,
    {
        self.slots[1] = r;
        self.roll_down();
        proof {
            assert(self@ =~= collapsed(old(self)@, r));
        }
    }

    /// Exchanges the top two slots without any shift or collapse.
    pub fn swap_xy(&mut self)
        requires
            old(self).wf(),
        ensures
            final(self).wf(),
            final(self)@ == old(self)@.update(0, old(self)@[1]).update(1, old(self)@[0]),
    {
        let t = self.slots[0];
        self.slots[0] = self.slots[1];
        self.slots[1] = t;
    }

    /// Shifts every slot one position toward the bottom; the top keeps its
    /// value and the bottom-most value is discarded.
    pub fn roll_up(&mut self)
        requires
            old(self).wf(),
        ensures
            final(self).wf(),
            final(self)@ == rolled_up(old(self)@),
    {
        let mut i: usize = STACK_SIZE - 1;
        while i >= 1
            invariant
                0 <= i < STACK_SIZE,
                self@.len() == STACK_SIZE,
                forall|j: int| 0 <= j <= i ==> self@[j] == old(self)@[j],
                forall|j: int| i < j < STACK_SIZE ==> self@[j] == old(self)@[j - 1],
            decreases i,
        {
            self.slots[i] = self.slots[i - 1];
            i = i - 1;
        }
        proof {
            assert(self@ =~= rolled_up(old(self)@));
        }
    }

    /// Shifts every slot one position toward the top; the last slot keeps
    /// its value (nothing is cleared, only shifted).
    pub fn roll_down(&mut self)
        requires
            old(self).wf(),
        ensures
            final(self).wf(),
            final(self)@ == rolled_down(old(self)@),
    {
        let mut i: usize = 1;
        while i < STACK_SIZE
            invariant
                1 <= i <= STACK_SIZE,
                self@.len() == STACK_SIZE,
                forall|j: int| 0 <= j < i - 1 ==> self@[j] == old(self)@[j + 1],
                forall|j: int| i - 1 <= j < STACK_SIZE ==> self@[j] == old(self)@[j],
            decreases STACK_SIZE - i,
        {
            self.slots[i - 1] = self.slots[i];
            i = i + 1;
        }
        proof {
            assert(self@ =~= rolled_down(old(self)@));
        }
    }
}

/// Law: pushing twice leaves the newest value on top, ages the earlier push
/// into the second slot, and shifts every older value down by two.
pub proof fn lemma_push_aging<T>(s: Seq<T>, a: T, b: T)
    requires
        s.len() == STACK_SIZE,
    ensures
        pushed(pushed(s, a), b).len() == STACK_SIZE,
        pushed(pushed(s, a), b)[0] == b,
        pushed(pushed(s, a), b)[1] == a,
        forall|i: int| 2 <= i < STACK_SIZE ==> pushed(pushed(s, a), b)[i] == s[i - 2],
{
}

/// Law: rolling down and then up restores every slot from the third down,
/// while the top two slots both end holding the old second slot; the old top
/// is lost.  The round trip is not the identity.
pub proof fn lemma_roll_down_up<T>(s: Seq<T>)
    requires
        s.len() == STACK_SIZE,
    ensures
        rolled_up(rolled_down(s)).len() == STACK_SIZE,
        rolled_up(rolled_down(s))[0] == s[1],
        rolled_up(rolled_down(s))[1] == s[1],
        forall|i: int| 2 <= i < STACK_SIZE ==> rolled_up(rolled_down(s))[i] == s[i],
{
}

/// Law: a binary collapse leaves its result on top, shifts the deeper slots
/// one position toward the top, and duplicates the bottom-most value.
pub proof fn lemma_collapse<T>(s: Seq<T>, r: T)
    requires
        s.len() == STACK_SIZE,
    ensures
        collapsed(s, r).len() == STACK_SIZE,
        collapsed(s, r)[0] == r,
        forall|i: int| 1 <= i < STACK_SIZE - 1 ==> collapsed(s, r)[i] == s[i + 1],
        collapsed(s, r)[STACK_SIZE - 1] == s[STACK_SIZE - 1],
{
}

} // verus!
