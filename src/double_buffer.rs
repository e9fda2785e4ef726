//! A two-slot container whose front/back roles toggle without moving data.

use vstd::prelude::*;

verus! {

/// Which of the two slots currently plays the front role.
pub enum FrontBuffer {
    A,
    B,
}

/// Two owned values `a` and `b` and a tag saying which one is the front.
///
/// Transforms read the front and write the back (`buffers`), then call
/// `swap` to commit the back as the new front.
pub struct DoubleBuffer<T> {
    a: T,
    b: T,
    front: FrontBuffer,
}

impl<T> DoubleBuffer<T> {
    /// The value held in slot `a`.
    pub closed spec fn slot_a(&self) -> T {
        self.a
    }

    /// The value held in slot `b`.
    pub closed spec fn slot_b(&self) -> T {
        self.b
    }

    /// Whether slot `a` is the front.
    pub closed spec fn front_is_a(&self) -> bool {
        self.front is A
    }

    /// The value that currently plays the front role.
    pub open spec fn front_view(&self) -> T {
        if self.front_is_a() {
            self.slot_a()
        } else {
            self.slot_b()
        }
    }

    /// The value that currently plays the back role.
    pub open spec fn back_view(&self) -> T {
        if self.front_is_a() {
            self.slot_b()
        } else {
            self.slot_a()
        }
    }

    /// `next` is `prev` with the roles flipped and both slots untouched.
    pub open spec fn is_swap_of(next: Self, prev: Self) -> bool {
        &&& next.slot_a() == prev.slot_a()
        &&& next.slot_b() == prev.slot_b()
        &&& next.front_is_a() == !prev.front_is_a()
    }

    /// `next` is `prev` with the back slot replaced by `v`: same roles, same front.
    pub open spec fn is_back_write_of(next: Self, prev: Self, v: T) -> bool {
        &&& next.front_is_a() == prev.front_is_a()
        &&& next.front_view() == prev.front_view()
        &&& next.back_view() == v
    }

    /// A buffer holding `a` and `b`, with `a` as the front.
    pub fn new(a: T, b: T) -> (r: Self)
        ensures
            r.slot_a() == a,
            r.slot_b() == b,
            r.front_is_a(),
    {
        DoubleBuffer { a, b, front: FrontBuffer::A }
    }

    /// Flips the front/back roles; no data moves.
    pub fn swap(&mut self)
        ensures
            Self::is_swap_of(*final(self), *old(self)),
    {
        self.front = match self.front {
            FrontBuffer::A => FrontBuffer::B,
            FrontBuffer::B => FrontBuffer::A,
        }
    }

    /// The front for reading and the back for writing, at the same time.
    pub fn buffers(&mut self) -> (r: (&T, &mut T))
        ensures
            *r.0 == old(self).front_view(),
            *r.1 == old(self).back_view(),
            Self::is_back_write_of(*final(self), *old(self), *final(r.1)),
    {
        match self.front {
            FrontBuffer::A => (&self.a, &mut self.b),
            FrontBuffer::B => (&self.b, &mut self.a),
        }
    }

    /// The current front value.
    pub fn front(&self) -> (r: &T)
        ensures
            *r == self.front_view(),
    {
        match self.front {
            FrontBuffer::A => &self.a,
            FrontBuffer::B => &self.b,
        }
    }

    /// The current back value, for writing.
    pub fn back(&mut self) -> (r: &mut T)
        ensures
            *r == old(self).back_view(),
            Self::is_back_write_of(*final(self), *old(self), *final(r)),
    {
        match self.front {
            FrontBuffer::A => &mut self.b,
            FrontBuffer::B => &mut self.a,
        }
    }

    /// Consumes the buffer and hands out its front value.
    pub fn to_front(self) -> (r: T)
        ensures
            r == self.front_view(),
    {
        match self.front {
            FrontBuffer::A => self.a,
            FrontBuffer::B => self.b,
        }
    }
}

impl<T: Clone> DoubleBuffer<T> {
    /// A copy of the front value; the buffer is left as it was.
    pub fn clone_front(&self) -> (r: T)
        ensures
            cloned(self.front_view(), r),
    {
        match self.front {
            FrontBuffer::A => self.a.clone(),
            FrontBuffer::B => self.b.clone(),
        }
    }
}

impl<T: Default> Default for DoubleBuffer<T> {
    /// Both slots hold `T::default()`, and slot `a` is the front.
    fn default() -> (r: Self)
        ensures
            r.front_is_a(),
            call_ensures(T::default, (), r.slot_a()),
            call_ensures(T::default, (), r.slot_b()),
    {
        DoubleBuffer { a: T::default(), b: T::default(), front: FrontBuffer::A }
    }
}

/// Roles along a run of swaps: with slot `a` in front at the start and both
/// slots kept by every swap, after `i` swaps the slots are unchanged and slot
/// `a` is in front exactly when `i` is even.
proof fn lemma_roles_after_swaps<T>(states: Seq<DoubleBuffer<T>>, i: int)
    requires
        0 <= i < states.len(),
        states[0].front_is_a(),
        forall|j: int| 0 < j < states.len() ==> DoubleBuffer::is_swap_of(#[trigger] states[j], states[j - 1]),
    ensures
        states[i].slot_a() == states[0].slot_a(),
        states[i].slot_b() == states[0].slot_b(),
        states[i].front_is_a() == (i % 2 == 0),
    decreases i,
{
    if i > 0 {
        lemma_roles_after_swaps(states, i - 1);
        assert(DoubleBuffer::is_swap_of(states[i], states[i - 1]));
    }
}

/// For any sequence of swaps starting with slot `a` in front (as `new` and
/// `default` leave it), the front is slot `a` after an even number of swaps
/// and slot `b` after an odd number.
pub proof fn lemma_front_after_swaps<T>(states: Seq<DoubleBuffer<T>>)
    requires
        states.len() > 0,
        states[0].front_is_a(),
        forall|j: int| 0 < j < states.len() ==> DoubleBuffer::is_swap_of(#[trigger] states[j], states[j - 1]),
    ensures
        forall|i: int|
            0 <= i < states.len() ==> #[trigger] states[i].front_view() == if i % 2 == 0 {
                states[0].slot_a()
            } else {
                states[0].slot_b()
            },
{
    assert forall|i: int| 0 <= i < states.len() implies #[trigger] states[i].front_view() == if i % 2 == 0 {
        states[0].slot_a()
    } else {
        states[0].slot_b()
    } by {
        lemma_roles_after_swaps(states, i);
    }
}

/// A write into the back slot (through `buffers` or `back`) is invisible at
/// the front until the next swap: the front, and so any `clone_front` taken
/// before that swap, is what it was before the write.
pub proof fn lemma_back_write_keeps_front<T>(prev: DoubleBuffer<T>, next: DoubleBuffer<T>, v: T)
    requires
        DoubleBuffer::is_back_write_of(next, prev, v),
    ensures
        next.front_view() == prev.front_view(),
        next.front_is_a() == prev.front_is_a(),
{
}

} // verus!
