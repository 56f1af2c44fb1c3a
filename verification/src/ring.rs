//! A bounded buffer that keeps the most recent `N` items.
use vstd::prelude::*;

verus! {

/// What a sequence looks like after pushing one item onto a buffer that
/// keeps only the last `N` entries.
pub open spec fn ring_push<T>(s: Seq<T>, item: T, n: nat) -> Seq<T> {
    if s.len() < n {
        s.push(item)
    } else {
        s.push(item).skip(1)
    }
}

/// A ring buffer: pushing past the capacity `N` drops the oldest item.
pub struct RingBuffer<T, const N: usize> {
    items: Vec<T>,
}

impl<T, const N: usize> View for RingBuffer<T, N> {
    type V = Seq<T>;

    closed spec fn view(&self) -> Seq<T> {
        self.items@
    }
}

impl<T, const N: usize> RingBuffer<T, N> {
    /// The buffer never holds more than `N` items.
    #[verifier::type_invariant]
    spec fn wf(&self) -> bool {
        self.items@.len() <= N
    }

    pub fn new() -> (r: Self)
        ensures
            r@ == Seq::<T>::empty(),
    {
        RingBuffer { items: Vec::new() }
    }

    /// Appends an item, dropping the oldest one when the buffer is full.
    pub fn push_back(&mut self, item: T)
        ensures
            final(self)@ == ring_push(old(self)@, item, N as nat),
    {
        proof {
            use_type_invariant(&*self);
        }
        let mut items: Vec<T> = Vec::new();
        std::mem::swap(&mut items, &mut self.items);
        items.push(item);
        if items.len() > N {
            items.remove(0);
            assert(items@ == old(self)@.push(item).skip(1));
        }
        std::mem::swap(&mut items, &mut self.items);
    }

    /// The most recently pushed item, if any.
    pub fn back(&self) -> (r: Option<&T>)
        ensures
            match r {
                Some(x) => self@.len() > 0 && *x == self@.last(),
                None => self@.len() == 0,
            },
    {
        if self.items.len() == 0 {
            None
        } else {
            Some(&self.items[self.items.len() - 1])
        }
    }

    pub fn is_empty(&self) -> (r: bool)
        ensures
            r == (self@.len() == 0),
    {
        self.items.len() == 0
    }

    /// The retained items, oldest first.
    pub fn iter(&self) -> (r: &Vec<T>)
        ensures
            r@ == self@,
    {
        &self.items
    }
}

impl<T: Copy, const N: usize> RingBuffer<T, N> {
    /// Builds a buffer by pushing every item of `v` in order; only the last
    /// `N` items survive.
    pub fn from_vec(v: &Vec<T>) -> (r: Self)
        ensures
            r@ == if v@.len() <= N {
                v@
            } else {
                v@.skip(v@.len() - N)
            },
    {
        let mut r = RingBuffer::<T, N>::new();
        let mut i: usize = 0;
        while i < v.len()
            invariant
                i <= v@.len(),
                r@ == if i <= N {
                    v@.take(i as int)
                } else {
                    v@.take(i as int).skip(i - N)
                },
            decreases v@.len() - i,
        {
            let ghost prev = r@;
            r.push_back(v[i]);
            proof {
                assert(v@.take(i + 1) == v@.take(i as int).push(v@[i as int]));
                if i < N {
                } else if i == N {
                    assert(r@ == prev.push(v@[i as int]).skip(1));
                    assert(v@.take(i + 1).skip(i + 1 - N) == prev.push(v@[i as int]).skip(1));
                } else {
                    assert(r@ == prev.push(v@[i as int]).skip(1));
                    assert(v@.take(i + 1).skip(i + 1 - N) == prev.push(v@[i as int]).skip(1));
                }
            }
            i = i + 1;
        }
        proof {
            assert(v@.take(v@.len() as int) == v@);
        }
        r
    }
}

} // verus!
