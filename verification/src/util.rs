use vstd::prelude::*;

verus! {

/// Reads a collection in groups of a fixed size: each call of `next`
/// takes the next `n` items, or all remaining items when `n` is zero or
/// fewer than `n` remain. The view of a `Grouped` is the sequence of
/// items it has not yet handed out.
pub struct Grouped<T> {
    n: usize,
    items: Vec<T>,
}

impl<T> View for Grouped<T> {
    type V = Seq<T>;

    closed spec fn view(&self) -> Seq<T> {
        self.items@
    }
}

impl<T> Grouped<T> {
    /// The group size this adaptor was built with.
    pub closed spec fn group_size(&self) -> nat {
        self.n as nat
    }

    /// How many items the next group takes: the group size, bounded by
    /// what remains, where a group size of zero means everything.
    pub open spec fn next_group_len(&self) -> int {
        if self.group_size() == 0 || self.group_size() > self@.len() {
            self@.len() as int
        } else {
            self.group_size() as int
        }
    }

    /// The next group of items, in their original order; `None` once
    /// nothing remains.
    pub fn next(&mut self) -> (r: Option<Vec<T>>)
        ensures
            final(self).group_size() == old(self).group_size(),
            match r {
                None => old(self)@.len() == 0 && final(self)@ == old(self)@,
                Some(chunk) => old(self)@.len() > 0 && chunk@ == old(self)@.take(
                    old(self).next_group_len(),
                ) && final(self)@ == old(self)@.skip(old(self).next_group_len()),
            },
    {
        if self.items.len() == 0 {
            return None;
        }
        let k: usize = if self.n == 0 || self.n > self.items.len() {
            self.items.len()
        } else {
            self.n
        };
        let mut chunk: Vec<T> = Vec::new();
        let mut taken: usize = 0;
        while taken < k
            invariant
                taken <= k,
                k == old(self).next_group_len(),
                k <= old(self)@.len(),
                self.n == old(self).n,
                chunk@ == old(self)@.take(taken as int),
                self.items@ == old(self)@.skip(taken as int),
            decreases k - taken,
        {
            let x = self.items.remove(0);
            chunk.push(x);
            taken += 1;
            proof {
                assert(old(self)@.skip(taken - 1).remove(0) =~= old(self)@.skip(taken as int));
                assert(old(self)@.skip(taken - 1)[0] == old(self)@[taken - 1]);
                assert(old(self)@.take(taken as int) =~= old(self)@.take(taken - 1).push(
                    old(self)@[taken - 1],
                ));
            }
        }
        Some(chunk)
    }
}

/// Lets a collection be read in groups of a fixed size.
pub trait GroupedExt<T>: View<V = Seq<T>> + Sized {
    /// Wraps the collection for reading in groups of `n` items.
    fn grouped(self, n: usize) -> (g: Grouped<T>)
        ensures
            g@ == self@,
            g.group_size() == n,
    ;
}

impl<T> GroupedExt<T> for Vec<T> {
    fn grouped(self, n: usize) -> (g: Grouped<T>) {
        Grouped { n, items: self }
    }
}

} // verus!
