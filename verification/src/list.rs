//! Lists of strings, the values of the build language.

use vstd::prelude::*;

verus! {

/// A list of strings.
#[derive(Clone, Debug, PartialEq)]
pub struct List(Vec<String>);

impl View for List {
    type V = Seq<Seq<char>>;

    /// The texts of the items, in order.
    closed spec fn view(&self) -> Seq<Seq<char>> {
        Seq::new(self.0@.len(), |i: int| self.0@[i]@)
    }
}

impl List {
    /// The empty list.
    pub fn new() -> (l: List)
        ensures
            l@ == Seq::<Seq<char>>::empty(),
    {
        let l = List(Vec::new());
        assert(l@ =~= Seq::<Seq<char>>::empty());
        l
    }

    /// Adds the text `s` at the end.
    pub fn append(&mut self, s: &str)
        ensures
            final(self)@ == old(self)@.push(s@),
    {
        self.0.push(s.to_owned());
        assert(self@ =~= old(self)@.push(s@));
    }

    /// The item at `idx`, if the list is that long.
    pub fn get(&self, idx: usize) -> (r: Option<&str>)
        ensures
            match r {
                Some(s) => idx < self@.len() && s@ == self@[idx as int],
                None => idx >= self@.len(),
            },
    {
        if idx < self.0.len() {
            Some(self.0[idx].as_str())
        } else {
            None
        }
    }

    /// The number of items.
    pub fn length(&self) -> (n: usize)
        ensures
            n == self@.len(),
    {
        self.0.len()
    }

    /// The `count` items from `start` on.
    pub fn sublist(&self, start: usize, count: usize) -> (l: List)
        requires
            start + count <= self@.len(),
        ensures
            l@ == self@.subrange(start as int, start + count),
    {
        let mut l = Self::new();
        let mut i: usize = 0;
        while i < count
            invariant
                start + count <= self.0.len(),
                i <= count,
                l@ == self@.subrange(start as int, start + i),
            decreases count - i,
        {
            let item = self.0[start + i].clone();
            assert(item@ == self@[start + i]);
            let ghost before = l@;
            l.0.push(item);
            assert(l@ =~= before.push(item@));
            i += 1;
            assert(l@ =~= self@.subrange(start as int, start + i));
        }
        l
    }
}

} // verus!
