use vstd::prelude::*;

verus! {

/// The order in which locations are visited. The roots are visited one after
/// the other, over and over; the entries of a directory or the enclosures of
/// a feed are visited in place, right after the location they came from and
/// before that location's later siblings.
pub struct Walk {
    /// The locations that each round starts from, in order.
    pub roots: Vec<String>,
    /// The locations still to visit in this round, the next one first.
    pub pending: Vec<String>,
}

fn copy_texts(v: &Vec<String>) -> (r: Vec<String>)
    ensures
        r@ == v@,
{
    let mut r: Vec<String> = Vec::new();
    let mut i: usize = 0;
    while i < v.len()
        invariant
            i <= v@.len(),
            r@ == v@.subrange(0, i as int),
        decreases v.len() - i,
    {
        r.push(v[i].clone());
        assert(r@ =~= v@.subrange(0, i + 1));
        i = i + 1;
    }
    assert(v@.subrange(0, v@.len() as int) =~= v@);
    r
}

impl Walk {
    /// A walk whose first round starts now.
    pub fn new(roots: Vec<String>) -> (r: Walk)
        ensures
            r.roots@ == roots@,
            r.pending@ == roots@,
    {
        let pending = copy_texts(&roots);
        Walk { roots, pending }
    }

    /// The next location to visit. A finished round starts again from the
    /// roots; only a walk with no roots runs dry.
    pub fn next_location(&mut self) -> (r: Option<String>)
        ensures
            final(self).roots@ == old(self).roots@,
            old(self).pending@.len() > 0 ==> r == Some(old(self).pending@[0])
                && final(self).pending@ == old(self).pending@.drop_first(),
            old(self).pending@.len() == 0 && old(self).roots@.len() > 0 ==> r == Some(old(self).roots@[0])
                && final(self).pending@ == old(self).roots@.drop_first(),
            old(self).pending@.len() == 0 && old(self).roots@.len() == 0 ==> r is None
                && final(self).pending@.len() == 0,
    {
        if self.pending.len() == 0 {
            self.pending = copy_texts(&self.roots);
        }
        if self.pending.len() == 0 {
            return None;
        }
        let ghost before = self.pending@;
        let first = self.pending.remove(0);
        assert(self.pending@ =~= before.drop_first());
        Some(first)
    }

    /// Puts what a location contains ahead of everything still pending, in
    /// the order given.
    pub fn expand(&mut self, children: Vec<String>)
        ensures
            final(self).roots@ == old(self).roots@,
            final(self).pending@ == children@ + old(self).pending@,
    {
        let mut children = children;
        children.append(&mut self.pending);
        self.pending = children;
    }
}

} // verus!
