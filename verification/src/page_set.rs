//! A small set of pages that can be walked.

use vstd::prelude::*;

verus! {

#[derive(Debug)]
pub struct PageSet {
    members: Vec<u32>,
}

impl View for PageSet {
    type V = Set<u32>;

    closed spec fn view(&self) -> Set<u32> {
        self.members@.to_set()
    }
}

impl PageSet {
    #[verifier::type_invariant]
    spec fn each_once(self) -> bool {
        self.members@.no_duplicates()
    }

    pub fn new() -> (r: PageSet)
        ensures
            r@ == Set::<u32>::empty(),
    {
        let members: Vec<u32> = Vec::new();
        assert(members@.to_set() =~= Set::<u32>::empty());
        PageSet { members }
    }

    pub fn contains(&self, page: u32) -> (r: bool)
        ensures
            r == self@.contains(page),
    {
        for i in 0..self.members.len()
            invariant
                forall|j: int| 0 <= j < i ==> #[trigger] self.members@[j] != page,
        {
            if self.members[i] == page {
                assert(self.members@[i as int] == page);
                return true;
            }
        }
        false
    }

    pub fn insert(&mut self, page: u32)
        ensures
            final(self)@ == old(self)@.insert(page),
    {
        proof {
            use_type_invariant(&*self);
        }
        let ghost before = self@;
        if self.contains(page) {
            assert(before.insert(page) =~= before);
        } else {
            let mut members: Vec<u32> = Vec::new();
            std::mem::swap(&mut members, &mut self.members);
            let ghost earlier = members@;
            members.push(page);
            assert(members@.to_set() =~= before.insert(page)) by {
                assert forall|x: u32| before.insert(page).contains(x) implies members@.contains(
                    x,
                ) by {
                    if x == page {
                        assert(members@[earlier.len() as int] == x);
                    } else {
                        let j = choose|j: int| 0 <= j < earlier.len() && earlier[j] == x;
                        assert(members@[j] == x);
                    }
                }
            }
            assert(members@.no_duplicates()) by {
                assert forall|i: int, j: int|
                    0 <= i < members@.len() && 0 <= j < members@.len() && i
                        != j implies members@[i] != members@[j] by {
                    if i < earlier.len() {
                        assert(earlier.to_set().contains(earlier[i]));
                    }
                    if j < earlier.len() {
                        assert(earlier.to_set().contains(earlier[j]));
                    }
                }
            }
            self.members = members;
        }
    }

    pub fn remove(&mut self, page: u32)
        ensures
            final(self)@ == old(self)@.remove(page),
    {
        let parts = self.split(page, page as u64 + 1);
        assert(self@ =~= old(self)@.remove(page));
    }

    /// Take out the pages from `from` up to `to`, without `to`, and hand them
    /// out.
    pub fn split(&mut self, from: u32, to: u64) -> (r: Vec<u32>)
        ensures
            final(self)@ == old(self)@.filter(|x: u32| !(from <= x < to)),
            r@.to_set() == old(self)@.filter(|x: u32| from <= x < to),
            r@.no_duplicates(),
    {
        proof {
            use_type_invariant(&*self);
        }
        let ghost before = self.members@;
        let mut members: Vec<u32> = Vec::new();
        std::mem::swap(&mut members, &mut self.members);
        let mut kept: Vec<u32> = Vec::new();
        let mut out: Vec<u32> = Vec::new();
        for i in 0..members.len()
            invariant
                members@ == before,
                before.no_duplicates(),
                kept@.no_duplicates(),
                out@.no_duplicates(),
                forall|x: u32| #[trigger]
                    kept@.contains(x) <==> before.take(i as int).contains(x) && !(from <= x < to),
                forall|x: u32| #[trigger]
                    out@.contains(x) <==> before.take(i as int).contains(x) && from <= x < to,
        {
            let x = members[i];
            let ghost upto = before.take(i as int);
            let ghost next = before.take(i + 1);
            assert(next =~= upto.push(x));
            assert(!upto.contains(x));
            assert(next[i as int] == x);
            assert forall|y: u32| #[trigger] next.contains(y) <==> upto.contains(y) || y == x by {
                if upto.contains(y) {
                    let j = choose|j: int| 0 <= j < upto.len() && upto[j] == y;
                    assert(next[j] == y);
                }
            }
            if from <= x && (x as u64) < to {
                let ghost earlier = out@;
                out.push(x);
                proof {
                    pushed(earlier, x);
                }
            } else {
                let ghost earlier = kept@;
                kept.push(x);
                proof {
                    pushed(earlier, x);
                }
            }
        }
        assert(before.take(before.len() as int) =~= before);
        assert(kept@.to_set() =~= before.to_set().filter(|x: u32| !(from <= x < to)));
        assert(out@.to_set() =~= before.to_set().filter(|x: u32| from <= x < to));
        self.members = kept;
        out
    }

    /// Keep the pages from `from` up to `to`, without `to`, and hand out the
    /// others.
    pub fn keep(&mut self, from: u32, to: u64) -> (r: Vec<u32>)
        ensures
            final(self)@ == old(self)@.filter(|x: u32| from <= x < to),
            r@.to_set() == old(self)@.filter(|x: u32| !(from <= x < to)),
            r@.no_duplicates(),
    {
        let inside = self.split(from, to);
        proof {
            use_type_invariant(&*self);
        }
        let mut members: Vec<u32> = inside;
        std::mem::swap(&mut members, &mut self.members);
        members
    }
}

/// Pushing what is not there yet.
proof fn pushed(s: Seq<u32>, x: u32)
    requires
        s.no_duplicates(),
        !s.contains(x),
    ensures
        s.push(x).no_duplicates(),
        forall|y: u32| #[trigger] s.push(x).contains(y) <==> s.contains(y) || y == x,
{
    let t = s.push(x);
    assert forall|y: u32| #[trigger] t.contains(y) <==> s.contains(y) || y == x by {
        assert(t[s.len() as int] == x);
        if s.contains(y) {
            let j = choose|j: int| 0 <= j < s.len() && s[j] == y;
            assert(t[j] == y);
        }
    }
    assert forall|i: int, j: int| 0 <= i < t.len() && 0 <= j < t.len() && i != j implies t[i]
        != t[j] by {
        if i < s.len() {
            assert(s.contains(s[i]));
        }
        if j < s.len() {
            assert(s.contains(s[j]));
        }
    }
}

} // verus!
