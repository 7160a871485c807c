//! Which kinds of blocks are drawn, and which records are open.

use crate::ids::ExtractionId;
use crate::ir::views;
use crate::sorted::{
    insertion_keeps_order, keys_ordered, under_key, update_keeps_order, with_key, with_key_at,
    with_key_over,
};
use crate::text::{comes_before, same, text_less, text_order_is_total};
use vstd::prelude::*;

verus! {

/// A kind of blocks, and whether its blocks are drawn.
#[derive(Debug, Clone)]
pub struct KindSwitch {
    pub kind: String,
    pub enabled: bool,
}

impl View for KindSwitch {
    type V = (Seq<char>, bool);

    open spec fn view(&self) -> (Seq<char>, bool) {
        (self.kind@, self.enabled)
    }
}

/// The kinds of blocks, each once, in their order.
#[derive(Debug)]
pub struct KindSwitches {
    entries: Vec<KindSwitch>,
}

impl View for KindSwitches {
    type V = Seq<(Seq<char>, bool)>;

    closed spec fn view(&self) -> Seq<(Seq<char>, bool)> {
        views(self.entries@)
    }
}

impl KindSwitches {
    #[verifier::type_invariant]
    spec fn in_order(self) -> bool {
        keys_ordered(views(self.entries@))
    }

    pub fn new() -> (r: KindSwitches)
        ensures
            r@ == Seq::<(Seq<char>, bool)>::empty(),
    {
        let entries: Vec<KindSwitch> = Vec::new();
        assert(views(entries@) =~= Seq::<(Seq<char>, bool)>::empty());
        KindSwitches { entries }
    }

    pub fn len(&self) -> (r: usize)
        ensures
            r == self@.len(),
    {
        self.entries.len()
    }

    /// The kind at position `i` of the order.
    pub fn at(&self, i: usize) -> (r: &KindSwitch)
        requires
            i < self@.len(),
        ensures
            r@ == self@[i as int],
            keys_ordered(self@),
    {
        proof {
            use_type_invariant(&*self);
        }
        &self.entries[i]
    }

    /// The switch of a kind.
    pub fn get(&self, kind: &str) -> (r: Option<bool>)
        ensures
            r == under_key(self@, kind@),
            keys_ordered(self@),
    {
        proof {
            use_type_invariant(&*self);
        }
        let mut i: usize = self.entries.len();
        assert(self@.take(i as int) =~= self@);
        while i > 0
            invariant
                i <= self.entries@.len(),
                self@ == views(self.entries@),
                under_key(self@, kind@) == under_key(self@.take(i as int), kind@),
                keys_ordered(self@),
            decreases i,
        {
            let ghost upto = self@.take(i as int);
            i = i - 1;
            assert(upto.drop_last() =~= self@.take(i as int));
            assert(upto.last() == self.entries@[i as int]@);
            if same(self.entries[i].kind.as_str(), kind) {
                return Some(self.entries[i].enabled);
            }
        }
        None
    }

    /// Set the switch of a kind, whether the kind was there before or not.
    pub fn set(&mut self, kind: &str, enabled: bool)
        ensures
            final(self)@ == with_key(old(self)@, kind@, enabled),
            keys_ordered(final(self)@),
    {
        proof {
            use_type_invariant(&*self);
        }
        let ghost before = self@;
        let mut entries: Vec<KindSwitch> = Vec::new();
        std::mem::swap(&mut entries, &mut self.entries);
        let mut at: usize = entries.len();
        while at > 0 && comes_before(kind, entries[at - 1].kind.as_str())
            invariant
                at <= entries@.len(),
                views(entries@) == before,
                keys_ordered(before),
                forall|j: int| at <= j < before.len() ==> text_less(kind@, #[trigger] before[j].0),
            decreases at,
        {
            at = at - 1;
            assert(before[at as int] == entries@[at as int]@);
        }
        if at > 0 && same(kind, entries[at - 1].kind.as_str()) {
            let i: usize = at - 1;
            assert(before[i as int] == entries@[i as int]@);
            proof {
                with_key_over(before, kind@, enabled, i as int);
                update_keeps_order(before, kind@, enabled, i as int);
            }
            let ghost after = before.update(i as int, (kind@, enabled));
            entries.set(i, KindSwitch { kind: String::from_str(kind), enabled });
            assert(views(entries@) =~= after);
        } else {
            proof {
                if at > 0 {
                    assert(before[at - 1] == entries@[at - 1]@);
                    text_order_is_total(before[at - 1].0, kind@);
                }
                with_key_at(before, kind@, enabled, at as int);
                insertion_keeps_order(before, kind@, enabled, at as int);
            }
            let ghost after = before.insert(at as int, (kind@, enabled));
            entries.insert(at, KindSwitch { kind: String::from_str(kind), enabled });
            assert(views(entries@) =~= after);
        }
        self.entries = entries;
    }
}

/// A set of records, each named by its page and its run.
#[derive(Debug)]
pub struct RunSet {
    members: Vec<(u32, ExtractionId)>,
}

impl View for RunSet {
    type V = Set<(u32, ExtractionId)>;

    closed spec fn view(&self) -> Set<(u32, ExtractionId)> {
        self.members@.to_set()
    }
}

impl RunSet {
    #[verifier::type_invariant]
    spec fn each_once(self) -> bool {
        self.members@.no_duplicates()
    }

    pub fn new() -> (r: RunSet)
        ensures
            r@ == Set::<(u32, ExtractionId)>::empty(),
    {
        let members: Vec<(u32, ExtractionId)> = Vec::new();
        assert(members@.to_set() =~= Set::<(u32, ExtractionId)>::empty());
        RunSet { members }
    }

    fn position(&self, page: u32, run: ExtractionId) -> (r: Option<usize>)
        ensures
            match r {
                Some(i) => i < self.members@.len() && self.members@[i as int] == (page, run),
                None => !self@.contains((page, run)),
            },
    {
        for i in 0..self.members.len()
            invariant
                forall|j: int| 0 <= j < i ==> #[trigger] self.members@[j] != (page, run),
        {
            let m = self.members[i];
            if m.0 == page && m.1 == run {
                return Some(i);
            }
        }
        None
    }

    pub fn contains(&self, page: u32, run: ExtractionId) -> (r: bool)
        ensures
            r == self@.contains((page, run)),
    {
        match self.position(page, run) {
            Some(i) => {
                assert(self.members@[i as int] == (page, run));
                true
            },
            None => false,
        }
    }

    /// Add a record; says whether it was missing.
    pub fn insert(&mut self, page: u32, run: ExtractionId) -> (r: bool)
        ensures
            final(self)@ == old(self)@.insert((page, run)),
            r == !old(self)@.contains((page, run)),
    {
        proof {
            use_type_invariant(&*self);
        }
        let ghost before = self@;
        if self.contains(page, run) {
            assert(before.insert((page, run)) =~= before);
            false
        } else {
            let mut members: Vec<(u32, ExtractionId)> = Vec::new();
            std::mem::swap(&mut members, &mut self.members);
            let ghost old_members = members@;
            members.push((page, run));
            assert(members@.to_set() =~= before.insert((page, run))) by {
                assert forall|m: (u32, ExtractionId)|
                    before.insert((page, run)).contains(m) implies members@.contains(m) by {
                    if m == (page, run) {
                        assert(members@[old_members.len() as int] == m);
                    } else {
                        let j = choose|j: int|
                            0 <= j < old_members.len() && old_members[j] == m;
                        assert(members@[j] == m);
                    }
                }
            }
            assert(members@.no_duplicates()) by {
                assert forall|i: int, j: int|
                    0 <= i < members@.len() && 0 <= j < members@.len() && i
                        != j implies members@[i] != members@[j] by {
                    if i < old_members.len() {
                        assert(old_members.to_set().contains(old_members[i]));
                    }
                    if j < old_members.len() {
                        assert(old_members.to_set().contains(old_members[j]));
                    }
                }
            }
            self.members = members;
            true
        }
    }

    /// Take a record out; says whether it was there.
    pub fn remove(&mut self, page: u32, run: ExtractionId) -> (r: bool)
        ensures
            final(self)@ == old(self)@.remove((page, run)),
            r == old(self)@.contains((page, run)),
    {
        proof {
            use_type_invariant(&*self);
        }
        let ghost before = self@;
        match self.position(page, run) {
            None => {
                assert(before.remove((page, run)) =~= before);
                false
            },
            Some(at) => {
                let mut members: Vec<(u32, ExtractionId)> = Vec::new();
                std::mem::swap(&mut members, &mut self.members);
                let ghost old_members = members@;
                assert(old_members[at as int] == (page, run));
                members.remove(at);
                assert(members@.to_set() =~= before.remove((page, run))) by {
                    assert forall|m: (u32, ExtractionId)|
                        before.remove((page, run)).contains(m) implies members@.contains(m) by {
                        let j = choose|j: int| 0 <= j < old_members.len() && old_members[j] == m;
                        if j < at {
                            assert(members@[j] == m);
                        } else {
                            assert(members@[j - 1] == m);
                        }
                    }
                    assert forall|m: (u32, ExtractionId)|
                        members@.contains(m) implies before.remove((page, run)).contains(m) by {
                        let j = choose|j: int| 0 <= j < members@.len() && members@[j] == m;
                        let k = if j < at {
                            j
                        } else {
                            j + 1
                        };
                        assert(old_members[k] == m);
                    }
                }
                self.members = members;
                true
            },
        }
    }
}

} // verus!
