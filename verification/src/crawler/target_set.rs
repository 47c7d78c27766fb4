//! Sets of crawl targets, in which no target occurs twice.

use crate::crawler::crawl_target::CrawlTarget;
use crate::web::host::HostView;
use vstd::prelude::*;

verus! {

/// The hosts of the targets of `items`, in order.
pub open spec fn hosts_of(items: Seq<CrawlTarget>) -> Seq<HostView> {
    Seq::new(items.len(), |i: int| items[i]@)
}

/// A set of crawl targets. A target is in it or not; none is in it twice.
#[derive(Debug)]
pub struct TargetSet {
    items: Vec<CrawlTarget>,
}

impl View for TargetSet {
    type V = Set<HostView>;

    closed spec fn view(&self) -> Set<HostView> {
        hosts_of(self.items@).to_set()
    }
}

impl TargetSet {
    /// No host occurs twice among the targets held.
    #[verifier::type_invariant]
    pub closed spec fn inv(&self) -> bool {
        hosts_of(self.items@).no_duplicates()
    }

    /// The empty set.
    pub fn new() -> (set: TargetSet)
        ensures
            set@ == Set::<HostView>::empty(),
    {
        let set = TargetSet { items: Vec::new() };
        assert(hosts_of(set.items@).to_set() =~= Set::<HostView>::empty());
        set
    }

    /// How many targets the set holds.
    pub fn len(&self) -> (count: usize)
        ensures
            count == self@.len(),
            self@.finite(),
    {
        proof {
            use_type_invariant(self);
            hosts_of(self.items@).unique_seq_to_set();
        }
        self.items.len()
    }

    /// Whether the set holds `target`.
    pub fn contains(&self, target: &CrawlTarget) -> (held: bool)
        ensures
            held == self@.contains(target@),
    {
        let mut i: usize = 0;
        while i < self.items.len()
            invariant
                i <= self.items.len(),
                forall|k: int| 0 <= k < i ==> hosts_of(self.items@)[k] != target@,
            decreases self.items.len() - i,
        {
            if self.items[i] == *target {
                assert(hosts_of(self.items@)[i as int] == target@);
                return true;
            }
            i += 1;
        }
        false
    }

    /// Puts `target` into the set. Returns whether it was new: a target that
    /// the set already holds is dropped, and the set stays as it was.
    pub fn insert(&mut self, target: CrawlTarget) -> (added: bool)
        ensures
            final(self)@ == old(self)@.insert(target@),
            added == !old(self)@.contains(target@),
    {
        proof {
            use_type_invariant(&*self);
        }
        if self.contains(&target) {
            assert(self@.insert(target@) =~= self@);
            return false;
        }
        let ghost before = hosts_of(self.items@);
        let mut items: Vec<CrawlTarget> = Vec::new();
        assert(hosts_of(items@) =~= Seq::<HostView>::empty());
        std::mem::swap(&mut items, &mut self.items);
        items.push(target);
        assert(hosts_of(items@) =~= before.push(target@));
        std::mem::swap(&mut items, &mut self.items);
        proof {
            assert(before.push(target@).to_set() =~= before.to_set().insert(target@)) by {
                assert forall|host: HostView|
                    before.push(target@).to_set().contains(host) implies before.to_set().insert(
                    target@,
                ).contains(host) by {
                    let i = choose|i: int|
                        0 <= i < before.push(target@).len() && before.push(target@)[i] == host;
                    if i < before.len() {
                        assert(before[i] == host);
                    }
                }
                assert forall|host: HostView|
                    before.to_set().insert(target@).contains(host) implies before.push(
                    target@,
                ).to_set().contains(host) by {
                    if host == target@ {
                        assert(before.push(target@)[before.len() as int] == host);
                    } else {
                        let i = choose|i: int| 0 <= i < before.len() && before[i] == host;
                        assert(before.push(target@)[i] == host);
                    }
                }
            }
        }
        true
    }

    /// The targets of the set, each once, in the order in which they came in.
    pub fn targets(&self) -> (items: &Vec<CrawlTarget>)
        ensures
            hosts_of(items@).no_duplicates(),
            hosts_of(items@).to_set() == self@,
    {
        proof {
            use_type_invariant(self);
        }
        &self.items
    }
}

impl Clone for TargetSet {
    fn clone(&self) -> (copy: Self)
        ensures
            copy@ == self@,
    {
        proof {
            use_type_invariant(self);
        }
        let mut items: Vec<CrawlTarget> = Vec::new();
        let mut i: usize = 0;
        while i < self.items.len()
            invariant
                i <= self.items.len(),
                items.len() == i,
                forall|k: int| 0 <= k < i ==> items[k]@ == self.items[k]@,
            decreases self.items.len() - i,
        {
            items.push(self.items[i].clone());
            i += 1;
        }
        assert(hosts_of(items@) =~= hosts_of(self.items@));
        TargetSet { items }
    }
}

} // verus!
