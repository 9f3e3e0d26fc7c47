//! The set of display names that live sessions currently hold.
use vstd::prelude::*;

verus! {

/// Claimed names. A name is present exactly while one session holds it;
/// no name is stored twice.
pub struct Registry {
    names: Vec<String>,
}

impl View for Registry {
    type V = Set<Seq<char>>;

    closed spec fn view(&self) -> Set<Seq<char>> {
        Set::new(|s: Seq<char>| exists|i: int| 0 <= i < self.names.len() && #[trigger] self.names[i]@ == s)
    }
}

impl Registry {
    /// No name is stored twice.
    pub closed spec fn wf(&self) -> bool {
        forall|i: int, j: int|
            0 <= i < self.names.len() && 0 <= j < self.names.len() && i != j
                ==> #[trigger] self.names[i]@ != #[trigger] self.names[j]@
    }

    /// An empty registry.
    pub fn new() -> (r: Registry)
        ensures
            r.wf(),
            r@ == Set::<Seq<char>>::empty(),
    {
        let r = Registry { names: Vec::new() };
        assert(r@ =~= Set::<Seq<char>>::empty());
        r
    }

    /// Position of `name` among the stored names, if it is claimed.
    fn position(&self, name: &String) -> (r: Option<usize>)
        requires
            self.wf(),
        ensures
            match r {
                Some(i) => i < self.names.len() && self.names[i as int]@ == name@,
                None => !self@.contains(name@),
            },
    {
        let mut i: usize = 0;
        while i < self.names.len()
            invariant
                i <= self.names.len(),
                forall|k: int| 0 <= k < i ==> #[trigger] self.names[k]@ != name@,
            decreases self.names.len() - i,
        {
            if self.names[i].eq(name) {
                return Some(i);
            }
            i = i + 1;
        }
        None
    }

    /// Whether `name` is currently claimed.
    pub fn contains(&self, name: &str) -> (r: bool)
        requires
            self.wf(),
        ensures
            r == self@.contains(name@),
    {
        self.position(&name.to_owned()).is_some()
    }

    /// Claims `name` if no one holds it: the test and the insertion are one
    /// step. Returns whether the claim succeeded.
    pub fn try_claim(&mut self, name: &str) -> (r: bool)
        requires
            old(self).wf(),
        ensures
            final(self).wf(),
            r == !old(self)@.contains(name@),
            final(self)@ == old(self)@.insert(name@),
    {
        let owned = name.to_owned();
        match self.position(&owned) {
            Some(_) => {
                assert(self@.insert(name@) =~= self@);
                false
            },
            None => {
                let ghost before = self.names@;
                self.names.push(owned);
                assert(self.names[before.len() as int]@ == name@);
                assert(forall|k: int| 0 <= k < before.len() ==> self.names[k] == before[k]);
                assert(self@ =~= old(self)@.insert(name@));
                true
            },
        }
    }

    /// Gives `name` back. Releasing a name that is not held changes nothing.
    pub fn release(&mut self, name: &str)
        requires
            old(self).wf(),
        ensures
            final(self).wf(),
            final(self)@ == old(self)@.remove(name@),
    {
        match self.position(&name.to_owned()) {
            Some(i) => {
                let ghost before = self.names@;
                self.names.remove(i);
                assert(forall|k: int| 0 <= k < i ==> self.names[k] == before[k]);
                assert(forall|k: int| i <= k < self.names.len() ==> self.names[k] == before[k + 1]);
                assert forall|s: Seq<char>| self@.contains(s) <==> old(self)@.remove(name@).contains(s) by {
                    if old(self)@.remove(name@).contains(s) {
                        let j = choose|j: int| 0 <= j < before.len() && #[trigger] before[j]@ == s;
                        if j < i {
                            assert(self.names[j]@ == s);
                        } else {
                            assert(j != i);
                            assert(self.names[j - 1]@ == s);
                        }
                    }
                    if self@.contains(s) {
                        let j = choose|j: int| 0 <= j < self.names.len() && #[trigger] self.names[j]@ == s;
                        if j < i {
                            assert(before[j]@ == s);
                            assert(s != name@);
                        } else {
                            assert(before[j + 1]@ == s);
                            assert(s != name@);
                        }
                    }
                }
                assert(self@ =~= old(self)@.remove(name@));
            },
            None => {
                assert(self@.remove(name@) =~= self@);
            },
        }
    }
}

} // verus!
