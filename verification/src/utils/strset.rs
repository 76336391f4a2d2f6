use vstd::prelude::*;

verus! {

/// A set of strings, kept as a list in which no string occurs twice.
pub struct StringSet {
    items: Vec<String>,
}

impl View for StringSet {
    type V = Set<Seq<char>>;

    closed spec fn view(&self) -> Set<Seq<char>> {
        Set::new(|s: Seq<char>| exists|i: int| 0 <= i < self.items@.len() && #[trigger] self.items@[i]@ == s)
    }
}

impl StringSet {
    #[verifier::type_invariant]
    spec fn inv(&self) -> bool {
        forall|i: int, j: int|
            0 <= i < j < self.items@.len() ==> #[trigger] self.items@[i]@ != #[trigger] self.items@[j]@
    }

    /// The list holds each string of the set once, so the set is finite
    /// and as large as the list.
    proof fn lemma_view_len(&self)
        requires
            self.inv(),
        ensures
            self@.finite(),
            self@.len() == self.items@.len(),
    {
        let names = self.items@.map_values(|s: String| s@);
        assert(names.no_duplicates()) by {
            assert forall|i: int, j: int| 0 <= i < names.len() && 0 <= j < names.len() && i != j
                implies names[i] != names[j] by {
                if i < j {
                    assert(self.items@[i]@ != self.items@[j]@);
                } else {
                    assert(self.items@[j]@ != self.items@[i]@);
                }
            }
        }
        names.unique_seq_to_set();
        assert forall|x: Seq<char>| #[trigger] names.to_set().contains(x) == self@.contains(x) by {
            if self@.contains(x) {
                let k = choose|k: int| 0 <= k < self.items@.len() && #[trigger] self.items@[k]@ == x;
                assert(names[k] == x);
            }
            if names.to_set().contains(x) {
                let k = choose|k: int| 0 <= k < names.len() && names[k] == x;
                assert(self.items@[k]@ == x);
            }
        }
        assert(names.to_set() =~= self@);
        vstd::seq_lib::seq_to_set_is_finite(names);
    }

    /// The empty set.
    pub fn new() -> (r: Self)
        ensures
            r@ == Set::<Seq<char>>::empty(),
    {
        let r = StringSet { items: Vec::new() };
        assert(r@ =~= Set::<Seq<char>>::empty());
        r
    }

    /// Whether `s` is in the set.
    pub fn contains(&self, s: &String) -> (r: bool)
        ensures
            r == self@.contains(s@),
    {
        let mut i: usize = 0;
        while i < self.items.len()
            invariant
                i <= self.items@.len(),
                forall|j: int| 0 <= j < i ==> #[trigger] self.items@[j]@ != s@,
            decreases self.items@.len() - i,
        {
            if self.items[i] == *s {
                return true;
            }
            i = i + 1;
        }
        false
    }

    /// Adds `s`; returns whether it was new.
    pub fn insert(&mut self, s: String) -> (r: bool)
        ensures
            r == !old(self)@.contains(s@),
            final(self)@ == old(self)@.insert(s@),
    {
        proof {
            use_type_invariant(&*self);
        }
        if self.contains(&s) {
            assert(old(self)@.insert(s@) =~= old(self)@);
            return false;
        }
        let ghost old_items = self.items@;
        let ghost sv = s@;
        let mut items = Vec::new();
        std::mem::swap(&mut items, &mut self.items);
        items.push(s);
        assert forall|i: int, j: int| 0 <= i < j < items@.len() implies #[trigger] items@[i]@
            != #[trigger] items@[j]@ by {
            if j == old_items.len() {
                assert(items@[i] == old_items[i]);
                assert(!old(self)@.contains(sv));
            } else {
                assert(items@[i] == old_items[i] && items@[j] == old_items[j]);
            }
        }
        self.items = items;
        assert forall|x: Seq<char>| #[trigger] self@.contains(x) == old(self)@.insert(sv).contains(
            x,
        ) by {
            if old(self)@.contains(x) {
                let k = choose|k: int| 0 <= k < old_items.len() && #[trigger] old_items[k]@ == x;
                assert(self.items@[k] == old_items[k]);
            }
            if self@.contains(x) && x != sv {
                let k = choose|k: int| 0 <= k < self.items@.len() && #[trigger] self.items@[k]@ == x;
                assert(k < old_items.len());
                assert(self.items@[k] == old_items[k]);
            }
            if x == sv {
                assert(self.items@[old_items.len() as int]@ == sv);
            }
        }
        assert(self@ =~= old(self)@.insert(sv));
        true
    }

    /// The number of strings in the set.
    pub fn len(&self) -> (r: usize)
        ensures
            r == self@.len(),
    {
        proof {
            use_type_invariant(self);
            self.lemma_view_len();
        }
        self.items.len()
    }

    /// A copy of the set.
    pub fn duplicate(&self) -> (r: Self)
        ensures
            r@ == self@,
    {
        proof {
            use_type_invariant(self);
        }
        let mut items: Vec<String> = Vec::new();
        let mut i: usize = 0;
        while i < self.items.len()
            invariant
                i <= self.items@.len(),
                items@.len() == i,
                forall|j: int| 0 <= j < i ==> #[trigger] items@[j]@ == self.items@[j]@,
            decreases self.items@.len() - i,
        {
            items.push(self.items[i].clone());
            i = i + 1;
        }
        assert forall|a: int, b: int| 0 <= a < b < items@.len() implies #[trigger] items@[a]@
            != #[trigger] items@[b]@ by {
            assert(items@[a]@ == self.items@[a]@);
            assert(items@[b]@ == self.items@[b]@);
        }
        let r = StringSet { items };
        assert forall|x: Seq<char>| #[trigger] r@.contains(x) == self@.contains(x) by {
            if r@.contains(x) {
                let k = choose|k: int| 0 <= k < r.items@.len() && #[trigger] r.items@[k]@ == x;
                assert(self.items@[k]@ == x);
            }
            if self@.contains(x) {
                let k = choose|k: int| 0 <= k < self.items@.len() && #[trigger] self.items@[k]@ == x;
                assert(r.items@[k]@ == x);
            }
        }
        assert(r@ =~= self@);
        r
    }
}

} // verus!
