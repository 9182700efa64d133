//! An ordered set of names, kept sorted and free of repeats, as a
//! `BTreeSet<String>` keeps them.
use vstd::prelude::*;
use crate::text::{str_lt, string_lt, lemma_str_lt_total, lemma_str_lt_transitive, lemma_str_lt_asymmetric};
use crate::valid::{strings_model, clone_strings};

verus! {

/// Each name comes before every later one.
pub open spec fn strictly_sorted(s: Seq<Seq<char>>) -> bool {
    forall|i: int, j: int| 0 <= i < j < s.len() ==> str_lt(#[trigger] s[i], #[trigger] s[j])
}

/// A set of names, held in increasing order without repeats. Inside a
/// schema its `{:?}` text is `JsonSchema::debug_string`'s `{"a", ..}`; the
/// derived `Debug` shows the struct.
#[derive(Debug, PartialEq, Eq)]
pub struct NameSet {
    names: Vec<String>,
}

impl View for NameSet {
    type V = Seq<Seq<char>>;

    closed spec fn view(&self) -> Seq<Seq<char>> {
        strings_model(self.names@)
    }
}

/// A strictly sorted sequence holds no name twice.
pub proof fn lemma_sorted_no_repeats(s: Seq<Seq<char>>)
    requires
        strictly_sorted(s),
    ensures
        s.no_duplicates(),
{
    assert forall|i: int, j: int| 0 <= i < s.len() && 0 <= j < s.len() && i != j implies s[i]
        != s[j] by {
        if i < j {
            assert(str_lt(s[i], s[j]));
            lemma_str_lt_asymmetric(s[i], s[j]);
        } else {
            assert(str_lt(s[j], s[i]));
            lemma_str_lt_asymmetric(s[j], s[i]);
        }
    }
}

/// Two strictly sorted sequences with the same elements are the same
/// sequence: the sorted form of a set is unique.
pub proof fn lemma_sorted_set_eq(a: Seq<Seq<char>>, b: Seq<Seq<char>>)
    requires
        strictly_sorted(a),
        strictly_sorted(b),
        a.to_set() == b.to_set(),
    ensures
        a == b,
    decreases a.len(),
{
    if a.len() == 0 {
        if b.len() > 0 {
            assert(b.to_set().contains(b[0]));
        }
        assert(a =~= b);
    } else {
        assert(a.to_set().contains(a[0]));
        assert(b.len() > 0);
        assert(b.to_set().contains(b[0]));
        // The first elements are the least of the same set.
        let ka = choose|k: int| 0 <= k < a.len() && a[k] == b[0];
        let kb = choose|k: int| 0 <= k < b.len() && b[k] == a[0];
        if a[0] != b[0] {
            if kb > 0 {
                assert(str_lt(b[0], b[kb]));
            }
            if ka > 0 {
                assert(str_lt(a[0], a[ka]));
            }
            lemma_str_lt_asymmetric(a[0], b[0]);
        }
        let a1 = a.drop_first();
        let b1 = b.drop_first();
        lemma_sorted_no_repeats(a);
        lemma_sorted_no_repeats(b);
        assert(strictly_sorted(a1));
        assert(strictly_sorted(b1));
        assert forall|x: Seq<char>| a1.to_set().contains(x) implies b1.to_set().contains(x) by {
            let i = choose|i: int| 0 <= i < a1.len() && a1[i] == x;
            assert(a[i + 1] == x);
            assert(b.to_set().contains(x));
            let j = choose|j: int| 0 <= j < b.len() && b[j] == x;
            if j == 0 {
                assert(a[0] == x);
            } else {
                assert(b1[j - 1] == x);
            }
        }
        assert forall|x: Seq<char>| b1.to_set().contains(x) implies a1.to_set().contains(x) by {
            let j = choose|j: int| 0 <= j < b1.len() && b1[j] == x;
            assert(b[j + 1] == x);
            assert(a.to_set().contains(x));
            let i = choose|i: int| 0 <= i < a.len() && a[i] == x;
            if i == 0 {
                assert(b[0] == x);
            } else {
                assert(a1[i - 1] == x);
            }
        }
        assert(a1.to_set() =~= b1.to_set());
        lemma_sorted_set_eq(a1, b1);
        assert(a =~= b) by {
            assert forall|k: int| 0 <= k < a.len() implies a[k] == b[k] by {
                if k > 0 {
                    assert(a[k] == a1[k - 1]);
                    assert(b[k] == b1[k - 1]);
                }
            }
        }
    }
}

/// The names of a set in increasing order, each once.
pub open spec fn sorted_names(s: Set<Seq<char>>) -> Seq<Seq<char>> {
    choose|t: Seq<Seq<char>>| strictly_sorted(t) && t.to_set() == s
}

/// `x` put into the strictly sorted `t` at its place, unless it is there.
pub open spec fn insert_sorted(t: Seq<Seq<char>>, x: Seq<char>) -> Seq<Seq<char>>
    decreases t.len(),
{
    if t.len() == 0 {
        seq![x]
    } else if t[0] == x {
        t
    } else if str_lt(x, t[0]) {
        seq![x] + t
    } else {
        seq![t[0]] + insert_sorted(t.drop_first(), x)
    }
}

/// Inserting into a strictly sorted sequence keeps it so, and adds `x` to
/// its elements.
pub proof fn lemma_insert_sorted(t: Seq<Seq<char>>, x: Seq<char>)
    requires
        strictly_sorted(t),
    ensures
        strictly_sorted(insert_sorted(t, x)),
        insert_sorted(t, x).to_set() == t.to_set().insert(x),
    decreases t.len(),
{
    let r = insert_sorted(t, x);
    if t.len() == 0 {
        assert(r.to_set() =~= t.to_set().insert(x)) by {
            assert(r[0] == x);
        }
    } else if t[0] == x {
        assert(r.to_set() =~= t.to_set().insert(x)) by {
            assert(t.to_set().contains(t[0]));
        }
    } else if str_lt(x, t[0]) {
        assert forall|i: int, j: int| 0 <= i < j < r.len() implies str_lt(
            #[trigger] r[i],
            #[trigger] r[j],
        ) by {
            if i == 0 {
                assert(r[j] == t[j - 1]);
                if j > 1 {
                    assert(str_lt(t[0], t[j - 1]));
                    lemma_str_lt_transitive(x, t[0], t[j - 1]);
                }
            } else {
                assert(r[i] == t[i - 1] && r[j] == t[j - 1]);
            }
        }
        assert(r.to_set() =~= t.to_set().insert(x)) by {
            assert forall|y: Seq<char>| r.to_set().contains(y) implies t.to_set().insert(x).contains(
                y,
            ) by {
                let k = choose|k: int| 0 <= k < r.len() && r[k] == y;
                if k > 0 {
                    assert(t[k - 1] == y);
                }
            }
            assert forall|y: Seq<char>| t.to_set().insert(x).contains(y) implies r.to_set().contains(
                y,
            ) by {
                if y == x {
                    assert(r[0] == y);
                } else {
                    let k = choose|k: int| 0 <= k < t.len() && t[k] == y;
                    assert(r[k + 1] == y);
                }
            }
        }
    } else {
        let t1 = t.drop_first();
        assert(strictly_sorted(t1)) by {
            assert forall|i: int, j: int| 0 <= i < j < t1.len() implies str_lt(
                #[trigger] t1[i],
                #[trigger] t1[j],
            ) by {
                assert(t1[i] == t[i + 1] && t1[j] == t[j + 1]);
            }
        }
        lemma_insert_sorted(t1, x);
        let r1 = insert_sorted(t1, x);
        assert(r == seq![t[0]] + r1);
        lemma_str_lt_total(x, t[0]);
        assert(str_lt(t[0], x));
        assert forall|i: int, j: int| 0 <= i < j < r.len() implies str_lt(
            #[trigger] r[i],
            #[trigger] r[j],
        ) by {
            if i == 0 {
                assert(r[j] == r1[j - 1]);
                assert(r1.to_set().contains(r1[j - 1]));
                assert(t1.to_set().insert(x).contains(r1[j - 1]));
                if r1[j - 1] != x {
                    let k = choose|k: int| 0 <= k < t1.len() && t1[k] == r1[j - 1];
                    assert(t1[k] == t[k + 1]);
                }
            } else {
                assert(r[i] == r1[i - 1] && r[j] == r1[j - 1]);
            }
        }
        assert(r.to_set() =~= t.to_set().insert(x)) by {
            assert forall|y: Seq<char>| r.to_set().contains(y) implies t.to_set().insert(x).contains(
                y,
            ) by {
                let k = choose|k: int| 0 <= k < r.len() && r[k] == y;
                if k > 0 {
                    assert(r1[k - 1] == y);
                    assert(r1.to_set().contains(y));
                    if y != x {
                        let m = choose|m: int| 0 <= m < t1.len() && t1[m] == y;
                        assert(t[m + 1] == y);
                    }
                }
            }
            assert forall|y: Seq<char>| t.to_set().insert(x).contains(y) implies r.to_set().contains(
                y,
            ) by {
                if y == t[0] {
                    assert(r[0] == y);
                } else {
                    if y != x {
                        let k = choose|k: int| 0 <= k < t.len() && t[k] == y;
                        assert(k > 0);
                        assert(t1[k - 1] == y);
                        assert(t1.to_set().contains(y));
                    }
                    assert(r1.to_set().contains(y));
                    let m = choose|m: int| 0 <= m < r1.len() && r1[m] == y;
                    assert(r[m + 1] == y);
                }
            }
        }
    }
}

/// Every finite set of names has a sorted form: `sorted_names` gives the
/// set's names in increasing order, each once.
pub proof fn lemma_sorted_names(s: Set<Seq<char>>)
    requires
        s.finite(),
    ensures
        strictly_sorted(sorted_names(s)),
        sorted_names(s).to_set() == s,
{
    lemma_sorted_form_exists(s);
}

proof fn lemma_sorted_form_exists(s: Set<Seq<char>>)
    requires
        s.finite(),
    ensures
        exists|t: Seq<Seq<char>>| strictly_sorted(t) && t.to_set() == s,
    decreases s.len(),
{
    if s.len() == 0 {
        let t = Seq::<Seq<char>>::empty();
        assert(s =~= Set::<Seq<char>>::empty());
        assert(t.to_set() =~= s);
        assert(strictly_sorted(t));
    } else {
        let x = s.choose();
        let s1 = s.remove(x);
        lemma_sorted_form_exists(s1);
        let t1 = choose|t: Seq<Seq<char>>| strictly_sorted(t) && t.to_set() == s1;
        lemma_insert_sorted(t1, x);
        let t = insert_sorted(t1, x);
        assert(t.to_set() =~= s);
        assert(strictly_sorted(t) && t.to_set() == s);
    }
}

impl NameSet {
    #[verifier::type_invariant]
    spec fn sorted(self) -> bool {
        strictly_sorted(strings_model(self.names@))
    }

    /// The empty set.
    pub fn new() -> (r: NameSet)
        ensures
            r@ == Seq::<Seq<char>>::empty(),
    {
        let r = NameSet { names: Vec::new() };
        assert(strings_model(r.names@) =~= Seq::<Seq<char>>::empty());
        r
    }

    /// The names in increasing order.
    pub fn names(&self) -> (r: &Vec<String>)
        ensures
            strings_model(r@) == self@,
            strictly_sorted(self@),
    {
        proof {
            use_type_invariant(self);
        }
        &self.names
    }

    /// The names are in increasing order, with no repeats.
    pub fn is_sorted(&self)
        ensures
            strictly_sorted(self@),
    {
        proof {
            use_type_invariant(self);
        }
    }

    /// Adds `name`, unless it is there already.
    pub fn insert(&mut self, name: String)
        ensures
            final(self)@.to_set() == old(self)@.to_set().insert(name@),
            strictly_sorted(final(self)@),
    {
        proof {
            use_type_invariant(&*self);
        }
        let ghost s = strings_model(self.names@);
        let mut i: usize = 0;
        while i < self.names.len() && string_lt(&self.names[i], &name)
            invariant
                i <= self.names@.len(),
                s == strings_model(self.names@),
                strictly_sorted(s),
                forall|j: int| 0 <= j < i ==> str_lt(#[trigger] s[j], name@),
            decreases self.names@.len() - i,
        {
            i = i + 1;
        }
        if i < self.names.len() && self.names[i] == name {
            assert(s[i as int] == name@);
            assert(s.to_set().insert(name@) =~= s.to_set());
            return;
        }
        let ghost t = s.insert(i as int, name@);
        proof {
            if i < s.len() {
                assert(!str_lt(s[i as int], name@));
                assert(s[i as int] != name@);
                lemma_str_lt_total(s[i as int], name@);
            }
            assert forall|a: int, b: int| 0 <= a < b < t.len() implies str_lt(
                #[trigger] t[a],
                #[trigger] t[b],
            ) by {
                if b < i {
                } else if b == i {
                    assert(t[a] == s[a]);
                } else if a == i {
                    assert(t[b] == s[b - 1]);
                    if b - 1 > i {
                        assert(str_lt(s[i as int], s[b - 1]));
                        lemma_str_lt_transitive(name@, s[i as int], s[b - 1]);
                    }
                } else if a < i {
                    assert(t[b] == s[b - 1]);
                } else {
                    assert(t[a] == s[a - 1]);
                    assert(t[b] == s[b - 1]);
                }
            }
            assert forall|x: Seq<char>| #[trigger] t.to_set().contains(x) == s.to_set().insert(
                name@,
            ).contains(x) by {
                if s.to_set().contains(x) {
                    let k = choose|k: int| 0 <= k < s.len() && s[k] == x;
                    if k < i {
                        assert(t[k] == x);
                    } else {
                        assert(t[k + 1] == x);
                    }
                }
                if t.to_set().contains(x) {
                    let k = choose|k: int| 0 <= k < t.len() && t[k] == x;
                    if k < i {
                        assert(s[k] == x);
                    } else if k > i {
                        assert(s[k - 1] == x);
                    }
                }
                assert(t[i as int] == name@);
            }
            assert(t.to_set() =~= s.to_set().insert(name@));
        }
        let mut names: Vec<String> = Vec::new();
        std::mem::swap(&mut names, &mut self.names);
        names.insert(i, name);
        assert(strings_model(names@) =~= t);
        self.names = names;
    }

    /// Whether both sets hold the same names.
    pub fn same_as(&self, other: &NameSet) -> (r: bool)
        ensures
            r == (self@ == other@),
            r == (self@.to_set() == other@.to_set()),
    {
        proof {
            use_type_invariant(self);
            use_type_invariant(other);
            if self@.to_set() == other@.to_set() {
                lemma_sorted_set_eq(self@, other@);
            }
        }
        let a = &self.names;
        let b = &other.names;
        if a.len() != b.len() {
            assert(self@.len() != other@.len());
            return false;
        }
        let mut i: usize = 0;
        while i < a.len()
            invariant
                a@.len() == b@.len(),
                i <= a@.len(),
                self@ == strings_model(a@),
                other@ == strings_model(b@),
                self@.to_set() == other@.to_set() ==> self@ == other@,
                forall|j: int| 0 <= j < i ==> #[trigger] a@[j]@ == b@[j]@,
            decreases a@.len() - i,
        {
            if a[i] != b[i] {
                assert(self@[i as int] != other@[i as int]);
                return false;
            }
            i = i + 1;
        }
        assert(self@ =~= other@);
        true
    }
}

impl Clone for NameSet {
    fn clone(&self) -> (r: NameSet)
        ensures
            r@ == self@,
    {
        proof {
            use_type_invariant(self);
        }
        NameSet { names: clone_strings(&self.names) }
    }
}

} // verus!
