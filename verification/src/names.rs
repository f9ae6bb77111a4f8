//! An ordered set of names: no name twice, walked in ascending order.

use vstd::prelude::*;
use crate::text::{lemma_text_lt_asymmetric, lemma_text_lt_irreflexive, lemma_text_lt_transitive, lemma_trichotomy, str_eq, str_lt, text_lt};

verus! {

/// Each text comes strictly before every later one.
pub open spec fn ascending(s: Seq<Seq<char>>) -> bool {
    forall|i: int, j: int| 0 <= i < j < s.len() ==> text_lt(#[trigger] s[i], #[trigger] s[j])
}

/// `a` and `b` hold the same texts.
pub open spec fn same_members(a: Seq<Seq<char>>, b: Seq<Seq<char>>) -> bool {
    forall|x: Seq<char>| a.contains(x) <==> b.contains(x)
}

/// `more` holds `text` and what `names` holds, in ascending order.
pub open spec fn is_with(more: Seq<Seq<char>>, names: Seq<Seq<char>>, text: Seq<char>) -> bool {
    ascending(more) && forall|x: Seq<char>| more.contains(x) <==> (x == text || names.contains(x))
}

/// `fewer` holds what `names` holds but `text`, in ascending order.
pub open spec fn is_without(fewer: Seq<Seq<char>>, names: Seq<Seq<char>>, text: Seq<char>) -> bool {
    ascending(fewer) && forall|x: Seq<char>|
        fewer.contains(x) <==> (x != text && names.contains(x))
}

/// An ascending sequence holds no text twice.
pub proof fn lemma_ascending_no_duplicates(s: Seq<Seq<char>>)
    requires
        ascending(s),
    ensures
        s.no_duplicates(),
{
    assert forall|i: int, j: int| 0 <= i < s.len() && 0 <= j < s.len() && i != j implies s[i]
        != s[j] by {
        if i < j {
            lemma_text_lt_asymmetric(s[i], s[j]);
        } else {
            lemma_text_lt_asymmetric(s[j], s[i]);
        }
    }
}

/// The first text of a non-empty ascending sequence comes before all others,
/// and the rest is ascending too.
proof fn lemma_ascending_tail(s: Seq<Seq<char>>)
    requires
        ascending(s),
        s.len() > 0,
    ensures
        ascending(s.drop_first()),
        forall|x: Seq<char>| s.drop_first().contains(x) ==> text_lt(s[0], x),
{
    let t = s.drop_first();
    assert forall|i: int, j: int| 0 <= i < j < t.len() implies text_lt(
        #[trigger] t[i],
        #[trigger] t[j],
    ) by {
        assert(t[i] == s[i + 1]);
        assert(t[j] == s[j + 1]);
    }
    assert forall|x: Seq<char>| t.contains(x) implies text_lt(s[0], x) by {
        let i = choose|i: int| 0 <= i < t.len() && t[i] == x;
        assert(t[i] == s[i + 1]);
    }
}

/// An ascending sequence is fixed by the texts it holds: two ascending
/// sequences with the same members are the same sequence.
pub proof fn lemma_ascending_unique(a: Seq<Seq<char>>, b: Seq<Seq<char>>)
    requires
        ascending(a),
        ascending(b),
        same_members(a, b),
    ensures
        a == b,
    decreases a.len(),
{
    if a.len() == 0 {
        if b.len() > 0 {
            assert(b.contains(b[0]));
            assert(a.contains(b[0]));
        }
        assert(a =~= b);
    } else {
        assert(a.contains(a[0]));
        assert(b.contains(a[0]));
        assert(b.len() > 0);
        assert(b.contains(b[0]));
        lemma_ascending_tail(a);
        lemma_ascending_tail(b);
        let ta = a.drop_first();
        let tb = b.drop_first();
        // The two heads are equal: each is the least member.
        if a[0] != b[0] {
            let i = choose|i: int| 0 <= i < b.len() && b[i] == a[0];
            assert(i > 0);
            assert(text_lt(b[0], b[i]));
            let j = choose|j: int| 0 <= j < a.len() && a[j] == b[0];
            assert(j > 0);
            assert(text_lt(a[0], a[j]));
            lemma_text_lt_asymmetric(a[0], b[0]);
        }
        lemma_ascending_no_duplicates(a);
        lemma_ascending_no_duplicates(b);
        assert forall|x: Seq<char>| ta.contains(x) <==> tb.contains(x) by {
            if ta.contains(x) {
                let i = choose|i: int| 0 <= i < ta.len() && ta[i] == x;
                assert(ta[i] == a[i + 1]);
                assert(a.contains(x));
                assert(x != a[0]);
                let j = choose|j: int| 0 <= j < b.len() && b[j] == x;
                assert(j > 0);
                assert(tb[j - 1] == x);
            }
            if tb.contains(x) {
                let i = choose|i: int| 0 <= i < tb.len() && tb[i] == x;
                assert(tb[i] == b[i + 1]);
                assert(b.contains(x));
                assert(x != b[0]);
                let j = choose|j: int| 0 <= j < a.len() && a[j] == x;
                assert(j > 0);
                assert(ta[j - 1] == x);
            }
        }
        lemma_ascending_unique(ta, tb);
        assert(a =~= seq![a[0]] + ta);
        assert(b =~= seq![b[0]] + tb);
    }
}

/// A set of names, kept in ascending order.
#[derive(Debug, PartialEq, Eq)]
pub struct NameSet {
    names: Vec<String>,
}

impl View for NameSet {
    type V = Seq<Seq<char>>;

    /// The names, in ascending order.
    closed spec fn view(&self) -> Seq<Seq<char>> {
        self.names.deep_view()
    }
}

impl Clone for NameSet {
    fn clone(&self) -> (copy: Self)
        ensures
            copy@ == self@,
    {
        proof {
            use_type_invariant(self);
        }
        let mut names: Vec<String> = Vec::new();
        let mut i: usize = 0;
        while i < self.names.len()
            invariant
                i <= self.names.len(),
                names.len() == i,
                forall|j: int| 0 <= j < i ==> names@[j]@ == self.names@[j]@,
            decreases self.names.len() - i,
        {
            names.push(self.names[i].clone());
            i += 1;
        }
        assert(names.deep_view() =~= self.names.deep_view());
        NameSet { names }
    }
}

impl NameSet {
    /// The order that every set keeps.
    #[verifier::type_invariant]
    pub open spec fn ordered(&self) -> bool {
        ascending(self@)
    }

    /// Whether `name` is a member.
    pub open spec fn has(&self, name: Seq<char>) -> bool {
        self@.contains(name)
    }

    /// The empty set.
    pub fn new() -> (set: Self)
        ensures
            set@ == Seq::<Seq<char>>::empty(),
    {
        let names: Vec<String> = Vec::new();
        assert(names.deep_view() =~= Seq::<Seq<char>>::empty());
        NameSet { names }
    }

    /// The number of names.
    pub fn len(&self) -> (n: usize)
        ensures
            n == self@.len(),
    {
        self.names.len()
    }

    /// Whether the set holds no name.
    pub fn is_empty(&self) -> (empty: bool)
        ensures
            empty == (self@.len() == 0),
    {
        self.names.len() == 0
    }

    /// The name at place `i` of the ascending order.
    pub fn name(&self, i: usize) -> (name: &String)
        requires
            i < self@.len(),
        ensures
            name@ == self@[i as int],
    {
        &self.names[i]
    }

    /// The place of the first name that does not come before `name`.
    fn lower_bound(&self, name: &str) -> (at: usize)
        ensures
            at <= self@.len(),
            forall|j: int| 0 <= j < at ==> text_lt(self@[j], name@),
            at < self@.len() ==> !text_lt(self@[at as int], name@),
    {
        let mut i: usize = 0;
        while i < self.names.len()
            invariant
                i <= self.names.len(),
                forall|j: int| 0 <= j < i ==> text_lt(self@[j], name@),
            decreases self.names.len() - i,
        {
            if !str_lt(self.names[i].as_str(), name) {
                return i;
            }
            i += 1;
        }
        i
    }

    /// Whether `name` is in the set.
    pub fn contains(&self, name: &str) -> (found: bool)
        ensures
            found == self.has(name@),
    {
        self.find(name).is_some()
    }

    /// The place of `name` in the ascending order, if it is a member.
    pub fn find(&self, name: &str) -> (place: Option<usize>)
        ensures
            place is Some <==> self.has(name@),
            place matches Some(i) ==> i < self@.len() && self@[i as int] == name@,
    {
        proof {
            use_type_invariant(self);
        }
        let at = self.lower_bound(name);
        if at < self.names.len() && str_eq(self.names[at].as_str(), name) {
            Some(at)
        } else {
            proof {
                if self@.contains(name@) {
                    let k = choose|k: int| 0 <= k < self@.len() && self@[k] == name@;
                    if k < at {
                        lemma_text_lt_irreflexive(name@);
                    } else if k > at {
                        assert(text_lt(self@[at as int], self@[k]));
                    }
                }
            }
            None
        }
    }

    /// Adds `name`; says whether it was new.
    pub fn insert(&mut self, name: String) -> (added: bool)
        ensures
            added == !old(self).has(name@),
            forall|x: Seq<char>| final(self).has(x) <==> (x == name@ || old(self).has(x)),
            added ==> final(self)@.len() == old(self)@.len() + 1,
            !added ==> final(self)@ == old(self)@,
    {
        let placed = self.insert_at(name);
        placed.1
    }

    /// Adds `name`; gives its place in the new order, and says whether it
    /// was new.
    pub fn insert_at(&mut self, name: String) -> (placed: (usize, bool))
        ensures
            placed.1 == !old(self).has(name@),
            forall|x: Seq<char>| final(self).has(x) <==> (x == name@ || old(self).has(x)),
            placed.1 ==> final(self)@ == old(self)@.insert(placed.0 as int, name@),
            placed.1 ==> placed.0 <= old(self)@.len(),
            !placed.1 ==> final(self)@ == old(self)@,
            placed.0 < final(self)@.len(),
            final(self)@[placed.0 as int] == name@,
    {
        proof {
            use_type_invariant(&*self);
        }
        let at = self.lower_bound(name.as_str());
        if at < self.names.len() && str_eq(self.names[at].as_str(), name.as_str()) {
            assert(self@.contains(self@[at as int]));
            return (at, false);
        }
        let ghost before = self@;
        let ghost text = name@;
        proof {
            if before.contains(text) {
                let k = choose|k: int| 0 <= k < before.len() && before[k] == text;
                if k < at {
                    lemma_text_lt_irreflexive(text);
                } else if k > at {
                    assert(text_lt(before[at as int], before[k]));
                }
            }
        }
        let mut names: Vec<String> = Vec::new();
        let mut i: usize = 0;
        while i < at
            invariant
                i <= at <= self.names.len(),
                names.len() == i,
                forall|j: int| 0 <= j < i ==> names@[j]@ == self.names@[j]@,
            decreases at - i,
        {
            names.push(self.names[i].clone());
            i += 1;
        }
        names.push(name);
        while i < self.names.len()
            invariant
                at <= i <= self.names.len(),
                names.len() == i + 1,
                names@[at as int]@ == text,
                forall|j: int| 0 <= j < at ==> names@[j]@ == self.names@[j]@,
                forall|j: int| at <= j < i ==> names@[j + 1]@ == self.names@[j]@,
            decreases self.names.len() - i,
        {
            names.push(self.names[i].clone());
            i += 1;
        }
        proof {
            assert(names.deep_view() =~= before.insert(at as int, text));
            lemma_inserted(before, at as int, text);
        }
        self.names = names;
        (at, true)
    }

    /// Takes `name` out; says whether it was there.
    pub fn remove(&mut self, name: &str) -> (removed: bool)
        ensures
            removed == old(self).has(name@),
            forall|x: Seq<char>| final(self).has(x) <==> (x != name@ && old(self).has(x)),
            removed ==> final(self)@.len() + 1 == old(self)@.len(),
            !removed ==> final(self)@ == old(self)@,
    {
        proof {
            use_type_invariant(&*self);
        }
        if !self.contains(name) {
            return false;
        }
        let at = self.lower_bound(name);
        let ghost before = self@;
        proof {
            let k = choose|k: int| 0 <= k < before.len() && before[k] == name@;
            if k < at {
                lemma_text_lt_irreflexive(name@);
            } else if k > at {
                assert(text_lt(before[at as int], before[k]));
                lemma_trichotomy(before[at as int], name@);
                lemma_text_lt_asymmetric(name@, before[k]);
            }
            assert(before[at as int] == name@);
        }
        let mut names: Vec<String> = Vec::new();
        let mut i: usize = 0;
        while i < self.names.len()
            invariant
                i <= self.names.len(),
                at < self.names.len(),
                names.len() == (if i <= at { i as int } else { i - 1 }),
                forall|j: int| 0 <= j < i && j < at ==> names@[j]@ == self.names@[j]@,
                forall|j: int| at < j < i ==> names@[j - 1]@ == self.names@[j]@,
            decreases self.names.len() - i,
        {
            if i != at {
                names.push(self.names[i].clone());
            }
            i += 1;
        }
        proof {
            assert(names.deep_view() =~= before.remove(at as int));
            lemma_removed(before, at as int);
        }
        self.names = names;
        true
    }

    /// A copy of the names, in ascending order.
    pub fn to_vec(&self) -> (names: Vec<String>)
        ensures
            names.deep_view() == self@,
            ascending(self@),
    {
        proof {
            use_type_invariant(self);
        }
        let copy = self.clone();
        copy.names
    }

    /// The set of the names in `list`.
    pub fn from_vec(list: Vec<String>) -> (set: Self)
        ensures
            same_members(set@, list.deep_view()),
            ascending(set@),
    {
        let mut set = NameSet::new();
        let mut i: usize = 0;
        while i < list.len()
            invariant
                i <= list.len(),
                forall|x: Seq<char>|
                    set.has(x) <==> exists|j: int| 0 <= j < i && list@[j]@ == x,
            decreases list.len() - i,
        {
            let ghost before = set;
            set.insert(list[i].clone());
            proof {
                assert forall|x: Seq<char>| set.has(x) <==> exists|j: int|
                    0 <= j < i + 1 && list@[j]@ == x by {
                    if set.has(x) {
                        if x == list@[i as int]@ {
                        } else {
                            let j = choose|j: int| 0 <= j < i && list@[j]@ == x;
                            assert(0 <= j < i + 1 && list@[j]@ == x);
                        }
                    }
                    if exists|j: int| 0 <= j < i + 1 && list@[j]@ == x {
                        let j = choose|j: int| 0 <= j < i + 1 && list@[j]@ == x;
                        if j < i {
                            assert(before.has(x));
                        }
                    }
                }
            }
            i += 1;
        }
        proof {
            use_type_invariant(&set);
            let l = list.deep_view();
            assert forall|x: Seq<char>| set@.contains(x) <==> l.contains(x) by {
                if set@.contains(x) {
                    assert(set.has(x));
                    let j = choose|j: int| 0 <= j < i && list@[j]@ == x;
                    assert(l[j] == x);
                }
                if l.contains(x) {
                    let j = choose|j: int| 0 <= j < l.len() && l[j] == x;
                    assert(0 <= j < i && list@[j]@ == x);
                    assert(set.has(x));
                }
            }
        }
        set
    }

    /// The names that are in `self` or in `other`.
    pub fn union(&self, other: &NameSet) -> (both: NameSet)
        ensures
            forall|x: Seq<char>| both.has(x) <==> (self.has(x) || other.has(x)),
            ascending(both@),
    {
        let mut both = self.clone();
        let mut i: usize = 0;
        while i < other.names.len()
            invariant
                i <= other.names.len(),
                forall|x: Seq<char>|
                    both.has(x) <==> (self.has(x) || exists|j: int|
                        0 <= j < i && other@[j] == x),
            decreases other.names.len() - i,
        {
            let ghost before = both;
            both.insert(other.names[i].clone());
            proof {
                assert forall|x: Seq<char>|
                    both.has(x) <==> (self.has(x) || exists|j: int|
                        0 <= j < i + 1 && other@[j] == x) by {
                    if both.has(x) && !self.has(x) {
                        if x == other@[i as int] {
                        } else {
                            let j = choose|j: int| 0 <= j < i && other@[j] == x;
                            assert(0 <= j < i + 1 && other@[j] == x);
                        }
                    }
                    if exists|j: int| 0 <= j < i + 1 && other@[j] == x {
                        let j = choose|j: int| 0 <= j < i + 1 && other@[j] == x;
                        if j < i {
                            assert(before.has(x));
                        }
                    }
                }
            }
            i += 1;
        }
        proof {
            use_type_invariant(&both);
        }
        both
    }

    /// Whether some name is in both sets.
    pub fn intersects(&self, other: &NameSet) -> (shared: bool)
        ensures
            shared == exists|x: Seq<char>| self.has(x) && other.has(x),
    {
        let mut i: usize = 0;
        while i < self.names.len()
            invariant
                i <= self.names.len(),
                forall|j: int| 0 <= j < i ==> !other.has(self@[j]),
            decreases self.names.len() - i,
        {
            if other.contains(self.names[i].as_str()) {
                assert(self.has(self@[i as int]));
                return true;
            }
            i += 1;
        }
        proof {
            assert forall|x: Seq<char>| !(self.has(x) && other.has(x)) by {
                if self.has(x) {
                    let j = choose|j: int| 0 <= j < self@.len() && self@[j] == x;
                }
            }
        }
        false
    }
}

/// Taking out one place of an ascending sequence keeps the order, and takes
/// that text from the members and nothing else.
proof fn lemma_removed(before: Seq<Seq<char>>, at: int)
    requires
        ascending(before),
        0 <= at < before.len(),
    ensures
        ascending(before.remove(at)),
        forall|x: Seq<char>|
            before.remove(at).contains(x) <==> (x != before[at] && before.contains(x)),
{
    let after = before.remove(at);
    lemma_ascending_no_duplicates(before);
    assert forall|i: int, j: int| 0 <= i < j < after.len() implies text_lt(
        #[trigger] after[i],
        #[trigger] after[j],
    ) by {
        let bi = if i < at { i } else { i + 1 };
        let bj = if j < at { j } else { j + 1 };
        assert(after[i] == before[bi]);
        assert(after[j] == before[bj]);
    }
    assert forall|x: Seq<char>| after.contains(x) <==> (x != before[at] && before.contains(
        x,
    )) by {
        if after.contains(x) {
            let k = choose|k: int| 0 <= k < after.len() && after[k] == x;
            let bk = if k < at { k } else { k + 1 };
            assert(before[bk] == x);
        }
        if x != before[at] && before.contains(x) {
            let k = choose|k: int| 0 <= k < before.len() && before[k] == x;
            if k < at {
                assert(after[k] == x);
            } else {
                assert(after[k - 1] == x);
            }
        }
    }
}

/// Putting `text` at the place where the names stop coming before it keeps
/// the order, and adds `text` to the members and nothing else.
proof fn lemma_inserted(before: Seq<Seq<char>>, at: int, text: Seq<char>)
    requires
        ascending(before),
        0 <= at <= before.len(),
        !before.contains(text),
        forall|j: int| 0 <= j < at ==> text_lt(before[j], text),
        at < before.len() ==> !text_lt(before[at], text),
    ensures
        ascending(before.insert(at, text)),
        forall|x: Seq<char>|
            before.insert(at, text).contains(x) <==> (x == text || before.contains(x)),
{
    let after = before.insert(at, text);
    if at < before.len() {
        assert(before.contains(before[at]));
    }
    assert forall|i: int, j: int| 0 <= i < j < after.len() implies text_lt(
        #[trigger] after[i],
        #[trigger] after[j],
    ) by {
        if j == at {
            assert(after[i] == before[i]);
        } else if i == at {
            // before[at] does not come before `text`, differs from it,
            // and all later names come after before[at].
            assert(after[j] == before[j - 1]);
            lemma_trichotomy(before[at], text);
            if j - 1 > at {
                lemma_text_lt_transitive(text, before[at], before[j - 1]);
            }
        } else if i < at && j < at {
        } else if i < at && j > at {
            assert(after[i] == before[i]);
            assert(after[j] == before[j - 1]);
        } else {
            assert(after[i] == before[i - 1]);
            assert(after[j] == before[j - 1]);
        }
    }
    assert forall|x: Seq<char>| after.contains(x) <==> (x == text || before.contains(
        x,
    )) by {
        if after.contains(x) {
            let k = choose|k: int| 0 <= k < after.len() && after[k] == x;
            if k < at {
                assert(before[k] == x);
            } else if k > at {
                assert(before[k - 1] == x);
            }
        }
        if x == text {
            assert(after[at] == x);
        }
        if before.contains(x) {
            let k = choose|k: int| 0 <= k < before.len() && before[k] == x;
            if k < at {
                assert(after[k] == x);
            } else {
                assert(after[k + 1] == x);
            }
        }
    }
}

} // verus!
