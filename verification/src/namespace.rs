//! The namespace node: children kept under unique names, in the order of
//! their names, beside a counter that hands out identifiers.
//!
//! `NamespaceModel` is the mathematical node, a sequence of named children
//! in ascending order of name. `Namespace` is the executable one; every
//! contract on it speaks of its view, a `NamespaceModel` over the views of
//! its children.
use vstd::prelude::*;
use vstd::string::*;
use crate::names::{
    lemma_name_asymmetric, lemma_name_irreflexive, lemma_name_total, lemma_name_transitive,
    name_before, place, Place,
};

verus! {

/// The identifier that follows `id`. The counter has 64 bits and goes round
/// to zero after the largest of them.
pub open spec fn id_after(id: u64) -> u64 {
    if id == u64::MAX {
        0
    } else {
        (id + 1) as u64
    }
}

/// The number of leading entries of `s` whose names come before `x`,
/// for `s` in ascending order.
pub open spec fn rank_in<T>(s: Seq<(Seq<char>, T)>, x: Seq<char>) -> int
    decreases s.len(),
{
    if s.len() == 0 {
        0
    } else if name_before(s.last().0, x) {
        s.len() as int
    } else {
        rank_in(s.drop_last(), x)
    }
}

/// Whether the names of `s` strictly ascend.
pub open spec fn ascending<T>(s: Seq<(Seq<char>, T)>) -> bool {
    forall|i: int, j: int|
        #![trigger s[i], s[j]]
        0 <= i < j < s.len() ==> name_before(s[i].0, s[j].0)
}

/// A namespace node as a mathematical value.
#[verifier::ext_equal]
pub struct NamespaceModel<T> {
    /// The identifier that the next child gets.
    pub next_id: u64,
    /// The children with their names, in ascending order of name.
    pub entries: Seq<(Seq<char>, T)>,
}

impl<T> NamespaceModel<T> {
    /// The node that a parent starts with: no children, and 1 as the first
    /// identifier.
    pub open spec fn empty() -> Self {
        NamespaceModel { next_id: 1, entries: Seq::empty() }
    }

    /// The names strictly ascend, so no two children share a name.
    pub open spec fn wf(self) -> bool {
        ascending(self.entries)
    }

    /// The number of children.
    pub open spec fn len(self) -> nat {
        self.entries.len()
    }

    /// The position of the first child whose name is not before `x`.
    pub open spec fn rank(self, x: Seq<char>) -> int {
        rank_in(self.entries, x)
    }

    /// Whether a child is named `x`.
    pub open spec fn has(self, x: Seq<char>) -> bool {
        self.rank(x) < self.entries.len() && self.entries[self.rank(x)].0 == x
    }

    /// The child named `x`, where there is one.
    pub open spec fn at(self, x: Seq<char>) -> T {
        self.entries[self.rank(x)].1
    }

    /// The node with `child` added under the name `x`, which no child has.
    pub open spec fn put(self, x: Seq<char>, child: T) -> Self {
        NamespaceModel {
            next_id: self.next_id,
            entries: self.entries.insert(self.rank(x), (x, child)),
        }
    }

    /// The node with `child` in the place of the child named `x`.
    pub open spec fn set(self, x: Seq<char>, child: T) -> Self {
        NamespaceModel {
            next_id: self.next_id,
            entries: self.entries.update(self.rank(x), (x, child)),
        }
    }

    /// The node without the child named `x`; the node itself where no child
    /// has that name.
    pub open spec fn cut(self, x: Seq<char>) -> Self {
        if self.has(x) {
            NamespaceModel { next_id: self.next_id, entries: self.entries.remove(self.rank(x)) }
        } else {
            self
        }
    }

    /// The node after it gave out its next identifier.
    pub open spec fn bump(self) -> Self {
        NamespaceModel { next_id: id_after(self.next_id), entries: self.entries }
    }

    /// Where the page that starts at `token` and holds up to `count`
    /// children ends.
    pub open spec fn page_end(self, count: nat, token: Seq<char>) -> int {
        if self.rank(token) + count <= self.entries.len() {
            self.rank(token) + count
        } else {
            self.entries.len() as int
        }
    }

    /// The first `count` children whose names are not before `token`,
    /// in ascending order.
    pub open spec fn page(self, count: nat, token: Seq<char>) -> Seq<(Seq<char>, T)> {
        self.entries.subrange(self.rank(token), self.page_end(count, token))
    }

    /// The name of the child that follows that page, where one does.
    pub open spec fn next_token(self, count: nat, token: Seq<char>) -> Option<Seq<char>> {
        if self.rank(token) + count < self.entries.len() {
            Some(self.entries[self.rank(token) + count].0)
        } else {
            None
        }
    }
}

/// A rank is a position in the sequence, or its length.
pub proof fn lemma_rank_bounds<T>(s: Seq<(Seq<char>, T)>, x: Seq<char>)
    ensures
        0 <= rank_in(s, x) <= s.len(),
    decreases s.len(),
{
    if s.len() > 0 && !name_before(s.last().0, x) {
        lemma_rank_bounds(s.drop_last(), x);
    }
}

/// In an ascending sequence the rank of `x` parts the names before `x` from
/// the others.
pub proof fn lemma_rank_parts<T>(s: Seq<(Seq<char>, T)>, x: Seq<char>)
    requires
        ascending(s),
    ensures
        0 <= rank_in(s, x) <= s.len(),
        forall|i: int| 0 <= i < rank_in(s, x) ==> name_before((#[trigger] s[i]).0, x),
        forall|i: int| rank_in(s, x) <= i < s.len() ==> !name_before((#[trigger] s[i]).0, x),
    decreases s.len(),
{
    if s.len() == 0 {
    } else if name_before(s.last().0, x) {
        assert forall|i: int| 0 <= i < s.len() implies name_before((#[trigger] s[i]).0, x) by {
            if i < s.len() - 1 {
                assert(name_before(s[i].0, s[s.len() - 1].0));
                lemma_name_transitive(s[i].0, s.last().0, x);
            }
        }
    } else {
        let t = s.drop_last();
        assert forall|i: int, j: int| 0 <= i < j < t.len() implies name_before(
            (#[trigger] t[i]).0,
            (#[trigger] t[j]).0,
        ) by {
            assert(name_before(s[i].0, s[j].0));
        }
        lemma_rank_parts(t, x);
        assert forall|i: int| 0 <= i < rank_in(s, x) implies name_before((#[trigger] s[i]).0, x) by {
            assert(s[i] == t[i]);
        }
        assert forall|i: int| rank_in(s, x) <= i < s.len() implies !name_before(
            (#[trigger] s[i]).0,
            x,
        ) by {
            if i < t.len() {
                assert(s[i] == t[i]);
            }
        }
    }
}

/// A position that parts the names before `x` from the others is the rank
/// of `x`.
pub proof fn lemma_rank_unique<T>(s: Seq<(Seq<char>, T)>, x: Seq<char>, k: int)
    requires
        0 <= k <= s.len(),
        forall|i: int| 0 <= i < k ==> name_before((#[trigger] s[i]).0, x),
        forall|i: int| k <= i < s.len() ==> !name_before((#[trigger] s[i]).0, x),
    ensures
        rank_in(s, x) == k,
    decreases s.len(),
{
    if s.len() == 0 {
    } else if name_before(s.last().0, x) {
        if k < s.len() {
            assert(!name_before(s[s.len() - 1].0, x));
        }
    } else {
        let t = s.drop_last();
        if k == s.len() {
            assert(name_before(s[s.len() - 1].0, x));
        }
        assert forall|i: int| 0 <= i < k implies name_before((#[trigger] t[i]).0, x) by {
            assert(t[i] == s[i]);
        }
        assert forall|i: int| k <= i < t.len() implies !name_before((#[trigger] t[i]).0, x) by {
            assert(t[i] == s[i]);
        }
        lemma_rank_unique(t, x, k);
    }
}

/// In an ascending sequence the entry at position `i` has rank `i`, and a
/// name is held exactly where some entry carries it.
pub proof fn lemma_rank_of_entry<T>(s: Seq<(Seq<char>, T)>, i: int)
    requires
        ascending(s),
        0 <= i < s.len(),
    ensures
        rank_in(s, s[i].0) == i,
{
    let x = s[i].0;
    assert forall|j: int| 0 <= j < i implies name_before((#[trigger] s[j]).0, x) by {
        assert(name_before(s[j].0, s[i].0));
    }
    assert forall|j: int| i <= j < s.len() implies !name_before((#[trigger] s[j]).0, x) by {
        if j == i {
            lemma_name_irreflexive(x);
        } else {
            assert(name_before(s[i].0, s[j].0));
            lemma_name_asymmetric(x, s[j].0);
        }
    }
    lemma_rank_unique(s, x, i);
}

impl<T> NamespaceModel<T> {
    /// The entry at position `i` is the child that its name leads to.
    pub proof fn lemma_entry(self, i: int)
        requires
            self.wf(),
            0 <= i < self.entries.len(),
        ensures
            self.rank(self.entries[i].0) == i,
            self.has(self.entries[i].0),
            self.at(self.entries[i].0) == self.entries[i].1,
    {
        lemma_rank_of_entry(self.entries, i);
    }

    /// A name is held exactly where some entry carries it.
    pub proof fn lemma_has_iff(self, x: Seq<char>)
        requires
            self.wf(),
        ensures
            0 <= self.rank(x) <= self.entries.len(),
            self.has(x) <==> exists|i: int|
                0 <= i < self.entries.len() && (#[trigger] self.entries[i]).0 == x,
    {
        lemma_rank_bounds(self.entries, x);
        if exists|i: int| 0 <= i < self.entries.len() && (#[trigger] self.entries[i]).0 == x {
            let i = choose|i: int|
                0 <= i < self.entries.len() && (#[trigger] self.entries[i]).0 == x;
            self.lemma_entry(i);
        }
    }

    /// Adding a child under a new name keeps the order, adds that name and
    /// no other, and leaves the other children as they were.
    pub proof fn lemma_put(self, x: Seq<char>, child: T)
        requires
            self.wf(),
            !self.has(x),
        ensures
            self.put(x, child).wf(),
            self.put(x, child).len() == self.len() + 1,
            self.put(x, child).rank(x) == self.rank(x),
            self.put(x, child).has(x),
            self.put(x, child).at(x) == child,
            forall|y: Seq<char>| y != x ==> self.put(x, child).has(y) == self.has(y),
            forall|y: Seq<char>| y != x && self.has(y) ==> self.put(x, child).at(y) == self.at(y),
    {
        let s = self.entries;
        let k = self.rank(x);
        let p = self.put(x, child);
        let t = p.entries;
        lemma_rank_parts(s, x);
        assert(t.len() == s.len() + 1);
        assert(t[k] == (x, child));
        assert forall|i: int| 0 <= i < k implies #[trigger] t[i] == s[i] by {}
        assert forall|i: int| k < i < t.len() implies #[trigger] t[i] == s[i - 1] by {}
        assert(!name_before(x, x)) by {
            lemma_name_irreflexive(x);
        }
        assert forall|j: int| k <= j < s.len() implies name_before(x, (#[trigger] s[j]).0) by {
            assert(!name_before(s[j].0, x));
            lemma_name_total(x, s[j].0);
            if s[j].0 == x {
                self.lemma_entry(j);
            }
        }
        assert forall|i: int, j: int| 0 <= i < j < t.len() implies name_before(
            (#[trigger] t[i]).0,
            (#[trigger] t[j]).0,
        ) by {
            if j < k {
                assert(name_before(s[i].0, s[j].0));
            } else if j == k {
                assert(name_before(s[i].0, x));
            } else if i < k {
                assert(name_before(s[i].0, x));
                assert(name_before(x, s[j - 1].0));
                lemma_name_transitive(s[i].0, x, s[j - 1].0);
            } else if i == k {
                assert(name_before(x, s[j - 1].0));
            } else {
                assert(name_before(s[i - 1].0, s[j - 1].0));
            }
        }
        p.lemma_entry(k);
        assert forall|y: Seq<char>| y != x implies p.has(y) == self.has(y) by {
            self.lemma_has_iff(y);
            p.lemma_has_iff(y);
            if self.has(y) {
                let i = self.rank(y);
                let a = if i < k { i } else { i + 1 };
                assert(t[a] == s[i]);
            }
            if p.has(y) {
                let i = p.rank(y);
                let a = if i < k { i } else { i - 1 };
                assert(t[i] == s[a]);
            }
        }
        assert forall|y: Seq<char>| y != x && self.has(y) implies p.at(y) == self.at(y) by {
            self.lemma_has_iff(y);
            let i = self.rank(y);
            let a = if i < k { i } else { i + 1 };
            assert(t[a] == s[i]);
            p.lemma_entry(a);
        }
    }

    /// Replacing the child under a name that is held keeps the names, their
    /// order and the other children.
    pub proof fn lemma_set(self, x: Seq<char>, child: T)
        requires
            self.wf(),
            self.has(x),
        ensures
            self.set(x, child).wf(),
            self.set(x, child).len() == self.len(),
            forall|y: Seq<char>| self.set(x, child).rank(y) == self.rank(y),
            forall|y: Seq<char>| self.set(x, child).has(y) == self.has(y),
            self.set(x, child).at(x) == child,
            forall|y: Seq<char>| y != x && self.has(y) ==> self.set(x, child).at(y) == self.at(y),
    {
        let s = self.entries;
        let k = self.rank(x);
        let p = self.set(x, child);
        let t = p.entries;
        lemma_rank_bounds(s, x);
        assert(t.len() == s.len());
        assert forall|i: int| 0 <= i < t.len() implies (#[trigger] t[i]).0 == s[i].0 by {}
        assert forall|i: int, j: int| 0 <= i < j < t.len() implies name_before(
            (#[trigger] t[i]).0,
            (#[trigger] t[j]).0,
        ) by {
            assert(name_before(s[i].0, s[j].0));
        }
        assert forall|y: Seq<char>| p.rank(y) == self.rank(y) by {
            lemma_rank_parts(s, y);
            let r = self.rank(y);
            assert forall|i: int| 0 <= i < r implies name_before((#[trigger] t[i]).0, y) by {
                assert(name_before(s[i].0, y));
            }
            assert forall|i: int| r <= i < t.len() implies !name_before((#[trigger] t[i]).0, y) by {
                assert(!name_before(s[i].0, y));
            }
            lemma_rank_unique(t, y, r);
        }
        assert forall|y: Seq<char>| p.has(y) == self.has(y) by {
            assert(p.rank(y) == self.rank(y));
            lemma_rank_bounds(s, y);
            if 0 <= self.rank(y) < s.len() {
                assert(t[self.rank(y)].0 == s[self.rank(y)].0);
            }
        }
        assert(p.rank(x) == k);
        assert forall|y: Seq<char>| y != x && self.has(y) implies p.at(y) == self.at(y) by {
            assert(p.rank(y) == self.rank(y));
            assert(s[k].0 == x);
            assert(self.rank(y) != k);
            lemma_rank_bounds(s, y);
            assert(t[self.rank(y)] == s[self.rank(y)]);
        }
    }

    /// Taking the child under a name away keeps the order, removes that
    /// name and no other, and leaves the other children as they were.
    pub proof fn lemma_cut(self, x: Seq<char>)
        requires
            self.wf(),
        ensures
            self.cut(x).wf(),
            !self.cut(x).has(x),
            self.cut(x).next_id == self.next_id,
            self.has(x) ==> self.cut(x).len() == self.len() - 1,
            !self.has(x) ==> self.cut(x) == self,
            forall|y: Seq<char>| y != x ==> self.cut(x).has(y) == self.has(y),
            forall|y: Seq<char>| y != x && self.has(y) ==> self.cut(x).at(y) == self.at(y),
    {
        if self.has(x) {
            let s = self.entries;
            let k = self.rank(x);
            let p = self.cut(x);
            let t = p.entries;
            lemma_rank_bounds(s, x);
            assert(t.len() == s.len() - 1);
            assert forall|i: int| 0 <= i < k implies #[trigger] t[i] == s[i] by {}
            assert forall|i: int| k <= i < t.len() implies #[trigger] t[i] == s[i + 1] by {}
            assert forall|i: int, j: int| 0 <= i < j < t.len() implies name_before(
                (#[trigger] t[i]).0,
                (#[trigger] t[j]).0,
            ) by {
                let a = if i < k { i } else { i + 1 };
                let b = if j < k { j } else { j + 1 };
                assert(name_before(s[a].0, s[b].0));
            }
            p.lemma_has_iff(x);
            if p.has(x) {
                let i = choose|i: int| 0 <= i < t.len() && (#[trigger] t[i]).0 == x;
                let a = if i < k { i } else { i + 1 };
                assert(t[i] == s[a]);
                self.lemma_entry(a);
            }
            assert forall|y: Seq<char>| y != x implies p.has(y) == self.has(y) by {
                self.lemma_has_iff(y);
                p.lemma_has_iff(y);
                if self.has(y) {
                    let i = self.rank(y);
                    let a = if i < k { i } else { i - 1 };
                    assert(t[a] == s[i]);
                }
                if p.has(y) {
                    let i = p.rank(y);
                    let a = if i < k { i } else { i + 1 };
                    assert(t[i] == s[a]);
                }
            }
            assert forall|y: Seq<char>| y != x && self.has(y) implies p.at(y) == self.at(y) by {
                self.lemma_has_iff(y);
                let i = self.rank(y);
                let a = if i < k { i } else { i - 1 };
                assert(t[a] == s[i]);
                p.lemma_entry(a);
            }
        } else {
            self.lemma_has_iff(x);
        }
    }
}

/// One child under its name.
struct Entry<C> {
    name: String,
    child: C,
}

/// A namespace node: the children of one parent under their names, and the
/// counter from which the parent numbers them.
pub struct Namespace<C> {
    next_id: u64,
    entries: Vec<Entry<C>>,
}

impl<C: View> View for Namespace<C> {
    type V = NamespaceModel<C::V>;

    closed spec fn view(&self) -> NamespaceModel<C::V> {
        NamespaceModel {
            next_id: self.next_id,
            entries: Seq::new(
                self.entries@.len(),
                |i: int| (self.entries@[i].name@, self.entries@[i].child@),
            ),
        }
    }
}

impl<C: View> Namespace<C> {
    /// A node without children, whose first identifier is 1.
    pub fn new() -> (node: Self)
        ensures
            node@ == NamespaceModel::<C::V>::empty(),
            node@.wf(),
    {
        let node = Namespace { next_id: 1, entries: Vec::new() };
        assert(node@.entries =~= Seq::empty());
        node
    }

    /// The number of children.
    pub fn len(&self) -> (n: usize)
        ensures
            n == self@.len(),
    {
        self.entries.len()
    }

    /// A node holds no more children than the machine can count.
    pub proof fn lemma_len_fits(&self)
        ensures
            self@.len() <= usize::MAX,
    {
        assert(self.entries@.len() == self.entries.len());
    }

    /// The position of the first child whose name is not before `name`.
    fn lower_bound(&self, name: &str) -> (k: usize)
        requires
            self@.wf(),
        ensures
            k == self@.rank(name@),
            k <= self.entries@.len(),
            self.entries@.len() == self@.entries.len(),
    {
        let mut lo: usize = 0;
        let mut hi: usize = self.entries.len();
        while lo < hi
            invariant
                self@.wf(),
                lo <= hi <= self.entries@.len(),
                self.entries@.len() == self@.entries.len(),
                forall|i: int| 0 <= i < lo ==> name_before((#[trigger] self@.entries[i]).0, name@),
                forall|i: int|
                    hi <= i < self.entries@.len() ==> !name_before(
                        (#[trigger] self@.entries[i]).0,
                        name@,
                    ),
            decreases hi - lo,
        {
            let mid = lo + (hi - lo) / 2;
            let ghost s = self@.entries;
            assert(s[mid as int].0 == self.entries@[mid as int].name@);
            match place(self.entries[mid].name.as_str(), name) {
                Place::Before => {
                    assert forall|i: int| 0 <= i < mid + 1 implies name_before(
                        (#[trigger] s[i]).0,
                        name@,
                    ) by {
                        if i < mid {
                            assert(name_before(s[i].0, s[mid as int].0));
                            lemma_name_transitive(s[i].0, s[mid as int].0, name@);
                        }
                    }
                    lo = mid + 1;
                },
                _ => {
                    assert forall|i: int| mid <= i < s.len() implies !name_before(
                        (#[trigger] s[i]).0,
                        name@,
                    ) by {
                        if i > mid && name_before(s[i].0, name@) {
                            assert(name_before(s[mid as int].0, s[i].0));
                            lemma_name_transitive(s[mid as int].0, s[i].0, name@);
                        }
                    }
                    hi = mid;
                },
            }
        }
        proof {
            lemma_rank_unique(self@.entries, name@, lo as int);
        }
        lo
    }

    /// Whether a child has this name.
    pub fn contains(&self, name: &str) -> (found: bool)
        requires
            self@.wf(),
        ensures
            found == self@.has(name@),
    {
        let k = self.lower_bound(name);
        if k < self.entries.len() {
            assert(self@.entries[k as int].0 == self.entries@[k as int].name@);
            place(self.entries[k].name.as_str(), name) == Place::Same
        } else {
            false
        }
    }

    /// The child of this name.
    pub fn get(&self, name: &str) -> (found: Option<&C>)
        requires
            self@.wf(),
        ensures
            found is Some <==> self@.has(name@),
            found matches Some(child) ==> child@ == self@.at(name@),
    {
        let k = self.lower_bound(name);
        if k < self.entries.len() {
            assert(self@.entries[k as int] == (
                self.entries@[k as int].name@,
                self.entries@[k as int].child@,
            ));
            if place(self.entries[k].name.as_str(), name) == Place::Same {
                return Some(&self.entries[k].child);
            }
        }
        None
    }

    /// The child of this name, to be changed in place. The node keeps its
    /// names; the child under `name` becomes what the caller leaves behind.
    pub fn get_mut(&mut self, name: &str) -> (found: Option<&mut C>)
        requires
            old(self)@.wf(),
        ensures
            found is Some <==> old(self)@.has(name@),
            found is None ==> final(self)@ == old(self)@,
            found matches Some(child) ==> child@ == old(self)@.at(name@) && final(self)@ == old(
                self,
            )@.set(name@, final(child)@),
    {
        let k = self.lower_bound(name);
        if k < self.entries.len() {
            assert(self@.entries[k as int] == (
                self.entries@[k as int].name@,
                self.entries@[k as int].child@,
            ));
            if place(self.entries[k].name.as_str(), name) == Place::Same {
                let child = &mut self.entries[k].child;
                return Some(child);
            }
        }
        None
    }

    /// Gives out the next identifier.
    pub fn allocate(&mut self) -> (id: u64)
        ensures
            id == old(self)@.next_id,
            final(self)@ == old(self)@.bump(),
    {
        let id = self.next_id;
        self.next_id = id.wrapping_add(1);
        assert(self@.entries =~= old(self)@.entries);
        id
    }

    /// Adds a child under a name that no child has yet.
    pub fn insert(&mut self, name: String, child: C)
        requires
            old(self)@.wf(),
            !old(self)@.has(name@),
        ensures
            final(self)@ == old(self)@.put(name@, child@),
            final(self)@.wf(),
    {
        let k = self.lower_bound(name.as_str());
        let ghost x = name@;
        let ghost c = child@;
        self.entries.insert(k, Entry { name, child });
        proof {
            assert(self@.entries =~= old(self)@.put(x, c).entries);
            old(self)@.lemma_put(x, c);
        }
    }

    /// Takes the child of this name away, where there is one.
    pub fn remove(&mut self, name: &str)
        requires
            old(self)@.wf(),
        ensures
            final(self)@ == old(self)@.cut(name@),
            final(self)@.wf(),
    {
        let k = self.lower_bound(name);
        proof {
            old(self)@.lemma_cut(name@);
        }
        if k < self.entries.len() {
            assert(self@.entries[k as int].0 == self.entries@[k as int].name@);
            if place(self.entries[k].name.as_str(), name) == Place::Same {
                self.entries.remove(k);
                assert(self@.entries =~= old(self)@.cut(name@).entries);
            }
        }
    }

    /// One page of children: up to `count` of them, from the first whose
    /// name is not before `token`, in ascending order of name; and the name
    /// of the child that follows the page, where one does.
    pub fn page(&self, count: usize, token: &str) -> (r: (Vec<&C>, Option<String>))
        requires
            self@.wf(),
        ensures
            r.0@.len() == self@.page(count as nat, token@).len(),
            forall|i: int|
                0 <= i < r.0@.len() ==> (#[trigger] r.0@[i])@ == self@.page(
                    count as nat,
                    token@,
                )[i].1,
            r.1 is Some <==> self@.next_token(count as nat, token@) is Some,
            r.1 matches Some(t) ==> self@.next_token(count as nat, token@) == Some(t@),
    {
        let k = self.lower_bound(token);
        let n = self.entries.len();
        let end = if count <= n - k {
            k + count
        } else {
            n
        };
        assert(end == self@.page_end(count as nat, token@));
        let mut items: Vec<&C> = Vec::new();
        let mut i: usize = k;
        while i < end
            invariant
                k <= i <= end <= n,
                n == self.entries@.len(),
                n == self@.entries.len(),
                items@.len() == i - k,
                forall|j: int|
                    0 <= j < items@.len() ==> (#[trigger] items@[j])@ == self@.entries[k + j].1,
            decreases end - i,
        {
            assert(self@.entries[i as int].1 == self.entries@[i as int].child@);
            items.push(&self.entries[i].child);
            i = i + 1;
        }
        let next = if count < n - k {
            assert(self@.entries[k + count].0 == self.entries@[k + count].name@);
            Some(self.entries[k + count].name.clone())
        } else {
            None
        };
        (items, next)
    }
}

} // verus!
