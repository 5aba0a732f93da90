//! Sorted collections: a map and a set whose items come out in key order.

use vstd::prelude::*;
use vstd::string::*;

use crate::text::chars_of;

verus! {

/// A key with a strict total order on what it holds.
pub trait SortKey: View + Sized {
    /// Whether `a` comes before `b`.
    spec fn before(a: Self::V, b: Self::V) -> bool;

    proof fn before_is_irreflexive(a: Self::V)
        ensures
            !Self::before(a, a),
    ;

    proof fn before_is_transitive(a: Self::V, b: Self::V, c: Self::V)
        requires
            Self::before(a, b),
            Self::before(b, c),
        ensures
            Self::before(a, c),
    ;

    proof fn before_is_total(a: Self::V, b: Self::V)
        ensures
            a == b || Self::before(a, b) || Self::before(b, a),
    ;

    /// Whether this key comes before `other`.
    fn is_before(&self, other: &Self) -> (r: bool)
        ensures
            r == Self::before(self@, other@),
    ;

    /// A key that holds the same.
    fn duplicate(&self) -> (r: Self)
        ensures
            r@ == self@,
    ;
}

/// Whether the text `a` comes before `b`: by the first character in which they
/// differ, and a prefix before what it begins.
pub open spec fn text_before(a: Seq<char>, b: Seq<char>) -> bool
    decreases a.len(),
{
    if b.len() == 0 {
        false
    } else if a.len() == 0 {
        true
    } else if a[0] == b[0] {
        text_before(a.drop_first(), b.drop_first())
    } else {
        (a[0] as u32) < (b[0] as u32)
    }
}

proof fn text_before_irreflexive(a: Seq<char>)
    ensures
        !text_before(a, a),
    decreases a.len(),
{
    if a.len() > 0 {
        text_before_irreflexive(a.drop_first());
    }
}

proof fn text_before_transitive(a: Seq<char>, b: Seq<char>, c: Seq<char>)
    requires
        text_before(a, b),
        text_before(b, c),
    ensures
        text_before(a, c),
    decreases a.len(),
{
    if a.len() > 0 && a[0] == b[0] && b[0] == c[0] {
        text_before_transitive(a.drop_first(), b.drop_first(), c.drop_first());
    }
}

proof fn codes_differ(x: char, y: char)
    requires
        x != y,
    ensures
        (x as u32) < (y as u32) || (y as u32) < (x as u32),
{
}

proof fn text_before_total(a: Seq<char>, b: Seq<char>)
    ensures
        a == b || text_before(a, b) || text_before(b, a),
    decreases a.len(),
{
    if a.len() == 0 || b.len() == 0 {
        if a.len() == b.len() {
            assert(a =~= b);
        }
    } else if a[0] == b[0] {
        text_before_total(a.drop_first(), b.drop_first());
        if a.drop_first() == b.drop_first() {
            assert(a =~= seq![a[0]] + a.drop_first());
            assert(b =~= seq![b[0]] + b.drop_first());
        }
    } else {
        codes_differ(a[0], b[0]);
    }
}

/// Whether the text `a` comes before `b`.
pub fn is_text_before(a: &str, b: &str) -> (r: bool)
    ensures
        r == text_before(a@, b@),
{
    let v = chars_of(a);
    let w = chars_of(b);
    let mut i: usize = 0;
    proof {
        assert(v@.skip(0) =~= v@);
        assert(w@.skip(0) =~= w@);
    }
    while i < v.len() && i < w.len() && v[i] == w[i]
        invariant
            i <= v.len(),
            i <= w.len(),
            text_before(v@, w@) == text_before(v@.skip(i as int), w@.skip(i as int)),
        decreases v.len() - i,
    {
        proof {
            assert(v@.skip(i as int).drop_first() =~= v@.skip(i + 1));
            assert(w@.skip(i as int).drop_first() =~= w@.skip(i + 1));
        }
        i = i + 1;
    }
    if i >= w.len() {
        false
    } else if i >= v.len() {
        true
    } else {
        (v[i] as u32) < (w[i] as u32)
    }
}

impl SortKey for String {
    open spec fn before(a: Seq<char>, b: Seq<char>) -> bool {
        text_before(a, b)
    }

    proof fn before_is_irreflexive(a: Seq<char>) {
        text_before_irreflexive(a);
        assert(!Self::before(a, a));
    }

    proof fn before_is_transitive(a: Seq<char>, b: Seq<char>, c: Seq<char>) {
        text_before_transitive(a, b, c);
    }

    proof fn before_is_total(a: Seq<char>, b: Seq<char>) {
        text_before_total(a, b);
    }

    fn is_before(&self, other: &Self) -> (r: bool) {
        is_text_before(self.as_str(), other.as_str())
    }

    fn duplicate(&self) -> (r: Self) {
        self.clone()
    }
}

/// A pair of texts, ordered by the first and then by the second.
#[derive(Clone, Debug, PartialEq, Eq)]
pub struct Pair {
    pub first: String,
    pub second: String,
}

impl View for Pair {
    type V = (Seq<char>, Seq<char>);

    open spec fn view(&self) -> (Seq<char>, Seq<char>) {
        (self.first@, self.second@)
    }
}

/// Whether the pair `a` comes before `b`.
pub open spec fn pair_before(a: (Seq<char>, Seq<char>), b: (Seq<char>, Seq<char>)) -> bool {
    text_before(a.0, b.0) || (a.0 == b.0 && text_before(a.1, b.1))
}

impl SortKey for Pair {
    open spec fn before(a: (Seq<char>, Seq<char>), b: (Seq<char>, Seq<char>)) -> bool {
        pair_before(a, b)
    }

    proof fn before_is_irreflexive(a: (Seq<char>, Seq<char>)) {
        text_before_irreflexive(a.0);
        text_before_irreflexive(a.1);
    }

    proof fn before_is_transitive(
        a: (Seq<char>, Seq<char>),
        b: (Seq<char>, Seq<char>),
        c: (Seq<char>, Seq<char>),
    ) {
        if text_before(a.0, b.0) && text_before(b.0, c.0) {
            text_before_transitive(a.0, b.0, c.0);
        } else if a.0 == b.0 && b.0 == c.0 {
            text_before_transitive(a.1, b.1, c.1);
        }
    }

    proof fn before_is_total(a: (Seq<char>, Seq<char>), b: (Seq<char>, Seq<char>)) {
        text_before_total(a.0, b.0);
        text_before_total(a.1, b.1);
    }

    fn is_before(&self, other: &Self) -> (r: bool) {
        is_text_before(self.first.as_str(), other.first.as_str()) || (self.first == other.first
            && is_text_before(self.second.as_str(), other.second.as_str()))
    }

    fn duplicate(&self) -> (r: Self) {
        Pair { first: self.first.clone(), second: self.second.clone() }
    }
}

/// What a sequence of keys holds.
pub open spec fn key_views<K: SortKey>(keys: Seq<K>) -> Seq<K::V> {
    Seq::new(keys.len(), |i: int| keys[i]@)
}

/// Strictly ascending.
pub open spec fn ascending<K: SortKey>(s: Seq<K::V>) -> bool {
    forall|i: int, j: int| 0 <= i < j < s.len() ==> K::before(#[trigger] s[i], #[trigger] s[j])
}

proof fn ascending_positions_are_unique<K: SortKey>(s: Seq<K::V>, i: int, j: int)
    requires
        ascending::<K>(s),
        0 <= i < s.len(),
        0 <= j < s.len(),
        s[i] == s[j],
    ensures
        i == j,
{
    K::before_is_irreflexive(s[i]);
    if i < j {
        assert(K::before(s[i], s[j]));
    }
    if j < i {
        assert(K::before(s[j], s[i]));
    }
}

/// Two ascending sequences with the same items are the same sequence.
pub proof fn ascending_is_unique<K: SortKey>(s: Seq<K::V>, t: Seq<K::V>)
    requires
        ascending::<K>(s),
        ascending::<K>(t),
        s.to_set() == t.to_set(),
    ensures
        s == t,
    decreases s.len(),
{
    assert forall|x: K::V| s.contains(x) == t.contains(x) by {
        assert(s.to_set().contains(x) == s.contains(x));
        assert(t.to_set().contains(x) == t.contains(x));
    }
    if s.len() == 0 {
        if t.len() > 0 {
            assert(t.contains(t[0]));
            assert(s.contains(t[0]));
        }
        assert(s =~= t);
    } else if t.len() == 0 {
        assert(s.contains(s[0]));
        assert(t.contains(s[0]));
    } else {
        let a = s.last();
        let b = t.last();
        assert(s.contains(a) && t.contains(b));
        assert(t.contains(a) && s.contains(b));
        let i = choose|i: int| 0 <= i < t.len() && t[i] == a;
        let j = choose|j: int| 0 <= j < s.len() && s[j] == b;
        if a != b {
            assert(K::before(t[i], t[t.len() - 1]));
            assert(K::before(s[j], s[s.len() - 1]));
            K::before_is_transitive(a, b, a);
            K::before_is_irreflexive(a);
        }
        let s1 = s.drop_last();
        let t1 = t.drop_last();
        assert forall|x: K::V| s1.contains(x) implies t1.contains(x) by {
            let k = choose|k: int| 0 <= k < s1.len() && s1[k] == x;
            assert(s[k] == x);
            assert(s.contains(x));
            let m = choose|m: int| 0 <= m < t.len() && t[m] == x;
            if m == t.len() - 1 {
                ascending_positions_are_unique::<K>(s, k, s.len() - 1);
            }
            assert(t1[m] == x);
        }
        assert forall|x: K::V| t1.contains(x) implies s1.contains(x) by {
            let k = choose|k: int| 0 <= k < t1.len() && t1[k] == x;
            assert(t[k] == x);
            assert(t.contains(x));
            let m = choose|m: int| 0 <= m < s.len() && s[m] == x;
            if m == s.len() - 1 {
                ascending_positions_are_unique::<K>(t, k, t.len() - 1);
            }
            assert(s1[m] == x);
        }
        assert(s1.to_set() =~= t1.to_set());
        ascending_is_unique::<K>(s1, t1);
        assert(s =~= s1.push(a));
        assert(t =~= t1.push(b));
    }
}

/// The place of the first key that does not come before `key`.
fn place_of<K: SortKey>(keys: &Vec<K>, key: &K) -> (r: (usize, bool))
    requires
        ascending::<K>(key_views(keys@)),
    ensures
        r.0 <= keys.len(),
        forall|i: int| 0 <= i < r.0 ==> K::before(#[trigger] keys@[i]@, key@),
        r.1 ==> r.0 < keys.len() && keys@[r.0 as int]@ == key@,
        !r.1 ==> (forall|i: int| r.0 <= i < keys.len() ==> K::before(key@, #[trigger] keys@[i]@)),
        r.1 == key_views(keys@).contains(key@),
{
    let ghost s = key_views(keys@);
    let mut i: usize = 0;
    while i < keys.len() && keys[i].is_before(key)
        invariant
            i <= keys.len(),
            forall|j: int| 0 <= j < i ==> K::before(#[trigger] keys@[j]@, key@),
        decreases keys.len() - i,
    {
        i = i + 1;
    }
    if i < keys.len() && !key.is_before(&keys[i]) {
        proof {
            K::before_is_total(keys@[i as int]@, key@);
            assert(s[i as int] == key@);
        }
        (i, true)
    } else {
        proof {
            if i < keys.len() {
                assert forall|j: int| i <= j < keys.len() implies K::before(
                    key@,
                    #[trigger] keys@[j]@,
                ) by {
                    if j > i {
                        assert(K::before(s[i as int], s[j]));
                        K::before_is_transitive(key@, keys@[i as int]@, keys@[j]@);
                    }
                }
            }
            if s.contains(key@) {
                let j = choose|j: int| 0 <= j < s.len() && s[j] == key@;
                K::before_is_irreflexive(key@);
                assert(keys@[j]@ == key@);
            }
        }
        (i, false)
    }
}

/// A set whose items are kept in ascending order.
#[derive(Clone, Debug, PartialEq, Eq)]
pub struct OrdSet<K> {
    pub items: Vec<K>,
}

impl<K: SortKey> View for OrdSet<K> {
    type V = Set<K::V>;

    open spec fn view(&self) -> Set<K::V> {
        self.list().to_set()
    }
}

impl<K: SortKey> OrdSet<K> {
    /// The items in ascending order.
    pub open spec fn list(&self) -> Seq<K::V> {
        key_views(self.items@)
    }

    pub open spec fn wf(&self) -> bool {
        ascending::<K>(self.list())
    }

    pub fn new() -> (r: Self)
        ensures
            r.wf(),
            r@ == Set::<K::V>::empty(),
            r.list() == Seq::<K::V>::empty(),
    {
        let r = OrdSet { items: Vec::new() };
        proof {
            assert(r.list() =~= Seq::<K::V>::empty());
            assert(r@ =~= Set::<K::V>::empty());
        }
        r
    }

    /// A set with the same items.
    pub fn copy(&self) -> (r: Self)
        ensures
            r@ == self@,
            r.list() == self.list(),
            self.wf() ==> r.wf(),
    {
        let mut items: Vec<K> = Vec::new();
        let mut i: usize = 0;
        while i < self.items.len()
            invariant
                i <= self.items.len(),
                items.len() == i,
                forall|k: int| 0 <= k < i ==> (#[trigger] items@[k])@ == self.items@[k]@,
            decreases self.items.len() - i,
        {
            items.push(self.items[i].duplicate());
            i = i + 1;
        }
        let r = OrdSet { items };
        proof {
            assert(r.list() =~= self.list());
        }
        r
    }

    pub fn len(&self) -> (r: usize)
        requires
            self.wf(),
        ensures
            r == self@.len(),
            r == self.list().len(),
            self@.finite(),
    {
        proof {
            let s = self.list();
            assert(s.no_duplicates()) by {
                assert forall|i: int, j: int|
                    0 <= i < s.len() && 0 <= j < s.len() && i != j implies s[i] != s[j] by {
                    if s[i] == s[j] {
                        ascending_positions_are_unique::<K>(s, i, j);
                    }
                }
            }
            s.unique_seq_to_set();
        }
        self.items.len()
    }

    pub fn contains(&self, key: &K) -> (r: bool)
        requires
            self.wf(),
        ensures
            r == self@.contains(key@),
    {
        place_of(&self.items, key).1
    }

    /// Adds `key`; tells whether it was not there.
    pub fn insert(&mut self, key: K) -> (r: bool)
        requires
            old(self).wf(),
        ensures
            final(self).wf(),
            final(self)@ == old(self)@.insert(key@),
            r == !old(self)@.contains(key@),
            !r ==> *final(self) == *old(self),
    {
        let (i, found) = place_of(&self.items, &key);
        if found {
            proof {
                assert(self@.insert(key@) =~= self@);
            }
            return false;
        }
        let ghost before = self.list();
        let ghost at = i as int;
        self.items.insert(i, key);
        proof {
            let after = self.list();
            assert(after =~= before.insert(at, key@));
            lemma_insert_ascending::<K>(before, at, key@);
            assert(self@ =~= before.to_set().insert(key@)) by {
                assert forall|x: K::V| after.contains(x) == (before.contains(x) || x == key@) by {
                    if after.contains(x) {
                        let k = choose|k: int| 0 <= k < after.len() && after[k] == x;
                        if k < at {
                            assert(before[k] == x);
                        } else if k > at {
                            assert(before[k - 1] == x);
                        }
                    }
                    if before.contains(x) {
                        let k = choose|k: int| 0 <= k < before.len() && before[k] == x;
                        if k < at {
                            assert(after[k] == x);
                        } else {
                            assert(after[k + 1] == x);
                        }
                    }
                    assert(after[at] == key@);
                }
            }
        }
        true
    }

    /// Takes `key` out; tells whether it was there.
    pub fn remove(&mut self, key: &K) -> (r: bool)
        requires
            old(self).wf(),
        ensures
            final(self).wf(),
            final(self)@ == old(self)@.remove(key@),
            r == old(self)@.contains(key@),
    {
        let (i, found) = place_of(&self.items, key);
        if !found {
            proof {
                assert(self@.remove(key@) =~= self@);
            }
            return false;
        }
        let ghost before = self.list();
        let ghost at = i as int;
        let _gone = self.items.remove(i);
        proof {
            let after = self.list();
            assert(after =~= before.remove(at));
            lemma_remove_from_ascending::<K>(before, at);
            assert(self@ =~= before.to_set().remove(key@)) by {
                assert forall|x: K::V| after.contains(x) == (before.contains(x) && x != key@) by {
                    if after.contains(x) {
                        let k = choose|k: int| 0 <= k < after.len() && after[k] == x;
                        let m = if k < at { k } else { k + 1 };
                        assert(before[m] == x);
                        if x == key@ {
                            ascending_positions_are_unique::<K>(before, m, at);
                        }
                    }
                    if before.contains(x) && x != key@ {
                        let k = choose|k: int| 0 <= k < before.len() && before[k] == x;
                        if k < at {
                            assert(after[k] == x);
                        } else {
                            assert(after[k - 1] == x);
                        }
                    }
                }
            }
        }
        true
    }
}

proof fn lemma_insert_ascending<K: SortKey>(s: Seq<K::V>, at: int, x: K::V)
    requires
        ascending::<K>(s),
        0 <= at <= s.len(),
        forall|i: int| 0 <= i < at ==> K::before(#[trigger] s[i], x),
        forall|i: int| at <= i < s.len() ==> K::before(x, #[trigger] s[i]),
    ensures
        ascending::<K>(s.insert(at, x)),
{
    let t = s.insert(at, x);
    assert forall|i: int, j: int| 0 <= i < j < t.len() implies K::before(
        #[trigger] t[i],
        #[trigger] t[j],
    ) by {
        let p = if i < at { i } else { i - 1 };
        let q = if j < at { j } else { j - 1 };
        if i != at {
            assert(t[i] == s[p]);
        }
        if j != at {
            assert(t[j] == s[q]);
        }
        if i != at && j != at {
            assert(K::before(s[p], s[q]));
        }
    }
}

proof fn lemma_remove_from_ascending<K: SortKey>(s: Seq<K::V>, at: int)
    requires
        ascending::<K>(s),
        0 <= at < s.len(),
    ensures
        ascending::<K>(s.remove(at)),
{
    let t = s.remove(at);
    assert forall|i: int, j: int| 0 <= i < j < t.len() implies K::before(
        #[trigger] t[i],
        #[trigger] t[j],
    ) by {
        let p = if i < at { i } else { i + 1 };
        let q = if j < at { j } else { j + 1 };
        assert(t[i] == s[p]);
        assert(t[j] == s[q]);
    }
}

/// Never descending.
pub open spec fn in_order<K: SortKey>(s: Seq<K::V>) -> bool {
    forall|i: int, j: int|
        0 <= i < j < s.len() ==> !K::before(#[trigger] s[j], #[trigger] s[i])
}

/// Inserts a key behind the last one that does not come after it.
pub fn insert_in_order<K: SortKey>(list: &mut Vec<K>, item: K)
    requires
        in_order::<K>(key_views(old(list)@)),
    ensures
        in_order::<K>(key_views(final(list)@)),
        key_views(final(list)@).to_multiset() == key_views(old(list)@).to_multiset().insert(item@),
        final(list).len() == old(list).len() + 1,
{
    let ghost s = key_views(list@);
    let mut at: usize = list.len();
    while at > 0 && item.is_before(&list[at - 1])
        invariant
            at <= list.len(),
            *list == *old(list),
            s == key_views(list@),
            forall|k: int| at <= k < list.len() ==> K::before(item@, #[trigger] s[k]),
        decreases at,
    {
        at = at - 1;
    }
    proof {
        if at > 0 {
            assert(s[at - 1] == list@[at - 1]@);
            assert(!K::before(item@, s[at - 1]));
        }
    }
    list.insert(at, item);
    proof {
        let t = key_views(list@);
        assert(t =~= s.insert(at as int, item@));
        assert forall|i: int, j: int| 0 <= i < j < t.len() implies !K::before(
            #[trigger] t[j],
            #[trigger] t[i],
        ) by {
            let p = if i < at { i } else { i - 1 };
            let q = if j < at { j } else { j - 1 };
            if i != at {
                assert(t[i] == s[p]);
            }
            if j != at {
                assert(t[j] == s[q]);
            }
            if i != at && j != at {
                assert(!K::before(s[q], s[p]));
            } else if i == at {
                K::before_is_irreflexive(item@);
                if K::before(t[j], item@) {
                    K::before_is_transitive(item@, s[q], item@);
                }
            } else if K::before(item@, s[p]) && p < at - 1 {
                assert(!K::before(s[at - 1], s[p]));
                K::before_is_total(s[at - 1], s[p]);
                if s[at - 1] != s[p] {
                    K::before_is_transitive(item@, s[p], s[at - 1]);
                }
            }
        }
        insert_counts(s, at as int, item@);
    }
}

proof fn insert_counts<A>(s: Seq<A>, at: int, x: A)
    requires
        0 <= at <= s.len(),
    ensures
        s.insert(at, x).to_multiset() == s.to_multiset().insert(x),
{
    broadcast use vstd::seq_lib::group_to_multiset_ensures;

    let front = s.subrange(0, at);
    let back = s.subrange(at, s.len() as int);
    assert(s =~= front + back);
    assert(s.insert(at, x) =~= front.push(x) + back);
    vstd::seq_lib::lemma_multiset_commutative(front, back);
    vstd::seq_lib::lemma_multiset_commutative(front.push(x), back);
    assert(front.push(x).to_multiset() =~= front.to_multiset().insert(x));
    assert(s.insert(at, x).to_multiset() =~= s.to_multiset().insert(x));
}

/// The keys of a list in order.
pub fn sorted_keys<K: SortKey>(list: &Vec<K>) -> (r: Vec<K>)
    ensures
        in_order::<K>(key_views(r@)),
        key_views(r@).to_multiset() == key_views(list@).to_multiset(),
        r.len() == list.len(),
{
    let ghost all = key_views(list@);
    let mut out: Vec<K> = Vec::new();
    let mut i: usize = 0;
    proof {
        assert(key_views(out@) =~= all.take(0));
    }
    while i < list.len()
        invariant
            i <= list.len(),
            out.len() == i,
            all == key_views(list@),
            in_order::<K>(key_views(out@)),
            key_views(out@).to_multiset() == all.take(i as int).to_multiset(),
        decreases list.len() - i,
    {
        proof {
            broadcast use vstd::seq_lib::group_to_multiset_ensures;

            let before = all.take(i as int);
            assert(all.take(i + 1) =~= before.push(all[i as int]));
            assert(before.push(all[i as int]).to_multiset() =~= before.to_multiset().insert(
                all[i as int],
            ));
        }
        insert_in_order(&mut out, list[i].duplicate());
        i = i + 1;
    }
    proof {
        assert(all.take(all.len() as int) =~= all);
    }
    out
}

/// Two sequences in order with the same items, counted, are the same.
pub proof fn in_order_is_unique<K: SortKey>(s: Seq<K::V>, t: Seq<K::V>)
    requires
        in_order::<K>(s),
        in_order::<K>(t),
        s.to_multiset() == t.to_multiset(),
    ensures
        s == t,
    decreases s.len(),
{
    broadcast use vstd::seq_lib::group_to_multiset_ensures;

    assert(s.to_multiset().len() == s.len());
    assert(t.to_multiset().len() == t.len());
    if s.len() > 0 {
        let a = s.last();
        let b = t.last();
        assert(s.contains(a) && t.contains(b));
        assert(s.to_multiset().count(a) > 0);
        assert(t.to_multiset().count(b) > 0);
        assert(t.contains(a) && s.contains(b));
        let i = t.index_of(a);
        let j = s.index_of(b);
        if a != b {
            assert(!K::before(t[t.len() - 1], t[i]));
            assert(!K::before(s[s.len() - 1], s[j]));
            K::before_is_total(a, b);
        }
        let s1 = s.drop_last();
        let t1 = t.drop_last();
        assert(s =~= s1.push(a));
        assert(t =~= t1.push(b));
        assert(s1.push(a).to_multiset() =~= s1.to_multiset().insert(a));
        assert(t1.push(b).to_multiset() =~= t1.to_multiset().insert(b));
        assert(s1.to_multiset() =~= s1.to_multiset().insert(a).remove(a));
        assert(t1.to_multiset() =~= t1.to_multiset().insert(b).remove(b));
        in_order_is_unique::<K>(s1, t1);
    } else {
        assert(s =~= t);
    }
}

/// A map whose keys are kept in ascending order.
#[derive(Clone, Debug, PartialEq, Eq)]
pub struct OrdMap<K, V> {
    pub keys: Vec<K>,
    pub values: Vec<V>,
}

impl<K: SortKey, V: View> View for OrdMap<K, V> {
    type V = Map<K::V, V::V>;

    open spec fn view(&self) -> Map<K::V, V::V> {
        Map::new(
            |k: K::V| self.list().contains(k),
            |k: K::V| self.values@[self.list().index_of(k)]@,
        )
    }
}

impl<K: SortKey, V: View> OrdMap<K, V> {
    /// The keys in ascending order.
    pub open spec fn list(&self) -> Seq<K::V> {
        key_views(self.keys@)
    }

    pub open spec fn wf(&self) -> bool {
        &&& self.keys.len() == self.values.len()
        &&& ascending::<K>(self.list())
    }

    /// The keys are the map's domain, and the value at each place belongs to
    /// the key at that place.
    pub proof fn places(&self)
        requires
            self.wf(),
        ensures
            self.list().to_set() == self@.dom(),
            forall|k: K::V| #[trigger] self@.contains_key(k) == self.list().contains(k),
            forall|i: int|
                0 <= i < self.keys.len() ==> self@.contains_key(#[trigger] self.list()[i])
                    && self@[self.list()[i]] == self.values@[i]@,
            self@.dom().finite(),
            self@.dom().len() == self.keys.len(),
    {
        let s = self.list();
        assert(s.to_set() =~= self@.dom());
        assert forall|i: int| 0 <= i < self.keys.len() implies self@.contains_key(
            #[trigger] s[i],
        ) && self@[s[i]] == self.values@[i]@ by {
            assert(s.contains(s[i]));
            ascending_positions_are_unique::<K>(s, s.index_of(s[i]), i);
        }
        assert(s.no_duplicates()) by {
            assert forall|i: int, j: int|
                0 <= i < s.len() && 0 <= j < s.len() && i != j implies s[i] != s[j] by {
                if s[i] == s[j] {
                    ascending_positions_are_unique::<K>(s, i, j);
                }
            }
        }
        s.unique_seq_to_set();
        vstd::seq_lib::seq_to_set_is_finite(s);
    }

    pub fn new() -> (r: Self)
        ensures
            r.wf(),
            r@ == Map::<K::V, V::V>::empty(),
            r.list() == Seq::<K::V>::empty(),
    {
        let r = OrdMap { keys: Vec::new(), values: Vec::new() };
        proof {
            assert(r.list() =~= Seq::<K::V>::empty());
            assert(r@ =~= Map::<K::V, V::V>::empty());
        }
        r
    }

    pub fn len(&self) -> (r: usize)
        requires
            self.wf(),
        ensures
            r == self@.dom().len(),
            r == self.list().len(),
            self@.dom().finite(),
    {
        proof {
            self.places();
        }
        self.keys.len()
    }

    pub fn get(&self, key: &K) -> (r: Option<&V>)
        requires
            self.wf(),
        ensures
            match r {
                Some(v) => self@.contains_key(key@) && v@ == self@[key@] && self.values@.contains(
                    *v,
                ),
                None => !self@.contains_key(key@),
            },
    {
        let (i, found) = place_of(&self.keys, key);
        proof {
            self.places();
            if found {
                assert(self.list()[i as int] == key@);
            }
        }
        if found {
            Some(&self.values[i])
        } else {
            None
        }
    }

    pub fn contains(&self, key: &K) -> (r: bool)
        requires
            self.wf(),
        ensures
            r == self@.contains_key(key@),
    {
        proof {
            self.places();
        }
        place_of(&self.keys, key).1
    }

    /// The key at place `i`.
    pub fn key_at(&self, i: usize) -> (r: &K)
        requires
            self.wf(),
            i < self.list().len(),
        ensures
            r@ == self.list()[i as int],
    {
        &self.keys[i]
    }

    /// The value of the key at place `i`.
    pub fn value_at(&self, i: usize) -> (r: &V)
        requires
            self.wf(),
            i < self.list().len(),
        ensures
            r@ == self@[self.list()[i as int]],
    {
        proof {
            self.places();
        }
        &self.values[i]
    }

    /// Binds `key` to `value`.
    pub fn insert(&mut self, key: K, value: V)
        requires
            old(self).wf(),
        ensures
            final(self).wf(),
            final(self)@ == old(self)@.insert(key@, value@),
            forall|x: V| #[trigger]
                final(self).values@.contains(x) ==> x == value || old(self).values@.contains(x),
    {
        let (i, found) = place_of(&self.keys, &key);
        let ghost before = self.list();
        let ghost values = self.values@;
        let ghost at = i as int;
        proof {
            self.places();
        }
        if found {
            self.values.set(i, value);
            proof {
                assert(self.list() =~= before);
                self.places();
                assert(self@ =~= old(self)@.insert(key@, value@)) by {
                    assert forall|k: K::V| #[trigger] self@.contains_key(k) implies self@[k] == old(
                        self,
                    )@.insert(key@, value@)[k] by {
                        let j = before.index_of(k);
                        assert(before[j] == k);
                        if j == at {
                            assert(before[at] == key@);
                        } else if k == key@ {
                            assert(before[at] == key@);
                            ascending_positions_are_unique::<K>(before, j, at);
                        }
                    }
                    assert(before[at] == key@);
                    assert(before.contains(key@));
                }
                assert forall|x: V| #[trigger] self.values@.contains(x) implies x == value || old(
                    self,
                ).values@.contains(x) by {
                    let j = self.values@.index_of(x);
                    if j != at {
                        assert(values[j] == x);
                    }
                }
            }
        } else {
            self.keys.insert(i, key);
            self.values.insert(i, value);
            proof {
                let after = self.list();
                assert(after =~= before.insert(at, key@));
                lemma_insert_ascending::<K>(before, at, key@);
                self.places();
                assert forall|k: K::V| after.contains(k) == (before.contains(k) || k == key@) by {
                    if after.contains(k) {
                        let j = after.index_of(k);
                        if j < at {
                            assert(before[j] == k);
                        } else if j > at {
                            assert(before[j - 1] == k);
                        }
                    }
                    if before.contains(k) {
                        let j = before.index_of(k);
                        if j < at {
                            assert(after[j] == k);
                        } else {
                            assert(after[j + 1] == k);
                        }
                    }
                    assert(after[at] == key@);
                }
                assert(self@ =~= old(self)@.insert(key@, value@)) by {
                    assert forall|k: K::V| #[trigger] self@.contains_key(k) implies self@[k] == old(
                        self,
                    )@.insert(key@, value@)[k] by {
                        let j = after.index_of(k);
                        assert(after[j] == k);
                        if j < at {
                            assert(before[j] == k);
                        } else if j > at {
                            assert(before[j - 1] == k);
                        }
                    }
                }
                assert forall|x: V| #[trigger] self.values@.contains(x) implies x == value || old(
                    self,
                ).values@.contains(x) by {
                    let j = self.values@.index_of(x);
                    if j < at {
                        assert(values[j] == x);
                    } else if j > at {
                        assert(values[j - 1] == x);
                    }
                }
            }
        }
    }

    /// Takes the binding of `key` out, where there is one.
    pub fn take(&mut self, key: &K) -> (r: Option<V>)
        requires
            old(self).wf(),
        ensures
            final(self).wf(),
            final(self)@ == old(self)@.remove(key@),
            match r {
                Some(v) => old(self)@.contains_key(key@) && v@ == old(self)@[key@] && old(
                    self,
                ).values@.contains(v),
                None => !old(self)@.contains_key(key@),
            },
            forall|x: V| #[trigger]
                final(self).values@.contains(x) ==> old(self).values@.contains(x),
    {
        let (i, found) = place_of(&self.keys, key);
        let ghost before = self.list();
        let ghost at = i as int;
        proof {
            self.places();
        }
        if !found {
            proof {
                assert(self@.remove(key@) =~= self@);
            }
            return None;
        }
        let ghost values = self.values@;
        let _k = self.keys.remove(i);
        let taken = self.values.remove(i);
        proof {
            assert(values[at] == taken);
            assert forall|x: V| #[trigger] self.values@.contains(x) implies values.contains(x) by {
                let j = self.values@.index_of(x);
                if j < at {
                    assert(values[j] == x);
                } else {
                    assert(values[j + 1] == x);
                }
            }
            let after = self.list();
            assert(after =~= before.remove(at));
            assert(before[at] == key@);
            lemma_remove_from_ascending::<K>(before, at);
            self.places();
            assert forall|k: K::V| after.contains(k) == (before.contains(k) && k != key@) by {
                if after.contains(k) {
                    let j = after.index_of(k);
                    let m = if j < at { j } else { j + 1 };
                    assert(before[m] == k);
                    if k == key@ {
                        ascending_positions_are_unique::<K>(before, m, at);
                    }
                }
                if before.contains(k) && k != key@ {
                    let j = before.index_of(k);
                    if j < at {
                        assert(after[j] == k);
                    } else {
                        assert(after[j - 1] == k);
                    }
                }
            }
            assert(self@ =~= old(self)@.remove(key@)) by {
                assert forall|k: K::V| #[trigger] self@.contains_key(k) implies self@[k] == old(
                    self,
                )@.remove(key@)[k] by {
                    let j = after.index_of(k);
                    assert(after[j] == k);
                    let m = if j < at { j } else { j + 1 };
                    assert(before[m] == k);
                }
            }
        }
        Some(taken)
    }

    /// Takes the binding of `key` out; tells whether there was one.
    pub fn remove(&mut self, key: &K) -> (r: bool)
        requires
            old(self).wf(),
        ensures
            final(self).wf(),
            final(self)@ == old(self)@.remove(key@),
            r == old(self)@.contains_key(key@),
    {
        self.take(key).is_some()
    }
}

} // verus!
