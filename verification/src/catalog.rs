//! Listings and lookups that the server answers from what its stores and specs
//! give it.

use vstd::prelude::*;
use vstd::string::*;

use crate::ordered::in_order;
use crate::ordered::is_text_before;
use crate::ordered::key_views;
use crate::ordered::sorted_keys;
use crate::ordered::text_before;
use crate::ordered::OrdMap;
use crate::ordered::SortKey;
use crate::provenance::local_name;
use crate::provenance::local_type;
use crate::text::opt_text;
use crate::text::same;

verus! {

/// How far a mutation went before it failed.
#[derive(Clone, Debug, PartialEq, Eq)]
pub enum EntityMutationError {
    /// The mutation was rejected before its event became durable.
    NotApplied(String),
    /// The event became durable before a later response or projection failed.
    Applied(String),
    /// The mutation acknowledgement was lost and its commit cannot be proven.
    Unknown(String),
}

impl EntityMutationError {
    /// Returns the bounded diagnostic source retained by the boundary.
    pub fn diagnostic(&self) -> (r: &str)
        ensures
            r@ == match self {
                Self::NotApplied(value) => value@,
                Self::Applied(value) => value@,
                Self::Unknown(value) => value@,
            },
    {
        match self {
            Self::NotApplied(value) => value.as_str(),
            Self::Applied(value) => value.as_str(),
            Self::Unknown(value) => value.as_str(),
        }
    }
}

/// The type of each of the first `n` entity sets, by the set's name.
pub open spec fn set_types(sets: Seq<(String, String)>, n: int) -> Map<Seq<char>, Seq<char>>
    decreases n,
{
    if n <= 0 {
        Map::empty()
    } else {
        set_types(sets, n - 1).insert(sets[n - 1].0@, local_name(sets[n - 1].1@))
    }
}

/// The type of each entity set, by the set's name: types stand without their
/// namespace.
pub fn entity_set_map(sets: &Vec<(String, String)>) -> (r: OrdMap<String, String>)
    ensures
        r.wf(),
        r@ == set_types(sets@, sets@.len() as int),
{
    let mut map: OrdMap<String, String> = OrdMap::new();
    let mut i: usize = 0;
    while i < sets.len()
        invariant
            i <= sets.len(),
            map.wf(),
            map@ == set_types(sets@, i as int),
        decreases sets.len() - i,
    {
        map.insert(sets[i].0.clone(), local_type(sets[i].1.as_str()));
        i = i + 1;
    }
    map
}

/// The first tenant that has a spec of the entity, and the source of it.
pub open spec fn first_source(specs: Seq<(String, Option<String>)>) -> Option<
    (Seq<char>, Seq<char>),
>
    decreases specs.len(),
{
    if specs.len() == 0 {
        None
    } else {
        match specs[0].1 {
            Some(source) => Some((specs[0].0@, source@)),
            None => first_source(specs.drop_first()),
        }
    }
}

/// Finds the first tenant that has a spec of an entity. `specs` gives the
/// tenants in order, each with the source of the entity's spec if it has one.
pub fn find_entity_ioa_source(specs: &Vec<(String, Option<String>)>) -> (r: Option<
    (String, String),
>)
    ensures
        match r {
            Some(p) => first_source(specs@) == Some((p.0@, p.1@)),
            None => first_source(specs@) is None,
        },
{
    let mut i: usize = 0;
    proof {
        assert(specs@.skip(0) =~= specs@);
    }
    while i < specs.len()
        invariant
            i <= specs.len(),
            first_source(specs@) == first_source(specs@.skip(i as int)),
        decreases specs.len() - i,
    {
        proof {
            assert(specs@.skip(i as int)[0] == specs@[i as int]);
            assert(specs@.skip(i as int).drop_first() =~= specs@.skip(i + 1));
        }
        match &specs[i].1 {
            Some(source) => return Some((specs[i].0.clone(), source.clone())),
            None => {},
        }
        i = i + 1;
    }
    None
}

/// What a trajectory entry came from.
#[derive(Clone, Copy, Debug, PartialEq, Eq, Structural)]
pub enum TrajectorySource {
    Entity,
    Platform,
    Authz,
}

/// What a stored word says that a trajectory entry came from.
pub open spec fn source_word(word: Option<Seq<char>>) -> Option<TrajectorySource> {
    if word == Some("Entity"@) {
        Some(TrajectorySource::Entity)
    } else if word == Some("Platform"@) {
        Some(TrajectorySource::Platform)
    } else if word == Some("Authz"@) {
        Some(TrajectorySource::Authz)
    } else {
        None
    }
}

/// What a stored word says that a trajectory entry came from.
pub fn trajectory_source(word: &Option<String>) -> (r: Option<TrajectorySource>)
    ensures
        r == source_word(opt_text(*word)),
{
    match word {
        None => None,
        Some(w) => if same(w.as_str(), "Entity") {
            Some(TrajectorySource::Entity)
        } else if same(w.as_str(), "Platform") {
            Some(TrajectorySource::Platform)
        } else if same(w.as_str(), "Authz") {
            Some(TrajectorySource::Authz)
        } else {
            None
        },
    }
}

/// A listed entry: the text of its time, and its place in the listing.
#[derive(Clone, Debug, PartialEq, Eq)]
pub struct ListedAt {
    pub timestamp: String,
    pub at: usize,
}

impl View for ListedAt {
    type V = (Seq<char>, usize);

    open spec fn view(&self) -> (Seq<char>, usize) {
        (self.timestamp@, self.at)
    }
}

impl SortKey for ListedAt {
    /// Later times come first, and of equal times the one that was listed
    /// first.
    open spec fn before(a: (Seq<char>, usize), b: (Seq<char>, usize)) -> bool {
        text_before(b.0, a.0) || (a.0 == b.0 && a.1 < b.1)
    }

    proof fn before_is_irreflexive(a: (Seq<char>, usize)) {
        String::before_is_irreflexive(a.0);
    }

    proof fn before_is_transitive(
        a: (Seq<char>, usize),
        b: (Seq<char>, usize),
        c: (Seq<char>, usize),
    ) {
        if text_before(b.0, a.0) && text_before(c.0, b.0) {
            String::before_is_transitive(c.0, b.0, a.0);
        }
    }

    proof fn before_is_total(a: (Seq<char>, usize), b: (Seq<char>, usize)) {
        String::before_is_total(a.0, b.0);
    }

    fn is_before(&self, other: &Self) -> (r: bool) {
        is_text_before(other.timestamp.as_str(), self.timestamp.as_str()) || (self.timestamp
            == other.timestamp && self.at < other.at)
    }

    fn duplicate(&self) -> (r: Self) {
        ListedAt { timestamp: self.timestamp.clone(), at: self.at }
    }
}

/// The entries of a listing, each with its place.
pub open spec fn listed_at(timestamps: Seq<String>) -> Seq<(Seq<char>, usize)> {
    Seq::new(timestamps.len(), |i: int| (timestamps[i]@, i as usize))
}

/// How many entries a limit leaves of `len`: a negative limit leaves all.
pub open spec fn kept(len: nat, limit: i64) -> int {
    if limit >= 0 && limit < len {
        limit as int
    } else {
        len as int
    }
}

/// Whether `order` gives the places of the newest entries, the newest first.
pub open spec fn is_newest_first(timestamps: Seq<String>, limit: i64, order: Seq<usize>) -> bool {
    exists|s: Seq<(Seq<char>, usize)>|
        {
            &&& in_order::<ListedAt>(s)
            &&& #[trigger] s.to_multiset() == listed_at(timestamps).to_multiset()
            &&& order == s.take(kept(s.len(), limit)).map_values(|p: (Seq<char>, usize)| p.1)
        }
}

/// The places of the newest entries of a listing, the newest first, and of
/// equal times the one that was listed first.
pub fn newest_first(timestamps: &Vec<String>, limit: i64) -> (r: Vec<usize>)
    ensures
        is_newest_first(timestamps@, limit, r@),
        r@.len() == kept(timestamps@.len(), limit),
{
    let mut listed: Vec<ListedAt> = Vec::new();
    let mut i: usize = 0;
    while i < timestamps.len()
        invariant
            i <= timestamps.len(),
            listed.len() == i,
            forall|k: int|
                0 <= k < i ==> (#[trigger] listed@[k])@ == (timestamps@[k]@, k as usize),
        decreases timestamps.len() - i,
    {
        listed.push(ListedAt { timestamp: timestamps[i].clone(), at: i });
        i = i + 1;
    }
    proof {
        assert(key_views(listed@) =~= listed_at(timestamps@));
    }
    let sorted = sorted_keys(&listed);
    let ghost s = key_views(sorted@);
    let n: usize = if limit >= 0 && (limit as u64) < sorted.len() as u64 {
        limit as usize
    } else {
        sorted.len()
    };
    let mut order: Vec<usize> = Vec::new();
    let mut j: usize = 0;
    while j < n
        invariant
            j <= n <= sorted.len(),
            s == key_views(sorted@),
            order.len() == j,
            forall|k: int| 0 <= k < j ==> #[trigger] order@[k] == s[k].1,
        decreases n - j,
    {
        order.push(sorted[j].at);
        j = j + 1;
    }
    proof {
        assert(order@ =~= s.take(kept(s.len(), limit)).map_values(
            |p: (Seq<char>, usize)| p.1,
        ));
        assert(s.to_multiset() == listed_at(timestamps@).to_multiset());
    }
    order
}

/// How much the first `n` rows add to a tenant's count.
pub open spec fn added(rows: Seq<(String, u64)>, tenant: Seq<char>, n: int) -> nat
    decreases n,
{
    if n <= 0 {
        0
    } else {
        added(rows, tenant, n - 1) + if rows[n - 1].0@ == tenant {
            rows[n - 1].1 as nat
        } else {
            0
        }
    }
}

/// The count of a tenant, and zero where it has none.
pub open spec fn count_of(counts: Map<Seq<char>, u64>, tenant: Seq<char>) -> u64 {
    if counts.contains_key(tenant) {
        counts[tenant]
    } else {
        0
    }
}

proof fn added_grows(rows: Seq<(String, u64)>, tenant: Seq<char>, n: int, m: int)
    requires
        0 <= n <= m,
    ensures
        added(rows, tenant, n) <= added(rows, tenant, m),
    decreases m - n,
{
    if n < m {
        added_grows(rows, tenant, n, m - 1);
    }
}

/// Whether one of the first `n` rows names a tenant.
pub open spec fn names(rows: Seq<(String, u64)>, tenant: Seq<char>, n: int) -> bool {
    exists|i: int| 0 <= i < n && (#[trigger] rows[i]).0@ == tenant
}

/// Adds the counts of one more store, tenant by tenant. The tenants that are
/// counted are those that were before and those that the rows name.
pub fn add_trajectory_counts(counts: &mut OrdMap<String, u64>, rows: &Vec<(String, u64)>)
    requires
        old(counts).wf(),
        forall|t: Seq<char>|
            count_of(old(counts)@, t) + #[trigger] added(rows@, t, rows@.len() as int) <= u64::MAX,
    ensures
        final(counts).wf(),
        forall|t: Seq<char>| #[trigger]
            count_of(final(counts)@, t) == count_of(old(counts)@, t) + added(
                rows@,
                t,
                rows@.len() as int,
            ),
        forall|t: Seq<char>| #[trigger]
            final(counts)@.contains_key(t) == (old(counts)@.contains_key(t) || names(
                rows@,
                t,
                rows@.len() as int,
            )),
{
    let mut i: usize = 0;
    while i < rows.len()
        invariant
            i <= rows.len(),
            counts.wf(),
            forall|t: Seq<char>| #[trigger]
                counts@.contains_key(t) == (old(counts)@.contains_key(t) || names(
                    rows@,
                    t,
                    i as int,
                )),
            forall|t: Seq<char>|
                count_of(old(counts)@, t) + #[trigger] added(rows@, t, rows@.len() as int)
                    <= u64::MAX,
            forall|t: Seq<char>| #[trigger]
                count_of(counts@, t) == count_of(old(counts)@, t) + added(rows@, t, i as int),
        decreases rows.len() - i,
    {
        let ghost x = rows@[i as int].0@;
        proof {
            added_grows(rows@, x, i + 1, rows@.len() as int);
            assert(count_of(counts@, x) == count_of(old(counts)@, x) + added(rows@, x, i as int));
        }
        let current: u64 = match counts.get(&rows[i].0) {
            Some(n) => *n,
            None => 0,
        };
        let ghost before = counts@;
        counts.insert(rows[i].0.clone(), current + rows[i].1);
        proof {
            assert forall|t: Seq<char>| #[trigger] counts@.contains_key(t) == (old(
                counts,
            )@.contains_key(t) || names(rows@, t, i + 1)) by {
                assert(names(rows@, t, i + 1) == (names(rows@, t, i as int) || t == x)) by {
                    assert(rows@[i as int].0@ == x);
                }
                assert(before.contains_key(t) == (old(counts)@.contains_key(t) || names(
                    rows@,
                    t,
                    i as int,
                )));
            }
            assert forall|t: Seq<char>| #[trigger] count_of(counts@, t) == count_of(
                old(counts)@,
                t,
            ) + added(rows@, t, i + 1) by {
                assert(count_of(before, t) == count_of(old(counts)@, t) + added(
                    rows@,
                    t,
                    i as int,
                ));
            }
        }
        i = i + 1;
    }
}

/// A set is of the type that it was last declared with, by the local name of
/// that type, and only sets that were declared are known.
pub proof fn a_set_is_of_its_declared_type(sets: Seq<(String, String)>, n: int, name: Seq<char>)
    requires
        0 <= n <= sets.len(),
    ensures
        set_types(sets, n).contains_key(name) <==> exists|i: int|
            0 <= i < n && (#[trigger] sets[i]).0@ == name,
        set_types(sets, n).contains_key(name) ==> exists|i: int|
            {
                &&& 0 <= i < n
                &&& (#[trigger] sets[i]).0@ == name
                &&& set_types(sets, n)[name] == local_name(sets[i].1@)
                &&& forall|j: int| i < j < n ==> (#[trigger] sets[j]).0@ != name
            },
    decreases n,
{
    if n > 0 {
        a_set_is_of_its_declared_type(sets, n - 1, name);
        if sets[n - 1].0@ == name {
            assert(sets[n - 1].0@ == name);
        } else {
            if exists|i: int| 0 <= i < n && (#[trigger] sets[i]).0@ == name {
                let i = choose|i: int| 0 <= i < n && (#[trigger] sets[i]).0@ == name;
                assert(i < n - 1);
            }
            if set_types(sets, n).contains_key(name) {
                let i = choose|i: int|
                    {
                        &&& 0 <= i < n - 1
                        &&& (#[trigger] sets[i]).0@ == name
                        &&& set_types(sets, n - 1)[name] == local_name(sets[i].1@)
                        &&& forall|j: int| i < j < n - 1 ==> (#[trigger] sets[j]).0@ != name
                    };
                assert(sets[i].0@ == name);
                assert forall|j: int| i < j < n implies (#[trigger] sets[j]).0@ != name by {}
            }
        }
    }
}

/// The first entity that has a source is found with that source, and none only
/// where no entity has one.
pub proof fn the_first_source_is_found(specs: Seq<(String, Option<String>)>)
    ensures
        match first_source(specs) {
            Some(p) => exists|i: int|
                {
                    &&& 0 <= i < specs.len()
                    &&& (#[trigger] specs[i]).0@ == p.0
                    &&& specs[i].1 is Some
                    &&& specs[i].1->0@ == p.1
                    &&& forall|j: int| 0 <= j < i ==> (#[trigger] specs[j]).1 is None
                },
            None => forall|j: int| 0 <= j < specs.len() ==> (#[trigger] specs[j]).1 is None,
        },
    decreases specs.len(),
{
    if specs.len() > 0 {
        if specs[0].1 is None {
            let rest = specs.drop_first();
            the_first_source_is_found(rest);
            if let Some(p) = first_source(rest) {
                let k = choose|i: int|
                    {
                        &&& 0 <= i < rest.len()
                        &&& (#[trigger] rest[i]).0@ == p.0
                        &&& rest[i].1 is Some
                        &&& rest[i].1->0@ == p.1
                        &&& forall|j: int| 0 <= j < i ==> (#[trigger] rest[j]).1 is None
                    };
                assert(specs[k + 1] == rest[k]);
                assert forall|j: int| 0 <= j < k + 1 implies (#[trigger] specs[j]).1 is None by {
                    if j > 0 {
                        assert(specs[j] == rest[j - 1]);
                    }
                }
            } else {
                assert forall|j: int| 0 <= j < specs.len() implies (#[trigger] specs[j]).1 is None by {
                    if j > 0 {
                        assert(specs[j] == rest[j - 1]);
                    }
                }
            }
        } else {
            assert(specs[0].1 is Some);
        }
    }
}

/// Rows are told newest first, and of one time in the order in which they were
/// listed. None is told twice, and a limit leaves out none that is newer than
/// one that is told.
pub proof fn the_newest_rows_are_told(timestamps: &Vec<String>, limit: i64, r: Vec<usize>)
    requires
        call_ensures(newest_first, (timestamps, limit), r),
    ensures
        limit < 0 || limit >= timestamps@.len() ==> r@.len() == timestamps@.len(),
        0 <= limit < timestamps@.len() ==> r@.len() == limit,
        forall|i: int| 0 <= i < r@.len() ==> (#[trigger] r@[i]) < timestamps@.len(),
        forall|i: int, j: int|
            0 <= i < j < r@.len() ==> {
                let a = timestamps@[(#[trigger] r@[i]) as int]@;
                let b = timestamps@[(#[trigger] r@[j]) as int]@;
                text_before(b, a) || (a == b && r@[i] < r@[j])
            },
        forall|k: int, i: int|
            0 <= k < timestamps@.len() && !r@.contains(k as usize) && 0 <= i < r@.len() ==> {
                let a = timestamps@[(#[trigger] r@[i]) as int]@;
                let b = (#[trigger] timestamps@[k])@;
                text_before(b, a) || (a == b && r@[i] < k)
            },
{
    assert(timestamps.len() == timestamps@.len());
    let all = listed_at(timestamps@);
    let s = choose|s: Seq<(Seq<char>, usize)>|
        {
            &&& in_order::<ListedAt>(s)
            &&& #[trigger] s.to_multiset() == all.to_multiset()
            &&& r@ == s.take(kept(s.len(), limit)).map_values(|p: (Seq<char>, usize)| p.1)
        };
    let n = kept(s.len(), limit);
    s.to_multiset_ensures();
    all.to_multiset_ensures();
    assert(s.len() == all.len());
    assert forall|i: int| 0 <= i < s.len() implies (#[trigger] s[i]).1 < timestamps@.len() && s[i].0
        == timestamps@[s[i].1 as int]@ by {
        assert(s.contains(s[i]));
        assert(s.to_multiset().count(s[i]) > 0);
        assert(all.to_multiset().count(s[i]) > 0);
        assert(all.contains(s[i]));
        let k = all.index_of(s[i]);
        assert(all[k] == s[i]);
    }
    assert forall|i: int| 0 <= i < r@.len() implies (#[trigger] r@[i]) == s[i].1 by {}
    assert forall|i: int, j: int| 0 <= i < j < s.len() implies ListedAt::before(
        #[trigger] s[i],
        #[trigger] s[j],
    ) by {
        assert(!ListedAt::before(s[j], s[i]));
        ListedAt::before_is_total(s[i], s[j]);
        listed_once(timestamps@, s, i, j);
    }
    assert forall|k: int, i: int|
        0 <= k < timestamps@.len() && !r@.contains(k as usize) && 0 <= i < r@.len() implies {
        let a = timestamps@[(#[trigger] r@[i]) as int]@;
        let b = (#[trigger] timestamps@[k])@;
        text_before(b, a) || (a == b && r@[i] < k)
    } by {
        assert(all[k] == (timestamps@[k]@, k as usize));
        assert(all.contains(all[k]));
        assert(all.to_multiset().count(all[k]) > 0);
        assert(s.contains(all[k]));
        let at = s.index_of(all[k]);
        if at < n {
            assert(r@[at] == k as usize);
        }
        assert(ListedAt::before(s[i], s[at]));
    }
}

proof fn listed_once(timestamps: Seq<String>, s: Seq<(Seq<char>, usize)>, i: int, j: int)
    requires
        s.to_multiset() == listed_at(timestamps).to_multiset(),
        timestamps.len() <= usize::MAX,
        0 <= i < j < s.len(),
    ensures
        s[i] != s[j],
{
    let all = listed_at(timestamps);
    assert(all.no_duplicates()) by {
        assert forall|a: int, b: int|
            0 <= a < all.len() && 0 <= b < all.len() && a != b implies all[a] != all[b] by {}
    }
    all.lemma_multiset_has_no_duplicates();
    s.to_multiset_ensures();
    s.lemma_multiset_has_no_duplicates_conv();
    assert(s.no_duplicates());
}

/// A row more adds its count to its own tenant and to no other.
pub proof fn a_row_counts_for_its_tenant(rows: Seq<(String, u64)>, tenant: Seq<char>, n: int)
    requires
        0 <= n < rows.len(),
    ensures
        added(rows, tenant, 0) == 0,
        rows[n].0@ == tenant ==> added(rows, tenant, n + 1) == added(rows, tenant, n) + rows[n].1,
        rows[n].0@ != tenant ==> added(rows, tenant, n + 1) == added(rows, tenant, n),
{
}

} // verus!
