//! Creation contracts: which manifest governs a create, and the repair of the
//! contracts of existing entities.

use vstd::prelude::*;
use vstd::string::*;
use vstd::utf8::encode_utf8;

use crate::digest::hex;
use crate::digest::sha256;
use crate::digest::sha256_hex;
use crate::json::find_member;
use crate::json::put_member;
use crate::json::Json;
use crate::json::JsonModel;
use crate::ordered::in_order;
use crate::ordered::in_order_is_unique;
use crate::ordered::insert_in_order;
use crate::ordered::is_text_before;
use crate::ordered::key_views;
use crate::ordered::sorted_keys;
use crate::ordered::text_before;
use crate::ordered::OrdMap;
use crate::ordered::Pair;
use crate::ordered::SortKey;
use crate::provenance::local_name;
use crate::provenance::local_type;
use crate::text::same;
use crate::text::views;

verus! {

/// A property of a manifest: its name, and whether its value is the entity's
/// identifier.
#[derive(Clone, Debug, PartialEq, Eq)]
pub struct ManifestProperty {
    pub canonical_name: String,
    pub is_entity_id: bool,
}

/// The manifest of an entity type.
#[derive(Clone, Debug, PartialEq, Eq)]
pub struct ManifestEntity {
    pub entity_type: String,
    pub properties: Vec<ManifestProperty>,
}

/// What a manifest holds.
pub struct ManifestModel {
    pub entity_type: Seq<char>,
    pub properties: Seq<(Seq<char>, bool)>,
}

/// What the properties of a manifest hold.
pub open spec fn properties_model(p: Seq<ManifestProperty>) -> Seq<(Seq<char>, bool)> {
    Seq::new(p.len(), |i: int| (p[i].canonical_name@, p[i].is_entity_id))
}

impl View for ManifestEntity {
    type V = ManifestModel;

    open spec fn view(&self) -> ManifestModel {
        ManifestModel {
            entity_type: self.entity_type@,
            properties: properties_model(self.properties@),
        }
    }
}

/// The first manifest, in the order of the keys, whose type has this local
/// name.
pub open spec fn local_manifest(
    keys: Seq<Seq<char>>,
    manifests: Map<Seq<char>, ManifestModel>,
    entity_type: Seq<char>,
) -> Option<ManifestModel>
    decreases keys.len(),
{
    if keys.len() == 0 {
        None
    } else if local_name(manifests[keys[0]].entity_type) == entity_type {
        Some(manifests[keys[0]])
    } else {
        local_manifest(keys.drop_first(), manifests, entity_type)
    }
}

/// The manifest of a type: that of its own key, else the first one whose type
/// has this local name.
pub open spec fn manifest_of(
    keys: Seq<Seq<char>>,
    manifests: Map<Seq<char>, ManifestModel>,
    entity_type: Seq<char>,
) -> Option<ManifestModel> {
    if manifests.contains_key(entity_type) {
        Some(manifests[entity_type])
    } else {
        local_manifest(keys, manifests, entity_type)
    }
}

/// The manifest that governs the creation of a type.
pub fn creation_manifest<'a>(
    manifests: &'a OrdMap<String, ManifestEntity>,
    entity_type: &str,
) -> (r: Result<&'a ManifestEntity, String>)
    requires
        manifests.wf(),
    ensures
        match r {
            Ok(m) => manifest_of(manifests.list(), manifests@, entity_type@) == Some(m@),
            Err(e) => manifest_of(manifests.list(), manifests@, entity_type@) is None && e@
                == "creation manifest is unavailable for '"@ + entity_type@ + "'"@,
        },
{
    match manifests.get(&entity_type.to_owned()) {
        Some(m) => return Ok(m),
        None => {},
    }
    let ghost keys = manifests.list();
    let n: usize = manifests.len();
    let mut i: usize = 0;
    proof {
        assert(keys.skip(0) =~= keys);
    }
    while i < n
        invariant
            i <= n,
            n == keys.len(),
            manifests.wf(),
            keys == manifests.list(),
            !manifests@.contains_key(entity_type@),
            local_manifest(keys, manifests@, entity_type@) == local_manifest(
                keys.skip(i as int),
                manifests@,
                entity_type@,
            ),
        decreases n - i,
    {
        proof {
            assert(keys.skip(i as int)[0] == keys[i as int]);
            assert(keys.skip(i as int).drop_first() =~= keys.skip(i + 1));
        }
        let candidate = manifests.value_at(i);
        if same(local_type(candidate.entity_type.as_str()).as_str(), entity_type) {
            return Ok(candidate);
        }
        i = i + 1;
    }
    let mut text = "creation manifest is unavailable for '".to_owned();
    text.append(entity_type);
    text.append("'");
    Err(text)
}

/// The fields of a create with the entity's identifier in each of the first `n`
/// properties that hold it, where the request left it out.
pub open spec fn with_identifier(
    fields: Seq<(Seq<char>, JsonModel)>,
    properties: Seq<(Seq<char>, bool)>,
    entity_id: Seq<char>,
    n: int,
) -> Seq<(Seq<char>, JsonModel)>
    decreases n,
{
    if n <= 0 {
        fields
    } else {
        let before = with_identifier(fields, properties, entity_id, n - 1);
        let p = properties[n - 1];
        if p.1 && find_member(before, p.0) is None {
            put_member(before, p.0, JsonModel::Text(entity_id))
        } else {
            before
        }
    }
}

/// The fields that a creation contract is compiled from.
pub fn creation_fields(initial_fields: &Json, manifest: &ManifestEntity, entity_id: &str) -> (r:
    Result<Json, String>)
    ensures
        match r {
            Ok(j) => initial_fields@ is Object && j@ == JsonModel::Object(
                with_identifier(
                    initial_fields@->Object_0,
                    manifest@.properties,
                    entity_id@,
                    manifest@.properties.len() as int,
                ),
            ),
            Err(e) => !(initial_fields@ is Object) && e@ == "creation fields are not an object"@,
        },
{
    if !initial_fields.is_object() {
        return Err("creation fields are not an object".to_owned());
    }
    let ghost start = initial_fields@->Object_0;
    let ghost props = manifest@.properties;
    let mut fields = initial_fields.copy();
    let mut i: usize = 0;
    while i < manifest.properties.len()
        invariant
            i <= manifest.properties.len(),
            props == manifest@.properties,
            initial_fields@ is Object,
            start == initial_fields@->Object_0,
            fields@ == JsonModel::Object(with_identifier(start, props, entity_id@, i as int)),
        decreases manifest.properties.len() - i,
    {
        let p = &manifest.properties[i];
        proof {
            assert(props[i as int] == (p.canonical_name@, p.is_entity_id));
        }
        if p.is_entity_id && fields.get(p.canonical_name.as_str()).is_none() {
            fields.put(p.canonical_name.as_str(), Json::Text(entity_id.to_owned()));
        }
        i = i + 1;
    }
    Ok(fields)
}

/// What identifies the schema of a create: the digest that it is pinned to, else
/// that of the schema's text.
pub fn schema_identity(pinned: Option<&str>, schema_text: &str) -> (r: String)
    ensures
        r@ == match pinned {
            Some(d) => d@,
            None => hex(sha256(encode_utf8(schema_text@))),
        },
{
    match pinned {
        Some(d) => d.to_owned(),
        None => sha256_hex(schema_text.as_bytes()),
    }
}

/// Where the manifest of a create is looked up.
#[derive(Clone, Copy, Debug, PartialEq, Eq, Structural)]
pub enum ManifestSource {
    Configured,
    Legacy,
}

/// Where the manifest of a create is looked up: in its configuration, else,
/// without a pin, among the manifests of the single tenant.
pub fn manifest_source(pinned: bool, configured: bool) -> (r: Result<ManifestSource, String>)
    ensures
        match r {
            Ok(ManifestSource::Configured) => configured,
            Ok(ManifestSource::Legacy) => !configured && !pinned,
            Err(e) => !configured && pinned && e@ == "scoped schema configuration is unavailable"@,
        },
{
    if configured {
        Ok(ManifestSource::Configured)
    } else if !pinned {
        Ok(ManifestSource::Legacy)
    } else {
        Err("scoped schema configuration is unavailable".to_owned())
    }
}

/// Whether an actor is started, and with a contract or not: a new persistent
/// one is not started without.
pub fn spawn_contract(
    fields_are_object: bool,
    has_contract: bool,
    has_journal: bool,
    recovered_stream: bool,
) -> (r: Option<bool>)
    ensures
        r == if !fields_are_object || (!has_contract && has_journal && !recovered_stream) {
            None
        } else {
            Some(has_contract)
        },
{
    if !fields_are_object || (!has_contract && has_journal && !recovered_stream) {
        None
    } else {
        Some(has_contract)
    }
}

/// The rows of the keys that an entity has a hash for.
pub open spec fn hashed_keys(keys: Seq<(String, Option<String>)>, n: int) -> Seq<
    (Seq<char>, Seq<char>),
>
    decreases n,
{
    if n <= 0 {
        Seq::empty()
    } else {
        match keys[n - 1].1 {
            Some(h) => hashed_keys(keys, n - 1).push((keys[n - 1].0@, h@)),
            None => hashed_keys(keys, n - 1),
        }
    }
}

/// The key rows of an entity: one for each declared key that it has a hash for,
/// in the order of name and hash; none of a deleted entity.
pub fn key_rows(keys: &Vec<(String, Option<String>)>, deleted: bool) -> (r: Vec<Pair>)
    ensures
        deleted ==> r@.len() == 0,
        !deleted ==> in_order::<Pair>(key_views(r@)) && key_views(r@).to_multiset() == hashed_keys(
            keys@,
            keys@.len() as int,
        ).to_multiset(),
{
    let mut rows: Vec<Pair> = Vec::new();
    if deleted {
        return rows;
    }
    let mut i: usize = 0;
    proof {
        assert(key_views(rows@) =~= Seq::<(Seq<char>, Seq<char>)>::empty());
    }
    while i < keys.len()
        invariant
            i <= keys.len(),
            in_order::<Pair>(key_views(rows@)),
            key_views(rows@).to_multiset() == hashed_keys(keys@, i as int).to_multiset(),
        decreases keys.len() - i,
    {
        match &keys[i].1 {
            Some(h) => {
                let row = Pair { first: keys[i].0.clone(), second: h.clone() };
                proof {
                    broadcast use vstd::seq_lib::group_to_multiset_ensures;

                    let done = hashed_keys(keys@, i as int);
                    assert(done.push(row@).to_multiset() =~= done.to_multiset().insert(row@));
                }
                insert_in_order(&mut rows, row);
            },
            None => {},
        }
        i = i + 1;
    }
    rows
}

/// What the coverage of creation contracts is published by: the schema, the
/// revision of the contract and the declared keys.
#[derive(Clone, Debug, PartialEq, Eq)]
pub struct CoverageKey {
    pub schema_identity: String,
    pub contract_revision: u32,
    pub declared_key_signature: String,
}

impl View for CoverageKey {
    type V = (Seq<char>, u32, Seq<char>);

    open spec fn view(&self) -> (Seq<char>, u32, Seq<char>) {
        (self.schema_identity@, self.contract_revision, self.declared_key_signature@)
    }
}

impl SortKey for CoverageKey {
    open spec fn before(a: (Seq<char>, u32, Seq<char>), b: (Seq<char>, u32, Seq<char>)) -> bool {
        text_before(a.0, b.0) || (a.0 == b.0 && (a.1 < b.1 || (a.1 == b.1 && text_before(
            a.2,
            b.2,
        ))))
    }

    proof fn before_is_irreflexive(a: (Seq<char>, u32, Seq<char>)) {
        String::before_is_irreflexive(a.0);
        String::before_is_irreflexive(a.2);
    }

    proof fn before_is_transitive(
        a: (Seq<char>, u32, Seq<char>),
        b: (Seq<char>, u32, Seq<char>),
        c: (Seq<char>, u32, Seq<char>),
    ) {
        if text_before(a.0, b.0) && text_before(b.0, c.0) {
            String::before_is_transitive(a.0, b.0, c.0);
        }
        if text_before(a.2, b.2) && text_before(b.2, c.2) {
            String::before_is_transitive(a.2, b.2, c.2);
        }
    }

    proof fn before_is_total(a: (Seq<char>, u32, Seq<char>), b: (Seq<char>, u32, Seq<char>)) {
        String::before_is_total(a.0, b.0);
        String::before_is_total(a.2, b.2);
    }

    fn is_before(&self, other: &Self) -> (r: bool) {
        is_text_before(self.schema_identity.as_str(), other.schema_identity.as_str()) || (
        self.schema_identity == other.schema_identity && (self.contract_revision
            < other.contract_revision || (self.contract_revision == other.contract_revision
            && is_text_before(
            self.declared_key_signature.as_str(),
            other.declared_key_signature.as_str(),
        ))))
    }

    fn duplicate(&self) -> (r: Self) {
        CoverageKey {
            schema_identity: self.schema_identity.clone(),
            contract_revision: self.contract_revision,
            declared_key_signature: self.declared_key_signature.clone(),
        }
    }
}

/// A group of entities with one coverage: the place of the first of them, whose
/// metadata stands for all, and the identifier of the last.
#[derive(Clone, Debug, PartialEq, Eq)]
pub struct CoverageGroup {
    pub first: usize,
    pub cursor: String,
}

impl View for CoverageGroup {
    type V = (usize, Seq<char>);

    open spec fn view(&self) -> (usize, Seq<char>) {
        (self.first, self.cursor@)
    }
}

/// The groups after the entity at place `at` was repaired.
pub open spec fn grouped(
    groups: Map<(Seq<char>, u32, Seq<char>), (usize, Seq<char>)>,
    key: (Seq<char>, u32, Seq<char>),
    at: usize,
    entity_id: Seq<char>,
) -> Map<(Seq<char>, u32, Seq<char>), (usize, Seq<char>)> {
    groups.insert(
        key,
        (
            if groups.contains_key(key) {
                groups[key].0
            } else {
                at
            },
            entity_id,
        ),
    )
}

/// Enters an entity whose creation metadata was repaired in its group.
pub fn add_to_group(
    groups: &mut OrdMap<CoverageKey, CoverageGroup>,
    key: CoverageKey,
    at: usize,
    logical_entity_id: &str,
)
    requires
        old(groups).wf(),
    ensures
        final(groups).wf(),
        final(groups)@ == grouped(old(groups)@, key@, at, logical_entity_id@),
{
    let first: usize = match groups.get(&key) {
        Some(g) => g.first,
        None => at,
    };
    groups.insert(key, CoverageGroup { first, cursor: logical_entity_id.to_owned() });
}

/// Whether two lists of identifiers name the same, whatever their order.
pub open spec fn same_ids(a: Seq<Seq<char>>, b: Seq<Seq<char>>) -> bool {
    a.to_multiset() == b.to_multiset()
}

/// Whether two lists of identifiers name the same, whatever their order.
pub fn names_same_ids(a: &Vec<String>, b: &Vec<String>) -> (r: bool)
    ensures
        r == same_ids(key_views(a@), key_views(b@)),
{
    let x = sorted_keys(a);
    let y = sorted_keys(b);
    let ghost s = key_views(x@);
    let ghost t = key_views(y@);
    if x.len() != y.len() {
        proof {
            broadcast use vstd::seq_lib::group_to_multiset_ensures;

            assert(s.to_multiset().len() == s.len());
            assert(t.to_multiset().len() == t.len());
            assert(s.len() != t.len());
        }
        return false;
    }
    let mut i: usize = 0;
    while i < x.len()
        invariant
            i <= x.len(),
            x.len() == y.len(),
            s == key_views(x@),
            t == key_views(y@),
            in_order::<String>(s),
            in_order::<String>(t),
            s.to_multiset() == key_views(a@).to_multiset(),
            t.to_multiset() == key_views(b@).to_multiset(),
            forall|k: int| 0 <= k < i ==> #[trigger] s[k] == t[k],
        decreases x.len() - i,
    {
        if x[i] != y[i] {
            proof {
                if s.to_multiset() == t.to_multiset() {
                    in_order_is_unique::<String>(s, t);
                    assert(s[i as int] == t[i as int]);
                }
            }
            return false;
        }
        proof {
            assert(s[i as int] == t[i as int]);
        }
        i = i + 1;
    }
    proof {
        assert(s =~= t);
    }
    true
}

/// Whether the coverage of a type is published: every entity was repaired, and
/// the journal is what it was when the pass began.
pub open spec fn pass_is_stable(
    failed: bool,
    ids_before: Seq<Seq<char>>,
    ids_after: Option<Seq<Seq<char>>>,
    version_before: u64,
    version_after: Option<u64>,
) -> bool {
    &&& !failed
    &&& ids_after is Some
    &&& same_ids(ids_before, ids_after->0)
    &&& version_after == Some(version_before)
}

/// Whether the coverage of a type is published. `ids_after` and `version_after`
/// are what the journal gave after the pass, where it could be read.
pub fn coverage_is_publishable(
    failed: bool,
    ids_before: &Vec<String>,
    ids_after: &Option<Vec<String>>,
    version_before: u64,
    version_after: Option<u64>,
) -> (r: bool)
    ensures
        r == pass_is_stable(
            failed,
            key_views(ids_before@),
            match *ids_after {
                Some(v) => Some(key_views(v@)),
                None => None,
            },
            version_before,
            version_after,
        ),
{
    if failed {
        return false;
    }
    match ids_after {
        None => false,
        Some(ids) => match version_after {
            None => false,
            Some(v) => v == version_before && names_same_ids(ids_before, ids),
        },
    }
}

/// An entity whose creation metadata was repaired: its coverage, and its
/// identifier.
#[derive(Clone, Debug, PartialEq, Eq)]
pub struct RepairedEntity {
    pub key: CoverageKey,
    pub entity_id: String,
}

impl View for RepairedEntity {
    type V = ((Seq<char>, u32, Seq<char>), Seq<char>);

    open spec fn view(&self) -> ((Seq<char>, u32, Seq<char>), Seq<char>) {
        (self.key@, self.entity_id@)
    }
}

/// The groups of the first `n` repaired entities.
pub open spec fn groups_of(
    repaired: Seq<((Seq<char>, u32, Seq<char>), Seq<char>)>,
    n: int,
) -> Map<(Seq<char>, u32, Seq<char>), (usize, Seq<char>)>
    decreases n,
{
    if n <= 0 {
        Map::empty()
    } else {
        grouped(
            groups_of(repaired, n - 1),
            repaired[n - 1].0,
            (n - 1) as usize,
            repaired[n - 1].1,
        )
    }
}

proof fn groups_of_more(
    repaired: Seq<((Seq<char>, u32, Seq<char>), Seq<char>)>,
    x: ((Seq<char>, u32, Seq<char>), Seq<char>),
    n: int,
)
    requires
        0 <= n <= repaired.len(),
    ensures
        groups_of(repaired.push(x), n) == groups_of(repaired, n),
    decreases n,
{
    if n > 0 {
        groups_of_more(repaired, x, n - 1);
        assert(repaired.push(x)[n - 1] == repaired[n - 1]);
    }
}

/// What the pass over the entities of a type does next.
#[derive(Clone, Copy, Debug, PartialEq, Eq, Structural)]
pub enum CoverageStep {
    /// The creation metadata of this entity is repaired.
    Repair(usize),
    /// The journal is read again, to see whether it is as it was.
    Recheck,
}

/// The pass over the entities of one type: it repairs the creation metadata of
/// each from its first event, and publishes what it covered only if the journal
/// did not change meanwhile.
#[derive(Clone, Debug, PartialEq, Eq)]
pub struct CoveragePass {
    /// The entities of the type, in order.
    pub ids: Vec<String>,
    pub version: u64,
    pub repaired: Vec<RepairedEntity>,
    pub failed: bool,
    pub groups: OrdMap<CoverageKey, CoverageGroup>,
}

impl CoveragePass {
    /// The groups are those of the entities that were repaired.
    pub open spec fn wf(&self) -> bool {
        &&& self.groups.wf()
        &&& in_order::<String>(key_views(self.ids@))
        &&& self.repaired@.len() <= self.ids@.len()
        &&& self.groups@ == groups_of(views(self.repaired@), self.repaired@.len() as int)
    }

    /// Begins the pass over the entities that a type's journal lists at this
    /// version.
    pub fn begin(listed: &Vec<String>, version: u64) -> (r: Self)
        ensures
            r.wf(),
            same_ids(key_views(r.ids@), key_views(listed@)),
            r.version == version,
            r.repaired@.len() == 0,
            !r.failed,
    {
        CoveragePass {
            ids: sorted_keys(listed),
            version,
            repaired: Vec::new(),
            failed: false,
            groups: OrdMap::new(),
        }
    }

    /// What is done next: the entities are repaired in order, up to the first
    /// that cannot be.
    pub open spec fn next_step(&self) -> CoverageStep {
        if !self.failed && self.repaired@.len() < self.ids@.len() {
            CoverageStep::Repair(self.repaired@.len() as usize)
        } else {
            CoverageStep::Recheck
        }
    }

    /// What is done next.
    pub fn step(&self) -> (r: CoverageStep)
        ensures
            r == self.next_step(),
    {
        if !self.failed && self.repaired.len() < self.ids.len() {
            CoverageStep::Repair(self.repaired.len())
        } else {
            CoverageStep::Recheck
        }
    }

    /// Enters what became of the next entity: its coverage, or none where
    /// anything on the way to its repair failed.
    pub fn enter(&mut self, outcome: Option<RepairedEntity>)
        requires
            old(self).wf(),
            old(self).next_step() is Repair,
        ensures
            final(self).wf(),
            final(self).ids == old(self).ids,
            final(self).version == old(self).version,
            match outcome {
                Some(entity) => views(final(self).repaired@) == views(old(self).repaired@).push(
                    entity@,
                ) && !final(self).failed,
                None => final(self).repaired == old(self).repaired && final(self).failed,
            },
    {
        match outcome {
            None => {
                self.failed = true;
            },
            Some(entity) => {
                let at: usize = self.repaired.len();
                let ghost before = views(self.repaired@);
                let ghost x = entity@;
                add_to_group(
                    &mut self.groups,
                    entity.key.duplicate(),
                    at,
                    entity.entity_id.as_str(),
                );
                self.repaired.push(entity);
                proof {
                    groups_of_more(before, x, at as int);
                    assert(views(self.repaired@) =~= before.push(x));
                    assert(before.push(x)[at as int] == x);
                }
            },
        }
    }

    /// Whether the groups are published, by what the journal gave after the
    /// pass.
    pub fn settle(&self, ids_after: &Option<Vec<String>>, version_after: Option<u64>) -> (r: bool)
        requires
            self.wf(),
            self.next_step() is Recheck,
        ensures
            r == pass_is_stable(
                self.failed,
                key_views(self.ids@),
                match *ids_after {
                    Some(v) => Some(key_views(v@)),
                    None => None,
                },
                self.version,
                version_after,
            ),
            r ==> self.repaired@.len() == self.ids@.len(),
    {
        coverage_is_publishable(self.failed, &self.ids, ids_after, self.version, version_after)
    }
}

/// The first of the first `n` repaired entities with this coverage.
pub open spec fn first_with(
    repaired: Seq<((Seq<char>, u32, Seq<char>), Seq<char>)>,
    key: (Seq<char>, u32, Seq<char>),
    n: int,
) -> Option<int>
    decreases n,
{
    if n <= 0 {
        None
    } else if first_with(repaired, key, n - 1) is Some {
        first_with(repaired, key, n - 1)
    } else if repaired[n - 1].0 == key {
        Some(n - 1)
    } else {
        None
    }
}

/// The last of the first `n` repaired entities with this coverage.
pub open spec fn last_with(
    repaired: Seq<((Seq<char>, u32, Seq<char>), Seq<char>)>,
    key: (Seq<char>, u32, Seq<char>),
    n: int,
) -> Option<int>
    decreases n,
{
    if n <= 0 {
        None
    } else if repaired[n - 1].0 == key {
        Some(n - 1)
    } else {
        last_with(repaired, key, n - 1)
    }
}

/// A coverage is published where an entity has it: with the metadata of the
/// first entity that has it, and the identifier of the last as the cursor.
pub proof fn a_group_spans_its_entities(
    repaired: Seq<((Seq<char>, u32, Seq<char>), Seq<char>)>,
    key: (Seq<char>, u32, Seq<char>),
    n: int,
)
    requires
        0 <= n <= repaired.len() <= usize::MAX,
    ensures
        groups_of(repaired, n).contains_key(key) == (last_with(repaired, key, n) is Some),
        groups_of(repaired, n).contains_key(key) ==> {
            let first = first_with(repaired, key, n);
            let last = last_with(repaired, key, n);
            &&& first is Some
            &&& 0 <= first->0 <= last->0 < n
            &&& repaired[first->0].0 == key
            &&& repaired[last->0].0 == key
            &&& groups_of(repaired, n)[key] == (first->0 as usize, repaired[last->0].1)
        },
        first_with(repaired, key, n) is Some == last_with(repaired, key, n) is Some,
    decreases n,
{
    if n > 0 {
        a_group_spans_its_entities(repaired, key, n - 1);
    }
}

proof fn a_local_manifest_is_the_first(
    keys: Seq<Seq<char>>,
    manifests: Map<Seq<char>, ManifestModel>,
    entity_type: Seq<char>,
)
    ensures
        match local_manifest(keys, manifests, entity_type) {
            Some(m) => exists|i: int|
                0 <= i < keys.len() && m == manifests[#[trigger] keys[i]] && local_name(m.entity_type)
                    == entity_type && forall|j: int|
                    0 <= j < i ==> local_name(manifests[#[trigger] keys[j]].entity_type)
                        != entity_type,
            None => forall|j: int|
                0 <= j < keys.len() ==> local_name(manifests[#[trigger] keys[j]].entity_type)
                    != entity_type,
        },
    decreases keys.len(),
{
    if keys.len() > 0 {
        let rest = keys.drop_first();
        if local_name(manifests[keys[0]].entity_type) != entity_type {
            a_local_manifest_is_the_first(rest, manifests, entity_type);
            if let Some(m) = local_manifest(rest, manifests, entity_type) {
                let k = choose|i: int|
                    0 <= i < rest.len() && m == manifests[#[trigger] rest[i]] && local_name(
                        m.entity_type,
                    ) == entity_type && forall|j: int|
                        0 <= j < i ==> local_name(manifests[#[trigger] rest[j]].entity_type)
                            != entity_type;
                assert(keys[k + 1] == rest[k]);
                assert forall|j: int| 0 <= j < k + 1 implies local_name(
                    manifests[#[trigger] keys[j]].entity_type,
                ) != entity_type by {
                    if j > 0 {
                        assert(keys[j] == rest[j - 1]);
                    }
                }
            } else {
                assert forall|j: int| 0 <= j < keys.len() implies local_name(
                    manifests[#[trigger] keys[j]].entity_type,
                ) != entity_type by {
                    if j > 0 {
                        assert(keys[j] == rest[j - 1]);
                    }
                }
            }
        } else {
            assert(manifests[keys[0]] == local_manifest(keys, manifests, entity_type)->0);
        }
    }
}

/// The manifest under the exact name of a type is the manifest of the type,
/// whatever else there is. Without one it is the first whose type has that
/// local name, and it is unavailable only where no type has.
pub proof fn a_type_is_created_by_its_own_manifest(
    manifests: &OrdMap<String, ManifestEntity>,
    entity_type: &str,
    r: Result<&ManifestEntity, String>,
)
    requires
        manifests.wf(),
        call_ensures(creation_manifest, (manifests, entity_type), r),
    ensures
        manifests@.contains_key(entity_type@) ==> r is Ok && r->Ok_0@ == manifests@[entity_type@],
        !manifests@.contains_key(entity_type@) && r is Ok ==> exists|i: int|
            0 <= i < manifests.list().len() && r->Ok_0@ == manifests@[#[trigger] manifests.list()[i]]
                && local_name(r->Ok_0@.entity_type) == entity_type@ && forall|j: int|
                0 <= j < i ==> local_name(manifests@[#[trigger] manifests.list()[j]].entity_type)
                    != entity_type@,
        r is Err ==> forall|j: int|
            0 <= j < manifests.list().len() ==> local_name(
                manifests@[#[trigger] manifests.list()[j]].entity_type,
            ) != entity_type@,
{
    a_local_manifest_is_the_first(manifests.list(), manifests@, entity_type@);
}

proof fn identified(
    fields: Seq<(Seq<char>, JsonModel)>,
    properties: Seq<(Seq<char>, bool)>,
    entity_id: Seq<char>,
    n: int,
    name: Seq<char>,
)
    requires
        0 <= n <= properties.len(),
    ensures
        ({
            let after = with_identifier(fields, properties, entity_id, n);
            &&& find_member(fields, name) is Some ==> find_member(after, name) == find_member(
                fields,
                name,
            )
            &&& find_member(fields, name) is None ==> find_member(after, name) == if exists|i: int|
                0 <= i < n && #[trigger] properties[i] == (name, true) {
                Some(JsonModel::Text(entity_id))
            } else {
                None
            }
        }),
    decreases n,
{
    if n > 0 {
        identified(fields, properties, entity_id, n - 1, name);
        let before = with_identifier(fields, properties, entity_id, n - 1);
        let p = properties[n - 1];
        crate::json::put_then_find(before, p.0, JsonModel::Text(entity_id), name);
        if find_member(fields, name) is None {
            if p == (name, true) {
                assert(properties[n - 1] == (name, true));
            } else if exists|i: int| 0 <= i < n && #[trigger] properties[i] == (name, true) {
                let i = choose|i: int| 0 <= i < n && #[trigger] properties[i] == (name, true);
                assert(i < n - 1);
            }
        }
    }
}

/// An entity is created with every field that it was given, unchanged. A field
/// that was not given is there only if the manifest says that it holds the
/// identifier of the entity, and then it holds that.
pub proof fn a_created_entity_is_called_by_its_identifier(
    initial_fields: &Json,
    manifest: &ManifestEntity,
    entity_id: &str,
    r: Result<Json, String>,
    name: Seq<char>,
)
    requires
        call_ensures(creation_fields, (initial_fields, manifest, entity_id), r),
    ensures
        r is Ok == initial_fields@ is Object,
        r is Ok ==> {
            let given = crate::json::member(initial_fields@, name);
            let created = crate::json::member(r->Ok_0@, name);
            &&& r->Ok_0@ is Object
            &&& given is Some ==> created == given
            &&& given is None ==> created == if exists|i: int|
                0 <= i < manifest@.properties.len() && #[trigger] manifest@.properties[i] == (
                    name,
                    true,
                ) {
                Some(JsonModel::Text(entity_id@))
            } else {
                None
            }
        },
{
    if initial_fields@ is Object {
        identified(
            initial_fields@->Object_0,
            manifest@.properties,
            entity_id@,
            manifest@.properties.len() as int,
            name,
        );
    }
}

proof fn hashed_keys_are_counted(keys: Seq<(String, Option<String>)>, n: int, x: (Seq<char>, Seq<char>))
    requires
        0 <= n <= keys.len(),
    ensures
        hashed_keys(keys, n).contains(x) == exists|i: int|
            0 <= i < n && (#[trigger] keys[i]).0@ == x.0 && keys[i].1 is Some && keys[i].1->0@ == x.1,
    decreases n,
{
    if n > 0 {
        hashed_keys_are_counted(keys, n - 1, x);
        let before = hashed_keys(keys, n - 1);
        let after = hashed_keys(keys, n);
        if keys[n - 1].1 is Some {
            let last = (keys[n - 1].0@, keys[n - 1].1->0@);
            assert(after == before.push(last));
            assert(after[before.len() as int] == last);
            if before.contains(x) {
                let k = before.index_of(x);
                assert(after[k] == x);
            }
        }
        if exists|i: int|
            0 <= i < n && (#[trigger] keys[i]).0@ == x.0 && keys[i].1 is Some && keys[i].1->0@
                == x.1 {
            let i = choose|i: int|
                0 <= i < n && (#[trigger] keys[i]).0@ == x.0 && keys[i].1 is Some && keys[i].1->0@
                    == x.1;
            assert(i < n - 1 || i == n - 1);
        }
    }
}

/// A living entity has a row for each of its keys that has a hash, and no
/// others. A deleted entity has none.
pub proof fn every_hashed_key_has_a_row(
    keys: &Vec<(String, Option<String>)>,
    deleted: bool,
    r: Vec<Pair>,
    x: (Seq<char>, Seq<char>),
)
    requires
        call_ensures(key_rows, (keys, deleted), r),
    ensures
        deleted ==> r@.len() == 0,
        !deleted ==> (key_views(r@).contains(x) <==> exists|i: int|
            0 <= i < keys@.len() && (#[trigger] keys@[i]).0@ == x.0 && keys@[i].1 is Some
                && keys@[i].1->0@ == x.1),
{
    if !deleted {
        let rows = key_views(r@);
        let hashed = hashed_keys(keys@, keys@.len() as int);
        hashed_keys_are_counted(keys@, keys@.len() as int, x);
        rows.to_multiset_ensures();
        hashed.to_multiset_ensures();
        assert(rows.contains(x) == (rows.to_multiset().count(x) > 0));
        assert(hashed.contains(x) == (hashed.to_multiset().count(x) > 0));
    }
}

/// What a group was first made with stays, its cursor moves to the latest
/// entity, and the other groups are as they were.
pub proof fn a_group_keeps_its_beginning()
    ensures
        forall|groups: &mut OrdMap<CoverageKey, CoverageGroup>, key: CoverageKey, at: usize, id: &str, r: ()|
            groups.wf() && #[trigger] call_ensures(add_to_group, (groups, key, at, id), r) ==> {
                &&& final(groups)@.dom() =~= groups@.dom().insert(key@)
                &&& final(groups)@[key@].1 == id@
                &&& groups@.contains_key(key@) ==> final(groups)@[key@].0 == groups@[key@].0
                &&& !groups@.contains_key(key@) ==> final(groups)@[key@].0 == at
                &&& forall|k: (Seq<char>, u32, Seq<char>)|
                    k != key@ && groups@.contains_key(k) ==> #[trigger] final(groups)@[k]
                        == groups@[k]
            },
{
}

/// A pass is published only if every entity was repaired, the journal lists the
/// same entities as at its start, as often, and its version is the same. A pass
/// of which all that holds is published.
pub proof fn a_pass_is_published_over_an_unchanged_journal(
    pass: &CoveragePass,
    ids_after: &Option<Vec<String>>,
    version_after: Option<u64>,
    r: bool,
)
    requires
        pass.wf(),
        pass.next_step() is Recheck,
        call_ensures(CoveragePass::settle, (pass, ids_after, version_after), r),
    ensures
        r ==> pass.repaired@.len() == pass.ids@.len(),
        r == (!pass.failed && version_after is Some && version_after->0 == pass.version && ids_after
            is Some && key_views(ids_after->0@).to_multiset() == key_views(
            pass.ids@,
        ).to_multiset()),
{
}

/// A pass goes through its entities one by one, in order, until one fails.
pub proof fn a_pass_repairs_each_entity_once()
    ensures
        forall|pass: &mut CoveragePass, outcome: Option<RepairedEntity>, r: ()|
            pass.wf() && pass.next_step() is Repair && #[trigger] call_ensures(
                CoveragePass::enter,
                (pass, outcome),
                r,
            ) ==> {
                &&& final(pass).ids == pass.ids
                &&& final(pass).version == pass.version
                &&& final(pass).failed == outcome is None
                &&& outcome is None ==> final(pass).repaired == pass.repaired
                &&& outcome is Some ==> final(pass).repaired@.len() == pass.repaired@.len() + 1
                    && final(pass).repaired@.last()@ == outcome->0@
            },
        forall|pass: &CoveragePass, r: CoverageStep|
            pass.wf() && #[trigger] call_ensures(CoveragePass::step, (pass,), r) ==> (r is Repair
                <==> !pass.failed && pass.repaired@.len() < pass.ids@.len()) && (r is Repair
                ==> r->Repair_0 == pass.repaired@.len()),
{
    assert forall|pass: &mut CoveragePass, outcome: Option<RepairedEntity>, r: ()|
        pass.wf() && pass.next_step() is Repair && #[trigger] call_ensures(
            CoveragePass::enter,
            (pass, outcome),
            r,
        ) implies {
        &&& final(pass).ids == pass.ids
        &&& final(pass).version == pass.version
        &&& final(pass).failed == outcome is None
        &&& outcome is None ==> final(pass).repaired == pass.repaired
        &&& outcome is Some ==> final(pass).repaired@.len() == pass.repaired@.len() + 1
            && final(pass).repaired@.last()@ == outcome->0@
    } by {
        if outcome is Some {
            let n = pass.repaired@.len() as int;
            assert(views(final(pass).repaired@).len() == views(pass.repaired@).len() + 1);
            assert(views(final(pass).repaired@)[n] == outcome->0@);
        }
    }
    assert forall|pass: &CoveragePass, r: CoverageStep|
        pass.wf() && #[trigger] call_ensures(CoveragePass::step, (pass,), r) implies (r is Repair
        <==> !pass.failed && pass.repaired@.len() < pass.ids@.len()) && (r is Repair ==> r->Repair_0
        == pass.repaired@.len()) by {
        assert(pass.repaired.len() == pass.repaired@.len());
    }
}

/// The first group of a coverage is where it first occurs, and the cursor is of
/// its last occurrence.
pub proof fn a_coverage_runs_from_first_to_last(
    repaired: Seq<((Seq<char>, u32, Seq<char>), Seq<char>)>,
    at: int,
)
    requires
        0 <= at < repaired.len() <= usize::MAX,
    ensures
        ({
            let groups = groups_of(repaired, repaired.len() as int);
            let key = repaired[at].0;
            &&& groups.contains_key(key)
            &&& groups[key].0 <= at
            &&& repaired[groups[key].0 as int].0 == key
            &&& (forall|k: int| at <= k < repaired.len() && (#[trigger] repaired[k]).0 == key ==> k
                == at) ==> groups[key].1 == repaired[at].1
        }),
{
    coverage_holds(repaired, repaired.len() as int, at);
}

proof fn coverage_holds(
    repaired: Seq<((Seq<char>, u32, Seq<char>), Seq<char>)>,
    n: int,
    at: int,
)
    requires
        0 <= at < n <= repaired.len() <= usize::MAX,
    ensures
        ({
            let groups = groups_of(repaired, n);
            let key = repaired[at].0;
            &&& groups.contains_key(key)
            &&& groups[key].0 <= at
            &&& repaired[groups[key].0 as int].0 == key
            &&& (forall|k: int| at <= k < n && (#[trigger] repaired[k]).0 == key ==> k == at)
                ==> groups[key].1 == repaired[at].1
        }),
    decreases n,
{
    let key = repaired[at].0;
    a_group_spans_its_entities(repaired, key, n - 1);
    if at < n - 1 {
        coverage_holds(repaired, n - 1, at);
        if forall|k: int| at <= k < n && (#[trigger] repaired[k]).0 == key ==> k == at {
            assert(repaired[n - 1].0 != key);
            assert forall|k: int| at <= k < n - 1 && (#[trigger] repaired[k]).0 == key implies k
                == at by {}
        }
    }
}

/// The schema that is pinned is the one that an entity is created by, and no
/// pinned schema is stood in for by another.
pub proof fn a_pinned_schema_is_not_replaced(
    pinned: bool,
    configured: bool,
    r: Result<ManifestSource, String>,
    digest: Option<&str>,
    text: &str,
    identity: String,
)
    requires
        call_ensures(manifest_source, (pinned, configured), r),
        call_ensures(schema_identity, (digest, text), identity),
    ensures
        configured ==> r is Ok && r->Ok_0 is Configured,
        !configured && pinned ==> r is Err,
        !configured && !pinned ==> r is Ok && r->Ok_0 is Legacy,
        digest is Some ==> identity@ == digest->0@,
        digest is None ==> identity@ == hex(sha256(encode_utf8(text@))),
{
}

} // verus!
