//! Which schema a task-scoped entity is durably pinned to.

use vstd::prelude::*;
use vstd::string::*;

use crate::governed_types::digest_text;
use crate::governed_types::is_canonical_sha256;
use crate::ordered::OrdSet;
use crate::text::opt_str;
use crate::text::opt_text;
use crate::text::same;
use crate::text::texts;

verus! {

/// What the texts of pin mismatches begin with.
pub open spec fn pin_mismatch() -> Seq<char> {
    "SchemaPinMismatch:"@
}

/// The digest that an entity is pinned to. Between two, as during a cutover,
/// the committed pointer decides; a single one stands whatever the pointer says.
pub open spec fn authoritative(
    digests: Set<Seq<char>>,
    active: Option<Seq<char>>,
) -> Result<Option<Seq<char>>, Seq<char>> {
    if digests.len() == 0 {
        Ok(None)
    } else if digests.len() == 1 {
        Ok(Some(digests.choose()))
    } else if digests.len() == 2 {
        if active is Some && digests.contains(active->0) {
            Ok(active)
        } else {
            Err("durable pins do not agree with the committed cutover pointer"@)
        }
    } else {
        Err("more than two durable pins exist"@)
    }
}

/// The digest that an entity with these durable digests is pinned to.
pub fn authoritative_scoped_digest(digests: &OrdSet<String>, active_digest: Option<&str>) -> (r:
    Result<Option<String>, &'static str>)
    requires
        digests.wf(),
    ensures
        match r {
            Ok(d) => authoritative(digests@, opt_str(active_digest)) == Ok::<
                Option<Seq<char>>,
                Seq<char>,
            >(opt_text(d)),
            Err(e) => authoritative(digests@, opt_str(active_digest)) == Err::<
                Option<Seq<char>>,
                Seq<char>,
            >(e@),
        },
        r is Ok && r->Ok_0 is Some ==> digests@.contains(r->Ok_0->0@),
{
    let n: usize = digests.len();
    if n == 0 {
        Ok(None)
    } else if n == 1 {
        let only = digests.items[0].clone();
        proof {
            let d = digests@.choose();
            assert(digests.list()[0] == only@);
            assert(digests@.contains(only@));
            assert(digests@.contains(d)) by {
                assert(digests@.len() > 0);
                if !(exists|x: Seq<char>| digests@.contains(x)) {
                    assert(digests@ =~= Set::<Seq<char>>::empty());
                }
            }
            let k = digests.list().index_of(d);
            assert(digests.list()[k] == d);
        }
        Ok(Some(only))
    } else if n == 2 {
        match active_digest {
            Some(d) => if digests.contains(&d.to_owned()) {
                Ok(Some(d.to_owned()))
            } else {
                Err("durable pins do not agree with the committed cutover pointer")
            },
            None => Err("durable pins do not agree with the committed cutover pointer"),
        }
    } else {
        Err("more than two durable pins exist")
    }
}

/// A single durable pin is not reinterpreted by the pointer.
pub proof fn one_pin_stands(d: Seq<char>, active: Option<Seq<char>>)
    ensures
        authoritative(Set::empty().insert(d), active) == Ok::<Option<Seq<char>>, Seq<char>>(
            Some(d),
        ),
{
    let s = Set::<Seq<char>>::empty().insert(d);
    assert(s.contains(d));
    assert(s.contains(s.choose()));
}

/// The durable digests of an entity among those that its journal names: the
/// texts of SHA-256 digests.
pub fn durable_digests(named: &Vec<String>) -> (r: OrdSet<String>)
    ensures
        r.wf(),
        forall|d: Seq<char>| #[trigger]
            r@.contains(d) == (texts(named@).contains(d) && digest_text(d, "sha256:"@)),
{
    let ghost all = texts(named@);
    let mut set: OrdSet<String> = OrdSet::new();
    let mut i: usize = 0;
    while i < named.len()
        invariant
            i <= named.len(),
            all == texts(named@),
            set.wf(),
            forall|d: Seq<char>| #[trigger]
                set@.contains(d) == (all.take(i as int).contains(d) && digest_text(
                    d,
                    "sha256:"@,
                )),
        decreases named.len() - i,
    {
        let ghost before = set@;
        proof {
            assert(all[i as int] == named@[i as int]@);
            assert(all.take(i + 1) =~= all.take(i as int).push(all[i as int]));
            assert forall|d: Seq<char>| all.take(i + 1).contains(d) == (all.take(
                i as int,
            ).contains(d) || d == all[i as int]) by {
                if all.take(i as int).contains(d) {
                    let k = all.take(i as int).index_of(d);
                    assert(all.take(i + 1)[k] == d);
                }
                assert(all.take(i + 1)[i as int] == all[i as int]);
            }
        }
        if is_canonical_sha256(named[i].as_str()) {
            let _fresh = set.insert(named[i].clone());
        }
        i = i + 1;
    }
    proof {
        assert(all.take(all.len() as int) =~= all);
    }
    set
}

/// What the store of schema deployments says of the cutover of a scope.
#[derive(Clone, Debug, PartialEq, Eq)]
pub enum Cutover {
    /// There is no such store.
    NoAuthority,
    /// It could not be asked.
    Failed(String),
    /// The scope has no active schema.
    NoPointer,
    /// The scope's active schema has this digest.
    Active(String),
}

/// The text of a pin mismatch of an entity.
pub open spec fn mismatch_text(
    entity_type: Seq<char>,
    entity_id: Seq<char>,
    reason: Seq<char>,
) -> Seq<char> {
    pin_mismatch() + " scoped entity '"@ + entity_type + "/"@ + entity_id + "' "@ + reason
}

/// The text of a pin mismatch of an entity.
pub fn mismatch_text_of(entity_type: &str, entity_id: &str, reason: &str) -> (r: String)
    ensures
        r@ == mismatch_text(entity_type@, entity_id@, reason@),
{
    let mut text = "SchemaPinMismatch:".to_owned();
    text.append(" scoped entity '");
    text.append(entity_type);
    text.append("/");
    text.append(entity_id);
    text.append("' ");
    text.append(reason);
    text
}

/// The digest that an entity is pinned to, or why that is not known. The
/// cutover is asked for only between two digests.
pub open spec fn entity_digest(
    entity_type: Seq<char>,
    entity_id: Seq<char>,
    digests: Set<Seq<char>>,
    cutover: Cutover,
) -> Result<Option<Seq<char>>, Seq<char>> {
    if digests.len() == 2 && cutover is NoAuthority {
        Err(
            mismatch_text(
                entity_type,
                entity_id,
                "has ambiguous durable pins and no cutover authority"@,
            ),
        )
    } else if digests.len() == 2 && cutover is Failed {
        Err(cutover->Failed_0@)
    } else if digests.len() == 2 && cutover is NoPointer {
        Err(
            mismatch_text(
                entity_type,
                entity_id,
                "has ambiguous durable pins and no active cutover pointer"@,
            ),
        )
    } else {
        let active = if digests.len() == 2 {
            Some(cutover->Active_0@)
        } else {
            None
        };
        match authoritative(digests, active) {
            Ok(d) => Ok(d),
            Err(reason) => Err(mismatch_text(entity_type, entity_id, reason)),
        }
    }
}

/// The digest that an entity is pinned to.
pub fn authoritative_scoped_entity_digest(
    entity_type: &str,
    entity_id: &str,
    digests: &OrdSet<String>,
    cutover: &Cutover,
) -> (r: Result<Option<String>, String>)
    requires
        digests.wf(),
    ensures
        match r {
            Ok(d) => entity_digest(entity_type@, entity_id@, digests@, *cutover) == Ok::<
                Option<Seq<char>>,
                Seq<char>,
            >(opt_text(d)),
            Err(e) => entity_digest(entity_type@, entity_id@, digests@, *cutover) == Err::<
                Option<Seq<char>>,
                Seq<char>,
            >(e@),
        },
{
    let n: usize = digests.len();
    let mut active: Option<&str> = None;
    if n == 2 {
        match cutover {
            Cutover::NoAuthority => return Err(
                mismatch_text_of(
                    entity_type,
                    entity_id,
                    "has ambiguous durable pins and no cutover authority",
                ),
            ),
            Cutover::Failed(e) => return Err(e.clone()),
            Cutover::NoPointer => return Err(
                mismatch_text_of(
                    entity_type,
                    entity_id,
                    "has ambiguous durable pins and no active cutover pointer",
                ),
            ),
            Cutover::Active(d) => {
                active = Some(d.as_str());
            },
        }
    }
    match authoritative_scoped_digest(digests, active) {
        Ok(d) => Ok(d),
        Err(reason) => Err(mismatch_text_of(entity_type, entity_id, reason)),
    }
}

/// The digest that a request which names only the scope is served under: the
/// one that the entity is pinned to, else the active one.
pub fn resolve_scope_only_digest(pinned: Option<String>, active: String) -> (r: String)
    ensures
        r@ == match pinned {
            Some(d) => d@,
            None => active@,
        },
{
    match pinned {
        Some(d) => d,
        None => active,
    }
}

/// Whether an entity exists under the requested pin: not where it is pinned to
/// nothing, and an error where it is pinned to another schema.
pub open spec fn pin_matches(
    entity_type: Seq<char>,
    entity_id: Seq<char>,
    pinned: Option<Seq<char>>,
    requested: Seq<char>,
) -> Result<bool, Seq<char>> {
    match pinned {
        None => Ok(false),
        Some(d) => if d == requested {
            Ok(true)
        } else {
            Err(
                mismatch_text(
                    entity_type,
                    entity_id,
                    "is pinned to "@ + d + ", not "@ + requested,
                ),
            )
        },
    }
}

/// Whether an entity exists under the requested pin.
pub fn scoped_entity_pin_matches(
    entity_type: &str,
    entity_id: &str,
    pinned: Option<&str>,
    requested: &str,
) -> (r: Result<bool, String>)
    ensures
        match r {
            Ok(b) => pin_matches(entity_type@, entity_id@, opt_str(pinned), requested@) == Ok::<
                bool,
                Seq<char>,
            >(b),
            Err(e) => pin_matches(entity_type@, entity_id@, opt_str(pinned), requested@) == Err::<
                bool,
                Seq<char>,
            >(e@),
        },
{
    match pinned {
        None => Ok(false),
        Some(d) => {
            if same(d, requested) {
                return Ok(true);
            }
            let mut reason = "is pinned to ".to_owned();
            reason.append(d);
            reason.append(", not ");
            reason.append(requested);
            Err(mismatch_text_of(entity_type, entity_id, reason.as_str()))
        },
    }
}

/// Without a pin there is no digest. One pin is the digest, whatever the pointer
/// says. Of two pins the one that the pointer names is, and none where the
/// pointer names neither. More than two are refused.
pub proof fn the_pointer_decides_between_two_pins(
    digests: &OrdSet<String>,
    active: Option<&str>,
    r: Result<Option<String>, &'static str>,
    a: Seq<char>,
    b: Seq<char>,
)
    requires
        digests.wf(),
        call_ensures(authoritative_scoped_digest, (digests, active), r),
        a != b,
    ensures
        digests@ == Set::<Seq<char>>::empty() ==> r is Ok && r->Ok_0 is None,
        digests@ == Set::<Seq<char>>::empty().insert(a) ==> r is Ok && opt_text(r->Ok_0) == Some(a),
        digests@ == Set::<Seq<char>>::empty().insert(a).insert(b) ==> (r is Ok <==> active is Some && (
        active->0@ == a || active->0@ == b)) && (r is Ok ==> opt_text(r->Ok_0) == opt_str(active)),
        digests@.len() > 2 ==> r is Err,
{
    one_pin_stands(a, opt_str(active));
}

/// A pin that an entity is found to have is one that its journal holds. Where its
/// journal holds two, it is the one that the committed pointer names, and
/// without such a pointer there is an error.
pub proof fn two_pins_need_a_pointer(
    entity_type: &str,
    entity_id: &str,
    digests: &OrdSet<String>,
    cutover: &Cutover,
    r: Result<Option<String>, String>,
)
    requires
        digests.wf(),
        call_ensures(
            authoritative_scoped_entity_digest,
            (entity_type, entity_id, digests, cutover),
            r,
        ),
    ensures
        r is Ok && r->Ok_0 is Some ==> digests@.contains(r->Ok_0->0@) || digests@.len() == 1,
        digests@.len() == 2 ==> (r is Ok <==> cutover is Active && digests@.contains(
            cutover->Active_0@,
        )),
        digests@.len() == 2 && r is Ok ==> opt_text(r->Ok_0) == Some(cutover->Active_0@),
        digests@.len() == 2 && cutover is Failed ==> r->Err_0@ == cutover->Failed_0@,
        digests@.len() < 2 ==> r is Ok && (r->Ok_0 is Some <==> digests@.len() == 1),
        digests@.len() > 2 ==> r is Err,
{
}

/// A pinned entity answers to its own schema only, and one that is not pinned to
/// none.
pub proof fn a_pinned_entity_answers_to_its_pin(
    entity_type: &str,
    entity_id: &str,
    pinned: Option<&str>,
    requested: &str,
    r: Result<bool, String>,
)
    requires
        call_ensures(scoped_entity_pin_matches, (entity_type, entity_id, pinned, requested), r),
    ensures
        pinned is None ==> r is Ok && !r->Ok_0,
        pinned is Some && pinned->0@ == requested@ ==> r is Ok && r->Ok_0,
        pinned is Some && pinned->0@ != requested@ ==> r is Err,
{
}

/// A pin comes before the digest that is in force.
pub proof fn a_pin_comes_first(pinned: Option<String>, active: String, r: String)
    requires
        call_ensures(resolve_scope_only_digest, (pinned, active), r),
    ensures
        pinned is Some ==> r@ == pinned->0@,
        pinned is None ==> r@ == active@,
{
}

} // verus!
