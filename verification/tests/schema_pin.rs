use temper_server::ordered::OrdSet;
use temper_server::schema_pin::{
    authoritative_scoped_digest, authoritative_scoped_entity_digest, durable_digests,
    resolve_scope_only_digest, scoped_entity_pin_matches, Cutover,
};

fn set(items: &[&String]) -> OrdSet<String> {
    let mut out = OrdSet::new();
    for item in items {
        out.insert((*item).clone());
    }
    out
}

#[test]
fn committed_pointer_selects_one_side_of_shadow_cutover() {
    let source = format!("sha256:{}", "a".repeat(64));
    let target = format!("sha256:{}", "b".repeat(64));
    let digests = set(&[&source, &target]);

    assert_eq!(
        authoritative_scoped_digest(&digests, Some(&source)),
        Ok(Some(source))
    );
    assert_eq!(
        authoritative_scoped_digest(&digests, Some(&target)),
        Ok(Some(target))
    );
    assert!(authoritative_scoped_digest(&digests, None).is_err());
}

#[test]
fn single_durable_pin_is_not_reinterpreted_by_pointer_change() {
    let source = format!("sha256:{}", "a".repeat(64));
    let replacement = format!("sha256:{}", "b".repeat(64));
    let digests = set(&[&source]);

    assert_eq!(
        authoritative_scoped_digest(&digests, Some(&replacement)),
        Ok(Some(source))
    );
}

#[test]
fn only_digest_texts_are_durable_pins() {
    let a = format!("sha256:{}", "a".repeat(64));
    let b = format!("sha256:{}", "0".repeat(64));
    let named = vec![
        a.clone(),
        "v1".to_string(),
        format!("sha256:{}", "A".repeat(64)),
        b.clone(),
        a.clone(),
        format!("sha256:{}", "a".repeat(63)),
    ];
    assert_eq!(durable_digests(&named).items, vec![b, a]);
}

#[test]
fn two_pins_need_a_cutover_pointer() {
    let a = format!("sha256:{}", "a".repeat(64));
    let b = format!("sha256:{}", "b".repeat(64));
    let both = set(&[&a, &b]);
    assert_eq!(
        authoritative_scoped_entity_digest("Doc", "d", &both, &Cutover::Active(b.clone())),
        Ok(Some(b.clone()))
    );
    assert_eq!(
        authoritative_scoped_entity_digest("Doc", "d", &both, &Cutover::Failed("down".to_string())),
        Err("down".to_string())
    );
    assert!(authoritative_scoped_entity_digest("Doc", "d", &both, &Cutover::NoAuthority).is_err());
    assert!(authoritative_scoped_entity_digest("Doc", "d", &both, &Cutover::NoPointer).is_err());
    let none: OrdSet<String> = OrdSet::new();
    assert_eq!(
        authoritative_scoped_entity_digest("Doc", "d", &none, &Cutover::NoAuthority),
        Ok(None)
    );
}

#[test]
fn a_pin_is_held_against_the_request() {
    assert_eq!(scoped_entity_pin_matches("Doc", "d", None, "x"), Ok(false));
    assert_eq!(scoped_entity_pin_matches("Doc", "d", Some("x"), "x"), Ok(true));
    assert!(scoped_entity_pin_matches("Doc", "d", Some("y"), "x").is_err());
    assert_eq!(resolve_scope_only_digest(None, "x".to_string()), "x");
    assert_eq!(resolve_scope_only_digest(Some("y".to_string()), "x".to_string()), "y");
}
