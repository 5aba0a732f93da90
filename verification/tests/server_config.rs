use temper_server::server_config::{
    awaited_owner_key, env_bool, env_local_tdata_hosts, env_timeout, env_usize,
    normalize_local_tdata_host, parse_llm_content_export_tenants, state_cache_budget,
    tenant_exports_llm_content,
};
use temper_server::server_state::{AwaitedOwner, ServerState};
use temper_server::time::Duration;

#[test]
fn llm_content_export_is_deny_by_default() {
    let unset = parse_llm_content_export_tenants("");
    assert!(unset.len() == 0);
    assert!(!tenant_exports_llm_content(&unset, "acme"));
    assert!(!tenant_exports_llm_content(&unset, ""));

    let blank = parse_llm_content_export_tenants(" , ,\t,");
    assert!(blank.len() == 0, "got {blank:?}");
    assert!(!tenant_exports_llm_content(&blank, "acme"));
}

#[test]
fn llm_content_export_opts_in_only_listed_tenants() {
    let set = parse_llm_content_export_tenants(" acme , globex ");
    assert!(tenant_exports_llm_content(&set, "acme"), "trimmed entry opts in");
    assert!(tenant_exports_llm_content(&set, "globex"));
    assert!(
        !tenant_exports_llm_content(&set, "initech"),
        "an unlisted tenant must stay redacted"
    );
    assert!(!tenant_exports_llm_content(&set, "acme2"));
    assert!(!tenant_exports_llm_content(&set, "acm"));
    assert!(!tenant_exports_llm_content(&set, "ACME"), "match is case-sensitive");
}

#[test]
fn llm_content_export_wildcard_opts_in_every_tenant() {
    let all = parse_llm_content_export_tenants("*");
    assert!(tenant_exports_llm_content(&all, "acme"));
    assert!(tenant_exports_llm_content(&all, "anything-else"));

    let mixed = parse_llm_content_export_tenants("acme,*");
    assert!(tenant_exports_llm_content(&mixed, "initech"));
}

#[test]
fn normalize_local_tdata_host_accepts_urls_domains_and_ports() {
    assert_eq!(
        normalize_local_tdata_host("https://Temper.Example/tdata"),
        Some("temper.example".to_string())
    );
    assert_eq!(
        normalize_local_tdata_host("openpaw-production.up.railway.app"),
        Some("openpaw-production.up.railway.app".to_string())
    );
    assert_eq!(
        normalize_local_tdata_host("http://127.0.0.1:8080"),
        Some("127.0.0.1".to_string())
    );
}

#[test]
fn normalize_local_tdata_host_rejects_empty_or_whitespace_hosts() {
    assert_eq!(normalize_local_tdata_host(""), None);
    assert_eq!(normalize_local_tdata_host("https:///tdata"), None);
    assert_eq!(normalize_local_tdata_host("bad host.example"), None);
}

#[test]
fn configured_hosts_and_public_urls_are_collected_once() {
    let hosts = env_local_tdata_hosts(
        Some("A.example, b.example ,,a.example"),
        &vec!["https://b.example/x".to_string(), "c.example".to_string()],
    );
    assert_eq!(
        hosts.items,
        vec![
            "a.example".to_string(),
            "b.example".to_string(),
            "c.example".to_string()
        ]
    );
}

#[test]
fn words_for_yes_and_no_are_read_in_any_case() {
    assert!(env_bool(Some(" TRUE "), false));
    assert!(env_bool(Some("on"), false));
    assert!(!env_bool(Some("Off"), true));
    assert!(!env_bool(Some("0"), true));
    assert!(env_bool(Some("maybe"), true));
    assert!(!env_bool(None, false));
}

#[test]
fn sizes_and_timeouts_fall_back_to_their_defaults() {
    assert_eq!(env_usize(Some("12"), 5), 12);
    assert_eq!(env_usize(Some("x"), 5), 5);
    assert_eq!(env_usize(Some("0"), 5), 5);
    assert_eq!(env_timeout(Some(" 9 ")), Duration::from_secs(9));
    assert_eq!(env_timeout(Some("not a number")), Duration::from_secs(5));
    assert_eq!(env_timeout(None), Duration::from_secs(5));
    assert_eq!(state_cache_budget(None), 10_000);
    assert_eq!(state_cache_budget(Some("25")), 25);
}

#[test]
fn an_awaited_owner_is_named_by_delivery_and_fence() {
    assert_eq!(awaited_owner_key("d-1", 7), "d-1:7");
}

#[test]
fn guardrails_are_off_until_enabled() {
    let mut state = ServerState::new(parse_llm_content_export_tenants("acme"));
    assert!(!state.commons_guardrails_enabled("acme"));
    state.enable_commons_guardrails("acme");
    assert!(state.commons_guardrails_enabled("acme"));
    assert!(!state.commons_guardrails_enabled("globex"));
    assert!(state.export_llm_content("acme"));
    assert!(!state.export_llm_content("globex"));
    assert!(state.cross_invariant_enforce);
    let state = state.with_cross_invariant_enforcement(false, true);
    assert!(!state.cross_invariant_enforce && state.cross_invariant_eventual_enforce);
}

#[test]
fn a_takeover_owner_survives_the_release_of_the_one_before() {
    let mut state = ServerState::new(parse_llm_content_export_tenants(""));
    state.register_awaited_execution_owner("d", 1, AwaitedOwner { number: 10 });
    state.register_awaited_execution_owner("d", 2, AwaitedOwner { number: 20 });
    state.remove_awaited_execution_owner("d", 1);
    assert_eq!(state.awaited_execution_owner("d", Some("1")), None);
    assert_eq!(
        state.awaited_execution_owner("d", Some("2")),
        Some(AwaitedOwner { number: 20 })
    );
    assert_eq!(state.awaited_execution_owner("d", Some("two")), None);
    assert_eq!(state.awaited_execution_owner("d", None), None);
}
