use temper_server::local_tdata::{
    header_map, is_file_value_path, is_local_tdata_host, is_loopback_host, local_call,
    AuthorityHeaders, LocalMethod, LocalTDataRequest,
};
use temper_server::ordered::{OrdMap, OrdSet};

fn text<'a>(map: &'a OrdMap<String, String>, name: &str) -> Option<&'a str> {
    map.get(&name.to_string()).map(String::as_str)
}

#[test]
fn parses_loopback_tdata_request() {
    let request = LocalTDataRequest::parse(
        "http://127.0.0.1:8787/tdata/SessionEntries?$filter=SessionId%20eq%20%27s1%27&$top=1",
        &OrdSet::new(),
    )
    .expect("loopback TData URL should parse");

    assert_eq!(request.path, "SessionEntries");
    assert_eq!(text(&request.query, "$filter"), Some("SessionId eq 's1'"));
    assert_eq!(text(&request.query, "$top"), Some("1"));
}

#[test]
fn ignores_non_tdata_or_non_loopback_urls() {
    assert!(
        LocalTDataRequest::parse("https://api.example.com/tdata/Orders", &OrdSet::new()).is_none()
    );
    assert!(LocalTDataRequest::parse("http://127.0.0.1:8787/api/health", &OrdSet::new()).is_none());
    assert!(LocalTDataRequest::parse("not a url", &OrdSet::new()).is_none());
}

#[test]
fn parses_allowlisted_public_tdata_request() {
    let mut local_hosts = OrdSet::new();
    local_hosts.insert("temper.example".to_string());
    let request =
        LocalTDataRequest::parse("https://TEMPER.example/tdata/Orders?$top=1", &local_hosts)
            .expect("allowlisted public TData URL should parse");

    assert_eq!(request.path, "Orders");
    assert_eq!(text(&request.query, "$top"), Some("1"));
}

fn authority() -> AuthorityHeaders {
    let mut names = OrdSet::new();
    for name in [
        "x-temper-principal-id",
        "x-temper-principal-kind",
        "x-temper-agent-role",
        "x-temper-principal-scopes",
        "x-temper-action-context",
    ] {
        names.insert(name.to_string());
    }
    AuthorityHeaders {
        names,
        prefixes: vec!["x-temper-attr-".to_string()],
    }
}

#[test]
fn local_tdata_headers_discard_guest_authority_and_tenant() {
    let map = header_map(
        &authority(),
        &vec![
            ("accept".to_string(), "application/json".to_string()),
            ("x-tenant-id".to_string(), "victim".to_string()),
            ("x-temper-principal-id".to_string(), "attacker".to_string()),
            ("x-temper-principal-kind".to_string(), "admin".to_string()),
            ("x-temper-agent-role".to_string(), "supervisor".to_string()),
            ("x-temper-principal-scopes".to_string(), "root".to_string()),
            ("x-temper-attr-region".to_string(), "all".to_string()),
            ("x-temper-action-context".to_string(), "forged".to_string()),
            (
                "x-temper-workflow-run-id".to_string(),
                "workflow-1".to_string(),
            ),
        ],
    );

    assert!(text(&map, "x-tenant-id").is_none());
    assert!(text(&map, "x-temper-principal-id").is_none());
    assert!(text(&map, "x-temper-principal-kind").is_none());
    assert!(text(&map, "x-temper-agent-role").is_none());
    assert!(text(&map, "x-temper-principal-scopes").is_none());
    assert!(text(&map, "x-temper-attr-region").is_none());
    assert!(text(&map, "x-temper-action-context").is_none());
    assert_eq!(text(&map, "x-temper-workflow-run-id"), Some("workflow-1"));
    assert_eq!(text(&map, "accept"), Some("application/json"));
}

#[test]
fn header_names_are_read_in_any_case_and_bad_ones_are_dropped() {
    let map = header_map(
        &authority(),
        &vec![
            ("Accept".to_string(), "a".to_string()),
            ("ACCEPT".to_string(), "b\tc".to_string()),
            ("X-Tenant-Id".to_string(), "victim".to_string()),
            ("bad name".to_string(), "a".to_string()),
            ("x-line".to_string(), "a\nb".to_string()),
            ("x-delete".to_string(), "\u{7f}".to_string()),
        ],
    );
    assert_eq!(map.keys, vec!["accept".to_string()]);
    assert_eq!(text(&map, "accept"), Some("b\tc"));
}

#[test]
fn the_data_root_and_file_contents() {
    let none: OrdSet<String> = OrdSet::new();
    let root = LocalTDataRequest::parse("http://localhost/tdata", &none).unwrap();
    assert_eq!(root.path, "");
    let root = LocalTDataRequest::parse("http://[::1]/tdata/", &none).unwrap();
    assert_eq!(root.path, "");
    assert!(LocalTDataRequest::parse("http://localhost/tdatax", &none).is_none());
    assert!(LocalTDataRequest::parse("http://localhost/tdata/Files('f')/$value", &none).is_none());
    assert!(LocalTDataRequest::parse("ftp://localhost/tdata/X", &none).is_none());
    assert!(is_file_value_path("Files('a')/$value"));
    assert!(!is_file_value_path("Files('a')"));
    assert!(is_loopback_host("::1"));
    assert!(!is_loopback_host("LOCALHOST"));
    assert!(!is_local_tdata_host("example.com", &none));
}

#[test]
fn the_last_value_of_a_query_name_counts() {
    let none: OrdSet<String> = OrdSet::new();
    let request =
        LocalTDataRequest::parse("http://localhost/tdata/X?a=1&b=x+y&a=2", &none).unwrap();
    assert_eq!(text(&request.query, "a"), Some("2"));
    assert_eq!(text(&request.query, "b"), Some("x y"));
    assert_eq!(request.query.len(), 2);
}

#[test]
fn only_reads_and_posts_of_an_admitted_guest_are_served() {
    assert_eq!(local_call(true, "get", true), Some(LocalMethod::Get));
    assert_eq!(local_call(true, "Post", true), Some(LocalMethod::Post));
    assert_eq!(local_call(true, "DELETE", true), None);
    assert_eq!(local_call(true, "GET", false), None);
    assert_eq!(local_call(false, "GET", true), None);
}

#[test]
fn header_names_are_short_tokens() {
    let named = |name: &str| {
        header_map(&authority(), &vec![(name.to_string(), "v".to_string())])
    };
    let symbols = "!#$%&'*+-.^_`|~09AZaz";
    assert_eq!(text(&named(symbols), "!#$%&'*+-.^_`|~09azaz"), Some("v"));
    for bad in ["", "a b", "a:b", "a\"", "a(", "a,", "a/", "a@", "a[", "a{", "a\u{e9}", "a\u{7f}"] {
        assert_eq!(named(bad).len(), 0, "{bad}");
    }
    let longest = "A".repeat(65535);
    assert_eq!(text(&named(&longest), &"a".repeat(65535)), Some("v"));
    assert_eq!(named(&"A".repeat(65536)).len(), 0);
    assert_eq!(named("X-TENANT-ID").len(), 0);
    assert_eq!(named("x-Tenant-Id").len(), 0);
}
