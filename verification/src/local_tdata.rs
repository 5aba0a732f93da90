//! Data calls of guests that are served in process: which URLs are this
//! server's own, and which headers of the guest go with them.

use axum::http::HeaderName;
use axum::http::HeaderValue;
use reqwest::Url;
use vstd::prelude::*;
use vstd::string::*;
use vstd::utf8::encode_utf8;

use crate::ordered::OrdMap;
use crate::ordered::OrdSet;
use crate::text::ascii_alphanumeric;
use crate::text::ascii_upper;
use crate::text::ends_with;
use crate::text::has_prefix;
use crate::text::has_suffix;
use crate::text::lower_char;
use crate::text::lowercase;
use crate::text::opt_text;
use crate::text::same;
use crate::text::starts_with;
use crate::text::strip_prefix;
use crate::text::to_lowercase;
use crate::text::to_uppercase;
use crate::text::uppercase;

verus! {

/// The parts of a URL: scheme, host, path, and the pairs of its query.
pub type UrlParts = (String, Option<String>, String, Vec<(String, String)>);

/// What the parts of a URL hold.
pub struct UrlModel {
    pub scheme: Seq<char>,
    pub host: Option<Seq<char>>,
    pub path: Seq<char>,
    pub query: Seq<(Seq<char>, Seq<char>)>,
}

/// What pairs of texts hold.
pub open spec fn pair_views(v: Seq<(String, String)>) -> Seq<(Seq<char>, Seq<char>)> {
    Seq::new(v.len(), |i: int| (v[i].0@, v[i].1@))
}

/// What the parts of a URL hold.
pub open spec fn parts_model(parts: UrlParts) -> UrlModel {
    UrlModel {
        scheme: parts.0@,
        host: opt_text(parts.1),
        path: parts.2@,
        query: pair_views(parts.3@),
    }
}

/// What optional parts of a URL hold.
pub open spec fn opt_parts(parts: Option<UrlParts>) -> Option<UrlModel> {
    match parts {
        Some(p) => Some(parts_model(p)),
        None => None,
    }
}

/// The parts of the URL that `text` writes, if it writes one.
pub uninterp spec fn url_of(text: Seq<char>) -> Option<UrlModel>;

/// `reqwest::Url::parse` and the parts of its result as `scheme`, `host_str`,
/// `path` and `query_pairs` give them: they depend on the text alone; none
/// where it is not a URL.
#[verifier::external_body]
fn split_url(text: &str) -> (r: Option<UrlParts>)
    ensures
        opt_parts(r) == url_of(text@),
{
    let url = Url::parse(text).ok()?;
    let scheme = url.scheme().to_string();
    let host = url.host_str().map(|host| host.to_string());
    let path = url.path().to_string();
    let query = url.query_pairs().map(|(k, v)| (k.into_owned(), v.into_owned())).collect();
    Some((scheme, host, path, query))
}

/// Whether a character may stand in the name of a header.
pub open spec fn token_char(c: char) -> bool {
    ascii_alphanumeric(c) || c == '!' || c == '#' || c == '$' || c == '%' || c == '&' || c == '\''
        || c == '*' || c == '+' || c == '-' || c == '.' || c == '^' || c == '_' || c == '`' || c
        == '|' || c == '~'
}

/// The header name that `text` writes in its normal form, if it writes one.
pub open spec fn header_name(text: Seq<char>) -> Option<Seq<char>> {
    if 1 <= text.len() <= 0xffff && forall|i: int|
        0 <= i < text.len() ==> token_char(#[trigger] text[i]) {
        Some(lowercase(text))
    } else {
        None
    }
}

/// `axum::http::HeaderName::from_bytes` takes a text exactly where it has from
/// one up to 65535 characters, each of them a letter or digit of ASCII or one of
/// ``!#$%&'*+-.^_`|~``; the name's `as_str` is then the text in lower case.
#[verifier::external_body]
fn read_header_name(text: &str) -> (r: Option<String>)
    ensures
        opt_text(r) == header_name(text@),
{
    HeaderName::from_bytes(text.as_bytes()).ok().map(|name| name.as_str().to_string())
}

/// Whether a text may be the value of a header: none of its bytes is a control
/// character other than a tab.
pub open spec fn header_value(text: Seq<char>) -> bool {
    forall|i: int|
        0 <= i < encode_utf8(text).len() ==> {
            let b = #[trigger] encode_utf8(text)[i];
            (b >= 32 && b != 127) || b == 9
        }
}

/// `axum::http::HeaderValue::from_str` takes a text exactly where every byte of
/// it is a tab, or is at least 32 and not 127.
#[verifier::external_body]
fn is_header_value(text: &str) -> (r: bool)
    ensures
        r == header_value(text@),
{
    HeaderValue::from_str(text).is_ok()
}

/// A data call that is served in process.
#[derive(Clone, Debug, PartialEq, Eq)]
pub struct LocalTDataRequest {
    pub path: String,
    pub query: OrdMap<String, String>,
}

/// Whether a host is this machine.
pub open spec fn loopback(host: Seq<char>) -> bool {
    host == "127.0.0.1"@ || host == "localhost"@ || host == "::1"@ || host == "[::1]"@
}

/// Whether a host is this machine.
pub fn is_loopback_host(host: &str) -> (r: bool)
    ensures
        r == loopback(host@),
{
    same(host, "127.0.0.1") || same(host, "localhost") || same(host, "::1") || same(host, "[::1]")
}

/// Whether a host is served by this process.
pub open spec fn local_host(host: Seq<char>, hosts: Set<Seq<char>>) -> bool {
    loopback(host) || hosts.contains(lowercase(host))
}

/// Whether a host is served by this process: this machine, or one of its own
/// public hosts in any case.
pub fn is_local_tdata_host(host: &str, local_tdata_hosts: &OrdSet<String>) -> (r: bool)
    requires
        local_tdata_hosts.wf(),
    ensures
        r == local_host(host@, local_tdata_hosts@),
{
    if is_loopback_host(host) {
        return true;
    }
    local_tdata_hosts.contains(&to_lowercase(host))
}

/// Whether a path is the content of a file.
pub open spec fn file_value_path(path: Seq<char>) -> bool {
    has_prefix(path, "Files('"@) && has_suffix(path, "')/$value"@)
}

/// Whether a path is the content of a file.
pub fn is_file_value_path(path: &str) -> (r: bool)
    ensures
        r == file_value_path(path@),
{
    starts_with(path, "Files('") && ends_with(path, "')/$value")
}

/// The path below the data root, if `raw` is there.
pub open spec fn data_path(raw: Seq<char>) -> Option<Seq<char>> {
    if raw == "/tdata"@ || raw == "/tdata/"@ {
        Some(Seq::empty())
    } else if has_prefix(raw, "/tdata/"@) {
        Some(raw.skip("/tdata/"@.len() as int))
    } else {
        None
    }
}

/// The values of the first `n` pairs of a query, the last one of each name.
pub open spec fn query_map(pairs: Seq<(Seq<char>, Seq<char>)>, n: int) -> Map<
    Seq<char>,
    Seq<char>,
>
    decreases n,
{
    if n <= 0 {
        Map::empty()
    } else {
        query_map(pairs, n - 1).insert(pairs[n - 1].0, pairs[n - 1].1)
    }
}

/// The data call that a URL makes in process, if it does: path and query.
pub open spec fn local_request(url: Option<UrlModel>, hosts: Set<Seq<char>>) -> Option<
    (Seq<char>, Map<Seq<char>, Seq<char>>),
> {
    match url {
        None => None,
        Some(u) => if (u.scheme != "http"@ && u.scheme != "https"@) || u.host is None
            || !local_host(u.host->0, hosts) {
            None
        } else {
            match data_path(u.path) {
                None => None,
                Some(path) => if file_value_path(path) {
                    None
                } else {
                    Some((path, query_map(u.query, u.query.len() as int)))
                },
            }
        },
    }
}

impl LocalTDataRequest {
    /// The data call that a URL with these parts makes in process.
    pub fn from_parts(parts: Option<UrlParts>, local_tdata_hosts: &OrdSet<String>) -> (r: Option<
        Self,
    >)
        requires
            local_tdata_hosts.wf(),
        ensures
            match r {
                Some(q) => q.query.wf() && local_request(opt_parts(parts), local_tdata_hosts@)
                    == Some((q.path@, q.query@)),
                None => local_request(opt_parts(parts), local_tdata_hosts@) is None,
            },
    {
        let (scheme, host, raw_path, pairs) = match parts {
            Some(p) => p,
            None => return None,
        };
        if !same(scheme.as_str(), "http") && !same(scheme.as_str(), "https") {
            return None;
        }
        let host = match host {
            Some(h) => h,
            None => return None,
        };
        if !is_local_tdata_host(host.as_str(), local_tdata_hosts) {
            return None;
        }
        let raw = raw_path.as_str();
        let path = if same(raw, "/tdata") || same(raw, "/tdata/") {
            String::new()
        } else {
            match strip_prefix(raw, "/tdata/") {
                Some(p) => p,
                None => return None,
            }
        };
        proof {
            assert(data_path(raw_path@) == Some(path@));
        }
        if is_file_value_path(path.as_str()) {
            return None;
        }
        let ghost views = pair_views(pairs@);
        let mut query: OrdMap<String, String> = OrdMap::new();
        let mut i: usize = 0;
        while i < pairs.len()
            invariant
                i <= pairs.len(),
                views == pair_views(pairs@),
                query.wf(),
                query@ == query_map(views, i as int),
            decreases pairs.len() - i,
        {
            proof {
                assert(views[i as int] == (pairs@[i as int].0@, pairs@[i as int].1@));
            }
            query.insert(pairs[i].0.clone(), pairs[i].1.clone());
            i = i + 1;
        }
        Some(LocalTDataRequest { path, query })
    }

    /// The data call that a URL makes in process, if it does: it is an HTTP URL
    /// of a host that this process serves, below the data root, and not the
    /// content of a file.
    pub fn parse(url: &str, local_tdata_hosts: &OrdSet<String>) -> (r: Option<Self>)
        requires
            local_tdata_hosts.wf(),
        ensures
            match r {
                Some(q) => q.query.wf() && local_request(url_of(url@), local_tdata_hosts@) == Some(
                    (q.path@, q.query@),
                ),
                None => local_request(url_of(url@), local_tdata_hosts@) is None,
            },
    {
        Self::from_parts(split_url(url), local_tdata_hosts)
    }
}

/// The methods that are served in process.
#[derive(Clone, Copy, Debug, PartialEq, Eq, Structural)]
pub enum LocalMethod {
    Get,
    Post,
}

/// How a call is served in process, if it is: with a method for it, and only
/// under the identity that the guest was admitted with.
pub fn local_call(is_local: bool, method: &str, authenticated: bool) -> (r: Option<LocalMethod>)
    ensures
        r == if !is_local || !authenticated {
            None
        } else if uppercase(method@) == "GET"@ {
            Some(LocalMethod::Get)
        } else if uppercase(method@) == "POST"@ {
            Some(LocalMethod::Post)
        } else {
            None
        },
{
    if !is_local || !authenticated {
        return None;
    }
    let upper = to_uppercase(method);
    if same(upper.as_str(), "GET") {
        Some(LocalMethod::Get)
    } else if same(upper.as_str(), "POST") {
        Some(LocalMethod::Post)
    } else {
        None
    }
}

/// The headers by which a caller asserts an authority: by name, and by how the
/// name begins.
#[derive(Clone, Debug, PartialEq, Eq)]
pub struct AuthorityHeaders {
    pub names: OrdSet<String>,
    pub prefixes: Vec<String>,
}

/// Whether a header asserts an authority.
pub open spec fn asserts_authority(rule: AuthorityHeaders, name: Seq<char>) -> bool {
    rule.names@.contains(name) || exists|i: int|
        0 <= i < rule.prefixes@.len() && has_prefix(name, (#[trigger] rule.prefixes@[i])@)
}

/// Whether a header asserts an authority.
pub fn is_caller_authority_header(rule: &AuthorityHeaders, name: &String) -> (r: bool)
    requires
        rule.names.wf(),
    ensures
        r == asserts_authority(*rule, name@),
{
    if rule.names.contains(name) {
        return true;
    }
    let mut i: usize = 0;
    while i < rule.prefixes.len()
        invariant
            i <= rule.prefixes.len(),
            !rule.names@.contains(name@),
            forall|k: int| 0 <= k < i ==> !has_prefix(name@, (#[trigger] rule.prefixes@[k])@),
        decreases rule.prefixes.len() - i,
    {
        if starts_with(name.as_str(), rule.prefixes[i].as_str()) {
            return true;
        }
        i = i + 1;
    }
    false
}

/// A guest's header: its name in normal form where it has one, its value, and
/// whether that may be one.
#[derive(Clone, Debug, PartialEq, Eq)]
pub struct GuestHeader {
    pub name: Option<String>,
    pub value: String,
    pub value_is_valid: bool,
}

/// What a guest's header holds.
pub struct HeaderModel {
    pub name: Option<Seq<char>>,
    pub value: Seq<char>,
    pub value_is_valid: bool,
}

impl View for GuestHeader {
    type V = HeaderModel;

    open spec fn view(&self) -> HeaderModel {
        HeaderModel {
            name: opt_text(self.name),
            value: self.value@,
            value_is_valid: self.value_is_valid,
        }
    }
}

/// What headers hold.
pub open spec fn header_views(headers: Seq<GuestHeader>) -> Seq<HeaderModel> {
    Seq::new(headers.len(), |i: int| headers[i]@)
}

/// Whether a guest's header goes with a call: it is well formed, names no tenant
/// and asserts no authority.
pub open spec fn goes_along(rule: AuthorityHeaders, h: HeaderModel) -> bool {
    &&& h.name is Some
    &&& h.name->0 != "x-tenant-id"@
    &&& !asserts_authority(rule, h.name->0)
    &&& h.value_is_valid
}

/// The headers among the first `n` that go with a call, the last one of each
/// name.
pub open spec fn kept_headers(rule: AuthorityHeaders, headers: Seq<HeaderModel>, n: int) -> Map<
    Seq<char>,
    Seq<char>,
>
    decreases n,
{
    if n <= 0 {
        Map::empty()
    } else if goes_along(rule, headers[n - 1]) {
        kept_headers(rule, headers, n - 1).insert(headers[n - 1].name->0, headers[n - 1].value)
    } else {
        kept_headers(rule, headers, n - 1)
    }
}

/// The guest's headers that go with a call.
pub fn keep_headers(rule: &AuthorityHeaders, headers: &Vec<GuestHeader>) -> (r: OrdMap<
    String,
    String,
>)
    requires
        rule.names.wf(),
    ensures
        r.wf(),
        r@ == kept_headers(*rule, header_views(headers@), headers@.len() as int),
{
    let ghost views = header_views(headers@);
    let mut map: OrdMap<String, String> = OrdMap::new();
    let mut i: usize = 0;
    while i < headers.len()
        invariant
            i <= headers.len(),
            rule.names.wf(),
            views == header_views(headers@),
            map.wf(),
            map@ == kept_headers(*rule, views, i as int),
        decreases headers.len() - i,
    {
        proof {
            assert(views[i as int] == headers@[i as int]@);
        }
        match &headers[i].name {
            Some(name) => {
                if !same(name.as_str(), "x-tenant-id") && !is_caller_authority_header(rule, name)
                    && headers[i].value_is_valid {
                    map.insert(name.clone(), headers[i].value.clone());
                }
            },
            None => {},
        }
        i = i + 1;
    }
    map
}

/// What the headers that a guest wrote hold.
pub open spec fn read_headers(raw: Seq<(String, String)>) -> Seq<HeaderModel> {
    Seq::new(
        raw.len(),
        |i: int|
            HeaderModel {
                name: header_name(raw[i].0@),
                value: raw[i].1@,
                value_is_valid: header_value(raw[i].1@),
            },
    )
}

/// The guest's headers that go with a call: none that names a tenant or asserts
/// an authority, and none that is not well formed.
pub fn header_map(rule: &AuthorityHeaders, headers: &Vec<(String, String)>) -> (r: OrdMap<
    String,
    String,
>)
    requires
        rule.names.wf(),
    ensures
        r.wf(),
        r@ == kept_headers(*rule, read_headers(headers@), headers@.len() as int),
{
    let mut read: Vec<GuestHeader> = Vec::new();
    let mut i: usize = 0;
    while i < headers.len()
        invariant
            i <= headers.len(),
            read.len() == i,
            forall|k: int| 0 <= k < i ==> (#[trigger] read@[k])@ == read_headers(headers@)[k],
        decreases headers.len() - i,
    {
        let name = read_header_name(headers[i].0.as_str());
        let value_is_valid = is_header_value(headers[i].1.as_str());
        read.push(GuestHeader { name, value: headers[i].1.clone(), value_is_valid });
        i = i + 1;
    }
    proof {
        assert(header_views(read@) =~= read_headers(headers@));
    }
    keep_headers(rule, &read)
}

/// A header that names a tenant is known in whatever case it is written.
pub proof fn tenant_headers_are_known_in_any_case(text: Seq<char>)
    requires
        lowercase(text) == "x-tenant-id"@,
    ensures
        header_name(text) == Some("x-tenant-id"@),
{
    reveal_strlit("x-tenant-id");
    assert(text.len() == lowercase(text).len());
    assert forall|i: int| 0 <= i < text.len() implies token_char(#[trigger] text[i]) by {
        assert(lowercase(text)[i] == lower_char(text[i]));
        assert(ascii_upper(text[i]) || text[i] == "x-tenant-id"@[i]);
    }
}

/// A guest cannot choose its tenant or assert an authority: no header that does
/// so goes with its call.
pub proof fn guests_assert_nothing(
    rule: AuthorityHeaders,
    headers: Seq<HeaderModel>,
    n: int,
    name: Seq<char>,
)
    requires
        0 <= n <= headers.len(),
        kept_headers(rule, headers, n).contains_key(name),
    ensures
        name != "x-tenant-id"@,
        !asserts_authority(rule, name),
    decreases n,
{
    if n > 0 {
        let h = headers[n - 1];
        if goes_along(rule, h) && h.name->0 == name {
        } else {
            guests_assert_nothing(rule, headers, n - 1, name);
        }
    }
}

proof fn the_last_pair_counts(pairs: Seq<(Seq<char>, Seq<char>)>, n: int, name: Seq<char>)
    requires
        0 <= n <= pairs.len(),
    ensures
        query_map(pairs, n).contains_key(name) <==> exists|i: int|
            0 <= i < n && (#[trigger] pairs[i]).0 == name,
        forall|i: int|
            0 <= i < n && (#[trigger] pairs[i]).0 == name && (forall|j: int|
                i < j < n ==> (#[trigger] pairs[j]).0 != name) ==> query_map(pairs, n)[name]
                == pairs[i].1,
    decreases n,
{
    if n > 0 {
        the_last_pair_counts(pairs, n - 1, name);
        if pairs[n - 1].0 != name {
            if exists|i: int| 0 <= i < n && (#[trigger] pairs[i]).0 == name {
                let i = choose|i: int| 0 <= i < n && (#[trigger] pairs[i]).0 == name;
                assert(i < n - 1);
            }
            assert forall|i: int|
                0 <= i < n && (#[trigger] pairs[i]).0 == name && (forall|j: int|
                    i < j < n ==> (#[trigger] pairs[j]).0 != name) implies query_map(pairs, n)[name]
                == pairs[i].1 by {
                assert forall|j: int| i < j < n - 1 implies (#[trigger] pairs[j]).0 != name by {}
            }
        } else {
            assert(pairs[n - 1].0 == name);
        }
    }
}

/// A request is answered here only if it goes to this host by HTTP and asks for
/// data, and not for the bytes of a file. It asks for what stands behind the
/// root of the data, and of a query the last value under a name counts.
pub proof fn only_data_of_this_host_is_answered_here(
    parts: Option<UrlParts>,
    hosts: &OrdSet<String>,
    r: Option<LocalTDataRequest>,
    name: Seq<char>,
)
    requires
        hosts.wf(),
        call_ensures(LocalTDataRequest::from_parts, (parts, hosts), r),
        r is Some,
    ensures
        parts is Some,
        ({
            let u = parts_model(parts->0);
            let q = r->0;
            &&& u.scheme == "http"@ || u.scheme == "https"@
            &&& u.host is Some
            &&& {
                ||| u.host->0 == "127.0.0.1"@
                ||| u.host->0 == "localhost"@
                ||| u.host->0 == "::1"@
                ||| u.host->0 == "[::1]"@
                ||| hosts@.contains(lowercase(u.host->0))
            }
            &&& u.path == "/tdata"@ || u.path == "/tdata/"@ + q.path@
            &&& u.path == "/tdata"@ ==> q.path@.len() == 0
            &&& !(has_prefix(q.path@, "Files('"@) && has_suffix(q.path@, "')/$value"@))
            &&& q.query@.contains_key(name) <==> exists|i: int|
                0 <= i < u.query.len() && (#[trigger] u.query[i]).0 == name
            &&& forall|i: int|
                0 <= i < u.query.len() && (#[trigger] u.query[i]).0 == name && (forall|j: int|
                    i < j < u.query.len() ==> (#[trigger] u.query[j]).0 != name)
                    ==> q.query@[name] == u.query[i].1
        }),
{
    let u = parts_model(parts->0);
    let q = r->0;
    let root = "/tdata/"@;
    the_last_pair_counts(u.query, u.query.len() as int, name);
    reveal_strlit("/tdata");
    reveal_strlit("/tdata/");
    assert("/tdata"@ != root) by {
        assert("/tdata"@.len() != root.len());
    }
    if u.path == root {
        assert(root + q.path@ =~= root);
    } else if u.path != "/tdata"@ {
        assert(u.path =~= root + q.path@) by {
            assert(u.path.subrange(0, root.len() as int) == root);
            assert(u.path =~= u.path.subrange(0, root.len() as int) + u.path.skip(
                root.len() as int,
            ));
        }
    }
}

/// Data of this host is answered here: a request by HTTP to it for anything
/// behind the root of the data, but for the bytes of a file, is.
pub proof fn data_of_this_host_is_answered_here(
    parts: Option<UrlParts>,
    hosts: &OrdSet<String>,
    r: Option<LocalTDataRequest>,
    rest: Seq<char>,
)
    requires
        hosts.wf(),
        call_ensures(LocalTDataRequest::from_parts, (parts, hosts), r),
        parts is Some,
        parts_model(parts->0).scheme == "http"@ || parts_model(parts->0).scheme == "https"@,
        parts_model(parts->0).host is Some,
        parts_model(parts->0).host->0 == "localhost"@ || hosts@.contains(
            lowercase(parts_model(parts->0).host->0),
        ),
        parts_model(parts->0).path == "/tdata/"@ + rest,
        !has_prefix(rest, "Files('"@) || !has_suffix(rest, "')/$value"@),
    ensures
        r is Some,
        r->0.path@ == rest,
{
    let path = parts_model(parts->0).path;
    let root = "/tdata/"@;
    reveal_strlit("/tdata");
    reveal_strlit("/tdata/");
    reveal_strlit("Files('");
    assert(path.len() == root.len() + rest.len());
    assert(path.subrange(0, root.len() as int) =~= root);
    assert(path.skip(root.len() as int) =~= rest);
    if path == root {
        assert(rest =~= Seq::<char>::empty());
    }
}

proof fn the_last_header_counts(
    rule: AuthorityHeaders,
    headers: Seq<HeaderModel>,
    n: int,
    name: Seq<char>,
)
    requires
        0 <= n <= headers.len(),
    ensures
        kept_headers(rule, headers, n).contains_key(name) <==> exists|i: int|
            0 <= i < n && goes_along(rule, #[trigger] headers[i]) && headers[i].name->0 == name,
        forall|i: int|
            0 <= i < n && goes_along(rule, #[trigger] headers[i]) && headers[i].name->0 == name && (
            forall|j: int|
                i < j < n ==> !(goes_along(rule, #[trigger] headers[j]) && headers[j].name->0
                    == name)) ==> kept_headers(rule, headers, n)[name] == headers[i].value,
    decreases n,
{
    if n > 0 {
        the_last_header_counts(rule, headers, n - 1, name);
        let h = headers[n - 1];
        if goes_along(rule, h) && h.name->0 == name {
            assert(headers[n - 1].name->0 == name);
        } else {
            if exists|i: int|
                0 <= i < n && goes_along(rule, #[trigger] headers[i]) && headers[i].name->0
                    == name {
                let i = choose|i: int|
                    0 <= i < n && goes_along(rule, #[trigger] headers[i]) && headers[i].name->0
                        == name;
                assert(i < n - 1);
            }
            assert forall|i: int|
                0 <= i < n && goes_along(rule, #[trigger] headers[i]) && headers[i].name->0 == name
                    && (forall|j: int|
                    i < j < n ==> !(goes_along(rule, #[trigger] headers[j]) && headers[j].name->0
                        == name)) implies kept_headers(rule, headers, n)[name]
                == headers[i].value by {
                assert(i < n - 1);
                assert forall|j: int| i < j < n - 1 implies !(goes_along(rule, #[trigger] headers[j])
                    && headers[j].name->0 == name) by {}
            }
        }
    }
}

/// A header that a guest may send goes along with its value: one with a valid
/// name and value that names no tenant and asserts no authority. Of several
/// under one name the last counts.
pub proof fn a_plain_header_goes_along(
    rule: &AuthorityHeaders,
    headers: &Vec<GuestHeader>,
    r: OrdMap<String, String>,
    at: int,
    name: Seq<char>,
)
    requires
        rule.names.wf(),
        call_ensures(keep_headers, (rule, headers), r),
        0 <= at < headers@.len(),
        headers@[at]@.name == Some(name),
        headers@[at]@.value_is_valid,
        name != "x-tenant-id"@,
        !rule.names@.contains(name),
        forall|i: int|
            0 <= i < rule.prefixes@.len() ==> !has_prefix(name, (#[trigger] rule.prefixes@[i])@),
        forall|j: int|
            at < j < headers@.len() ==> (#[trigger] headers@[j])@.name != Some(name)
                || !headers@[j]@.value_is_valid,
    ensures
        r@.contains_key(name),
        r@[name] == headers@[at]@.value,
{
    let hs = header_views(headers@);
    the_last_header_counts(*rule, hs, hs.len() as int, name);
    assert(hs[at] == headers@[at]@);
    assert(goes_along(*rule, hs[at]));
    assert forall|j: int| at < j < hs.len() implies !(goes_along(*rule, #[trigger] hs[j])
        && hs[j].name->0 == name) by {
        assert(hs[j] == headers@[j]@);
    }
}

/// What goes along was sent: under each name that is kept there was a header of
/// that name, with a valid value.
pub proof fn no_header_is_made_up(
    rule: &AuthorityHeaders,
    headers: &Vec<GuestHeader>,
    r: OrdMap<String, String>,
    name: Seq<char>,
)
    requires
        rule.names.wf(),
        call_ensures(keep_headers, (rule, headers), r),
        r@.contains_key(name),
    ensures
        name != "x-tenant-id"@,
        !rule.names@.contains(name),
        exists|i: int|
            0 <= i < headers@.len() && (#[trigger] headers@[i])@.name == Some(name)
                && headers@[i]@.value_is_valid,
{
    let hs = header_views(headers@);
    the_last_header_counts(*rule, hs, hs.len() as int, name);
    let i = choose|i: int|
        0 <= i < hs.len() && goes_along(*rule, #[trigger] hs[i]) && hs[i].name->0 == name;
    assert(hs[i] == headers@[i]@);
    assert(headers@[i]@.name == Some(name));
}

/// A call is made here only for a caller that is known, and only to read or to
/// post.
pub proof fn a_local_call_is_of_a_known_caller(
    is_local: bool,
    method: &str,
    authenticated: bool,
    r: Option<LocalMethod>,
)
    requires
        call_ensures(local_call, (is_local, method, authenticated), r),
    ensures
        r is Some ==> is_local && authenticated,
        is_local && authenticated ==> (r == Some(LocalMethod::Get) <==> uppercase(method@)
            == "GET"@),
        is_local && authenticated ==> (r == Some(LocalMethod::Post) <==> uppercase(method@)
            == "POST"@),
{
    reveal_strlit("GET");
    reveal_strlit("POST");
    assert("GET"@.len() != "POST"@.len());
}

} // verus!
