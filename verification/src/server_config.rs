//! What the server reads from its environment once, at startup.

use vstd::prelude::*;
use vstd::string::*;

use crate::ordered::OrdSet;
use crate::text::before_first;
use crate::text::before_first_char;
use crate::text::after_first_match;
use crate::text::chars_of;
use crate::text::decimal;
use crate::text::decimal_of;
use crate::text::find_from;
use crate::text::is_white_space;
use crate::text::lowercase;
use crate::text::opt_str;
use crate::text::opt_text;
use crate::text::parse_unsigned;
use crate::text::parse_unsigned_of;
use crate::text::same;
use crate::text::split;
use crate::text::split_char;
use crate::text::string_of;
use crate::text::strip_end_char;
use crate::text::strip_start_char;
use crate::text::texts;
use crate::text::to_lowercase;
use crate::text::trim;
use crate::text::trim_end_char;
use crate::text::trim_start_char;
use crate::text::trimmed;
use crate::text::white_space;
use crate::time::Duration;
use crate::time::NANOS_PER_SEC;

verus! {

/// The key of one fenced executor of an awaited delivery.
pub fn awaited_owner_key(delivery_id: &str, fencing_token: u64) -> (r: String)
    ensures
        r@ == delivery_id@ + ":"@ + decimal(fencing_token as nat),
{
    let mut text = delivery_id.to_owned();
    text.append(":");
    text.append(decimal_of(fencing_token).as_str());
    text
}

/// The truth value that a word says, if it says one.
pub open spec fn flag_word(word: Seq<char>) -> Option<bool> {
    if word == "0"@ || word == "false"@ || word == "off"@ || word == "no"@ {
        Some(false)
    } else if word == "1"@ || word == "true"@ || word == "on"@ || word == "yes"@ {
        Some(true)
    } else {
        None
    }
}

/// Reads a switch: what its word says, in any case and with white space around
/// it, and `default` where it is not set or says neither.
pub fn env_bool(value: Option<&str>, default: bool) -> (r: bool)
    ensures
        r == match value {
            Some(v) => match flag_word(lowercase(trimmed(v@))) {
                Some(b) => b,
                None => default,
            },
            None => default,
        },
{
    match value {
        None => default,
        Some(v) => {
            let word = to_lowercase(trim(v).as_str());
            let w = word.as_str();
            if same(w, "0") || same(w, "false") || same(w, "off") || same(w, "no") {
                false
            } else if same(w, "1") || same(w, "true") || same(w, "on") || same(w, "yes") {
                true
            } else {
                default
            }
        },
    }
}

/// Reads a number of seconds: 5 where it is not set or not a number.
pub fn env_timeout(value: Option<&str>) -> (r: Duration)
    ensures
        r@ == NANOS_PER_SEC * match value {
            Some(v) => match parse_unsigned(trimmed(v@), u64::MAX as nat) {
                Some(n) => n as int,
                None => 5,
            },
            None => 5,
        },
{
    let secs: u64 = match value {
        None => 5,
        Some(v) => match parse_unsigned_of(trim(v).as_str(), u64::MAX) {
            Some(n) => n,
            None => 5,
        },
    };
    Duration::from_secs(secs)
}

/// Reads a size: `default` where it is not set, not a number, or zero.
pub fn env_usize(value: Option<&str>, default: usize) -> (r: usize)
    ensures
        r == match value {
            Some(v) => match parse_unsigned(trimmed(v@), usize::MAX as nat) {
                Some(n) => if n > 0 {
                    n as usize
                } else {
                    default
                },
                None => default,
            },
            None => default,
        },
        default > 0 ==> r > 0,
{
    match value {
        None => default,
        Some(v) => match parse_unsigned_of(trim(v).as_str(), usize::MAX as u64) {
            Some(n) => if n > 0 {
                n as usize
            } else {
                default
            },
            None => default,
        },
    }
}

/// How many entity states the server remembers: 10,000 unless set otherwise,
/// and always at least one.
pub fn state_cache_budget(value: Option<&str>) -> (r: usize)
    ensures
        r == match value {
            Some(v) => match parse_unsigned(trimmed(v@), usize::MAX as nat) {
                Some(n) => if n > 0 {
                    n as usize
                } else {
                    10_000
                },
                None => 10_000,
            },
            None => 10_000,
        },
        r > 0,
{
    env_usize(value, 10_000)
}

/// The authority part of what may be a URL, a domain or an address.
pub open spec fn authority(raw: Seq<char>) -> Seq<char> {
    let all = strip_end_char(trimmed(raw), '/');
    let rest = match find_from(all, "://"@, 0) {
        Some(i) => all.skip(i + "://"@.len()),
        None => all,
    };
    trimmed(before_first(rest, '/'))
}

/// The host of an authority: without brackets, port and outer dots, in lower
/// case.
pub open spec fn host_of(authority: Seq<char>) -> Seq<char> {
    let bare = if authority.len() > 0 && authority[0] == '[' {
        before_first(authority.drop_first(), ']')
    } else {
        before_first(authority, ':')
    };
    lowercase(strip_end_char(strip_start_char(trimmed(bare), '.'), '.'))
}

pub open spec fn has_white_space(s: Seq<char>) -> bool {
    exists|i: int| 0 <= i < s.len() && white_space(#[trigger] s[i])
}

/// The host that `raw` names, if it names one: no host is empty or has white
/// space in it.
pub open spec fn local_host(raw: Seq<char>) -> Option<Seq<char>> {
    if strip_end_char(trimmed(raw), '/').len() == 0 || authority(raw).len() == 0 {
        None
    } else {
        let host = host_of(authority(raw));
        if host.len() == 0 || has_white_space(host) {
            None
        } else {
            Some(host)
        }
    }
}

/// The host that a URL, a domain or an address names.
pub fn normalize_local_tdata_host(raw: &str) -> (r: Option<String>)
    ensures
        opt_text(r) == local_host(raw@),
{
    let all = trim_end_char(trim(raw).as_str(), '/');
    if all.as_str().is_empty() {
        return None;
    }
    let rest = match after_first_match(all.as_str(), "://") {
        Some(rest) => rest,
        None => all,
    };
    let hostish = trim(before_first_char(rest.as_str(), '/').as_str());
    if hostish.as_str().is_empty() {
        return None;
    }
    let v = chars_of(hostish.as_str());
    let bare = if v.len() > 0 && v[0] == '[' {
        let inner = string_of(&v, 1, v.len());
        proof {
            assert(inner@ =~= hostish@.drop_first());
        }
        before_first_char(inner.as_str(), ']')
    } else {
        before_first_char(hostish.as_str(), ':')
    };
    let dotless = trim_end_char(trim_start_char(trim(bare.as_str()).as_str(), '.').as_str(), '.');
    let host = to_lowercase(dotless.as_str());
    let h = chars_of(host.as_str());
    if h.len() == 0 {
        return None;
    }
    let mut i: usize = 0;
    while i < h.len()
        invariant
            i <= h.len(),
            h@ == host@,
            host@ == host_of(authority(raw@)),
            strip_end_char(trimmed(raw@), '/').len() > 0,
            authority(raw@).len() > 0,
            forall|k: int| 0 <= k < i ==> !white_space(#[trigger] host@[k]),
        decreases h.len() - i,
    {
        if is_white_space(h[i]) {
            return None;
        }
        i = i + 1;
    }
    Some(host)
}

/// The hosts that some piece of a comma-separated list, or some URL, names.
pub open spec fn names_host(
    configured: Option<Seq<char>>,
    urls: Seq<Seq<char>>,
    host: Seq<char>,
) -> bool {
    ||| configured is Some && exists|i: int|
        0 <= i < split(configured->0, ',').len() && local_host(
            #[trigger] split(configured->0, ',')[i],
        ) == Some(host)
    ||| exists|i: int| 0 <= i < urls.len() && local_host(#[trigger] urls[i]) == Some(host)
}

fn add_hosts(hosts: &mut OrdSet<String>, raw: &Vec<String>)
    requires
        old(hosts).wf(),
    ensures
        final(hosts).wf(),
        forall|h: Seq<char>| #[trigger]
            final(hosts)@.contains(h) == (old(hosts)@.contains(h) || exists|i: int|
                0 <= i < raw.len() && local_host(#[trigger] texts(raw@)[i]) == Some(h)),
{
    let ghost all = texts(raw@);
    let mut i: usize = 0;
    while i < raw.len()
        invariant
            i <= raw.len(),
            hosts.wf(),
            all == texts(raw@),
            forall|h: Seq<char>| #[trigger]
                hosts@.contains(h) == (old(hosts)@.contains(h) || exists|k: int|
                    0 <= k < i && local_host(#[trigger] all[k]) == Some(h)),
        decreases raw.len() - i,
    {
        let ghost before = hosts@;
        proof {
            assert(all[i as int] == raw@[i as int]@);
        }
        match normalize_local_tdata_host(raw[i].as_str()) {
            Some(host) => {
                let ghost x = host@;
                let _fresh = hosts.insert(host);
                proof {
                    assert forall|h: Seq<char>| #[trigger] hosts@.contains(h) == (old(
                        hosts,
                    )@.contains(h) || exists|k: int|
                        0 <= k < i + 1 && local_host(#[trigger] all[k]) == Some(h)) by {
                        if hosts@.contains(h) && !before.contains(h) {
                            assert(local_host(all[i as int]) == Some(h));
                        }
                    }
                }
            },
            None => {},
        }
        i = i + 1;
    }
}

/// The hosts whose data calls are served in process: those of the configured
/// list and those of the public URLs that are set.
pub fn env_local_tdata_hosts(configured: Option<&str>, public_urls: &Vec<String>) -> (r: OrdSet<
    String,
>)
    ensures
        r.wf(),
        forall|h: Seq<char>| #[trigger]
            r@.contains(h) == names_host(opt_str(configured), texts(public_urls@), h),
{
    let mut hosts: OrdSet<String> = OrdSet::new();
    match configured {
        Some(raw) => {
            let pieces = split_char(raw, ',');
            proof {
                assert(texts(pieces@).len() == pieces@.len());
            }
            add_hosts(&mut hosts, &pieces);
        },
        None => {},
    }
    proof {
        assert(texts(public_urls@).len() == public_urls@.len());
    }
    add_hosts(&mut hosts, public_urls);
    hosts
}

/// Whether `tenant` is one of the names of a comma-separated list.
pub open spec fn lists(raw: Seq<char>, tenant: Seq<char>) -> bool {
    &&& tenant.len() > 0
    &&& exists|i: int|
        0 <= i < split(raw, ',').len() && trimmed(#[trigger] split(raw, ',')[i]) == tenant
}

/// The tenants that opted in to the export of raw model content: the names of a
/// comma-separated list, without white space around them, and never an empty
/// name.
pub fn parse_llm_content_export_tenants(raw: &str) -> (r: OrdSet<String>)
    ensures
        r.wf(),
        forall|t: Seq<char>| #[trigger] r@.contains(t) == lists(raw@, t),
{
    let pieces = split_char(raw, ',');
    let ghost all = split(raw@, ',');
    let mut set: OrdSet<String> = OrdSet::new();
    let mut i: usize = 0;
    proof {
        assert(texts(pieces@).len() == pieces@.len());
    }
    while i < pieces.len()
        invariant
            i <= pieces.len(),
            pieces.len() == all.len(),
            all == texts(pieces@),
            all == split(raw@, ','),
            set.wf(),
            forall|t: Seq<char>| #[trigger]
                set@.contains(t) == (t.len() > 0 && exists|k: int|
                    0 <= k < i && trimmed(#[trigger] all[k]) == t),
        decreases pieces.len() - i,
    {
        let ghost before = set@;
        proof {
            assert(all[i as int] == pieces@[i as int]@);
        }
        let name = trim(pieces[i].as_str());
        if !name.as_str().is_empty() {
            let ghost x = name@;
            let _fresh = set.insert(name);
            proof {
                assert forall|t: Seq<char>| #[trigger] set@.contains(t) == (t.len() > 0
                    && exists|k: int| 0 <= k < i + 1 && trimmed(#[trigger] all[k]) == t) by {
                    if set@.contains(t) && !before.contains(t) {
                        assert(trimmed(all[i as int]) == t);
                    }
                }
            }
        }
        i = i + 1;
    }
    set
}

/// Whether a tenant exports raw model content: it opted in, or all did.
pub open spec fn exports(opted_in: Set<Seq<char>>, tenant: Seq<char>) -> bool {
    opted_in.contains("*"@) || opted_in.contains(tenant)
}

/// Whether `tenant` exports raw model content.
pub fn tenant_exports_llm_content(opted_in: &OrdSet<String>, tenant: &str) -> (r: bool)
    requires
        opted_in.wf(),
    ensures
        r == exports(opted_in@, tenant@),
{
    opted_in.contains(&"*".to_owned()) || opted_in.contains(&tenant.to_owned())
}

/// Raw model content is exported by nobody unless someone opted in, and then
/// only by those who did, if not all did.
pub proof fn export_is_denied_by_default(opted_in: Set<Seq<char>>, tenant: Seq<char>)
    ensures
        opted_in == Set::<Seq<char>>::empty() ==> !exports(opted_in, tenant),
        !opted_in.contains("*"@) && exports(opted_in, tenant) ==> opted_in.contains(tenant),
{
}

/// Whether `h` is a plain host name in lower case.
pub open spec fn plain_host(h: Seq<char>) -> bool {
    &&& h.len() > 0
    &&& h[0] != '.'
    &&& h[h.len() - 1] != '.'
    &&& forall|i: int| 0 <= i < h.len() ==> plain_host_char(#[trigger] h[i])
}

/// A character of a plain host name.
pub open spec fn plain_host_char(c: char) -> bool {
    crate::text::ascii_lower(c) || crate::text::ascii_digit(c) || c == '-' || c == '.'
}

/// Whether `t` can follow a host: a port, a path or both.
pub open spec fn follows_host(t: Seq<char>) -> bool {
    &&& t.len() > 0 ==> t[0] == ':' || t[0] == '/'
    &&& forall|i: int| 0 <= i < t.len() ==> !white_space(#[trigger] t[i])
}

proof fn plain_characters(c: char)
    requires
        plain_host_char(c),
    ensures
        !white_space(c),
        c != '/',
        c != ':',
        c != '[',
        crate::text::lower_char(c) == c,
{
}

proof fn nothing_to_trim(s: Seq<char>)
    requires
        s.len() > 0,
        !white_space(s[0]),
        !white_space(s[s.len() - 1]),
    ensures
        trimmed(s) == s,
{
}

proof fn the_host_of(h: Seq<char>, t: Seq<char>)
    requires
        plain_host(h),
        follows_host(t),
    ensures
        trimmed(before_first(h + t, '/')).len() > 0,
        host_of(trimmed(before_first(h + t, '/'))) == h,
{
    let s = h + t;
    let n = h.len() as int;
    let b = before_first(s, '/');
    assert forall|i: int| 0 <= i < n implies !white_space(#[trigger] h[i]) && h[i] != '/' && h[i]
        != ':' && h[i] != '[' && crate::text::lower_char(h[i]) == h[i] by {
        plain_characters(h[i]);
    }
    assert forall|i: int| 0 <= i < s.len() implies !white_space(#[trigger] s[i]) by {
        if i >= n {
            assert(s[i] == t[i - n]);
        }
    }
    crate::text::what_stands_before_the_first(s, '/');
    if b.len() < n {
        assert(s[b.len() as int] == h[b.len() as int]);
    }
    assert(b.len() >= n);
    assert(b[0] == s[0] && s[0] == h[0]);
    assert(b[b.len() - 1] == s[b.len() - 1]);
    nothing_to_trim(b);
    assert(trimmed(b) == b);
    crate::text::what_stands_before_the_first(b, ':');
    let bare = before_first(b, ':');
    assert forall|i: int| 0 <= i < n implies #[trigger] b[i] == h[i] by {
        assert(b[i] == s[i]);
    }
    if bare.len() < n {
        assert(b[bare.len() as int] == h[bare.len() as int]);
    }
    if bare.len() > n {
        assert(b[n] != ':');
        assert(b[n] == s[n]);
        assert(s[n] == t[0]);
    }
    assert(bare =~= h);
    nothing_to_trim(h);
    assert(lowercase(h) =~= h);
}

proof fn stripped_at_the_end(front: Seq<char>, tail: Seq<char>) -> (j: int)
    requires
        front.len() > 0,
        front[front.len() - 1] != '/',
    ensures
        0 <= j <= tail.len(),
        strip_end_char(front + tail, '/') == front + tail.take(j),
    decreases tail.len(),
{
    let s = front + tail;
    if tail.len() == 0 {
        assert(s =~= front);
        assert(front + tail.take(0) =~= front);
        0
    } else if tail.last() == '/' {
        let j = stripped_at_the_end(front, tail.drop_last());
        assert(s.drop_last() =~= front + tail.drop_last());
        assert(tail.drop_last().take(j) =~= tail.take(j));
        j
    } else {
        assert(s.last() == tail.last());
        assert(tail.take(tail.len() as int) =~= tail);
        tail.len() as int
    }
}

proof fn nothing_to_trim_around(front: Seq<char>, tail: Seq<char>)
    requires
        front.len() > 0,
        !white_space(front[0]),
        !white_space(front[front.len() - 1]),
        follows_host(tail),
    ensures
        trimmed(front + tail) == front + tail,
{
    let s = front + tail;
    if tail.len() > 0 {
        assert(s[s.len() - 1] == tail[tail.len() - 1]);
    } else {
        assert(s =~= front);
    }
    nothing_to_trim(s);
}

proof fn a_plain_host_has_no_white_space(h: Seq<char>)
    requires
        plain_host(h),
    ensures
        !has_white_space(h),
        h[h.len() - 1] != '/',
        !white_space(h[0]),
        !white_space(h[h.len() - 1]),
        forall|i: int| 0 <= i < h.len() ==> #[trigger] h[i] != ':',
{
    assert forall|i: int| 0 <= i < h.len() implies !white_space(#[trigger] h[i]) && h[i] != '/'
        && h[i] != ':' by {
        plain_characters(h[i]);
    }
}

proof fn a_host_is_found_without_a_scheme(h: Seq<char>, tail: Seq<char>)
    requires
        plain_host(h),
        follows_host(tail),
        forall|k: int|
            0 <= k && k + 3 <= tail.len() ==> #[trigger] tail.subrange(k, k + 3) != "://"@,
    ensures
        local_host(h + tail) == Some(h),
{
    reveal_strlit("://");
    let mark = "://"@;
    let n = h.len() as int;
    a_plain_host_has_no_white_space(h);
    nothing_to_trim_around(h, tail);
    let j = stripped_at_the_end(h, tail);
    let rest = tail.take(j);
    let all = h + rest;
    crate::text::found_is_first(all, mark, 0);
    if let Some(i) = find_from(all, mark, 0) {
        assert(all[i] == all.subrange(i, i + 3)[0]);
        assert(all[i] == ':');
        if i < n {
            assert(all[i] == h[i]);
        } else {
            assert(tail.subrange(i - n, i - n + 3) =~= all.subrange(i, i + 3));
        }
    }
    assert(find_from(all, mark, 0) is None);
    assert(follows_host(rest)) by {
        if rest.len() > 0 {
            assert(rest[0] == tail[0]);
        }
    }
    the_host_of(h, rest);
}

proof fn a_host_is_found_behind_a_scheme(scheme: Seq<char>, h: Seq<char>, tail: Seq<char>)
    requires
        plain_host(h),
        follows_host(tail),
        plain_host(scheme),
    ensures
        local_host(scheme + "://"@ + h + tail) == Some(h),
{
    reveal_strlit("://");
    let mark = "://"@;
    let m = scheme.len() as int;
    a_plain_host_has_no_white_space(h);
    a_plain_host_has_no_white_space(scheme);
    let front = scheme + mark + h;
    assert(front[0] == scheme[0]);
    assert(front[front.len() - 1] == h[h.len() - 1]);
    nothing_to_trim_around(front, tail);
    let j = stripped_at_the_end(front, tail);
    let rest = tail.take(j);
    let all = front + rest;
    crate::text::found_is_first(all, mark, 0);
    assert(all.subrange(m, m + 3) =~= mark);
    assert(find_from(all, mark, 0) is Some);
    let i = find_from(all, mark, 0)->0;
    assert(i <= m);
    assert(all[i] == all.subrange(i, i + 3)[0]);
    assert(all[i] == ':');
    if i < m {
        assert(all[i] == scheme[i]);
    }
    assert(all.skip(m + 3) =~= h + rest);
    assert(follows_host(rest)) by {
        if rest.len() > 0 {
            assert(rest[0] == tail[0]);
        }
    }
    the_host_of(h, rest);
}

/// A host is found in its URL whatever follows it: with or without a scheme, a
/// port and a path, a plain host name is taken as it is.
pub proof fn a_host_is_found_in_its_url(scheme: Seq<char>, h: Seq<char>, tail: Seq<char>)
    requires
        plain_host(h),
        follows_host(tail),
        plain_host(scheme),
        forall|k: int|
            0 <= k && k + 3 <= tail.len() ==> #[trigger] tail.subrange(k, k + 3) != "://"@,
    ensures
        local_host(h + tail) == Some(h),
        local_host(scheme + "://"@ + h + tail) == Some(h),
{
    a_host_is_found_without_a_scheme(h, tail);
    a_host_is_found_behind_a_scheme(scheme, h, tail);
}

/// What is taken for a host is not empty, has no white space and no capital
/// letter.
pub proof fn a_host_is_plain_text(raw: &str, r: Option<String>, i: int)
    requires
        call_ensures(normalize_local_tdata_host, (raw,), r),
        r is Some,
        0 <= i < r->0@.len(),
    ensures
        r->0@.len() > 0,
        !white_space(r->0@[i]),
        !(65 <= r->0@[i] as u32 <= 90),
{
    let host = r->0@;
    assert(host == host_of(authority(raw@)));
    assert(!has_white_space(host));
    let a = authority(raw@);
    let bare = if a.len() > 0 && a[0] == '[' {
        before_first(a.drop_first(), ']')
    } else {
        before_first(a, ':')
    };
    let s = strip_end_char(strip_start_char(trimmed(bare), '.'), '.');
    assert(host == lowercase(s));
    lowered(s[i]);
}

proof fn lowered(c: char)
    ensures
        !(65 <= crate::text::lower_char(c) as u32 <= 90),
{
}

/// A flag that says nothing is the default, and one that says something is not
/// changed by the default. White space around it and capital letters say
/// nothing.
pub proof fn a_flag_is_read_or_defaulted(
    value: Option<&str>,
    on: bool,
    off: bool,
    other: &str,
    again: bool,
)
    requires
        call_ensures(env_bool, (value, true), on),
        call_ensures(env_bool, (value, false), off),
        call_ensures(env_bool, (Some(other), true), again),
    ensures
        value is None ==> on && !off,
        value is Some && lowercase(trimmed(value->0@)) == lowercase(trimmed(other@)) ==> on
            == again,
        value is Some && (value->0@ == "0"@ || value->0@ == "false"@ || value->0@ == "off"@
            || value->0@ == "no"@) && lowercase(trimmed(value->0@)) == value->0@ ==> !on && !off,
        value is Some && (value->0@ == "1"@ || value->0@ == "true"@ || value->0@ == "on"@
            || value->0@ == "yes"@) && lowercase(trimmed(value->0@)) == value->0@ ==> on && off,
        on == off || (on && !off),
{
    reveal_strlit("0");
    reveal_strlit("false");
    reveal_strlit("off");
    reveal_strlit("no");
    reveal_strlit("1");
    reveal_strlit("true");
    reveal_strlit("on");
    reveal_strlit("yes");
    assert("0"@[0] == '0' && "false"@[0] == 'f' && "off"@[1] == 'f' && "no"@[0] == 'n');
    assert("1"@[0] == '1' && "true"@[0] == 't' && "on"@[1] == 'n' && "yes"@[0] == 'y');
    assert("off"@[0] == 'o' && "on"@[0] == 'o');
}

/// A count is read where it is a positive number, and is otherwise the default.
pub proof fn a_count_is_read_or_defaulted(
    value: Option<&str>,
    default: usize,
    r: usize,
    budget: usize,
)
    requires
        call_ensures(env_usize, (value, default), r),
        call_ensures(state_cache_budget, (value,), budget),
    ensures
        value is None ==> r == default,
        value is Some ==> {
            let read = parse_unsigned(trimmed(value->0@), usize::MAX as nat);
            &&& read is Some && read->0 > 0 ==> r == read->0 && budget == read->0
            &&& read is None || read->0 == 0 ==> r == default && budget == 10_000
        },
        value is None ==> budget == 10_000,
{
}

/// A tenant is on a list exactly if the list, cut at its commas, has it.
pub proof fn a_tenant_is_listed_by_its_name(raw: &str, r: OrdSet<String>, tenant: Seq<char>)
    requires
        call_ensures(parse_llm_content_export_tenants, (raw,), r),
        tenant.len() > 0,
        !white_space(tenant[0]),
        !white_space(tenant[tenant.len() - 1]),
        raw@ == tenant,
        forall|i: int| 0 <= i < tenant.len() ==> #[trigger] tenant[i] != ',',
    ensures
        r@.contains(tenant),
        forall|t: Seq<char>| #[trigger] r@.contains(t) ==> t == tenant,
{
    nothing_to_trim(tenant);
    one_piece(tenant, ',');
    assert(r@.contains(tenant) == lists(raw@, tenant));
    assert(split(raw@, ',')[0] == tenant);
    assert forall|t: Seq<char>| #[trigger] r@.contains(t) implies t == tenant by {
        assert(r@.contains(t) == lists(raw@, t));
    }
}

proof fn one_piece(s: Seq<char>, c: char)
    requires
        forall|i: int| 0 <= i < s.len() ==> #[trigger] s[i] != c,
    ensures
        split(s, c) == seq![s],
    decreases s.len(),
{
    if s.len() > 0 {
        let front = s.drop_last();
        assert forall|i: int| 0 <= i < front.len() implies #[trigger] front[i] != c by {
            assert(front[i] == s[i]);
        }
        one_piece(front, c);
        assert(s[s.len() - 1] != c);
        assert(front.push(s.last()) =~= s);
        assert(split(s, c) =~= seq![s]);
    } else {
        assert(s =~= Seq::<char>::empty());
    }
}

/// A text without anything in it names no host.
pub proof fn a_blank_text_names_no_host(raw: &str, r: Option<String>)
    requires
        call_ensures(normalize_local_tdata_host, (raw,), r),
        trimmed(raw@).len() == 0,
    ensures
        r is None,
{
    assert(trimmed(raw@) =~= Seq::<char>::empty());
}

/// A host is known exactly if one of the configured texts or of the public
/// addresses names it.
pub proof fn a_public_address_names_its_host(
    configured: Option<&str>,
    urls: &Vec<String>,
    r: OrdSet<String>,
    at: int,
    host: Seq<char>,
)
    requires
        call_ensures(env_local_tdata_hosts, (configured, urls), r),
    ensures
        0 <= at < urls@.len() && local_host(urls@[at]@) == Some(host) ==> r@.contains(host),
        configured is None && r@.contains(host) ==> exists|i: int|
            0 <= i < urls@.len() && local_host((#[trigger] urls@[i])@) == Some(host),
{
    assert(r@.contains(host) == names_host(opt_str(configured), texts(urls@), host));
    if 0 <= at < urls@.len() && local_host(urls@[at]@) == Some(host) {
        assert(texts(urls@)[at] == urls@[at]@);
    }
    if configured is None && r@.contains(host) {
        let i = choose|i: int|
            0 <= i < texts(urls@).len() && local_host(#[trigger] texts(urls@)[i]) == Some(host);
        assert(urls@[i]@ == texts(urls@)[i]);
    }
}

/// No tenant without a name is listed.
pub proof fn no_blank_tenant_is_listed(raw: &str, r: OrdSet<String>)
    requires
        call_ensures(parse_llm_content_export_tenants, (raw,), r),
    ensures
        !r@.contains(Seq::<char>::empty()),
{
    let none = Seq::<char>::empty();
    assert(r@.contains(none) == lists(raw@, none));
}

} // verus!
