//! Which pages `web_fetch` may fetch.
use vstd::prelude::*;

use crate::brain::config::{EgressPolicy, PolicyModel};
use crate::text;
use crate::weburl::{self, UrlModel, UrlParts};

verus! {

// ── Targets ─────────────────────────────────────────────────────────────────

/// Where a page is to be fetched from.
pub struct FetchTarget {
    pub host: String,
    pub port: u16,
}

#[verifier::ext_equal]
pub struct TargetModel {
    pub host: Seq<char>,
    pub port: u16,
}

impl View for FetchTarget {
    type V = TargetModel;

    open spec fn view(&self) -> TargetModel {
        TargetModel { host: self.host@, port: self.port }
    }
}

pub open spec fn target_model(r: Result<FetchTarget, String>) -> Result<TargetModel, Seq<char>> {
    match r {
        Ok(t) => Ok(t@),
        Err(e) => Err(e@),
    }
}

/// The target of a URL: only `http` and `https` are fetched, and only from a host.
pub open spec fn target_of(parsed: Result<UrlModel, Seq<char>>) -> Result<TargetModel, Seq<char>> {
    match parsed {
        Err(e) => Err("invalid URL: "@ + e),
        Ok(u) => if u.scheme != "http"@ && u.scheme != "https"@ {
            Err("scheme \""@ + u.scheme + "\" is not allowed (only http/https)"@)
        } else {
            match u.host {
                None => Err("URL has no host"@),
                Some(h) => Ok(
                    TargetModel {
                        host: text::lowercase(h),
                        port: match u.port {
                            Some(p) => p,
                            None => 443,
                        },
                    },
                ),
            }
        },
    }
}

/// The target of a URL that has been parsed.
pub fn target_from_parts(parsed: Result<UrlParts, String>) -> (r: Result<FetchTarget, String>)
    ensures
        target_model(r) == target_of(weburl::parts_model(parsed)),
{
    let parts = match parsed {
        Ok(p) => p,
        Err(e) => return Err(text::concat("invalid URL: ", e.as_str())),
    };
    if !text::str_eq(parts.scheme.as_str(), "http") && !text::str_eq(
        parts.scheme.as_str(),
        "https",
    ) {
        return Err(
            text::concat3(
                "scheme \"",
                parts.scheme.as_str(),
                "\" is not allowed (only http/https)",
            ),
        );
    }
    match parts.host {
        None => Err(text::owned("URL has no host")),
        Some(h) => Ok(
            FetchTarget {
                host: text::lowercase_text(h.as_str()),
                port: match parts.port {
                    Some(p) => p,
                    None => 443,
                },
            },
        ),
    }
}

/// The target of a URL.
pub fn fetch_target(url: &str) -> (r: Result<FetchTarget, String>)
    ensures
        target_model(r) == target_of(weburl::url_parsed(url@)),
{
    target_from_parts(weburl::parse_url(url))
}

// ── Addresses ───────────────────────────────────────────────────────────────

/// An address: the bytes of an IPv4 address, or the groups of an IPv6 address.
pub enum Ip {
    V4([u8; 4]),
    V6([u16; 8]),
}

pub open spec fn is_loopback_v4(a: Seq<u8>) -> bool {
    a[0] == 127
}

pub open spec fn is_private_v4(a: Seq<u8>) -> bool {
    a[0] == 10 || (a[0] == 172 && 16 <= a[1] <= 31) || (a[0] == 192 && a[1] == 168)
}

/// The addresses of one link, that of the metadata services of clouds among them.
pub open spec fn is_link_local_v4(a: Seq<u8>) -> bool {
    a[0] == 169 && a[1] == 254
}

pub open spec fn is_documentation_v4(a: Seq<u8>) -> bool {
    (a[0] == 192 && a[1] == 0 && a[2] == 2) || (a[0] == 198 && a[1] == 51 && a[2] == 100) || (a[0]
        == 203 && a[1] == 0 && a[2] == 113)
}

pub open spec fn is_broadcast_v4(a: Seq<u8>) -> bool {
    a[0] == 255 && a[1] == 255 && a[2] == 255 && a[3] == 255
}

pub open spec fn is_unspecified_v4(a: Seq<u8>) -> bool {
    a[0] == 0 && a[1] == 0 && a[2] == 0 && a[3] == 0
}

/// All groups but the last are zero.
pub open spec fn is_low_v6(s: Seq<u16>) -> bool {
    s[0] == 0 && s[1] == 0 && s[2] == 0 && s[3] == 0 && s[4] == 0 && s[5] == 0 && s[6] == 0
}

pub open spec fn is_unique_local_v6(s: Seq<u16>) -> bool {
    0xfc00 <= s[0] <= 0xfdff
}

pub open spec fn is_link_local_v6(s: Seq<u16>) -> bool {
    0xfe80 <= s[0] <= 0xfebf
}

/// The addresses that no page is fetched from, whatever the policy says.
pub open spec fn is_forbidden(ip: Ip) -> bool {
    match ip {
        Ip::V4(a) => is_loopback_v4(a@) || is_private_v4(a@) || is_link_local_v4(a@)
            || is_broadcast_v4(a@) || is_documentation_v4(a@) || is_unspecified_v4(a@),
        Ip::V6(s) => (is_low_v6(s@) && s@[7] <= 1) || is_unique_local_v6(s@) || is_link_local_v6(
            s@,
        ),
    }
}

pub fn is_forbidden_ip(ip: &Ip) -> (r: bool)
    ensures
        r == is_forbidden(*ip),
{
    match ip {
        Ip::V4(v4) => {
            let (a, b, c, d): (u8, u8, u8, u8) = (v4[0], v4[1], v4[2], v4[3]);
            a == 127 || a == 10 || (a == 172 && 16 <= b && b <= 31) || (a == 192 && b == 168) || (a
                == 169 && b == 254) || (a == 255 && b == 255 && c == 255 && d == 255) || (a == 192
                && b == 0 && c == 2) || (a == 198 && b == 51 && c == 100) || (a == 203 && b == 0
                && c == 113) || (a == 0 && b == 0 && c == 0 && d == 0)
        },
        Ip::V6(s) => {
            let first: u16 = s[0];
            assert((first & 0xfe00) == 0xfc00 <==> 0xfc00 <= first <= 0xfdff) by (bit_vector);
            assert((first & 0xffc0) == 0xfe80 <==> 0xfe80 <= first <= 0xfebf) by (bit_vector);
            let low = s[0] == 0 && s[1] == 0 && s[2] == 0 && s[3] == 0 && s[4] == 0 && s[5] == 0
                && s[6] == 0;
            (low && s[7] <= 1) || (first & 0xfe00) == 0xfc00 || (first & 0xffc0) == 0xfe80
        },
    }
}

// ── Policy ──────────────────────────────────────────────────────────────────

/// Whether a host is the domain or a subdomain of it.
pub open spec fn in_domain(host: Seq<char>, domain: Seq<char>) -> bool {
    host == domain || text::ends_with(host, "."@ + domain)
}

pub fn host_matches_domain(host: &str, domain: &str) -> (r: bool)
    ensures
        r == in_domain(host@, domain@),
{
    if text::str_eq(host, domain) {
        return true;
    }
    let suffix = text::concat(".", domain);
    text::has_suffix(host, suffix.as_str())
}

pub open spec fn is_listed(host: Seq<char>, list: Seq<Seq<char>>) -> bool {
    exists|i: int| 0 <= i < list.len() && in_domain(host, #[trigger] list[i])
}

pub fn domain_list_allows(host: &str, list: &Vec<String>) -> (r: bool)
    ensures
        r == is_listed(host@, text::texts(list@)),
{
    let ghost all = text::texts(list@);
    let mut i: usize = 0;
    while i < list.len()
        invariant
            i <= list.len(),
            all == text::texts(list@),
            forall|k: int| 0 <= k < i ==> !in_domain(host@, #[trigger] all[k]),
        decreases list.len() - i,
    {
        assert(all[i as int] == list@[i as int]@);
        if host_matches_domain(host, list[i].as_str()) {
            return true;
        }
        i = i + 1;
    }
    false
}

/// Why nothing is fetched from a host, before its name is resolved. `literal` is the address
/// that the host itself writes, if it writes one.
pub open spec fn host_refusal(host: Seq<char>, literal: Option<Ip>, policy: PolicyModel) -> Option<
    Seq<char>,
> {
    if literal is Some && is_forbidden(literal->Some_0) {
        Some("target IP is in a private/loopback/link-local range"@)
    } else {
        match policy {
            PolicyModel::AllowAll => None,
            PolicyModel::DenyAll => Some(
                "web_fetch egress is disabled on this brain instance (BRAIN_EGRESS_MODE=deny_all)"@,
            ),
            PolicyModel::Allowlist(list) => if is_listed(host, list) {
                None
            } else {
                Some("\""@ + host + "\" is not on the egress allowlist"@)
            },
            PolicyModel::Denylist(list) => if is_listed(host, list) {
                Some("\""@ + host + "\" is on the egress denylist"@)
            } else {
                None
            },
        }
    }
}

pub open spec fn refusal_of(r: Result<(), String>) -> Option<Seq<char>> {
    match r {
        Ok(_) => None,
        Err(e) => Some(e@),
    }
}

/// Checks a host before its name is resolved.
pub fn check_host(host: &str, literal: &Option<Ip>, policy: &EgressPolicy) -> (r: Result<
    (),
    String,
>)
    ensures
        refusal_of(r) == host_refusal(host@, *literal, policy@),
{
    match literal {
        Some(ip) => {
            if is_forbidden_ip(ip) {
                return Err(text::owned("target IP is in a private/loopback/link-local range"));
            }
        },
        None => {},
    }
    match policy {
        EgressPolicy::AllowAll => Ok(()),
        EgressPolicy::DenyAll => Err(
            text::owned(
                "web_fetch egress is disabled on this brain instance (BRAIN_EGRESS_MODE=deny_all)",
            ),
        ),
        EgressPolicy::Allowlist(list) => if domain_list_allows(host, list) {
            Ok(())
        } else {
            Err(text::concat3("\"", host, "\" is not on the egress allowlist"))
        },
        EgressPolicy::Denylist(list) => if domain_list_allows(host, list) {
            Err(text::concat3("\"", host, "\" is on the egress denylist"))
        } else {
            Ok(())
        },
    }
}

/// An address that a name resolves to, and how it is written.
pub struct Resolved {
    pub ip: Ip,
    pub shown: String,
}

/// The first address that is forbidden.
pub open spec fn first_forbidden(addrs: Seq<Resolved>) -> Option<Resolved>
    decreases addrs.len(),
{
    if addrs.len() == 0 {
        None
    } else if is_forbidden(addrs[0].ip) {
        Some(addrs[0])
    } else {
        first_forbidden(addrs.skip(1))
    }
}

/// Why nothing is fetched from a host, once its name is resolved: the policy speaks of names,
/// but a name may lead anywhere.
pub open spec fn address_refusal(host: Seq<char>, resolved: Result<Seq<Resolved>, Seq<char>>) -> Option<
    Seq<char>,
> {
    match resolved {
        Err(e) => Some("DNS resolution failed for \""@ + host + "\": "@ + e),
        Ok(addrs) => match first_forbidden(addrs) {
            Some(bad) => Some(
                "\""@ + host + "\" resolves to a private/internal IP ("@ + bad.shown@
                    + ") — refusing to fetch"@,
            ),
            None => if addrs.len() == 0 {
                Some("\""@ + host + "\" did not resolve to any address"@)
            } else {
                None
            },
        },
    }
}

pub open spec fn resolution(r: Result<Vec<Resolved>, String>) -> Result<Seq<Resolved>, Seq<char>> {
    match r {
        Ok(v) => Ok(v@),
        Err(e) => Err(e@),
    }
}

/// Checks what a host's name resolves to.
pub fn check_addresses(host: &str, resolved: &Result<Vec<Resolved>, String>) -> (r: Result<
    (),
    String,
>)
    ensures
        refusal_of(r) == address_refusal(host@, resolution(*resolved)),
{
    match resolved {
        Err(e) => {
            let mut m = text::concat3("DNS resolution failed for \"", host, "\": ");
            m.append(e.as_str());
            Err(m)
        },
        Ok(addrs) => {
            let mut i: usize = 0;
            assert(addrs@.skip(0) =~= addrs@);
            while i < addrs.len()
                invariant
                    i <= addrs.len(),
                    *resolved == Ok::<Vec<Resolved>, String>(*addrs),
                    first_forbidden(addrs@) == first_forbidden(addrs@.skip(i as int)),
                decreases addrs.len() - i,
            {
                assert(addrs@.skip(i as int).skip(1) =~= addrs@.skip(i + 1));
                if is_forbidden_ip(&addrs[i].ip) {
                    let mut m = text::concat3(
                        "\"",
                        host,
                        "\" resolves to a private/internal IP (",
                    );
                    m.append(addrs[i].shown.as_str());
                    m.append(") — refusing to fetch");
                    return Err(m);
                }
                i = i + 1;
            }
            if addrs.len() == 0 {
                Err(text::concat3("\"", host, "\" did not resolve to any address"))
            } else {
                Ok(())
            }
        },
    }
}

// ── Laws ────────────────────────────────────────────────────────────────────

/// A forbidden address is refused whatever the policy says.
pub proof fn forbidden_address_is_always_refused(host: Seq<char>, ip: Ip, policy: PolicyModel)
    requires
        is_forbidden(ip),
    ensures
        host_refusal(host, Some(ip), policy) is Some,
{
}

/// Where all hosts are denied, every host is refused.
pub proof fn deny_all_refuses(host: Seq<char>, literal: Option<Ip>)
    ensures
        host_refusal(host, literal, PolicyModel::DenyAll) is Some,
{
}

proof fn no_forbidden(addrs: Seq<Resolved>)
    requires
        first_forbidden(addrs) is None,
    ensures
        forall|i: int| 0 <= i < addrs.len() ==> !is_forbidden((#[trigger] addrs[i]).ip),
    decreases addrs.len(),
{
    if addrs.len() > 0 {
        no_forbidden(addrs.skip(1));
        assert forall|i: int| 0 <= i < addrs.len() implies !is_forbidden(
            (#[trigger] addrs[i]).ip,
        ) by {
            if i > 0 {
                assert(addrs.skip(1)[i - 1] == addrs[i]);
            }
        }
    }
}

/// A page is fetched only from a host that resolves, and none of whose addresses is forbidden,
/// so that a name that is allowed cannot lead inside.
pub proof fn allowed_name_cannot_lead_inside(
    host: Seq<char>,
    resolved: Result<Seq<Resolved>, Seq<char>>,
)
    requires
        address_refusal(host, resolved) is None,
    ensures
        resolved matches Ok(addrs) && addrs.len() > 0 && forall|i: int|
            0 <= i < addrs.len() ==> !is_forbidden((#[trigger] addrs[i]).ip),
{
    no_forbidden(resolved->Ok_0);
}

/// A longer name that merely ends in the same letters is not in the domain.
pub proof fn subdomains_need_a_dot(prefix: Seq<char>, domain: Seq<char>)
    requires
        prefix.len() > 0,
        prefix.last() != '.',
    ensures
        !in_domain(prefix + domain, domain),
{
    let host = prefix + domain;
    let suffix = "."@ + domain;
    reveal_strlit(".");
    assert(host.len() > domain.len());
    if text::ends_with(host, suffix) {
        assert(text::occurs_at(host, suffix, host.len() - suffix.len()));
        assert(suffix[0] == '.');
        assert(host.subrange(host.len() - suffix.len(), host.len() as int)[0] == prefix.last());
    }
}

} // verus!
