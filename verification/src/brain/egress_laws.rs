//! Which pages may be fetched.
use vstd::prelude::*;

use crate::brain::config::PolicyModel;
use crate::brain::egress::{self, Ip};
use crate::text;
use crate::weburl::UrlModel;

verus! {

/// The addresses of IPv4 that lead inside: of the machine itself, of private networks, of the
/// own link, of all or none, and of documentation.
pub proof fn inner_v4_addresses_are_forbidden(ip: [u8; 4])
    ensures
        egress::is_forbidden(Ip::V4(ip)) <==> {
            ||| ip@[0] == 127
            ||| ip@[0] == 10
            ||| ip@[0] == 172 && ip@[1] / 16 == 1
            ||| ip@[0] == 192 && ip@[1] == 168
            ||| ip@[0] == 169 && ip@[1] == 254
            ||| ip@ == seq![0u8, 0, 0, 0]
            ||| ip@ == seq![255u8, 255, 255, 255]
            ||| ip@[0] == 192 && ip@[1] == 0 && ip@[2] == 2
            ||| ip@[0] == 198 && ip@[1] == 51 && ip@[2] == 100
            ||| ip@[0] == 203 && ip@[1] == 0 && ip@[2] == 113
        },
{
    assert(ip@ == seq![0u8, 0, 0, 0] <==> ip@ =~= seq![0u8, 0, 0, 0]);
    assert(ip@ == seq![255u8, 255, 255, 255] <==> ip@ =~= seq![255u8, 255, 255, 255]);
}

/// The addresses of IPv6 that lead inside: of the machine itself or none, of private networks,
/// and of the own link.
pub proof fn inner_v6_addresses_are_forbidden(ip: [u16; 8])
    ensures
        egress::is_forbidden(Ip::V6(ip)) <==> {
            ||| ip@ == seq![0u16, 0, 0, 0, 0, 0, 0, 0]
            ||| ip@ == seq![0u16, 0, 0, 0, 0, 0, 0, 1]
            ||| ip@[0] / 512 == 126
            ||| ip@[0] / 64 == 1018
        },
{
    assert(ip@ == seq![0u16, 0, 0, 0, 0, 0, 0, 0] <==> ip@ =~= seq![0u16, 0, 0, 0, 0, 0, 0, 0]);
    assert(ip@ == seq![0u16, 0, 0, 0, 0, 0, 0, 1] <==> ip@ =~= seq![0u16, 0, 0, 0, 0, 0, 0, 1]);
}

/// A domain holds itself and all that stands before it with a dot between.
pub proof fn domain_holds_its_subdomains(domain: Seq<char>, name: Seq<char>)
    ensures
        egress::in_domain(domain, domain),
        egress::in_domain(name + "."@ + domain, domain),
{
    let host = name + "."@ + domain;
    let suffix = "."@ + domain;
    assert(host.subrange(host.len() - suffix.len(), host.len() as int) =~= suffix);
}

/// With a list of what is allowed, exactly the hosts of the listed domains may be fetched; with
/// a list of what is denied, exactly the others; where all is allowed, each.
pub proof fn lists_decide(host: Seq<char>, list: Seq<Seq<char>>)
    ensures
        egress::host_refusal(host, None, PolicyModel::Allowlist(list)) is None <==> exists|i: int|
            0 <= i < list.len() && egress::in_domain(host, #[trigger] list[i]),
        egress::host_refusal(host, None, PolicyModel::Denylist(list)) is Some <==> exists|i: int|
            0 <= i < list.len() && egress::in_domain(host, #[trigger] list[i]),
        egress::host_refusal(host, None, PolicyModel::AllowAll) is None,
{
}

/// Only the web is fetched, from the host and the port that the address names.
pub proof fn only_the_web_is_fetched(u: UrlModel)
    ensures
        egress::target_of(Ok(u)) is Ok <==> (u.scheme == "http"@ || u.scheme == "https"@)
            && u.host is Some,
        egress::target_of(Ok(u)) matches Ok(t) ==> {
            &&& t.host == text::lowercase(u.host->Some_0)
            &&& u.port matches Some(p) ==> t.port == p
        },
{
}

} // verus!
