//! Validation of the stored IPv4 and IPv6 addresses.

use vstd::prelude::*;

verus! {

/// Text stored in place of an IPv4 address that does not parse.
pub const IPV4_DEFAULT: &'static str = "0.0.0.0";

/// Text stored in place of an IPv6 address that does not parse.
pub const IPV6_DEFAULT: &'static str = "0:0:0:0:0:0:0:0";

/// Whether `Ipv4Addr`'s parser accepts the text.
pub uninterp spec fn parses_as_ipv4(s: Seq<char>) -> bool;

/// Whether `Ipv6Addr`'s parser accepts the text.
pub uninterp spec fn parses_as_ipv6(s: Seq<char>) -> bool;

/// An IPv4 address that normalization keeps: the default, or any text the
/// parser accepts.
pub open spec fn valid_ipv4(s: Seq<char>) -> bool {
    s == IPV4_DEFAULT@ || parses_as_ipv4(s)
}

/// An IPv6 address that normalization keeps: the default, or any text the
/// parser accepts.
pub open spec fn valid_ipv6(s: Seq<char>) -> bool {
    s == IPV6_DEFAULT@ || parses_as_ipv6(s)
}

/// Relies on `<core::net::Ipv4Addr as FromStr>::from_str`: whether the text is
/// an IPv4 address in dotted-quad form.
#[verifier::external_body]
fn ipv4_parses(s: &str) -> (r: bool)
    ensures
        r == parses_as_ipv4(s@),
{
    s.parse::<core::net::Ipv4Addr>().is_ok()
}

/// Relies on `<core::net::Ipv6Addr as FromStr>::from_str`: whether the text is
/// an IPv6 address.
#[verifier::external_body]
fn ipv6_parses(s: &str) -> (r: bool)
    ensures
        r == parses_as_ipv6(s@),
{
    s.parse::<core::net::Ipv6Addr>().is_ok()
}

/// Whether normalization keeps `s` as the IPv4 address.
pub fn is_ipv4(s: &str) -> (r: bool)
    ensures
        r == valid_ipv4(s@),
{
    let default = String::from_str(IPV4_DEFAULT);
    if s.to_owned() == default {
        true
    } else {
        ipv4_parses(s)
    }
}

/// Whether normalization keeps `s` as the IPv6 address.
pub fn is_ipv6(s: &str) -> (r: bool)
    ensures
        r == valid_ipv6(s@),
{
    let default = String::from_str(IPV6_DEFAULT);
    if s.to_owned() == default {
        true
    } else {
        ipv6_parses(s)
    }
}

} // verus!
