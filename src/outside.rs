//! The calls into outside crates, with the contracts the library relies on.
use crate::model::{contains_pat, occurs_at};
use smallvec::SmallVec;
use vstd::prelude::*;

verus! {

/// Host and explicit port that the `url` crate extracts from an endpoint
/// fragment given as bytes (`None` where the bytes are not UTF-8, do not parse
/// as a URL, or the URL has no host).
pub uninterp spec fn endpoint_host_of(fragment: Seq<u8>) -> Option<(Seq<u8>, Option<u16>)>;

/// Relies on `memchr::memmem::find`: the index of the first occurrence of
/// `needle` in `haystack`, if there is one (an empty needle occurs at 0).
#[verifier::external_body]
pub(crate) fn find(haystack: &[u8], needle: &[u8]) -> (r: Option<usize>)
    ensures
        r.is_some() == contains_pat(haystack@, needle@),
        r.is_some() ==> occurs_at(haystack@, needle@, r.unwrap() as int),
        r.is_some() ==> forall|j: int| 0 <= j < r.unwrap() ==> !occurs_at(haystack@, needle@, j),
{
    memchr::memmem::find(haystack, needle)
}

/// Relies on `std::str::from_utf8`, `url::Url::parse`, `Url::host` and
/// `Url::port`: the host of the parsed URL in its textual form (a domain, or an
/// IPv4 / IPv6 address as `Ipv4Addr` / `Ipv6Addr` display it), with the port
/// written in the URL. The result depends on the bytes alone.
#[verifier::external_body]
pub(crate) fn endpoint_host(fragment: &[u8]) -> (r: Option<(Vec<u8>, Option<u16>)>)
    ensures
        match r {
            Some(hp) => endpoint_host_of(fragment@) == Some((hp.0@, hp.1)),
            None => endpoint_host_of(fragment@) is None,
        },
{
    let text = std::str::from_utf8(fragment).ok()?;
    let parsed = url::Url::parse(text).ok()?;
    let host = match parsed.host()? {
        url::Host::Domain(d) => d.to_string(),
        url::Host::Ipv4(ip) => ip.to_string(),
        url::Host::Ipv6(ip) => ip.to_string(),
    };
    Some((host.into_bytes(), parsed.port()))
}

/// A list of byte patterns kept in a `SmallVec`: each pattern inline up to 16
/// bytes, the list inline up to 4 patterns.
#[verifier::external_body]
pub struct PatternList {
    inner: SmallVec<[SmallVec<[u8; 16]>; 4]>,
}

/// The patterns that a pattern list holds, in order.
pub uninterp spec fn patterns_of(v: PatternList) -> Seq<Seq<u8>>;

/// Relies on `SmallVec::new`: an empty list.
#[verifier::external_body]
pub(crate) fn patterns_empty() -> (r: PatternList)
    ensures
        patterns_of(r).len() == 0,
{
    PatternList { inner: SmallVec::new() }
}

/// Relies on `SmallVec::push` and `SmallVec::from_slice`: `p` is appended
/// after the patterns already held.
#[verifier::external_body]
pub(crate) fn pattern_push(v: &mut PatternList, p: &[u8])
    ensures
        patterns_of(*final(v)) == patterns_of(*old(v)).push(p@),
{
    v.inner.push(SmallVec::from_slice(p))
}

/// Relies on `SmallVec::len`: the number of patterns held.
#[verifier::external_body]
pub(crate) fn pattern_count(v: &PatternList) -> (r: usize)
    ensures
        r == patterns_of(*v).len(),
{
    v.inner.len()
}

/// Relies on indexing a `SmallVec` and on `SmallVec::as_slice`: the bytes of
/// the pattern at `i`.
#[verifier::external_body]
pub(crate) fn pattern_at(v: &PatternList, i: usize) -> (r: &[u8])
    requires
        i < patterns_of(*v).len(),
    ensures
        r@ == patterns_of(*v)[i as int],
{
    v.inner[i].as_slice()
}

} // verus!
