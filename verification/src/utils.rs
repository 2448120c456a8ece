//! Address hygiene: validation, cleaning, and domain extraction for the
//! site lists the store keeps.
//!
//! Proper parsing is the url crate's; its host answer is a named function
//! of the address text.  The manual fallback — protocol and `www.`
//! stripping, cutting at the first slash — is verified here exactly.

use vstd::prelude::*;
use vstd::string::StrSliceExecFns;
use vstd::string::StringExecFns;
use crate::models::opt_string_view;
use crate::text::{contains_char, starts_with_str, trim_spec, trim_str};

verus! {

/// What `url::Url::parse` followed by `host_str` yields for the given
/// address text, when it parses and has a host.
pub uninterp spec fn url_host_of(s: Seq<char>) -> Option<Seq<char>>;

/// Relies on url::Url::parse and url::Url::host_str: the host depends on
/// the address text alone.
#[verifier::external_body]
fn parse_url_host(url: &str) -> (r: Option<String>)
    ensures
        match r {
            Some(h) => url_host_of(url@) == Some(h@),
            None => url_host_of(url@) is None,
        },
{
    match url::Url::parse(url) {
        Ok(parsed) => parsed.host_str().map(|h| h.to_owned()),
        Err(_) => None,
    }
}

/// Whether the address names its protocol outright.
pub open spec fn is_valid_url_spec(s: Seq<char>) -> bool {
    "http://"@.is_prefix_of(s) || "https://"@.is_prefix_of(s)
}

/// Whether the string is a usable address: it starts with `http://` or
/// `https://`.
pub fn is_valid_url(url: &str) -> (r: bool)
    ensures
        r == is_valid_url_spec(url@),
{
    starts_with_str(url, "http://") || starts_with_str(url, "https://")
}

/// The cleaned address: trimmed; empty is rejected; a bare domain (it
/// starts with `www.` or holds a dot) gains `https://`; anything else must
/// already name its protocol or is rejected.
pub open spec fn clean_url_spec(s: Seq<char>) -> Option<Seq<char>> {
    let t = trim_spec(s);
    if t.len() == 0 {
        None
    } else if !is_valid_url_spec(t) && ("www."@.is_prefix_of(t) || t.contains('.')) {
        Some("https://"@ + t)
    } else if is_valid_url_spec(t) {
        Some(t)
    } else {
        None
    }
}

/// Cleans and validates an address as [`clean_url_spec`] lays out.
pub fn clean_url(url: &str) -> (r: Option<String>)
    ensures
        opt_string_view(r) == clean_url_spec(url@),
{
    let trimmed = trim_str(url);
    if trimmed.unicode_len() == 0 {
        return None;
    }
    if !starts_with_str(trimmed, "http://") && !starts_with_str(trimmed, "https://") {
        if starts_with_str(trimmed, "www.") || contains_char(trimmed, '.') {
            let r = String::from_str("https://").concat(trimmed);
            proof {
                assert(r@ =~= "https://"@ + trim_spec(url@));
            }
            return Some(r);
        }
    }
    if is_valid_url(trimmed) {
        Some(trimmed.to_owned())
    } else {
        None
    }
}

/// The string with every leading repetition of the pattern removed.
pub open spec fn strip_all_prefix(s: Seq<char>, p: Seq<char>) -> Seq<char>
    decreases s.len(),
{
    if p.len() > 0 && p.is_prefix_of(s) {
        strip_all_prefix(s.skip(p.len() as int), p)
    } else {
        s
    }
}

/// The position of the first slash, or the length when there is none.
pub open spec fn slash_idx(s: Seq<char>) -> int
    decreases s.len(),
{
    if s.len() == 0 {
        0
    } else if s[0] == '/' {
        0
    } else {
        1 + slash_idx(s.drop_first())
    }
}

/// A forward scan pins `slash_idx`: if nothing before `j` is a slash and
/// `j` is one — or `j` is the end — the first slash position is `j`.
proof fn lemma_slash_idx_from_scan(s: Seq<char>, j: int)
    requires
        0 <= j <= s.len(),
        forall|k: int| 0 <= k < j ==> s[k] != '/',
        j < s.len() ==> s[j] == '/',
    ensures
        slash_idx(s) == j,
    decreases s.len(),
{
    if s.len() > 0 && s[0] != '/' {
        assert(j > 0);
        assert forall|k: int| 0 <= k < j - 1 implies s.drop_first()[k] != '/' by {
            assert(s.drop_first()[k] == s[k + 1]);
        }
        if j - 1 < s.drop_first().len() {
            assert(s.drop_first()[j - 1] == s[j]);
        }
        lemma_slash_idx_from_scan(s.drop_first(), j - 1);
    }
}

/// The manual fallback: protocol and `www.` prefixes stripped, then
/// everything up to the first slash.
pub open spec fn manual_domain(s: Seq<char>) -> Seq<char> {
    let stripped = strip_all_prefix(
        strip_all_prefix(strip_all_prefix(s, "https://"@), "http://"@),
        "www."@,
    );
    stripped.take(slash_idx(stripped))
}

/// The domain of the address: what the parser reports as host, or the
/// manual fallback when the address does not parse to one.
pub open spec fn extract_domain_spec(s: Seq<char>) -> Seq<char> {
    match url_host_of(s) {
        Some(h) => h,
        None => manual_domain(s),
    }
}

/// The string with every leading repetition of the pattern removed.
fn strip_all_prefix_str<'a>(s: &'a str, p: &str) -> (r: &'a str)
    requires
        p@.len() > 0,
    ensures
        r@ == strip_all_prefix(s@, p@),
    decreases s@.len(),
{
    if starts_with_str(s, p) {
        let p_len = p.unicode_len();
        let s_len = s.unicode_len();
        let rest = s.substring_char(p_len, s_len);
        proof {
            assert(rest@ =~= s@.skip(p@.len() as int));
        }
        strip_all_prefix_str(rest, p)
    } else {
        s
    }
}

/// The domain of the address, for display: the parsed host when there is
/// one, else the manual fallback of [`manual_domain`].
pub fn extract_domain(url: &str) -> (r: String)
    ensures
        r@ == extract_domain_spec(url@),
{
    if let Some(host) = parse_url_host(url) {
        return host;
    }
    proof {
        reveal_strlit("https://");
        reveal_strlit("http://");
        reveal_strlit("www.");
    }
    let stripped = strip_all_prefix_str(
        strip_all_prefix_str(strip_all_prefix_str(url, "https://"), "http://"),
        "www.",
    );
    let len = stripped.unicode_len();
    let mut k: usize = 0;
    while k < len && stripped.get_char(k) != '/'
        invariant
            len == stripped@.len(),
            k <= len,
            forall|t: int| 0 <= t < k ==> stripped@[t] != '/',
        decreases len - k,
    {
        k += 1;
    }
    proof {
        lemma_slash_idx_from_scan(stripped@, k as int);
    }
    let domain = stripped.substring_char(0, k);
    proof {
        assert(domain@ =~= stripped@.take(slash_idx(stripped@)));
    }
    domain.to_owned()
}

} // verus!
