//! Resolving a proxy argument to a registry index URL.
//!
//! An argument either names one of the predefined mirror aliases, matched
//! without regard to letter case, or is itself an `http://` or `https://`
//! URL; anything else is unknown.

use vstd::prelude::*;
use vstd::string::StrSliceExecFns;

verus! {

/// The lowercase form of a string, as `str::to_lowercase` computes it: a
/// function of the characters alone.
pub uninterp spec fn lower_of(s: Seq<char>) -> Seq<char>;

/// Relies on `str::to_lowercase`: the result depends on the characters alone.
#[verifier::external_body]
fn lowercase(s: &str) -> (r: String)
    ensures
        r@ == lower_of(s@),
{
    s.to_lowercase()
}

/// The name of the `i`-th predefined proxy alias.
pub open spec fn alias_name(i: int) -> Seq<char> {
    if i == 0 {
        "rsproxy"@
    } else if i == 1 {
        "ustc"@
    } else if i == 2 {
        "tuna"@
    } else {
        "aliyun"@
    }
}

/// The registry index URL of the `i`-th predefined proxy alias.
pub open spec fn alias_url(i: int) -> Seq<char> {
    if i == 0 {
        "https://rsproxy.cn/crates.io-index/"@
    } else if i == 1 {
        "https://mirrors.ustc.edu.cn/crates.io-index/"@
    } else if i == 2 {
        "https://mirrors.tuna.tsinghua.edu.cn/crates.io-index/"@
    } else {
        "https://mirrors.aliyun.com/crates.io-index/"@
    }
}

/// The string starts with `http://`.
pub open spec fn has_http_prefix(s: Seq<char>) -> bool {
    s.len() >= 7 && s[0] == 'h' && s[1] == 't' && s[2] == 't' && s[3] == 'p' && s[4] == ':'
        && s[5] == '/' && s[6] == '/'
}

/// The string starts with `https://`.
pub open spec fn has_https_prefix(s: Seq<char>) -> bool {
    s.len() >= 8 && s[0] == 'h' && s[1] == 't' && s[2] == 't' && s[3] == 'p' && s[4] == 's'
        && s[5] == ':' && s[6] == '/' && s[7] == '/'
}

/// The string can stand as a registry URL of its own.
pub open spec fn is_url_like(s: Seq<char>) -> bool {
    has_http_prefix(s) || has_https_prefix(s)
}

/// What resolving decides, given the lowercase form of the argument and the
/// argument itself: the first alias whose name matches the lowercase form
/// wins; otherwise an argument that is itself an http(s) URL is taken as it
/// stands; otherwise the argument is unknown.
pub open spec fn resolve_spec(lowered: Seq<char>, original: Seq<char>) -> Option<Seq<char>> {
    if lowered == alias_name(0) {
        Some(alias_url(0))
    } else if lowered == alias_name(1) {
        Some(alias_url(1))
    } else if lowered == alias_name(2) {
        Some(alias_url(2))
    } else if lowered == alias_name(3) {
        Some(alias_url(3))
    } else if is_url_like(original) {
        Some(original)
    } else {
        None
    }
}

/// The predefined proxy services: each alias beside its registry index URL.
pub fn get_predefined_proxies() -> (r: Vec<(&'static str, &'static str)>)
    ensures
        r@.len() == 4,
        forall|i: int|
            0 <= i < 4 ==> ((#[trigger] r@[i]).0@ == alias_name(i) && r@[i].1@ == alias_url(i)),
{
    let mut v: Vec<(&'static str, &'static str)> = Vec::new();
    v.push(("rsproxy", "https://rsproxy.cn/crates.io-index/"));
    v.push(("ustc", "https://mirrors.ustc.edu.cn/crates.io-index/"));
    v.push(("tuna", "https://mirrors.tuna.tsinghua.edu.cn/crates.io-index/"));
    v.push(("aliyun", "https://mirrors.aliyun.com/crates.io-index/"));
    v
}

/// Whether two strings hold the same characters.
fn str_eq(a: &str, b: &str) -> (r: bool)
    ensures
        r == (a@ == b@),
{
    let a_s = a.to_owned();
    let b_s = b.to_owned();
    a_s == b_s
}

/// Whether the string starts with `http://` or `https://`.
fn is_url_like_exec(s: &str) -> (r: bool)
    ensures
        r == is_url_like(s@),
{
    let n = s.unicode_len();
    let http = n >= 7 && s.get_char(0) == 'h' && s.get_char(1) == 't' && s.get_char(2) == 't'
        && s.get_char(3) == 'p' && s.get_char(4) == ':' && s.get_char(5) == '/' && s.get_char(6)
        == '/';
    let https = n >= 8 && s.get_char(0) == 'h' && s.get_char(1) == 't' && s.get_char(2) == 't'
        && s.get_char(3) == 'p' && s.get_char(4) == 's' && s.get_char(5) == ':' && s.get_char(6)
        == '/' && s.get_char(7) == '/';
    http || https
}

/// Resolve from the lowercase form of the argument and the argument itself.
/// The outcome is exactly what [`resolve_spec`] says of the two.
pub fn resolve_lowered(lowered: &str, proxy: &str) -> (r: Option<String>)
    ensures
        (match r {
            Some(u) => resolve_spec(lowered@, proxy@) == Some(u@),
            None => resolve_spec(lowered@, proxy@) is None,
        }),
{
    if str_eq(lowered, "rsproxy") {
        Some("https://rsproxy.cn/crates.io-index/".to_owned())
    } else if str_eq(lowered, "ustc") {
        Some("https://mirrors.ustc.edu.cn/crates.io-index/".to_owned())
    } else if str_eq(lowered, "tuna") {
        Some("https://mirrors.tuna.tsinghua.edu.cn/crates.io-index/".to_owned())
    } else if str_eq(lowered, "aliyun") {
        Some("https://mirrors.aliyun.com/crates.io-index/".to_owned())
    } else if is_url_like_exec(proxy) {
        Some(proxy.to_owned())
    } else {
        None
    }
}

/// Resolve a proxy argument: a predefined alias, matched without regard to
/// letter case, maps to its registry index URL; otherwise an http(s) URL
/// stands for itself; anything else is unknown and yields `None`.
pub fn resolve_proxy(proxy: &str) -> (r: Option<String>)
    ensures
        (match r {
            Some(u) => resolve_spec(lower_of(proxy@), proxy@) == Some(u@),
            None => resolve_spec(lower_of(proxy@), proxy@) is None,
        }),
{
    let lowered = lowercase(proxy);
    resolve_lowered(lowered.as_str(), proxy)
}

} // verus!
