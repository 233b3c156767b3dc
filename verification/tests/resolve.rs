use rustproxy::resolve::{get_predefined_proxies, resolve_lowered, resolve_proxy};

#[test]
fn predefined_proxies_table() {
    let proxies = get_predefined_proxies();
    assert_eq!(proxies.len(), 4);
    assert_eq!(proxies[0], ("rsproxy", "https://rsproxy.cn/crates.io-index/"));
    assert_eq!(proxies[1], ("ustc", "https://mirrors.ustc.edu.cn/crates.io-index/"));
    assert_eq!(proxies[2], ("tuna", "https://mirrors.tuna.tsinghua.edu.cn/crates.io-index/"));
    assert_eq!(proxies[3], ("aliyun", "https://mirrors.aliyun.com/crates.io-index/"));
}

#[test]
fn resolve_each_alias() {
    assert_eq!(resolve_proxy("rsproxy"), Some("https://rsproxy.cn/crates.io-index/".to_owned()));
    assert_eq!(
        resolve_proxy("ustc"),
        Some("https://mirrors.ustc.edu.cn/crates.io-index/".to_owned())
    );
    assert_eq!(
        resolve_proxy("tuna"),
        Some("https://mirrors.tuna.tsinghua.edu.cn/crates.io-index/".to_owned())
    );
    assert_eq!(
        resolve_proxy("aliyun"),
        Some("https://mirrors.aliyun.com/crates.io-index/".to_owned())
    );
}

#[test]
fn resolve_ignores_letter_case() {
    assert_eq!(resolve_proxy("RSPROXY"), Some("https://rsproxy.cn/crates.io-index/".to_owned()));
    assert_eq!(
        resolve_proxy("UsTc"),
        Some("https://mirrors.ustc.edu.cn/crates.io-index/".to_owned())
    );
}

#[test]
fn resolve_accepts_raw_urls() {
    assert_eq!(
        resolve_proxy("https://example.com/my-index/"),
        Some("https://example.com/my-index/".to_owned())
    );
    assert_eq!(resolve_proxy("http://example.com"), Some("http://example.com".to_owned()));
}

#[test]
fn resolve_rejects_unknown_names() {
    assert_eq!(resolve_proxy("nonsense"), None);
    assert_eq!(resolve_proxy(""), None);
    assert_eq!(resolve_proxy("ftp://example.com"), None);
    assert_eq!(resolve_proxy("httpx://example.com"), None);
}

#[test]
fn resolve_lowered_matches_aliases_exactly() {
    assert_eq!(
        resolve_lowered("rsproxy", "anything"),
        Some("https://rsproxy.cn/crates.io-index/".to_owned())
    );
    assert_eq!(resolve_lowered("rsproxy ", "plain"), None);
    assert_eq!(
        resolve_lowered("unknown", "http://fallback.example"),
        Some("http://fallback.example".to_owned())
    );
}
