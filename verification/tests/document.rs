use rustproxy::document::{
    add_proxy_config, apply_set_proxy, document_from_content, document_text, remove_proxy_config,
};

fn parsed(text: &str) -> toml_edit::DocumentMut {
    text.parse::<toml_edit::DocumentMut>().unwrap()
}

fn nested_str(doc: &toml_edit::DocumentMut, path: &[&str]) -> Option<String> {
    let mut item: &toml_edit::Item = doc.as_item();
    for key in path {
        item = item.as_table_like()?.get(key)?;
    }
    item.as_str().map(|s| s.to_owned())
}

fn nested_bool(doc: &toml_edit::DocumentMut, path: &[&str]) -> Option<bool> {
    let mut item: &toml_edit::Item = doc.as_item();
    for key in path {
        item = item.as_table_like()?.get(key)?;
    }
    item.as_bool()
}

fn has_key(doc: &toml_edit::DocumentMut, path: &[&str]) -> bool {
    let mut item: &toml_edit::Item = doc.as_item();
    for key in path {
        match item.as_table_like().and_then(|t| t.get(key)) {
            Some(next) => item = next,
            None => return false,
        }
    }
    true
}

fn assert_block_present(doc: &toml_edit::DocumentMut) {
    assert_eq!(
        nested_str(doc, &["source", "crates-io", "replace-with"]),
        Some("rsproxy-sparse".to_owned())
    );
    assert_eq!(
        nested_str(doc, &["source", "rsproxy", "registry"]),
        Some("https://rsproxy.cn/crates.io-index".to_owned())
    );
    assert_eq!(
        nested_str(doc, &["source", "rsproxy-sparse", "registry"]),
        Some("sparse+https://rsproxy.cn/index/".to_owned())
    );
    assert_eq!(
        nested_str(doc, &["registries", "rsproxy", "index"]),
        Some("https://rsproxy.cn/crates.io-index".to_owned())
    );
    assert_eq!(nested_bool(doc, &["net", "git-fetch-with-cli"]), Some(true));
}

fn assert_block_absent(doc: &toml_edit::DocumentMut) {
    assert!(!has_key(doc, &["source", "crates-io", "replace-with"]));
    assert!(!has_key(doc, &["source", "rsproxy"]));
    assert!(!has_key(doc, &["source", "rsproxy-sparse"]));
    assert!(!has_key(doc, &["registries", "rsproxy"]));
    assert!(!has_key(doc, &["net", "git-fetch-with-cli"]));
}

#[test]
fn set_on_empty_config_installs_block() {
    let mut doc = document_from_content("");
    apply_set_proxy(&mut doc, "https://rsproxy.cn/crates.io-index/");
    let text = document_text(&doc);
    assert_block_present(&parsed(&text));
}

#[test]
fn set_on_garbage_config_installs_block() {
    let mut doc = document_from_content("this is ] not [ toml = =");
    apply_set_proxy(&mut doc, "https://rsproxy.cn/crates.io-index/");
    let text = document_text(&doc);
    assert_block_present(&parsed(&text));
}

#[test]
fn set_preserves_unrelated_keys() {
    let content = "[build]\njobs = 4\n\n[source.crates-io]\nnote = \"keep me\"\n";
    let mut doc = document_from_content(content);
    apply_set_proxy(&mut doc, "https://rsproxy.cn/crates.io-index/");
    let text = document_text(&doc);
    let out = parsed(&text);
    assert_block_present(&out);
    assert_eq!(nested_str(&out, &["source", "crates-io", "note"]), Some("keep me".to_owned()));
    assert_eq!(
        out.as_table().get("build").unwrap().as_table().unwrap().get("jobs").unwrap().as_integer(),
        Some(4)
    );
}

#[test]
fn set_twice_keeps_one_block() {
    let content = "[build]\njobs = 2\n";
    let mut doc = document_from_content(content);
    apply_set_proxy(&mut doc, "https://rsproxy.cn/crates.io-index/");
    let once = document_text(&doc);
    apply_set_proxy(&mut doc, "https://rsproxy.cn/crates.io-index/");
    let twice = document_text(&doc);
    assert_eq!(once, twice);
    assert_block_present(&parsed(&twice));
}

#[test]
fn set_then_clear_leaves_no_proxy_keys() {
    let content = "[build]\njobs = 8\n";
    let mut doc = document_from_content(content);
    apply_set_proxy(&mut doc, "https://rsproxy.cn/crates.io-index/");
    remove_proxy_config(&mut doc);
    let text = document_text(&doc);
    let out = parsed(&text);
    assert_block_absent(&out);
    assert_eq!(
        out.as_table().get("build").unwrap().as_table().unwrap().get("jobs").unwrap().as_integer(),
        Some(8)
    );
}

#[test]
fn clear_without_proxy_keys_changes_nothing() {
    let content = "# cargo build settings\n[build]\njobs = 4\n";
    let mut doc = document_from_content(content);
    remove_proxy_config(&mut doc);
    assert_eq!(document_text(&doc), content);
}

#[test]
fn clear_on_empty_document_stays_empty() {
    let mut doc = document_from_content("");
    remove_proxy_config(&mut doc);
    assert_eq!(document_text(&doc), "");
}

#[test]
fn clear_strips_externally_written_proxy_keys() {
    let mut content = String::new();
    content.push_str("[source.crates-io]\nreplace-with = \"rsproxy-sparse\"\n\n");
    content.push_str("[source.rsproxy]\nregistry = \"https://rsproxy.cn/crates.io-index\"\n\n");
    content.push_str("[source.rsproxy-sparse]\nregistry = \"sparse+https://rsproxy.cn/index/\"\n\n");
    content.push_str("[registries.rsproxy]\nindex = \"https://rsproxy.cn/crates.io-index\"\n\n");
    content.push_str("[net]\ngit-fetch-with-cli = true\n");
    let mut doc = document_from_content(&content);
    remove_proxy_config(&mut doc);
    let out = parsed(&document_text(&doc));
    assert_block_absent(&out);
}

#[test]
fn set_leaves_a_non_table_source_entry_alone() {
    let content = "source = 5\n";
    let mut doc = document_from_content(content);
    apply_set_proxy(&mut doc, "https://rsproxy.cn/crates.io-index/");
    let out = parsed(&document_text(&doc));
    assert_eq!(out.as_table().get("source").unwrap().as_integer(), Some(5));
    assert!(!has_key(&out, &["source", "crates-io"]));
    assert_eq!(nested_bool(&out, &["net", "git-fetch-with-cli"]), Some(true));
    assert_eq!(
        nested_str(&out, &["registries", "rsproxy", "index"]),
        Some("https://rsproxy.cn/crates.io-index".to_owned())
    );
}

#[test]
fn add_overwrites_an_existing_redirection() {
    let content = "[source.crates-io]\nreplace-with = \"somewhere-else\"\n";
    let mut doc = document_from_content(content);
    add_proxy_config(&mut doc, "https://rsproxy.cn/crates.io-index/");
    let out = parsed(&document_text(&doc));
    assert_block_present(&out);
}
