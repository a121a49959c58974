use fervid::transform::asset_urls::{rewrite_asset_url, rewrite_base_url, write_path, AssetImport, AssetUrlError, AssetUrlRewrite};

fn path_of(j: &str) -> String {
    let mut out = String::new();
    write_path(j, &mut out);
    out
}

#[test]
fn paths_are_written_from_their_components() {
    assert_eq!(path_of("/foo/./bar.png"), "/foo/bar.png");
    assert_eq!(path_of("/foo//bar.png"), "/foo/bar.png");
    assert_eq!(path_of("./a/b"), "./a/b");
    assert_eq!(path_of("/foo/../a.png"), "/foo../a.png");
    assert_eq!(path_of("/"), "");
}

#[test]
fn relative_urls_under_a_path_base() {
    assert_eq!(rewrite_base_url("./bar.png", "/foo/").as_deref(), Some("/foo/bar.png"));
    assert_eq!(rewrite_base_url("./bar.png", "/foo").as_deref(), Some("/foo/bar.png"));
}

#[test]
fn relative_urls_under_a_host_base() {
    assert_eq!(rewrite_base_url("./bar.png", "http://example.com").as_deref(), Some("http://example.com/bar.png"));
    assert_eq!(rewrite_base_url("./bar.png", "https://example.com/foo/").as_deref(), Some("https://example.com/foo/bar.png"));
    assert_eq!(rewrite_base_url("./bar.png", "//example.com:8080/x").as_deref(), Some("//example.com:8080/x/bar.png"));
}

#[test]
fn a_base_that_does_not_parse() {
    let mut imports = vec![];
    let r = rewrite_asset_url("./bar.png", Some("http://[::1"), &mut imports);
    assert!(matches!(r, Err(AssetUrlError::BaseUrlParseFailed)));
    assert!(imports.is_empty());
}

#[test]
fn without_base_or_dot_the_url_is_imported() {
    let mut imports = vec![];
    let r = rewrite_asset_url("./bar.png", None, &mut imports);
    assert!(matches!(r, Ok(AssetUrlRewrite::Import(AssetImport::Import { .. }))));
    assert_eq!(imports, vec!["./bar.png".to_string()]);

    let r = rewrite_asset_url("~/baz.png", Some("/foo/"), &mut imports);
    assert!(matches!(r, Ok(AssetUrlRewrite::Import(AssetImport::Import { .. }))));
    assert_eq!(imports, vec!["./bar.png".to_string(), "baz.png".to_string()]);

    let r = rewrite_asset_url("./bar.png", Some("/foo/"), &mut imports);
    match r {
        Ok(AssetUrlRewrite::Rewritten(s)) => assert_eq!(s, "/foo/bar.png"),
        _ => panic!("expected a rewritten URL"),
    }
}
