use duckdb_opendal::error::OdErrorCode;
use duckdb_opendal::ffi::CText;
use duckdb_opendal::operator_uri::{
    odop_parse_uri, parsed_uri, scheme_of, split_scheme, OdopParsedUri,
};
use duckdb_opendal::percent::encode_path;
use duckdb_opendal::schemes::{
    contains_scheme, current_schemes, od_scheme_supported, od_schemes, registered_schemes,
    sorted_schemes, KeptSchemes, OdSchemeList,
};
use duckdb_opendal::uri::{od_url_build, od_url_resolve, resolve, resolve_with};

fn text(text: &str) -> CText {
    CText::Text(text.to_string())
}

fn parsed(url: &str) -> (String, String, String) {
    match resolve(&text(url)) {
        Ok(parts) => parts,
        Err(failure) => panic!("resolve failed: {}", failure.message),
    }
}

fn refusal(url: &CText) -> (OdErrorCode, String) {
    match resolve(url) {
        Ok(_) => panic!("resolved"),
        Err(failure) => (failure.code, failure.message),
    }
}

#[test]
fn resolves_universal_url_shape() {
    assert_eq!(
        parsed("S3://bucket/a//b%20c/"),
        (
            "s3".to_string(),
            "bucket".to_string(),
            "a//b c/".to_string()
        )
    );
    assert_eq!(
        parsed("memory:///registry/path"),
        (
            "memory".to_string(),
            "".to_string(),
            "registry/path".to_string()
        )
    );
}

#[test]
fn rejects_ambiguous_url_features() {
    for url in [
        "s3://bucket/key?version=1",
        "s3://bucket/key#fragment",
        "s3://user@bucket/key",
        "s3://bucket/a%2Fb",
    ] {
        assert!(resolve(&text(url)).is_err());
    }
}

#[test]
fn urls_are_refused_for_a_reason() {
    let invalid = OdErrorCode::InvalidInput;
    assert_eq!(refusal(&CText::Null), (invalid, "url is null or not UTF-8".to_string()));
    assert_eq!(refusal(&CText::NotUtf8), (invalid, "url is null or not UTF-8".to_string()));
    for url in ["s3://bucket/key?version=1", "s3://bucket/key#fragment", "?"] {
        assert_eq!(
            refusal(&text(url)),
            (
                invalid,
                "query strings and fragments are not supported in OpenDAL file URLs".to_string()
            )
        );
    }
    assert_eq!(
        refusal(&text("s3:/bucket/key")),
        (invalid, "url must use scheme://authority/path syntax".to_string())
    );
    assert_eq!(
        refusal(&text("Nope://bucket/key")),
        (
            OdErrorCode::Unsupported,
            "scheme 'nope' is not registered".to_string()
        )
    );
    assert_eq!(
        refusal(&text("s3://user@bucket/key")),
        (invalid, "userinfo is not supported in OpenDAL file URLs".to_string())
    );
    for url in ["s3://bucket/a%2Fb", "s3://bucket/a%2fb"] {
        assert_eq!(
            refusal(&text(url)),
            (invalid, "percent-encoded path separators are not supported".to_string())
        );
    }
    assert_eq!(
        refusal(&text("s3://bucket/%FF")),
        (invalid, "operation path is not valid UTF-8".to_string())
    );
    assert_eq!(
        refusal(&text("s3://bucket/%00")),
        (invalid, "operation path contains a NUL byte".to_string())
    );
}

#[test]
fn urls_resolve_without_a_path() {
    assert_eq!(
        parsed("s3://bucket"),
        ("s3".to_string(), "bucket".to_string(), "".to_string())
    );
    assert_eq!(
        parsed("fs://a:b//c%C3%A9@%zz"),
        ("fs".to_string(), "a:b".to_string(), "/c\u{e9}@%zz".to_string())
    );
}

#[test]
fn only_given_schemes_resolve() {
    let schemes = vec!["x".to_string()];
    assert!(resolve_with(&text("X://a/b"), &schemes).is_ok());
    assert!(resolve_with(&text("s3://a/b"), &schemes).is_err());
}

#[test]
fn resolving_needs_outputs() {
    assert!(od_url_resolve(&text("memory:///a"), true).is_ok());
    let failure = od_url_resolve(&text("memory:///a"), false).err().unwrap();
    assert_eq!(failure.code, OdErrorCode::InvalidInput);
    assert_eq!(failure.message, "null resolved-url output");
}

#[test]
fn built_urls_resolve_to_their_parts() {
    for path in [
        "",
        "plain/path.txt",
        "a b/\"c\"/#d/%e/?f",
        "d\u{e9}p\u{f4}t/\u{1f986}.parquet",
        "%2f%2F",
        "//double//",
        "tab\there\u{7f}",
    ] {
        let url = od_url_build(&text("s3"), &text("my-bucket"), &text(path)).unwrap();
        assert_eq!(
            parsed(&url),
            ("s3".to_string(), "my-bucket".to_string(), path.to_string())
        );
    }
}

#[test]
fn urls_are_built_exactly() {
    assert_eq!(
        od_url_build(&text("s3"), &text("b"), &text("a b/\u{e9}%?#\"~/")).unwrap(),
        "s3://b/a%20b/%C3%A9%25%3F%23%22~/"
    );
    assert!(od_url_build(&CText::Null, &text("b"), &text("p")).is_none());
    assert!(od_url_build(&text("s3"), &CText::NotUtf8, &text("p")).is_none());
    assert!(od_url_build(&text("s3"), &text("b"), &CText::Null).is_none());
    assert!(od_url_build(&text("s\0"), &text("b"), &text("p")).is_none());
    assert_eq!(encode_path("\0\u{1f}\u{80}"), "%00%1F%C2%80");
}

#[test]
fn scheme_membership_reads_registry() {
    let mut kept = KeptSchemes::new();
    let mut sup = |scheme: &str| od_scheme_supported(&text(scheme), &mut kept);
    assert!(sup("memory"));
    assert!(sup("fs"));
    assert!(sup("s3"));
    assert!(sup("file"));
    assert!(!sup("S3"));
    assert!(!sup("definitely_not_a_scheme"));
    let mut fresh = KeptSchemes::new();
    assert!(!od_scheme_supported(&CText::Null, &mut fresh));

    let list = od_schemes(&mut fresh).ok().unwrap();
    assert!(list.schemes.windows(2).all(|pair| pair[0] < pair[1]));
    assert!(list.schemes.iter().all(|scheme| sup(scheme)));
    assert!(list.schemes.iter().any(|scheme| scheme == "memory"));
    assert_eq!(*registered_schemes(&mut fresh), list.schemes);
    assert!(current_schemes().contains(&"memory".to_string()));
    assert_eq!(list.entry(0), list.schemes.first());
    assert_eq!(list.entry(list.len()), None);
}

#[test]
fn schemes_are_sorted_and_told_apart() {
    let schemes = vec!["s3".to_string(), "fs".to_string(), "memory".to_string()];
    assert_eq!(sorted_schemes(&schemes), ["fs", "memory", "s3"]);
    assert!(contains_scheme(&schemes, "fs"));
    assert!(!contains_scheme(&schemes, "f"));
    let list = OdSchemeList::of(&schemes).ok().unwrap();
    assert_eq!(list.schemes, schemes);
    let failure = OdSchemeList::of(&vec!["a\0".to_string()]).err().unwrap();
    assert_eq!(failure.code, OdErrorCode::Unexpected);
    assert_eq!(failure.message, "registered scheme contains a NUL byte");
}

#[test]
fn the_first_list_of_schemes_is_kept() {
    let mut kept = KeptSchemes::new();
    let first = registered_schemes(&mut kept).clone();
    assert!(!od_scheme_supported(&text("later"), &mut kept));
    opendal::OperatorRegistry::get().register::<opendal::services::Memory>("later");
    assert!(current_schemes().contains(&"later".to_string()));
    assert_eq!(*registered_schemes(&mut kept), first);
    assert_eq!(od_schemes(&mut kept).ok().unwrap().schemes, first);
    assert!(!od_scheme_supported(&text("later"), &mut kept));
    assert!(od_scheme_supported(&text("later"), &mut KeptSchemes::new()));
}

fn parts(uri: OdopParsedUri) -> (String, String, String, bool, bool) {
    (
        uri.scheme,
        uri.authority,
        uri.root,
        uri.has_authority,
        uri.has_root,
    )
}

#[test]
fn operator_uris_are_split() {
    assert_eq!(
        parts(odop_parse_uri(&text("S3://Bucket/some/root/")).ok().unwrap()),
        ("s3".to_string(), "Bucket".to_string(), "some/root".to_string(), true, true)
    );
    assert_eq!(
        parts(odop_parse_uri(&text("fs:///tmp/x")).ok().unwrap()),
        ("fs".to_string(), "".to_string(), "tmp/x".to_string(), false, true)
    );
    assert_eq!(
        parts(odop_parse_uri(&text("Memory")).ok().unwrap()),
        ("memory".to_string(), "".to_string(), "".to_string(), false, false)
    );
    let failure = odop_parse_uri(&text("://")).err().unwrap();
    assert_eq!(failure.code, OdErrorCode::InvalidInput);
    assert!(failure.message.contains("failed to parse uri"));
    let failure = odop_parse_uri(&CText::Null).err().unwrap();
    assert_eq!(failure.message, "uri is null or not UTF-8");
    assert_eq!(scheme_of("S3"), "s3");
    assert_eq!(scheme_of("s3://bucket/x"), "s3");
    assert_eq!(scheme_of("://"), "unknown");
}

#[test]
fn split_uris_are_reported() {
    let split = Ok((
        "a".to_string(),
        Some("b\0".to_string()),
        Some("c".to_string()),
    ));
    assert_eq!(
        parts(parsed_uri(split).ok().unwrap()),
        ("a".to_string(), "".to_string(), "c".to_string(), true, true)
    );
    let failure = parsed_uri(Err(("NotFound".to_string(), "gone".to_string())))
        .err()
        .unwrap();
    assert_eq!(failure.code, OdErrorCode::NotFound);
    assert_eq!(failure.message, "gone");
    assert_eq!(split_scheme(Err(("x".to_string(), "y".to_string()))), "unknown");
}
