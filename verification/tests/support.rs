use v8_runner::support::number::parse_u32_str;
use v8_runner::support::path::{
    is_safe_path_segment, join, normalize_path, path_file_name, path_parent, paths_equal,
};
use v8_runner::support::path_order::sort_dedup_paths;
use v8_runner::support::source_descriptor::{
    classify_external_source_descriptor, classify_source_descriptor, extract_logical_name,
    parse_external_descriptor, scan_designer_external_root, DirEntryFacts, EntryKind,
    ExternalDescriptorParseError, SourceDescriptorPurpose, SourceSetRootScanError,
};
use v8_runner::support::text::{replace_str, trim_str};

#[test]
fn classify_configuration_extension_marker_as_extension() {
    let xml = "<Configuration><ObjectBelonging>Adopted</ObjectBelonging></Configuration>";

    assert_eq!(
        classify_source_descriptor(xml).expect("classify"),
        Some(SourceDescriptorPurpose::Extension)
    );
}

#[test]
fn parse_external_descriptor_accepts_metadataobject_wrapper() {
    let xml = "<MetaDataObject><ExternalDataProcessor><Properties><Name>Foo</Name></Properties></ExternalDataProcessor></MetaDataObject>";
    let parsed = parse_external_descriptor(xml).expect("parse");

    assert_eq!(parsed.logical_name, "Foo");
    assert_eq!(parsed.purpose, SourceDescriptorPurpose::ExternalDataProcessors);
}

#[test]
fn classify_plain_configuration_and_external_roots() {
    assert_eq!(
        classify_source_descriptor("<Configuration><Name>Main</Name></Configuration>").expect("classify"),
        Some(SourceDescriptorPurpose::Configuration)
    );
    assert_eq!(
        classify_external_source_descriptor("<ExternalReport><Properties><Name>R</Name></Properties></ExternalReport>")
            .expect("classify"),
        Some(SourceDescriptorPurpose::ExternalReports)
    );
    assert_eq!(classify_source_descriptor("<Catalog/>").expect("classify"), None);
}

#[test]
fn logical_name_is_unescaped_and_required() {
    assert_eq!(
        extract_logical_name("<ExternalReport><Properties><Name>A&amp;B</Name></Properties></ExternalReport>")
            .expect("name"),
        Some("A&B".to_owned())
    );
    assert!(matches!(
        parse_external_descriptor("<ExternalReport><Properties></Properties></ExternalReport>"),
        Err(ExternalDescriptorParseError::MissingLogicalName)
    ));
}

fn file(path: &str, content: &str) -> DirEntryFacts {
    DirEntryFacts {
        path: path.to_owned(),
        kind: Ok(EntryKind { is_symlink: false, is_file: true, is_dir: false }),
        content: Some(Ok(content.to_owned())),
    }
}

#[test]
fn scan_designer_external_root_accepts_uppercase_xml_extension() {
    let entries = scan_designer_external_root(
        "/ext",
        Ok(vec![file(
            "/ext/Report.XML",
            "<ExternalReport><Properties><Name>Report</Name></Properties></ExternalReport>",
        )]),
    )
    .expect("scan");

    assert_eq!(entries.len(), 1);
    assert_eq!(entries[0].purpose, Some(SourceDescriptorPurpose::ExternalReports));
}

#[test]
fn scan_designer_external_root_reports_unreadable_directory() {
    let r = scan_designer_external_root("/ext", Err("denied".to_owned()));

    assert!(matches!(r, Err(SourceSetRootScanError::Runtime(m)) if m.contains("/ext") && m.contains("denied")));
}

#[test]
fn paths_are_compared_in_normal_form() {
    assert_eq!(normalize_path("/a//b/./c/"), "/a/b/c");
    assert_eq!(join("/work", "hash-storages"), "/work/hash-storages");
    assert_eq!(join("/work", "/abs"), "/abs");
    assert!(paths_equal("/a/b", "/a/./b/"));
    assert_eq!(path_parent("/a/b"), Some("/a".to_owned()));
    assert!(is_safe_path_segment("main-config_01"));
    assert!(!is_safe_path_segment("../outside"));
    assert!(!is_safe_path_segment("bad/name"));
    assert!(!is_safe_path_segment("bad\\name"));
}

#[test]
fn leading_current_directory_is_kept_as_std_keeps_it() {
    assert_eq!(join("./work", "hash-storages"), "./work/hash-storages");
    assert_eq!(join("/captured", "."), "/captured");
    assert_eq!(join("", "./x"), "./x");
    assert!(paths_equal(&join("a", "./b"), "a/b"));
    assert_eq!(normalize_path("./a/./b"), "./a/b");
    assert_eq!(path_parent("./a"), Some(".".to_owned()));
    assert_eq!(path_parent("."), Some(String::new()));
    assert!(!paths_equal("./a", "a"));
    assert!(paths_equal("./a", ".//a/"));
    assert_eq!(path_file_name("./"), None);
    assert_eq!(path_file_name("./a"), Some("a".to_owned()));
}

#[test]
fn sort_dedup_orders_paths_once_each() {
    let paths = vec!["/b".to_owned(), "/a/c".to_owned(), "/a".to_owned(), "/b".to_owned()];

    assert_eq!(sort_dedup_paths(&paths), vec!["/a", "/a/c", "/b"]);
}

#[test]
fn text_helpers_match_std() {
    assert_eq!(trim_str("  x y \t"), "x y");
    assert_eq!(replace_str("a'b'c", "'", "''"), "a''b''c");
    assert_eq!(parse_u32_str("4294967295"), Some(u32::MAX));
    assert_eq!(parse_u32_str("4294967296"), None);
    assert_eq!(parse_u32_str(""), None);
    assert_eq!(parse_u32_str("+1"), "+1".parse::<u32>().ok());
}
