use paper_sage::file_processor::SupportedFormats;

#[test]
fn known_extensions_are_supported() {
    for extension in ["rs", "py", "java", "txt", "pdf", "docx", "doc", "rtf", "ps1", "svelte", "conf"] {
        assert!(SupportedFormats::is_supported(extension));
    }
}

#[test]
fn other_extensions_are_not_supported() {
    for extension in ["", "png", "exe", "RS", "Py", "r", "rss", "gz", "xlsx"] {
        assert!(!SupportedFormats::is_supported(extension));
    }
}

#[test]
fn all_supported_extensions_are_listed_once() {
    let all = SupportedFormats::get_all_supported();
    assert_eq!(all.len(), 38);
    assert_eq!(all[0], "rs");
    assert_eq!(all[37], "ps1");
    for (i, extension) in all.iter().enumerate() {
        assert!(SupportedFormats::is_supported(extension));
        assert!(!all[..i].contains(extension));
    }
}

#[test]
fn categories_hold_the_supported_extensions() {
    let categories = SupportedFormats::extensions_by_category();
    let names: Vec<&str> = categories.iter().map(|(name, _)| *name).collect();
    assert_eq!(
        names,
        vec![
            "source_code",
            "text",
            "documents",
            "data_files",
            "web_technologies",
            "configuration_and_documentation"
        ]
    );
    assert_eq!(categories[1].1, vec!["txt", "md"]);
    assert_eq!(categories[2].1, vec!["pdf", "docx", "doc", "rtf"]);
    assert_eq!(categories[3].1, vec!["csv", "sql", "sh", "bat", "ps1"]);
    let mut together: Vec<&str> = categories.iter().flat_map(|(_, list)| list.iter().copied()).collect();
    let mut all = SupportedFormats::get_all_supported();
    together.sort();
    all.sort();
    assert_eq!(together, all);
}
