use nginx_discovery::export::{ExportFormat, ExportOptions};

#[test]
fn test_default_options() {
    let options = ExportOptions::default();
    assert_eq!(options.format, ExportFormat::Json);
    assert!(options.pretty);
    assert!(options.include_metadata);
    assert!(!options.include_comments);
    assert!(!options.compact);
}

#[test]
fn test_builder() {
    let options = ExportOptions::builder()
        .format(ExportFormat::Yaml)
        .pretty(false)
        .compact(true)
        .build();

    assert_eq!(options.format, ExportFormat::Yaml);
    assert!(!options.pretty);
    assert!(options.compact);
}

#[test]
fn test_builder_partial() {
    let options = ExportOptions::builder().format(ExportFormat::Json).build();

    // Should use defaults for unset fields
    assert!(options.pretty);
    assert!(options.include_metadata);
}

#[test]
fn test_builder_all_options() {
    let options = ExportOptions::builder()
        .format(ExportFormat::Yaml)
        .pretty(false)
        .include_metadata(false)
        .include_comments(true)
        .compact(true)
        .template("custom.md")
        .build();

    assert_eq!(options.format, ExportFormat::Yaml);
    assert!(!options.pretty);
    assert!(!options.include_metadata);
    assert!(options.include_comments);
    assert!(options.compact);
    assert_eq!(options.template.as_deref(), Some("custom.md"));
}

#[test]
fn test_builder_chaining() {
    let options = ExportOptions::builder()
        .format(ExportFormat::Json)
        .pretty(true)
        .include_metadata(true)
        .include_comments(false)
        .compact(false)
        .build();

    assert_eq!(options.format, ExportFormat::Json);
    assert!(options.pretty);
}
