use nginx_discovery::export::ExportFormat;

#[test]
fn test_format_display() {
    assert_eq!(ExportFormat::Json.to_string(), "json");
    assert_eq!(ExportFormat::Yaml.to_string(), "yaml");
}

#[test]
fn format_test_format_from_str() {
    assert_eq!("json".parse::<ExportFormat>().unwrap(), ExportFormat::Json);
    assert_eq!("yaml".parse::<ExportFormat>().unwrap(), ExportFormat::Yaml);
    assert_eq!("yml".parse::<ExportFormat>().unwrap(), ExportFormat::Yaml);
}

#[test]
fn test_format_from_str_case_insensitive() {
    assert_eq!("JSON".parse::<ExportFormat>().unwrap(), ExportFormat::Json);
    assert_eq!("YaML".parse::<ExportFormat>().unwrap(), ExportFormat::Yaml);
}

#[test]
fn test_format_from_str_invalid() {
    let result = "invalid".parse::<ExportFormat>();
    assert!(result.is_err());
    let err = result.unwrap_err();
    assert!(err.contains("Unknown format"));
    assert!(err.contains("Available"));
}

#[test]
fn test_format_extension() {
    assert_eq!(ExportFormat::Json.extension(), "json");
    assert_eq!(ExportFormat::Yaml.extension(), "yaml");
}

#[test]
fn test_format_mime_type() {
    assert_eq!(ExportFormat::Json.mime_type(), "application/json");
    assert_eq!(ExportFormat::Yaml.mime_type(), "application/x-yaml");
}

#[test]
fn test_format_supports_pretty() {
    assert!(ExportFormat::Json.supports_pretty());
    assert!(!ExportFormat::Yaml.supports_pretty());
}

#[test]
fn test_format_all() {
    let formats = ExportFormat::all();
    assert!(formats.contains(&ExportFormat::Json));
    assert!(formats.contains(&ExportFormat::Yaml));
    assert!(!formats.is_empty());
}

#[test]
fn test_format_default() {
    assert_eq!(ExportFormat::default(), ExportFormat::Json);
}

#[test]
fn test_toml_format() {
    assert_eq!(ExportFormat::Toml.extension(), "toml");
    assert_eq!(ExportFormat::Toml.mime_type(), "application/toml");
    assert!(ExportFormat::Toml.supports_pretty());
}

#[test]
fn test_markdown_format() {
    assert_eq!(ExportFormat::Markdown.extension(), "md");
    assert_eq!(ExportFormat::Markdown.mime_type(), "text/markdown");
    assert!(!ExportFormat::Markdown.supports_pretty());
}
