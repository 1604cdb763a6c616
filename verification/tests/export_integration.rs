use nginx_discovery::export::{ExportFormat, ExportOptions, Filter, FilterType};

#[test]
fn test_parse_filter_from_string() {
    let filter: Filter = "server_name=*.example.com".parse().unwrap();
    assert_eq!(filter.filter_type, FilterType::ServerName);
    assert_eq!(filter.pattern, "*.example.com");
}

#[test]
fn test_export_options_builder() {
    let options = ExportOptions::builder()
        .format(ExportFormat::Json)
        .pretty(true)
        .compact(false)
        .include_metadata(true)
        .include_comments(false)
        .build();

    assert_eq!(options.format, ExportFormat::Json);
    assert!(options.pretty);
    assert!(!options.compact);
    assert!(options.include_metadata);
    assert!(!options.include_comments);
}

#[test]
fn export_integration_test_format_from_str() {
    assert_eq!("json".parse::<ExportFormat>().unwrap(), ExportFormat::Json);
    assert_eq!("yaml".parse::<ExportFormat>().unwrap(), ExportFormat::Yaml);
    assert_eq!("yml".parse::<ExportFormat>().unwrap(), ExportFormat::Yaml);

    {
        assert_eq!("toml".parse::<ExportFormat>().unwrap(), ExportFormat::Toml);
    }

    {
        assert_eq!("markdown".parse::<ExportFormat>().unwrap(), ExportFormat::Markdown);
        assert_eq!("md".parse::<ExportFormat>().unwrap(), ExportFormat::Markdown);
    }
}
