use nginx_discovery::error::Error;
use nginx_discovery::export::{
    prepare, render_markdown, ExportFormat, ExportOptions, Filter, FilterType,
};
use nginx_discovery::parse;

fn error_text(r: Result<Filter, Error>) -> String {
    match r {
        Err(Error::InvalidInput(text)) => text,
        other => panic!("not an invalid input: {:?}", other),
    }
}

#[test]
fn filters_are_read_from_type_and_pattern() {
    let f: Filter = "Server_Name=a=b".parse().unwrap();
    assert_eq!(f.filter_type, FilterType::ServerName);
    assert_eq!(f.pattern, "a=b");
    assert_eq!("server=x".parse::<Filter>().unwrap().filter_type, FilterType::ServerName);
    assert_eq!("UPSTREAM=x".parse::<Filter>().unwrap().filter_type, FilterType::Upstream);
    assert_eq!("location=".parse::<Filter>().unwrap().filter_type, FilterType::Location);
    assert_eq!("location=".parse::<Filter>().unwrap().pattern, "");
    assert_eq!("ssl=1".parse::<Filter>().unwrap().filter_type, FilterType::SslOnly);
    assert_eq!(
        error_text("nothing".parse()),
        "Invalid filter format. Expected: type=pattern, got: nothing"
    );
    assert_eq!(error_text("Kind=x".parse()), "Unknown filter type: kind");
    assert_eq!(error_text("=x".parse()), "Unknown filter type: ");
    assert_eq!(Filter::from_text("port=1").unwrap().clone().pattern, "1");
}

#[test]
fn a_directive_filter_keeps_the_named_top_level_directives() {
    let config = parse("a 1; b { a 2; } a 3; c;").unwrap();
    let kept = Filter::new(FilterType::Directive, "a").apply(&config).unwrap();
    assert_eq!(kept, parse("a 1; a 3;").unwrap());
    let none = Filter::new(FilterType::Directive, "z").apply(&config).unwrap();
    assert!(none.is_empty());
    assert_eq!(config.directives.len(), 4);
}

#[test]
fn the_other_filters_keep_everything_or_fail() {
    let config = parse("a 1; b { a 2; }").unwrap();
    assert_eq!(Filter::new(FilterType::ServerName, "x").apply(&config).unwrap(), config);
    assert_eq!(Filter::new(FilterType::SslOnly, "").apply(&config).unwrap(), config);
    assert_eq!(Filter::new(FilterType::Port, "+443").apply(&config).unwrap(), config);
    match Filter::new(FilterType::Port, "70000").apply(&config) {
        Err(Error::InvalidInput(text)) => assert_eq!(text, "Invalid port number: 70000"),
        other => panic!("not an invalid input: {:?}", other),
    }
    match Filter::new(FilterType::Upstream, "x").apply(&config) {
        Err(Error::NotImplemented(text)) => {
            assert_eq!(text, "Filter type Upstream not yet implemented")
        }
        other => panic!("not a missing implementation: {:?}", other),
    }
    match Filter::new(FilterType::Location, "x").apply(&config) {
        Err(Error::NotImplemented(text)) => {
            assert_eq!(text, "Filter type Location not yet implemented")
        }
        other => panic!("not a missing implementation: {:?}", other),
    }
}

#[test]
fn an_export_writes_what_its_filter_leaves() {
    let config = parse("a 1; b 2;").unwrap();
    let plain = ExportOptions::default();
    assert_eq!(prepare(&config, &plain).unwrap(), config);
    let filtered =
        ExportOptions::builder().filter(Filter::new(FilterType::Directive, "b")).build();
    assert_eq!(prepare(&config, &filtered).unwrap(), parse("b 2;").unwrap());
    let failing = ExportOptions::builder().filter(Filter::new(FilterType::Port, "x")).build();
    assert!(prepare(&config, &failing).is_err());
    let copy = filtered.clone();
    assert_eq!(copy.filter.unwrap().pattern, "b");
}

#[test]
fn formats_know_their_names() {
    assert_eq!(ExportFormat::Toml.to_string(), "toml");
    assert_eq!(ExportFormat::Markdown.to_string(), "markdown");
    assert_eq!(ExportFormat::Markdown.extension(), "md");
    assert_eq!(ExportFormat::Toml.mime_type(), "application/toml");
    assert!(ExportFormat::Toml.supports_pretty());
    assert!(!ExportFormat::Markdown.supports_pretty());
    assert_eq!(
        ExportFormat::all(),
        vec![ExportFormat::Json, ExportFormat::Yaml, ExportFormat::Toml, ExportFormat::Markdown]
    );
    assert_eq!("MarkDown".parse::<ExportFormat>(), Ok(ExportFormat::Markdown));
    assert_eq!("MD".parse::<ExportFormat>(), Ok(ExportFormat::Markdown));
    assert_eq!("Toml".parse::<ExportFormat>(), Ok(ExportFormat::Toml));
    assert_eq!(
        "XML".parse::<ExportFormat>(),
        Err("Unknown format: XML. Available: json, yaml, toml, markdown".to_string())
    );
}

#[test]
fn the_markdown_report_in_full() {
    let config = parse(
        "user x; http { server { listen 80; listen '[::]:443' ssl; server_name a b; root /srv; } server { } }",
    )
    .unwrap();
    let expected = "# NGINX Configuration Report\n\n\
## Metadata\n\n- **Generated**: 2024-01-02 03:04:05\n- **Directives**: 2\n\n\
## HTTP Configuration\n\n\
### Servers (2 total)\n\n\
#### Server 1\n\n- **Server Names**: a, b\n- **Listen**: *:80, :::443\n- **Root**: /srv\n\n\
#### Server 2\n\n\n\
### Upstreams\n\n_Upstream extraction coming in next version_\n\n\
## Stream Configuration\n\n_Stream configuration support coming in next version_\n\n";
    assert_eq!(render_markdown(&config, true, "2024-01-02 03:04:05"), expected);
}

#[test]
fn the_markdown_report_without_metadata_and_servers() {
    let config = parse("user x;").unwrap();
    let expected = "# NGINX Configuration Report\n\n\
## HTTP Configuration\n\n\
### Upstreams\n\n_Upstream extraction coming in next version_\n\n\
## Stream Configuration\n\n_Stream configuration support coming in next version_\n\n";
    assert_eq!(render_markdown(&config, false, "ignored"), expected);
}
