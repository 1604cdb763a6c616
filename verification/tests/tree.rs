use nginx_discovery::ast::{Config, Directive, DirectiveItem, Span, Spanned, Value};
use nginx_discovery::parse;

fn simple(name: &str, args: &[&str]) -> Directive {
    Directive::simple(name, args.iter().map(|s| s.to_string()).collect())
}

fn sample() -> Config {
    parse(
        "log a; http { log b; server { log c; location / { log d; } } log e; } log f; server { log g; }",
    )
    .unwrap()
}

fn first_args(found: &[&Directive]) -> Vec<String> {
    found.iter().map(|d| d.first_arg().unwrap()).collect()
}

#[test]
fn recursive_search_is_in_source_order() {
    let config = sample();
    let found = config.find_directives_recursive("log");
    assert_eq!(first_args(&found), vec!["a", "b", "c", "d", "e", "f", "g"]);
}

#[test]
fn recursive_search_from_a_block_counts_the_block_itself() {
    let tree = parse("server { server { x; } y; server; }").unwrap();
    let outer = &tree.directives[0];
    let found = outer.find_recursive("server");
    assert_eq!(found.len(), 3);
    assert!(found[0].is_block());
    assert_eq!(found[0].children().unwrap().len(), 3);
    assert_eq!(found[1].children().unwrap().len(), 1);
    assert!(found[2].is_simple());
    assert_eq!(outer.find_recursive("x").len(), 1);
    assert_eq!(outer.find_recursive("z").len(), 0);
}

#[test]
fn shallow_search_sees_direct_children_only() {
    let config = sample();
    assert_eq!(first_args(&config.find_directives("log")), vec!["a", "f"]);
    let http = &config.directives[1];
    assert_eq!(first_args(&http.find_children("log")), vec!["b", "e"]);
    assert_eq!(http.find_children("location").len(), 0);
    assert!(config.directives[0].find_children("log").is_empty());
}

#[test]
fn counting_counts_every_node() {
    assert_eq!(sample().count_directives(), 11);
    assert_eq!(Config::new().count_directives(), 0);
    assert_eq!(parse("a; b; c;").unwrap().count_directives(), 3);
    assert_eq!(parse("a { b { c { d { } } } }").unwrap().count_directives(), 4);
}

#[test]
fn mutable_search_hands_out_the_named_children() {
    let mut config = parse("listen 80; name a; listen 443; other;").unwrap();
    {
        let mut found = config.find_directives_mut("listen");
        assert_eq!(found.len(), 2);
        *found[1] = simple("listen", &["8443", "ssl"]);
        if let DirectiveItem::Simple { args, .. } = &mut found[0].item {
            args.push(Value::literal("default_server"));
        }
    }
    let expected =
        parse("listen 80 default_server; name a; listen 8443 ssl; other;").unwrap();
    assert_eq!(config, expected);
}

#[test]
fn mutable_search_in_a_block() {
    let mut config = parse("server { a 1; b 2; a 3; }").unwrap();
    {
        let server = &mut config.directives[0];
        let found = server.find_children_mut("a");
        assert_eq!(found.len(), 2);
        for d in found {
            *d = simple("c", &[]);
        }
    }
    assert_eq!(config, parse("server { c; b 2; c; }").unwrap());
    let mut plain = simple("c", &[]);
    assert!(plain.find_children_mut("x").is_empty());
}

#[test]
fn children_can_be_changed_in_place() {
    let mut config = parse("server { a; }").unwrap();
    config.directives[0].children_mut().unwrap().push(simple("b", &["1"]));
    assert_eq!(config, parse("server { a; b 1; }").unwrap());
    let mut plain = simple("x", &[]);
    assert!(plain.children_mut().is_none());
    assert_eq!(plain.children(), None);
}

#[test]
fn constructors_set_what_they_are_given() {
    let span = Span::new(3, 9, 2, 4);
    let d = Directive::block_with_span("b", vec!["x".to_string()], vec![simple("c", &[])], span);
    assert_eq!(d.span(), span);
    assert_eq!(d.args(), &[Value::literal("x")][..]);
    assert_eq!(d.children().unwrap(), &[simple("c", &[])][..]);
    let e = Directive::block_with_values("b", vec![Value::variable("v")], vec![]);
    assert_eq!(e.span, Span::default());
    assert_eq!(e.first_arg(), Some("v".to_string()));
    assert_eq!(simple("s", &[]).first_arg(), None);
    assert_eq!(d.clone(), d);
}

#[test]
fn values_render_as_they_were_written() {
    assert_eq!(Value::literal("a b").to_config_string(), "a b");
    assert_eq!(Value::single_quoted("").to_config_string(), "''");
    assert_eq!(Value::double_quoted("x'y").to_config_string(), "\"x'y\"");
    assert_eq!(Value::variable("v").to_config_string(), "$v");
    assert_eq!(Value::from(&"s".to_string()), Value::literal("s"));
    assert_eq!(Value::single_quoted("q").clone(), Value::single_quoted("q"));
}

#[test]
fn spans_merge_to_the_enclosing_span() {
    let a = Span::new(5, 9, 3, 7);
    let b = Span::new(2, 6, 4, 1);
    let m = a.merge(b);
    assert_eq!(m, Span::new(2, 9, 3, 1));
    assert_eq!(m, b.merge(a));
    assert_eq!(a.merge(a), a);
}

#[test]
fn span_length_and_emptiness() {
    assert_eq!(Span::new(9, 5, 1, 1).len(), 0);
    assert!(Span::new(9, 5, 1, 1).is_empty());
    assert!(!Span::new(5, 6, 1, 1).is_empty());
    assert_eq!(Span::new(0, usize::MAX, 1, 1).len(), usize::MAX);
}

#[test]
fn span_slices_between_characters_only() {
    let text = "a\u{e9}b";
    assert_eq!(Span::new(0, 4, 1, 1).slice(text), Some(text));
    assert_eq!(Span::new(1, 3, 1, 2).slice(text), Some("\u{e9}"));
    assert_eq!(Span::new(2, 2, 1, 1).slice(text), None);
    assert_eq!(Span::new(1, 2, 1, 1).slice(text), None);
    assert_eq!(Span::new(3, 3, 1, 1).slice(text), Some(""));
    assert_eq!(Span::new(4, 4, 1, 1).slice(text), Some(""));
    assert_eq!(Span::new(0, 5, 1, 1).slice(text), None);
    assert_eq!(Span::new(3, 1, 1, 1).slice(text), None);
}

#[test]
fn span_display_counts_from_its_numbers() {
    assert_eq!(Span::new(0, 0, 0, 0).to_string(), "line 0, column 0");
    assert_eq!(Span::new(0, 0, 1234567, 89).to_string(), "line 1234567, column 89");
}

#[test]
fn the_outline_line_by_line() {
    let config = parse("user nginx; http { server { listen 80 ssl; } include x; } events { }").unwrap();
    let lines: Vec<String> =
        nginx_discovery::outline::outline(&config).iter().map(|l| l.to_string()).collect();
    assert_eq!(
        lines,
        vec![
            "\u{2514}\u{2500} user nginx;",
            "\u{2514}\u{2500} http {",
            "  \u{251c}\u{2500} server {",
            "    \u{2514}\u{2500} listen 80 ssl;",
            "    }",
            "  \u{2514}\u{2500} include x;",
            "  }",
            "\u{2514}\u{2500} events {",
            "  }",
        ]
    );
    assert!(nginx_discovery::outline::outline(&Config::new()).is_empty());
}
