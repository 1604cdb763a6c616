use nginx_discovery::ast::Span;

#[test]
fn test_span_new() {
    let span = Span::new(0, 10, 1, 1);
    assert_eq!(span.start, 0);
    assert_eq!(span.end, 10);
    assert_eq!(span.line, 1);
    assert_eq!(span.col, 1);
}

#[test]
fn test_span_at() {
    let span = Span::at(5, 2, 3);
    assert_eq!(span.start, 5);
    assert_eq!(span.end, 5);
    assert_eq!(span.line, 2);
    assert_eq!(span.col, 3);
    assert!(span.is_empty());
}

#[test]
fn test_span_merge() {
    let span1 = Span::new(0, 5, 1, 1);
    let span2 = Span::new(10, 15, 2, 1);
    let merged = span1.merge(span2);

    assert_eq!(merged.start, 0);
    assert_eq!(merged.end, 15);
    assert_eq!(merged.line, 1);
}

#[test]
fn test_span_len() {
    let span = Span::new(5, 15, 1, 1);
    assert_eq!(span.len(), 10);

    let empty_span = Span::at(5, 1, 1);
    assert_eq!(empty_span.len(), 0);
}

#[test]
fn test_span_slice() {
    let source = "hello world";
    let span = Span::new(0, 5, 1, 1);
    assert_eq!(span.slice(source), Some("hello"));

    let span2 = Span::new(6, 11, 1, 7);
    assert_eq!(span2.slice(source), Some("world"));
}

#[test]
fn test_span_display() {
    let span = Span::new(0, 5, 10, 25);
    assert_eq!(span.to_string(), "line 10, column 25");
}

#[test]
fn test_span_default() {
    let span = Span::default();
    assert_eq!(span.line, 1);
    assert_eq!(span.col, 1);
    assert_eq!(span.start, 0);
}
