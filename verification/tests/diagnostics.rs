use kyanite::error::{PreciseError, Source};
use kyanite::token::Span;

#[test]
fn precise_error_layout_and_colors() {
    let e = PreciseError::new(
        "let x = 1".to_string(),
        Span::new(1, 4, 1),
        "expected ; but found EOF".to_string(),
        "expected ; here".to_string(),
    );
    colored::control::set_override(true);
    let painted = e.build();
    assert!(painted.contains("\u{1b}["));
    assert!(painted.contains("-->"));
    let nested = PreciseError::new(
        "x".to_string(),
        Span::new(1, 0, 1),
        "heading".to_string(),
        "a\u{1b}[0mb".to_string(),
    );
    assert!(nested.build().contains("\u{1b}[1;31m^ a\u{1b}[0m\u{1b}[1;31mb\u{1b}[0m"));
    colored::control::set_override(false);
    let plain = e.build();
    assert_ne!(painted, plain);
    assert_eq!(plain, "--> main.kya:1:4\n  |\n1 | let x = 1\n  |    ^ expected ; here\n  |\n");
    let whole = e.display();
    assert_eq!(whole, format!("error: expected ; but found EOF\n{}", plain));
    assert_eq!(e.heading(), "expected ; but found EOF");
    assert_eq!(e.text(), "expected ; here");
    assert_eq!(e.line(), "let x = 1");
    assert_eq!(e.span().line, 1);
}

#[test]
fn source_lines_are_numbered_from_one() {
    let source = Source::new(vec!["first".to_string(), "second".to_string()]);
    assert_eq!(source.line(1), "first");
    assert_eq!(source.line(2), "second");
}
