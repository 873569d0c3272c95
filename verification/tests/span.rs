use nyxx_lexer::Span;

#[test]
fn test_default() {
    let span = Span::default();
    assert_eq!(1, span.start_line);
    assert_eq!(1, span.end_line);
    assert_eq!(0, span.start_col);
    assert_eq!(0, span.end_col);
}

#[test]
fn test_copy() {
    let span = Span::default();
    let span1 = span;
    assert_eq!(1, span1.start_line);
    assert_eq!(1, span1.end_line);
    assert_eq!(0, span1.start_col);
    assert_eq!(0, span1.end_col);
}

#[test]
fn test_partial_eq() {
    let span = Span::default();
    let span1 = span.clone();
    assert!(span == span1);
}

#[test]
fn test_new_column() {
    let mut span = Span::default();
    span.new_column();

    assert_eq!(1, span.start_line);
    assert_eq!(1, span.end_line);
    assert_eq!(0, span.start_col);
    assert_eq!(1, span.end_col);
}

#[test]
fn test_new_line() {
    let mut span = Span::default();
    span.new_column();
    span.new_line();

    assert_eq!(1, span.start_line);
    assert_eq!(2, span.end_line);
    assert_eq!(0, span.start_col);
    assert_eq!(0, span.end_col);
}

#[test]
fn test_new_extract() {
    let mut span = Span::default();
    span.new_column();
    span.new_line();

    let span1 = span.extract();

    assert_eq!(1, span1.start_line);
    assert_eq!(2, span1.end_line);
    assert_eq!(0, span1.start_col);
    assert_eq!(0, span1.end_col);

    assert_eq!(2, span.start_line);
    assert_eq!(2, span.end_line);
    assert_eq!(0, span.start_col);
    assert_eq!(0, span.end_col);
}

#[test]
fn test_display() {
    let mut span = Span::default();
    let s = span.display_text();
    assert!(!s.is_empty());

    span.new_column();
    let s = span.display_text();
    assert!(!s.is_empty());

    span.new_line();
    let s = span.display_text();
    assert!(!s.is_empty());
}

#[test]
fn test_debug() {
    let mut span = Span::default();
    let s = format!("{:?}", span);
    assert!(!s.is_empty());

    span.new_column();
    let s = format!("{:?}", span);
    assert!(!s.is_empty());

    span.new_line();
    let s = format!("{:?}", span);
    assert!(!s.is_empty());
}

#[test]
fn test_new_is_empty_at_the_start() {
    assert_eq!(
        Span::new(),
        Span { start_line: 1, start_col: 0, end_line: 1, end_col: 0 }
    );
}

#[test]
fn test_partial_eq_tells_spans_apart() {
    let mut span = Span::new();
    span.new_column();
    assert!(span != Span::new());
}

#[test]
fn test_extract_twice_gives_contiguous_spans() {
    let mut tracker = Span::new();
    tracker.new_column();
    tracker.new_column();
    let first = tracker.extract();
    tracker.new_column();
    tracker.new_line();
    tracker.new_column();
    let second = tracker.extract();
    assert_eq!(first, Span { start_line: 1, start_col: 0, end_line: 1, end_col: 2 });
    assert_eq!(second, Span { start_line: 1, start_col: 2, end_line: 2, end_col: 1 });
    assert_eq!((first.end_line, first.end_col), (second.start_line, second.start_col));
    assert_eq!(tracker, Span { start_line: 2, start_col: 1, end_line: 2, end_col: 1 });
}

#[test]
fn test_display_text_of_one_column() {
    let span = Span { start_line: 3, start_col: 7, end_line: 3, end_col: 8 };
    assert_eq!(span.display_text(), "[3:7]");
}

#[test]
fn test_display_text_within_a_line() {
    let span = Span { start_line: 12, start_col: 0, end_line: 12, end_col: 105 };
    assert_eq!(span.display_text(), "[12:0..105]");
    assert_eq!(Span::new().display_text(), "[1:0..0]");
}

#[test]
fn test_display_text_across_lines() {
    let span = Span { start_line: 1, start_col: 13, end_line: 2, end_col: 0 };
    assert_eq!(span.display_text(), "(1:13..2:0)");
}

#[test]
fn test_display_text_of_a_span_that_runs_backwards() {
    let span = Span { start_line: 1, start_col: 5, end_line: 1, end_col: 4 };
    assert_eq!(span.display_text(), "[1:5..4]");
}

#[test]
fn test_plus_moves_the_end_by_columns() {
    let span = Span { start_line: 2, start_col: 3, end_line: 2, end_col: 5 };
    assert_eq!(span + 4, Span { start_line: 2, start_col: 3, end_line: 2, end_col: 9 });
    assert_eq!(span + 0, span);
}

#[test]
fn test_times_moves_the_end_by_lines() {
    let span = Span { start_line: 2, start_col: 3, end_line: 2, end_col: 5 };
    assert_eq!(span * 3, Span { start_line: 2, start_col: 3, end_line: 5, end_col: 0 });
    assert_eq!(span * 0, Span { start_line: 2, start_col: 3, end_line: 2, end_col: 0 });
}

#[test]
fn test_plus_and_times_agree_with_the_tracker() {
    let mut tracker = Span::new();
    tracker.new_column();
    tracker.new_column();
    assert_eq!(tracker, Span::new() + 2);
    tracker.new_line();
    assert_eq!(tracker, (Span::new() + 2) * 1);
}
