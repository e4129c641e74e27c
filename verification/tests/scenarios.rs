use block_parser::handler::{BlockHandler, CaptureHandler, HandlerError, PrintHandler};
use block_parser::machine::BlockKind;
use block_parser::parser::FileParser;
use block_parser::processor::FileProcessor;

fn capture_run(
    lines: &[&str],
    pre_sentinel: &str,
    post_sentinel: &str,
) -> (Vec<String>, Vec<String>, Vec<String>) {
    let owned: Vec<String> = lines.iter().map(|l| l.to_string()).collect();
    let mut processor = FileProcessor::new(
        CaptureHandler::new(),
        Some(CaptureHandler::new()),
        Some(CaptureHandler::new()),
    );
    processor
        .process_lines(&owned, pre_sentinel, post_sentinel)
        .unwrap();
    (
        processor.pre_handler.captured().clone(),
        processor.central_handler.as_ref().unwrap().captured().clone(),
        processor.post_handler.as_ref().unwrap().captured().clone(),
    )
}

#[test]
fn all_three_blocks_receive_their_lines() {
    let (pre, central, post) = capture_run(&["x", "*pre*", "y", "*post*", "z"], "*pre*", "*post*");
    assert_eq!(pre, vec!["x".to_string()]);
    assert_eq!(central, vec!["y".to_string()]);
    assert_eq!(post, vec!["z".to_string()]);
}

#[test]
fn no_sentinels_means_one_pre_flush() {
    let (pre, central, post) = capture_run(&["a", "b"], "*pre*", "*post*");
    assert_eq!(pre, vec!["a\nb".to_string()]);
    assert!(central.is_empty());
    assert!(post.is_empty());
}

#[test]
fn post_sentinel_first_skips_central() {
    let (pre, central, post) = capture_run(&["*post*", "q"], "*pre*", "*post*");
    assert_eq!(pre, vec!["".to_string()]);
    assert!(central.is_empty());
    assert_eq!(post, vec!["q".to_string()]);
}

#[test]
fn empty_input_still_flushes_empty_pre_block() {
    let (pre, central, post) = capture_run(&[], "*pre*", "*post*");
    assert_eq!(pre, vec!["".to_string()]);
    assert!(central.is_empty());
    assert!(post.is_empty());
}

#[test]
fn lines_join_with_single_newlines() {
    let mut parser = FileParser::new("*pre*", "*post*");
    assert!(parser.process_line("a").is_none());
    assert!(parser.process_line("b").is_none());
    let flush = parser.finish().unwrap();
    assert_eq!(flush.kind, BlockKind::Pre);
    assert_eq!(flush.content, "a\nb");
}

#[test]
fn leading_empty_line_is_absorbed_by_the_empty_buffer() {
    let mut parser = FileParser::new("*pre*", "*post*");
    assert!(parser.process_line("").is_none());
    assert!(parser.process_line("a").is_none());
    assert!(parser.process_line("").is_none());
    let flush = parser.finish().unwrap();
    assert_eq!(flush.content, "a\n");
}

#[test]
fn parser_reports_each_flush_with_its_block() {
    let mut parser = FileParser::new("*pre*", "*post*");
    assert!(parser.process_line("x").is_none());
    let first = parser.process_line("*pre*").unwrap();
    assert_eq!(first.kind, BlockKind::Pre);
    assert_eq!(first.content, "x");
    assert!(parser.process_line("y").is_none());
    let second = parser.process_line("*post*").unwrap();
    assert_eq!(second.kind, BlockKind::Central);
    assert_eq!(second.content, "y");
    assert!(parser.process_line("z").is_none());
    let third = parser.finish().unwrap();
    assert_eq!(third.kind, BlockKind::Post);
    assert_eq!(third.content, "z");
}

#[test]
fn finished_parser_ignores_lines_and_second_finish() {
    let mut parser = FileParser::new("*pre*", "*post*");
    assert!(parser.process_line("a").is_none());
    assert!(parser.finish().is_some());
    assert!(parser.process_line("*pre*").is_none());
    assert!(parser.process_line("b").is_none());
    assert!(parser.finish().is_none());
}

#[test]
fn sentinel_matches_after_trimming_surrounding_whitespace() {
    let mut parser = FileParser::new("*pre*", "*post*");
    let flush = parser.process_line("  \t*pre*\u{3000}  ").unwrap();
    assert_eq!(flush.kind, BlockKind::Pre);
    assert_eq!(flush.content, "");
}

#[test]
fn sentinel_is_not_a_substring_match() {
    let mut parser = FileParser::new("*pre*", "*post*");
    assert!(parser.process_line("x *pre* y").is_none());
    assert!(parser.process_line("*pre*!").is_none());
    let flush = parser.finish().unwrap();
    assert_eq!(flush.kind, BlockKind::Pre);
    assert_eq!(flush.content, "x *pre* y\n*pre*!");
}

#[test]
fn sentinel_with_inner_spaces_matches_exactly() {
    let mut parser = FileParser::new("--- PRE ---", "--- POST ---");
    let flush = parser.process_line("   --- PRE ---   ").unwrap();
    assert_eq!(flush.kind, BlockKind::Pre);
}

#[test]
fn absent_central_handler_discards_central_block() {
    let owned: Vec<String> = vec![
        "*pre*".to_string(),
        "hidden".to_string(),
        "*post*".to_string(),
        "kept".to_string(),
    ];
    let mut processor = FileProcessor::new(CaptureHandler::new(), None, Some(CaptureHandler::new()));
    processor.process_lines(&owned, "*pre*", "*post*").unwrap();
    assert_eq!(processor.pre_handler.captured(), &vec!["".to_string()]);
    assert!(processor.central_handler.is_none());
    assert_eq!(
        processor.post_handler.as_ref().unwrap().captured(),
        &vec!["kept".to_string()]
    );
}

#[test]
fn print_handler_suppresses_empty_blocks() {
    let handler = PrintHandler::new("PRE-BLOCK");
    assert_eq!(handler.render(""), "");
}

#[test]
fn print_handler_banner_has_exact_format() {
    let handler = PrintHandler::new("CENTRAL-BLOCK");
    assert_eq!(
        handler.render("line 1\nline 2"),
        "=== Start: CENTRAL-BLOCK ===\nline 1\nline 2\n===  End: CENTRAL-BLOCK  ===\n"
    );
}

struct RefusingHandler;

impl BlockHandler for RefusingHandler {
    // The record of handled contents is specification-only; nothing at run
    // time ever asks for it.
    fn handled(&self) -> vstd::seq::Seq<vstd::seq::Seq<char>> {
        panic!()
    }

    fn handle(&mut self, _content: &str) -> Result<(), HandlerError> {
        Err(HandlerError {
            message: "refused".to_string(),
        })
    }
}

#[test]
fn handler_failure_stops_processing_and_propagates() {
    let owned: Vec<String> = vec!["a".to_string(), "*pre*".to_string(), "b".to_string()];
    let mut processor = FileProcessor::new(RefusingHandler, None, None);
    let err = processor.process_lines(&owned, "*pre*", "*post*").unwrap_err();
    assert_eq!(err.message, "refused");
}
