use block_parser::handler::CaptureHandler;
use block_parser::processor::FileProcessor;

fn formatted(label: &str, content: &str) -> String {
    format!(
        "=== Start: {} ===\n{}\n===  End: {}  ===\n",
        label, content, label
    )
}

fn run_capture(lines: &[&str], pre_sentinel: &str, post_sentinel: &str) -> Vec<String> {
    let owned: Vec<String> = lines.iter().map(|l| l.to_string()).collect();
    let mut processor = FileProcessor::new(
        CaptureHandler::new(),
        Some(CaptureHandler::new()),
        Some(CaptureHandler::new()),
    );
    processor
        .process_lines(&owned, pre_sentinel, post_sentinel)
        .unwrap();
    let mut output: Vec<String> = Vec::new();
    for content in processor.pre_handler.captured() {
        output.push(formatted("PRE-BLOCK", content));
    }
    for content in processor.central_handler.as_ref().unwrap().captured() {
        output.push(formatted("CENTRAL-BLOCK", content));
    }
    for content in processor.post_handler.as_ref().unwrap().captured() {
        output.push(formatted("POST-BLOCK", content));
    }
    output
}

#[test]
fn test_all_blocks() {
    let output = run_capture(
        &[
            "pre-block line 1",
            "pre-block line 2",
            "*pre*",
            "central-block line 1",
            "*post*",
            "post-block line 1",
        ],
        "*pre*",
        "*post*",
    );

    assert_eq!(output.len(), 3);

    assert!(output[0].contains("=== Start: PRE-BLOCK ==="));
    assert!(output[0].contains("pre-block line 1"));
    assert!(output[0].contains("pre-block line 2"));
    assert!(output[0].contains("===  End: PRE-BLOCK  ==="));

    assert!(output[1].contains("=== Start: CENTRAL-BLOCK ==="));
    assert!(output[1].contains("central-block line 1"));
    assert!(output[1].contains("===  End: CENTRAL-BLOCK  ==="));

    assert!(output[2].contains("=== Start: POST-BLOCK ==="));
    assert!(output[2].contains("post-block line 1"));
    assert!(output[2].contains("===  End: POST-BLOCK  ==="));
}

#[test]
fn test_pre_block_only() {
    let output = run_capture(
        &["Only pre-block content", "More pre_block"],
        "*pre*",
        "*post*",
    );

    assert_eq!(output.len(), 1);

    assert!(output[0].contains("=== Start: PRE-BLOCK ==="));
    assert!(output[0].contains("Only pre-block content"));
    assert!(output[0].contains("More pre_block"));
    assert!(output[0].contains("===  End: PRE-BLOCK  ==="));

    assert!(!output[0].contains("===  End: CENTRAL-BLOCK  ==="));
    assert!(!output[0].contains("=== Start: POST-BLOCK ==="));
}
