use rgrep::{process_input, Config, InputSource, OutputTarget, Pattern};

#[test]
fn processing_test_no_match() {
    let config = Config {
        count_only: false,
        insensitive: false,
        filename_only: false,
        invert_match: false,
        line_number: false,
        quiet: false,
        pattern: Pattern::new("foo").unwrap(),
        files: vec![],
    };

    let input_sources = vec![InputSource::from_lines("test", vec!["bar".to_string()])];
    let mut output = OutputTarget { messages: vec![] };

    let result = process_input(config, input_sources, &mut output).unwrap();
    assert_eq!(result, 0);
    assert!(output.messages.is_empty());
}

#[test]
fn processing_test_match() {
    let config = Config {
        count_only: false,
        insensitive: false,
        filename_only: false,
        invert_match: false,
        line_number: false,
        quiet: false,
        pattern: Pattern::new("foo").unwrap(),
        files: vec![],
    };

    let input_sources = vec![InputSource::from_lines(
        "test",
        vec!["This line contains the word foo!".to_string()],
    )];
    let mut output = OutputTarget { messages: vec![] };

    let result = process_input(config, input_sources, &mut output).unwrap();

    assert_eq!(result, 1);
    assert_eq!(output.messages.len(), 1);
    assert_eq!(output.messages[0], "This line contains the word foo!");
}

#[test]
fn processing_test_match_count() {
    let config = Config {
        count_only: true,
        insensitive: false,
        filename_only: false,
        invert_match: false,
        line_number: false,
        quiet: false,
        pattern: Pattern::new("foo").unwrap(),
        files: vec![],
    };

    let input_sources = vec![InputSource::from_lines(
        "test",
        vec!["This line contains the word foo!".to_string()],
    )];
    let mut output = OutputTarget { messages: vec![] };

    let result = process_input(config, input_sources, &mut output).unwrap();

    assert_eq!(result, 1);
    assert_eq!(output.messages.len(), 1);
    assert_eq!(output.messages[0], "1");
}

#[test]
fn processing_test_match_filename_only() {
    let config = Config {
        count_only: false,
        insensitive: false,
        filename_only: true,
        invert_match: false,
        line_number: false,
        quiet: false,
        pattern: Pattern::new("foo").unwrap(),
        files: vec!["test".to_string()],
    };

    let input_sources = vec![InputSource::from_lines(
        "test",
        vec!["This line contains the word foo!".to_string()],
    )];
    let mut output = OutputTarget { messages: vec![] };

    let result = process_input(config, input_sources, &mut output).unwrap();

    assert_eq!(result, 1);
    assert_eq!(output.messages.len(), 1);
    assert_eq!(output.messages[0], "test");
}

#[test]
fn processing_test_match_quiet() {
    let config = Config {
        count_only: false,
        insensitive: false,
        filename_only: false,
        invert_match: false,
        line_number: false,
        quiet: true,
        pattern: Pattern::new("foo").unwrap(),
        files: vec![],
    };

    let input_sources = vec![InputSource::from_lines(
        "test",
        vec!["This line contains the word foo!".to_string()],
    )];
    let mut output = OutputTarget { messages: vec![] };

    let result = process_input(config, input_sources, &mut output).unwrap();

    assert_eq!(result, 1);
    assert_eq!(output.messages.len(), 0);
}
