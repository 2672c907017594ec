use node_debug::cdt::models::{DebuggerLocation, DebuggerPausedCallFrame};
use node_debug::code_preview::show_source_code;
use node_debug::repl::code_preview::{
    create_code_preview, create_preview, create_preview_window, PreviewError,
};
use node_debug::repl::show_source_code_command::{
    get_prettified_code_preview, print_code_preview, show_minified_source, show_source,
};
use node_debug::source_code::{SourceCode, SourceMapping};

fn file(count: usize) -> String {
    (1..=count).map(|n| format!("line {}", n)).collect::<Vec<String>>().join("\n")
}

fn numbers(preview: &[(usize, String)]) -> Vec<usize> {
    preview.iter().map(|line| line.0).collect()
}

fn frame_at(line_number: i32, column_number: i32) -> DebuggerPausedCallFrame {
    DebuggerPausedCallFrame {
        call_frame_id: "frame-0".to_string(),
        function_name: "main".to_string(),
        function_location: DebuggerLocation::new("42".to_string(), 0),
        location: DebuggerLocation { script_id: "42".to_string(), line_number, column_number },
    }
}

fn mapped(mappings: &str, sources_content: Vec<String>) -> SourceCode {
    SourceCode {
        code: "var a=1;var b=2;".to_string(),
        source_mapping: Some(SourceMapping {
            file: "out.js".to_string(),
            mappings: mappings.to_string(),
            names: Vec::new(),
            sources: sources_content.iter().enumerate().map(|(i, _)| format!("{}.ts", i)).collect(),
            sources_content,
            version: 3,
        }),
    }
}

#[test]
fn window_in_the_middle_of_a_file_has_nine_lines() {
    let preview = create_preview(&file(20), 10);
    assert_eq!(numbers(&preview), vec![7, 8, 9, 10, 11, 12, 13, 14, 15]);
    assert_eq!(preview[0].1, "line 7");
    assert_eq!(preview[4].1, "line 11");
    assert_eq!(preview[8].1, "line 15");
}

#[test]
fn window_near_the_start_is_cut_at_the_first_line() {
    let preview = create_preview(&file(20), 2);
    assert_eq!(numbers(&preview), vec![1, 2, 3, 4, 5, 6, 7]);
    assert_eq!(preview[0].1, "line 1");
    let preview = create_preview(&file(20), 0);
    assert_eq!(numbers(&preview), vec![1, 2, 3, 4, 5]);
}

#[test]
fn window_near_the_end_is_cut_at_the_last_line() {
    let preview = create_preview(&file(20), 18);
    assert_eq!(numbers(&preview), vec![15, 16, 17, 18, 19, 20]);
    let preview = create_preview(&file(20), 19);
    assert_eq!(numbers(&preview), vec![16, 17, 18, 19, 20]);
    let preview = create_preview(&file(20), 22);
    assert_eq!(numbers(&preview), vec![19, 20]);
}

#[test]
fn window_past_the_end_is_empty() {
    assert!(create_preview(&file(20), 24).is_empty());
    assert!(create_preview(&file(20), usize::MAX).is_empty());
    assert!(create_preview("", 0).is_empty());
}

#[test]
fn window_may_have_any_size() {
    assert_eq!(numbers(&create_preview_window(&file(20), 10, 9)), vec![7, 8, 9, 10, 11, 12, 13, 14, 15]);
    assert_eq!(numbers(&create_preview_window(&file(20), 10, 1)), vec![11]);
    assert_eq!(numbers(&create_preview_window(&file(20), 10, 2)), vec![11, 12]);
    assert_eq!(numbers(&create_preview_window(&file(20), 10, 3)), vec![10, 11, 12]);
    assert_eq!(numbers(&create_preview_window(&file(20), 10, 4)), vec![10, 11, 12, 13]);
    assert_eq!(numbers(&create_preview_window(&file(20), 1, 5)), vec![1, 2, 3, 4]);
    assert_eq!(numbers(&create_preview_window(&file(3), 1, usize::MAX)), vec![1, 2, 3]);
    assert!(create_preview_window(&file(20), 10, 0).is_empty());
    assert!(create_preview_window(&file(20), 20, 1).is_empty());
}

#[test]
fn window_of_a_short_file_is_the_file() {
    let preview = create_preview("a\nb\nc", 1);
    assert_eq!(
        preview,
        vec![(1, "a".to_string()), (2, "b".to_string()), (3, "c".to_string())]
    );
}

#[test]
fn preview_is_laid_out_with_padded_numbers_and_the_middle_set_off() {
    let preview = create_preview(&file(20), 10);
    let text = get_prettified_code_preview(&preview);
    let lines: Vec<&str> = text.split('\n').collect();
    assert_eq!(lines.len(), 9);
    assert_eq!(lines[0], " 007 | line 7");
    assert_eq!(lines[3], " 010 | line 10");
    assert_eq!(lines[4], "\x1b[93m 011 | line 11\x1b[0m");
    assert_eq!(lines[8], " 015 | line 15");
}

#[test]
fn numbers_of_more_than_three_digits_are_not_cut() {
    let lines = vec![(99, "a".to_string()), (100, "b".to_string()), (1234, "c".to_string())];
    assert_eq!(
        get_prettified_code_preview(&lines),
        " 099 | a\n\x1b[93m 100 | b\x1b[0m\n 1234 | c"
    );
}

#[test]
fn middle_of_an_even_number_of_lines_is_the_last_of_the_first_half() {
    let lines = vec![(1, "a".to_string()), (2, "b".to_string())];
    assert_eq!(get_prettified_code_preview(&lines), "\x1b[93m 001 | a\x1b[0m\n 002 | b");
    assert_eq!(get_prettified_code_preview(&Vec::new()), "");
}

#[test]
fn preview_is_printed_between_two_rules() {
    let lines = vec![(1, "ab".to_string()), (2, "abcd".to_string()), (3, "a".to_string())];
    let rule = "\u{2014}".repeat(11);
    assert_eq!(
        print_code_preview("out.js", &lines),
        format!(
            "\x1b[90mout.js\x1b[0m\n{}\n 001 | ab\n\x1b[93m 002 | abcd\x1b[0m\n 003 | a\n{}",
            rule, rule
        )
    );
}

#[test]
fn rule_goes_by_the_bytes_of_the_widest_line() {
    let lines = vec![(1, "\u{e9}\u{e9}".to_string())];
    let rule = "\u{2014}".repeat(11);
    assert_eq!(
        print_code_preview("f", &lines),
        format!("\x1b[90mf\x1b[0m\n{}\n\x1b[93m 001 | \u{e9}\u{e9}\x1b[0m\n{}", rule, rule)
    );
    let rule = "\u{2014}".repeat(7);
    assert_eq!(
        print_code_preview("f", &Vec::new()),
        format!("\x1b[90mf\x1b[0m\n{}\n\n{}", rule, rule)
    );
}

#[test]
fn code_preview_maps_the_frame_back_to_its_source() {
    let source = mapped("AAAA,QAUA", vec![file(20)]);
    let (name, lines) = create_code_preview(&source, &frame_at(0, 9)).unwrap();
    assert_eq!(name, "out.js");
    assert_eq!(numbers(&lines), vec![7, 8, 9, 10, 11, 12, 13, 14, 15]);
    let (_, lines) = create_code_preview(&source, &frame_at(0, 3)).unwrap();
    assert_eq!(numbers(&lines), vec![1, 2, 3, 4, 5]);
}

#[test]
fn code_preview_is_cut_from_the_first_source() {
    let source = mapped("AAAA,QCAA", vec!["first".to_string(), "second\nsource".to_string()]);
    let (_, lines) = create_code_preview(&source, &frame_at(0, 8)).unwrap();
    assert_eq!(lines, vec![(1, "first".to_string())]);
    let (_, lines) = create_code_preview(&source, &frame_at(0, 7)).unwrap();
    assert_eq!(lines, vec![(1, "first".to_string())]);
}

#[test]
fn code_preview_near_the_start_begins_at_the_first_line() {
    let source = mapped("AAAA,QAEA", vec![file(20)]);
    let (_, lines) = create_code_preview(&source, &frame_at(0, 9)).unwrap();
    assert_eq!(numbers(&lines), vec![1, 2, 3, 4, 5, 6, 7]);
    assert_eq!(lines[2].1, "line 3");
}

#[test]
fn code_preview_says_why_there_is_none() {
    let bare = SourceCode { code: "x".to_string(), source_mapping: None };
    assert_eq!(create_code_preview(&bare, &frame_at(0, 0)).unwrap_err(), PreviewError::SourceMappingNotSet);
    let source = mapped(";AAAA", vec![file(3)]);
    assert_eq!(create_code_preview(&source, &frame_at(0, 5)).unwrap_err(), PreviewError::PositionNotMapped);
    let source = mapped("not a mapping", vec![file(3)]);
    assert_eq!(create_code_preview(&source, &frame_at(0, 5)).unwrap_err(), PreviewError::PositionNotMapped);
    let source = mapped("AAAA", vec![file(3)]);
    assert_eq!(create_code_preview(&source, &frame_at(-1, 0)).unwrap_err(), PreviewError::PositionNotMapped);
    let source = mapped("AAAA", Vec::new());
    assert_eq!(create_code_preview(&source, &frame_at(0, 0)).unwrap_err(), PreviewError::SourceViewNotFound);
    let source = mapped("not a mapping", Vec::new());
    assert_eq!(create_code_preview(&source, &frame_at(0, 0)).unwrap_err(), PreviewError::SourceViewNotFound);
}

#[test]
fn source_window_is_the_lines_without_their_numbers() {
    let source = mapped("AAAA,QAUA", vec![file(20)]);
    assert_eq!(
        show_source_code(&source, &frame_at(0, 9)).unwrap(),
        "line 7\nline 8\nline 9\nline 10\nline 11\nline 12\nline 13\nline 14\nline 15"
    );
    let bare = SourceCode { code: "x".to_string(), source_mapping: None };
    assert_eq!(show_source_code(&bare, &frame_at(0, 0)).unwrap_err(), PreviewError::SourceMappingNotSet);
}

#[test]
fn shown_source_is_the_original_where_the_map_leads_to_it() {
    let map = r#"{"version":3,"file":"out.js","sources":["a.ts"],"sourcesContent":["one\ntwo\nthree"],"names":[],"mappings":"AACA"}"#;
    let script = format!(
        "var x=1;\n//# sourceMappingURL=data:application/json;charset=utf-8;base64,{}",
        base64::encode(map)
    );
    let rule = "\u{2014}".repeat(12);
    assert_eq!(
        show_source(&script, &frame_at(0, 4)),
        format!(
            "\x1b[90mout.js\x1b[0m\n{}\n 001 | one\n\x1b[93m 002 | two\x1b[0m\n 003 | three\n{}",
            rule, rule
        )
    );
}

#[test]
fn shown_source_falls_back_to_the_generated_code() {
    let rule = "\u{2014}".repeat(15);
    let expected = format!(
        "\x1b[90mminified source code\x1b[0m\n{}\n\x1b[93m 001 | var x=1;\x1b[0m\n 002 | var y=2;\n{}",
        rule, rule
    );
    assert_eq!(show_source("var x=1;\nvar y=2;\nvar z=3;", &frame_at(0, 0)), expected);
    assert_eq!(show_minified_source("var x=1;\nvar y=2;\nvar z=3;", &frame_at(0, 0)), expected);
    let rule = "\u{2014}".repeat(7);
    assert_eq!(
        show_minified_source("var x=1;\nvar y=2;", &frame_at(-3, 0)),
        format!("\x1b[90mminified source code\x1b[0m\n{}\n\n{}", rule, rule)
    );
}
