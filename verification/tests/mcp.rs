use tetanus::mcp::{any_enabled, report, Refused, Serving};

#[test]
fn no_server_is_passed_over_in_silence() {
    let serving = vec![
        Serving { name: "files".to_string(), tools: 1 },
        Serving { name: "the \"web\"".to_string(), tools: 12 },
    ];
    let refused = vec![Refused {
        name: "db".to_string(),
        class: "spawn".to_string(),
        fault: "no such file".to_string(),
    }];
    assert_eq!(
        report(&serving, &refused),
        [
            r#"the MCP server "files" is serving 1 tool"#,
            r#"the MCP server "the \"web\"" is serving 12 tools"#,
            r#"the MCP server "db" did not start [spawn]: no such file"#,
        ]
    );
    assert!(report(&Vec::new(), &Vec::new()).is_empty());
}

#[test]
fn a_document_with_every_server_off_starts_none() {
    assert!(!any_enabled(&Vec::new()));
    assert!(!any_enabled(&vec![false, false]));
    assert!(any_enabled(&vec![false, true]));
}
