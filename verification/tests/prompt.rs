use tetanus::prompt::{reads_stdin, resolve, DEFAULT, STDIN};
use tetanus::rpc::{ErrorCode, RpcError};

fn resolved(said: Option<&str>, stdin: &str) -> Result<String, RpcError> {
    resolve(said.map(str::to_string), Some(Ok(stdin.as_bytes().to_vec())))
}

#[test]
fn a_bare_run_asks_the_default() {
    assert!(!reads_stdin(&None));
    assert_eq!(resolve(None, None).expect("resolves"), DEFAULT);
}

#[test]
fn a_typed_prompt_is_asked_verbatim() {
    let said = Some("  list the files  ".to_string());
    assert!(!reads_stdin(&said));
    assert_eq!(
        resolve(said, None).expect("resolves"),
        "  list the files  "
    );
}

#[test]
fn a_dash_reads_the_prompt_from_standard_input() {
    assert!(reads_stdin(&Some(STDIN.to_string())));
    assert_eq!(
        resolved(Some(STDIN), "first line\n\nlast line\n").expect("resolves"),
        "first line\n\nlast line"
    );
}

#[test]
fn an_empty_prompt_is_refused_before_anything_runs() {
    for (said, stdin) in [(Some(""), ""), (Some("   "), ""), (Some(STDIN), " \n\n")] {
        let refused = resolved(said, stdin).expect_err("refused");
        assert_eq!(refused.kind(), Some(ErrorCode::InvalidParams));
        assert_eq!(refused.field("field").as_deref(), Some("prompt"), "{refused:?}");
    }
}

#[test]
fn standard_input_that_is_not_utf8_is_refused() {
    let refused =
        resolve(Some(STDIN.to_string()), Some(Ok(vec![0xff, 0xfe]))).expect_err("refused");

    assert_eq!(refused.kind(), Some(ErrorCode::InvalidParams));
    assert!(refused.message.contains("UTF-8"), "{refused:?}");
}

#[test]
fn standard_input_that_fails_is_reported_as_io() {
    let refused = resolve(Some(STDIN.to_string()), Some(Err("the pipe broke".to_string())))
        .expect_err("refused");

    assert_eq!(refused.kind(), Some(ErrorCode::Io));
    assert!(refused.message.contains("the pipe broke"), "{refused:?}");
    assert!(refused.data.is_none(), "{refused:?}");
}
