use wasm_loader::outcome::{
    args_fit, command_args, conclude, decode_output, outcome_of, output_or_absent, stdin_payload,
    CallError, RunOutcome,
};

#[test]
fn stdin_payload_is_the_argument_at_index_one() {
    let args = vec!["greet".to_string(), "{\"name\":\"world\"}".to_string()];
    assert_eq!(stdin_payload(&args), "{\"name\":\"world\"}");
    let args = vec!["a".to_string(), "b".to_string(), "c".to_string()];
    assert_eq!(stdin_payload(&args), "b");
}

#[test]
fn stdin_payload_is_empty_without_a_second_argument() {
    assert_eq!(stdin_payload(&vec![]), "");
    assert_eq!(stdin_payload(&vec!["only".to_string()]), "");
}

#[test]
fn command_args_holds_command_then_argument() {
    assert_eq!(
        command_args("greet".to_string(), "payload".to_string()),
        vec!["greet".to_string(), "payload".to_string()]
    );
}

#[test]
fn decode_output_returns_the_text() {
    assert_eq!(decode_output(b"hello".to_vec()), Ok("hello".to_string()));
    assert_eq!(decode_output(Vec::new()), Ok(String::new()));
    assert_eq!(
        decode_output(vec![0x67, 0x72, 0xc3, 0xbc, 0xc3, 0x9f, 0x65]),
        Ok("grüße".to_string())
    );
    assert_eq!(decode_output(vec![0xf0, 0x9f, 0xa6, 0x80]), Ok("\u{1f980}".to_string()));
}

#[test]
fn decode_output_refuses_malformed_bytes() {
    assert_eq!(decode_output(vec![0xff]), Err(CallError::Decode));
    assert_eq!(decode_output(vec![0x68, 0x69, 0xff, 0xfe]), Err(CallError::Decode));
    assert_eq!(decode_output(vec![0xc3]), Err(CallError::Decode));
    assert_eq!(decode_output(vec![0xc0, 0x80]), Err(CallError::Decode));
    assert_eq!(decode_output(vec![0xed, 0xa0, 0x80]), Err(CallError::Decode));
}

#[test]
fn conclude_decodes_a_completed_run() {
    assert_eq!(conclude(RunOutcome::Completed(b"done".to_vec())), Ok("done".to_string()));
    assert_eq!(conclude(RunOutcome::Completed(vec![0x80])), Err(CallError::Decode));
}

#[test]
fn conclude_reports_a_failed_run() {
    assert_eq!(
        conclude(RunOutcome::Failed("wasm trap: unreachable".to_string())),
        Err(CallError::Execution { cause: "wasm trap: unreachable".to_string() })
    );
    assert_eq!(
        conclude(RunOutcome::SinkShared),
        Err(CallError::Execution { cause: "output sink is still shared after the run".to_string() })
    );
}

#[test]
fn output_or_absent_maps_failure_to_absence() {
    assert_eq!(output_or_absent(Ok("out".to_string())), Some("out".to_string()));
    assert_eq!(output_or_absent(Err(CallError::Decode)), None);
    assert_eq!(
        output_or_absent(Err(CallError::UnknownModule { name: "x".to_string() })),
        None
    );
    assert_eq!(output_or_absent(Err(CallError::Execution { cause: "trap".to_string() })), None);
}

#[test]
fn messages_describe_the_error() {
    assert_eq!(
        CallError::UnknownModule { name: "hello".to_string() }.message(),
        "unknown module hello"
    );
    assert_eq!(CallError::Execution { cause: "trap".to_string() }.message(), "trap");
    assert_eq!(CallError::Decode.message(), "captured output is not valid UTF-8");
}

#[test]
fn argument_lists_of_ordinary_size_fit() {
    assert!(args_fit(&Vec::new()));
    assert!(args_fit(&vec![String::new()]));
    assert!(args_fit(&vec!["greet".to_string(), "{\"name\":\"world\"}".to_string()]));
    assert!(args_fit(&vec!["gr\u{fc}\u{df}e".to_string(), "\u{1f980}".to_string()]));
    let mut many = Vec::new();
    for i in 0..10000 {
        many.push(format!("argument {}", i));
    }
    assert!(args_fit(&many));
    assert!(args_fit(&vec!["x".repeat(1 << 20)]));
}

#[test]
fn outcome_of_a_completed_run_is_its_output() {
    assert_eq!(
        outcome_of(Ok(()), Some(b"out".to_vec())),
        RunOutcome::Completed(b"out".to_vec())
    );
    assert_eq!(outcome_of(Ok(()), Some(Vec::new())), RunOutcome::Completed(Vec::new()));
}

#[test]
fn outcome_of_a_failed_run_keeps_no_output() {
    assert_eq!(
        outcome_of(Err("wasm trap".to_string()), Some(b"partial".to_vec())),
        RunOutcome::Failed("wasm trap".to_string())
    );
    assert_eq!(
        outcome_of(Err("wasm trap".to_string()), None),
        RunOutcome::Failed("wasm trap".to_string())
    );
    assert_eq!(
        conclude(outcome_of(Err("wasm trap".to_string()), Some(b"partial".to_vec()))),
        Err(CallError::Execution { cause: "wasm trap".to_string() })
    );
}

#[test]
fn outcome_of_an_undrained_run_is_a_shared_sink() {
    assert_eq!(outcome_of(Ok(()), None), RunOutcome::SinkShared);
}
