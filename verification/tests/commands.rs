use ninoverse::exec::{
    Chunk, DockerExecRun, ExecAction, ExecError, ExecEvent, LocalCommand, Output,
};
use ninoverse::http_client::{split_curl_output, CurlExecClient, HttpError, Request, Response};

fn argv(words: &[&str]) -> Vec<String> {
    words.iter().map(|word| word.to_string()).collect()
}

#[test]
fn container_command_gathers_both_streams() {
    let (mut run, action) = DockerExecRun::begin(&argv(&["echo", "x"]), true);
    match action {
        ExecAction::Create(options) => {
            assert_eq!(options.cmd, vec!["echo", "x"]);
            assert!(options.attach_stdin && options.attach_stdout && options.attach_stderr);
            assert!(!options.tty);
        }
        _ => panic!("nothing created"),
    }
    assert!(matches!(run.step(ExecEvent::Created(Ok(()))), ExecAction::Start));
    assert!(matches!(run.step(ExecEvent::Started(Ok(true))), ExecAction::WriteStdin));
    assert!(matches!(run.step(ExecEvent::Written(Ok(()))), ExecAction::Read));
    run.step(ExecEvent::Read(Ok(Chunk::StdOut(b"one ".to_vec()))));
    run.step(ExecEvent::Read(Ok(Chunk::StdErr(b"bad".to_vec()))));
    run.step(ExecEvent::Read(Ok(Chunk::Other)));
    run.step(ExecEvent::Read(Ok(Chunk::StdOut(vec![0xff, b'2']))));
    assert!(matches!(run.step(ExecEvent::ReadAll), ExecAction::Inspect));
    match run.step(ExecEvent::Inspected(Ok(Some(3)))) {
        ExecAction::Finish(Ok(output)) => {
            assert_eq!(output.code, 3);
            assert_eq!(output.stdout, "one \u{fffd}2");
            assert_eq!(output.stderr, "bad");
            assert!(!output.success());
        }
        _ => panic!("no output"),
    }
}

#[test]
fn container_command_reports_its_failures() {
    let (_, action) = DockerExecRun::begin(&Vec::new(), false);
    assert!(matches!(action, ExecAction::Finish(Err(ExecError::EmptyCommand))));

    let (mut run, _) = DockerExecRun::begin(&argv(&["a", "b"]), false);
    run.step(ExecEvent::Created(Ok(())));
    assert!(matches!(
        run.step(ExecEvent::Started(Ok(false))),
        ExecAction::Finish(Err(ExecError::Detached))
    ));

    let (mut run, _) = DockerExecRun::begin(&argv(&["a", "b"]), false);
    run.step(ExecEvent::Created(Ok(())));
    assert!(matches!(run.step(ExecEvent::Started(Ok(true))), ExecAction::Read));
    run.step(ExecEvent::ReadAll);
    match run.step(ExecEvent::Inspected(Ok(None))) {
        ExecAction::Finish(Err(error)) => assert_eq!(
            error.message(),
            "EXEC: command 'a b' finished without reporting an exit code"
        ),
        _ => panic!("an exit code out of nowhere"),
    }
}

#[test]
fn exec_errors_describe_themselves() {
    let cases = [
        (ExecError::Bollard("x".to_string()), "EXEC: docker api error: x"),
        (ExecError::Io("x".to_string()), "EXEC: io error: x"),
        (
            ExecError::Detached,
            "EXEC: docker started the exec detached, so no output is available",
        ),
        (ExecError::EmptyCommand, "EXEC: refusing to run an empty command"),
        (ExecError::NoStdin, "EXEC: could not open stdin on the child process"),
    ];
    for (error, expected) in cases {
        assert_eq!(error.message(), expected);
    }
}

#[test]
fn local_command_is_split_and_collected() {
    let (program, args) = LocalCommand::split_command(&argv(&["ls", "-l", "/"])).ok().unwrap();
    assert_eq!(program, "ls");
    assert_eq!(args, vec!["-l", "/"]);
    assert!(matches!(
        LocalCommand::split_command(&Vec::new()),
        Err(ExecError::EmptyCommand)
    ));
    let output = LocalCommand::collect(
        &argv(&["ls"]),
        Some(0),
        &"grün".as_bytes().to_vec(),
        &vec![0xc3],
    )
    .ok()
    .unwrap();
    assert!(output.success());
    assert_eq!(output.stdout, "grün");
    assert_eq!(output.stderr, "\u{fffd}");
    assert!(matches!(
        LocalCommand::collect(&argv(&["ls"]), None, &Vec::new(), &Vec::new()),
        Err(ExecError::NoExitCode(_))
    ));
}

#[test]
fn curl_command_carries_the_request() {
    let headers = vec![("A".to_string(), "b".to_string())];
    let request = Request { method: "PUT", url: "http://x/y", headers: &headers, body: Some("{}") };
    assert_eq!(
        CurlExecClient::<()>::argv(&request),
        vec![
            "curl", "-s", "-w", "\\n%{http_code}", "-X", "PUT", "http://x/y", "-H", "A: b",
            "--data-binary", "@-",
        ]
    );
    let bare = Request { method: "GET", url: "u", headers: &[], body: None };
    assert_eq!(
        CurlExecClient::<()>::argv(&bare),
        vec!["curl", "-s", "-w", "\\n%{http_code}", "-X", "GET", "u"]
    );
    assert_eq!(*CurlExecClient::new(7).runner(), 7);
}

#[test]
fn curl_answers_are_read_back() {
    let cases = [
        ("body\n200", 200, "body"),
        ("a\nb\n204 ", 204, "a\nb"),
        ("404", 404, ""),
        ("\n500\n500", 500, "\n500"),
    ];
    for (stdout, status, body) in cases {
        let response = split_curl_output(0, stdout, "").ok().unwrap();
        assert_eq!(response.status, status);
        assert_eq!(response.body, body);
    }
    match split_curl_output(7, "", " refused \n") {
        Err(error) => assert_eq!(error.message(), "HTTP: transport failure: curl exited 7: refused"),
        Ok(_) => panic!("an answer out of nowhere"),
    }
    match split_curl_output(0, "body\nab\tc", "") {
        Err(error) => assert_eq!(
            error.message(),
            "HTTP: could not parse a status code out of curl's output: \"ab\\tc\""
        ),
        Ok(_) => panic!("a status out of nowhere"),
    }
    let output = Output { code: 0, stdout: "x\n201".to_string(), stderr: String::new() };
    assert!(CurlExecClient::<()>::read_answer(Ok(output)).ok().unwrap().is_success());
    match CurlExecClient::<()>::read_answer(Err(ExecError::NoStdin)) {
        Err(error) => assert_eq!(
            error.message(),
            "HTTP: EXEC: could not open stdin on the child process"
        ),
        Ok(_) => panic!("an answer out of nowhere"),
    }
    assert_eq!(
        HttpError::Reqwest("x".to_string()).message(),
        "HTTP: reqwest error: x"
    );
}

#[test]
fn success_is_the_two_hundreds() {
    for (status, expected) in [(199, false), (200, true), (299, true), (300, false)] {
        let response = Response { status, body: String::new() };
        assert_eq!(response.is_success(), expected);
    }
}
