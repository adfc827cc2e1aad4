use ninoverse::db_handler::{
    attempt_failed, create_statement, get_pool, get_pool_next, init_db, DbAction, DbEvent,
    PoolAction, PoolEvent,
};
use ninoverse::docker::definitions::DockerModuleError;
use ninoverse::logger::{log, LogAction, LogLevel};
use ninoverse::orchestrator::error::{CoreError, KafkaError};
use ninoverse::orchestrator::run::{flatten_task_result, RunAction, RunPhase};
use ninoverse::orchestrator::signals::{signal_action, SignalAction, SignalStage};
use ninoverse::orchestrator::startup::{
    main_begin, stage_ended, wound_down, MainAction, MainEvent, Stage,
};
use ninoverse::web_server::{echo, hello, manual_hello};

#[test]
fn core_errors_describe_themselves() {
    let cases = [
        (CoreError::Configuration("x".to_string()), "Configuration: x"),
        (
            CoreError::Docker(DockerModuleError::Read("x".to_string())),
            "Failed to read the file: x",
        ),
        (CoreError::Database("x".to_string()), "Database: x"),
        (CoreError::Kafka(KafkaError::NoTopicInConfiguration), "No topic configured"),
        (CoreError::WebServer("x".to_string()), "HTTP server: x"),
        (CoreError::Join("x".to_string()), "Task join: x"),
    ];
    for (error, expected) in cases {
        assert_eq!(error.message(), expected);
    }
}

#[test]
fn stages_run_one_after_the_other() {
    let mut action = main_begin();
    let mut stages = Vec::new();
    while let MainAction::Perform(stage) = action {
        stages.push(stage);
        action = stage_ended(stage, MainEvent::Finished(Ok(())));
    }
    assert_eq!(
        stages,
        vec![
            Stage::LoadConfiguration,
            Stage::DockerClient,
            Stage::FindDefinitions,
            Stage::CreateNetworks,
            Stage::CreateVolumes,
            Stage::StartContainers,
            Stage::InitDatabase,
            Stage::RunThreads,
        ]
    );
    match action {
        MainAction::WindDown { failure: None } => {}
        _ => panic!("no winding down"),
    }
    assert!(matches!(wound_down(None), MainAction::Exit(Ok(()))));
}

#[test]
fn failed_startup_still_winds_down() {
    let failed = || MainEvent::Finished(Err(CoreError::Database("x".to_string())));
    assert!(matches!(
        stage_ended(Stage::LoadConfiguration, failed()),
        MainAction::Exit(Err(CoreError::Database(_)))
    ));
    for stage in [Stage::DockerClient, Stage::InitDatabase, Stage::RunThreads] {
        match stage_ended(stage, failed()) {
            MainAction::WindDown { failure } => assert!(matches!(
                wound_down(failure),
                MainAction::Exit(Err(CoreError::Database(_)))
            )),
            _ => panic!("no winding down"),
        }
    }
    assert!(matches!(
        stage_ended(Stage::InitDatabase, MainEvent::Shutdown),
        MainAction::WindDown { failure: None }
    ));
}

#[test]
fn first_task_to_end_takes_the_others_along() {
    let (mut run, action) = RunPhase::begin(Ok(()));
    assert!(matches!(action, RunAction::AwaitTask));
    assert!(matches!(run.step(Ok(())), RunAction::ShutdownAndAwait));
    match run.step(Err(CoreError::Join("late".to_string()))) {
        RunAction::Finish(Err(error)) => assert_eq!(error.message(), "Task join: late"),
        _ => panic!("the failure was lost"),
    }
    let (mut run, _) = RunPhase::begin(Ok(()));
    run.step(Err(CoreError::WebServer("first".to_string())));
    match run.step(Err(CoreError::Join("late".to_string()))) {
        RunAction::Finish(Err(error)) => assert_eq!(error.message(), "HTTP server: first"),
        _ => panic!("the failure was lost"),
    }
    let (_, action) = RunPhase::begin(Err("in use".to_string()));
    assert!(matches!(
        action,
        RunAction::Finish(Err(CoreError::WebServer(_)))
    ));
    assert!(flatten_task_result(Ok(Ok(()))).is_ok());
    assert!(matches!(
        flatten_task_result(Err("x".to_string())),
        Err(CoreError::Join(_))
    ));
}

#[test]
fn second_interrupt_forces_the_exit() {
    assert_eq!(signal_action(SignalStage::First, true), SignalAction::Shutdown);
    assert_eq!(signal_action(SignalStage::First, false), SignalAction::WaitAgain);
    assert_eq!(
        signal_action(SignalStage::Second, true),
        SignalAction::Exit { code: 130 }
    );
    assert_eq!(signal_action(SignalStage::Second, false), SignalAction::Stop);
}

#[test]
fn database_names_are_quoted() {
    assert_eq!(create_statement("core"), "CREATE DATABASE \"core\"");
    assert_eq!(
        create_statement("a\"b\"\"c"),
        "CREATE DATABASE \"a\"\"b\"\"\"\"c\""
    );
}

#[test]
fn missing_database_is_created_first() {
    let connect = get_pool();
    match &connect {
        PoolAction::Connect { database } => assert_eq!(database, "postgres"),
        _ => panic!("no connection"),
    }
    let ask = get_pool_next("core", &connect, PoolEvent::Done);
    assert!(matches!(ask, PoolAction::AskExists));
    let create = get_pool_next("core", &ask, PoolEvent::Exists(false));
    match &create {
        PoolAction::Execute { statement } => assert_eq!(statement, "CREATE DATABASE \"core\""),
        _ => panic!("nothing created"),
    }
    let close = get_pool_next("core", &create, PoolEvent::Done);
    assert!(matches!(close, PoolAction::Close));
    assert!(matches!(
        get_pool_next("core", &ask, PoolEvent::Exists(true)),
        PoolAction::Close
    ));
    let open = get_pool_next("core", &close, PoolEvent::Done);
    assert!(matches!(open, PoolAction::OpenPool { max_connections: 5 }));
    assert!(matches!(
        get_pool_next("core", &open, PoolEvent::Done),
        PoolAction::Finish(Ok(()))
    ));
    match get_pool_next("core", &ask, PoolEvent::Failed("x".to_string())) {
        PoolAction::Finish(Err(error)) => assert_eq!(error, "x"),
        _ => panic!("the failure was lost"),
    }
}

#[test]
fn unreachable_database_is_tried_five_times() {
    let (mut init, mut action) = init_db();
    let mut attempts = 0;
    let mut pauses = Vec::new();
    let error = loop {
        match action {
            DbAction::GetPool => {
                attempts += 1;
                action = init.step(DbEvent::Failed(format!("error {}", attempts)));
            }
            DbAction::Sleep { seconds } => {
                pauses.push(seconds);
                action = init.step(DbEvent::Done);
            }
            DbAction::Finish(Err(error)) => break error,
            _ => panic!("an unexpected action"),
        }
    };
    assert_eq!(attempts, 5);
    assert_eq!(pauses, vec![2, 4, 6, 8, 10]);
    assert_eq!(error, "error 5");
    assert_eq!(attempt_failed(2, 7, "x"), "Attempt 2/7 failed: x");
}

#[test]
fn failed_migration_is_final() {
    let (mut init, _) = init_db();
    assert!(matches!(init.step(DbEvent::Done), DbAction::Migrate));
    match init.step(DbEvent::Failed("m".to_string())) {
        DbAction::Finish(Err(error)) => assert_eq!(error, "m"),
        _ => panic!("the failure was lost"),
    }
    let (mut init, _) = init_db();
    init.step(DbEvent::Done);
    assert!(matches!(init.step(DbEvent::Done), DbAction::Finish(Ok(()))));
}

#[test]
fn log_lines_carry_level_and_decorators() {
    let decorators = Some(vec!["A".to_string(), "B".to_string()]);
    match log(true, "text", LogLevel::Warn, decorators) {
        LogAction::Send(message) => {
            assert_eq!(message.line("12:00"), "12:00 | WARN | A - B | text");
            assert!(!message.level.is_for_stderr());
        }
        LogAction::Missed(_) => panic!("the log was there"),
    }
    match log(true, "text", LogLevel::Error, None) {
        LogAction::Send(message) => {
            assert_eq!(message.line("12:00"), "12:00 | ERROR |  | text");
            assert!(message.level.is_for_stderr());
        }
        LogAction::Missed(_) => panic!("the log was there"),
    }
    match log(false, "text", LogLevel::Info, None) {
        LogAction::Missed(line) => {
            assert_eq!(line, "Logger not initialized! Missed log: text")
        }
        LogAction::Send(_) => panic!("there was no log"),
    }
    assert_eq!(LogLevel::Debug.label(), "DEBUG");
    assert_eq!(LogLevel::Info.label(), "INFO");
    assert!(LogLevel::Debug < LogLevel::Error);
}

#[test]
fn endpoints_answer() {
    let (body, message) = hello();
    assert_eq!(body, "Hello world!");
    assert_eq!(message.sender, "base_endpoint");
    assert_eq!(message.content, "Hello world!");
    assert_eq!(message.topic, "ninoverse");
    assert_eq!(echo("x".to_string()), "x");
    assert_eq!(manual_hello(), "Hey there!");
}
