use std::path::PathBuf;
use std::time::Duration;
use transfer_manager::canary::{
    activation_outcome, activation_step, build_bundle, canary_metrics, canary_outcome,
    create_lambda_fn, decode_log, find_pin, invoke_lambda, judge_invocation,
    payload_reports_failure, pinned_smithy_rs_versions, run_canary, use_correct_revision,
    ActivationStep, CanaryError, CdkOutput, InvocationResponse, MetricUnit, MetricValue, Options,
    Payload, PayloadReading, RunArgs, RunStep, ServiceFailure, MAX_ACTIVATION_CHECKS,
};
use transfer_manager::release_tag::ReleaseTag;

fn version(major: u64, minor: u64, patch: u64) -> ReleaseTag {
    ReleaseTag::Version { major, minor, patch }
}

fn date(year: u32, month: u32, day: u32, suffix: Option<u64>) -> ReleaseTag {
    ReleaseTag::Date { year, month, day, suffix }
}

#[test]
fn options_from_args() {
    let run_args = RunArgs {
        rust_version: None,
        sdk_release_tag: None,
        sdk_path: Some("artifact-aws-sdk-rust/sdk".into()),
        musl: false,
        expected_speech_text_by_transcribe: Some("Good day to you transcribe.".to_owned()),
        cdk_output: None,
        lambda_code_s3_bucket_name: Some("bucket-for-code".to_owned()),
        lambda_test_s3_bucket_name: Some("bucket-for-test".to_owned()),
        lambda_execution_role_arn: Some("arn:aws:lambda::role/exe-role".to_owned()),
        no_reset: false,
        preserve_lambda: false,
    };
    assert_eq!(
        Options {
            rust_version: None,
            sdk_release_tag: None,
            sdk_path: Some("artifact-aws-sdk-rust/sdk".into()),
            musl: false,
            expected_speech_text_by_transcribe: Some("Good day to you transcribe.".to_owned()),
            lambda_code_s3_bucket_name: "bucket-for-code".to_owned(),
            lambda_test_s3_bucket_name: "bucket-for-test".to_owned(),
            lambda_execution_role_arn: "arn:aws:lambda::role/exe-role".to_owned(),
            preserve_lambda: false,
            no_reset: false
        },
        Options::load_from(run_args, None),
    );
}

#[test]
fn options_take_buckets_and_role_from_the_cdk_output() {
    let run_args = RunArgs {
        rust_version: Some("1.70.0".to_owned()),
        sdk_release_tag: Some(date(2023, 1, 2, None)),
        sdk_path: None,
        musl: true,
        expected_speech_text_by_transcribe: None,
        cdk_output: Some("../cdk-outputs.json".into()),
        lambda_code_s3_bucket_name: Some("ignored".to_owned()),
        lambda_test_s3_bucket_name: None,
        lambda_execution_role_arn: None,
        no_reset: true,
        preserve_lambda: true,
    };
    let output = CdkOutput {
        lambda_code_s3_bucket_name: "code".to_owned(),
        lambda_test_s3_bucket_name: "test".to_owned(),
        lambda_execution_role_arn: "role".to_owned(),
    };
    let options = Options::load_from(run_args, Some(output));
    assert_eq!(options.lambda_code_s3_bucket_name, "code");
    assert_eq!(options.lambda_test_s3_bucket_name, "test");
    assert_eq!(options.lambda_execution_role_arn, "role");
    assert_eq!(options.rust_version.as_deref(), Some("1.70.0"));
    assert_eq!(options.sdk_release_tag, Some(date(2023, 1, 2, None)));
    assert!(options.musl && options.no_reset && options.preserve_lambda);
}

#[test]
fn releases_are_ordered_versions_first_then_dates() {
    let ascending = [
        version(0, 5, 9),
        version(0, 6, 0),
        version(0, 10, 0),
        version(1, 0, 0),
        version(1, 0, 1),
        date(2022, 9, 30, Some(4)),
        date(2022, 10, 26, None),
        date(2022, 10, 26, Some(1)),
        date(2022, 10, 26, Some(2)),
        date(2022, 11, 1, None),
        date(2023, 1, 1, None),
    ];
    for (i, a) in ascending.iter().enumerate() {
        for (j, b) in ascending.iter().enumerate() {
            assert_eq!(a.is_before(b), i < j, "{a:?} before {b:?}");
            assert_eq!(a.is_at_least(b), i >= j, "{a:?} at least {b:?}");
        }
    }
}

#[test]
fn pinned_versions_are_the_two_known_ones_in_order() {
    let pinned = pinned_smithy_rs_versions();
    assert_eq!(pinned.len(), 2);
    assert_eq!(pinned[0].tag, version(0, 6, 0));
    assert_eq!(pinned[0].commit_hash, "d48c234796a16d518ca9e1dda5c7a1da4904318c");
    assert_eq!(pinned[1].tag, date(2022, 10, 26, None));
    assert_eq!(pinned[1].commit_hash, "3e24477ae7a0a2b3853962a064bc8333a016af54");
    assert!(pinned[0].tag.is_before(&pinned[1].tag));
}

#[test]
fn revision_is_that_of_the_first_pin_at_or_after_the_release() {
    let pinned = pinned_smithy_rs_versions();
    let old = "d48c234796a16d518ca9e1dda5c7a1da4904318c";
    let newer = "3e24477ae7a0a2b3853962a064bc8333a016af54";
    assert_eq!(use_correct_revision(&pinned, &version(0, 5, 0), false), Ok(Some(old)));
    assert_eq!(use_correct_revision(&pinned, &version(0, 6, 0), false), Ok(Some(old)));
    assert_eq!(use_correct_revision(&pinned, &version(0, 6, 1), false), Ok(Some(newer)));
    assert_eq!(use_correct_revision(&pinned, &date(2022, 10, 26, None), false), Ok(Some(newer)));
    assert_eq!(use_correct_revision(&pinned, &date(2022, 10, 26, Some(1)), false), Ok(None));
    assert_eq!(use_correct_revision(&pinned, &date(2023, 5, 1, None), false), Ok(None));
    assert_eq!(find_pin(&pinned, &version(0, 6, 1)), Some(1));
    assert_eq!(find_pin(&pinned, &date(2024, 1, 1, None)), None);
    assert_eq!(find_pin(&Vec::new(), &version(0, 1, 0)), None);
}

#[test]
fn prohibited_reset_fails_only_where_a_reset_is_called_for() {
    let pinned = pinned_smithy_rs_versions();
    assert_eq!(
        use_correct_revision(&pinned, &version(0, 5, 0), true),
        Err(CanaryError::ResetProhibited)
    );
    assert_eq!(use_correct_revision(&pinned, &date(2023, 5, 1, None), true), Ok(None));
}

#[test]
fn bundle_is_built_with_the_settings_of_the_run() {
    let options = Options {
        rust_version: Some("1.70.0".to_owned()),
        sdk_release_tag: Some(version(0, 55, 0)),
        sdk_path: Some(PathBuf::from("artifact-aws-sdk-rust/sdk")),
        musl: true,
        expected_speech_text_by_transcribe: None,
        lambda_code_s3_bucket_name: "code".to_owned(),
        lambda_test_s3_bucket_name: "test".to_owned(),
        lambda_execution_role_arn: "role".to_owned(),
        preserve_lambda: false,
        no_reset: false,
    };
    let args = build_bundle(&options);
    assert_eq!(args.canary_path, None);
    assert_eq!(args.rust_version.as_deref(), Some("1.70.0"));
    assert_eq!(args.sdk_release_tag, Some(version(0, 55, 0)));
    assert_eq!(args.sdk_path, Some(PathBuf::from("artifact-aws-sdk-rust/sdk")));
    assert!(args.musl);
    assert!(!args.manifest_only);
}

#[test]
fn metrics_of_a_successful_run() {
    let metrics = canary_metrics(Some(Duration::from_millis(1500)), Duration::from_secs(90));
    let names: Vec<&str> = metrics.iter().map(|m| m.name).collect();
    assert_eq!(
        names,
        vec!["canary-success", "canary-failure", "canary-total-time", "canary-invoke-time"]
    );
    assert_eq!(metrics[0].value, MetricValue::Flag(true));
    assert_eq!(metrics[1].value, MetricValue::Flag(false));
    assert_eq!(metrics[2].value, MetricValue::Elapsed(Duration::from_secs(90)));
    assert_eq!(metrics[3].value, MetricValue::Elapsed(Duration::from_millis(1500)));
    let units: Vec<MetricUnit> = metrics.iter().map(|m| m.unit).collect();
    assert_eq!(
        units,
        vec![MetricUnit::Count, MetricUnit::Count, MetricUnit::Seconds, MetricUnit::Seconds]
    );
}

#[test]
fn metrics_of_a_failed_run() {
    let metrics = canary_metrics(None, Duration::from_secs(12));
    let names: Vec<&str> = metrics.iter().map(|m| m.name).collect();
    assert_eq!(names, vec!["canary-success", "canary-failure", "canary-total-time"]);
    assert_eq!(metrics[0].value, MetricValue::Flag(false));
    assert_eq!(metrics[1].value, MetricValue::Flag(true));
    assert_eq!(metrics[2].value, MetricValue::Elapsed(Duration::from_secs(12)));
}

fn environment(plan: &transfer_manager::canary::FunctionPlan) -> Vec<(&str, &str)> {
    plan.environment.iter().map(|v| (v.name.as_str(), v.value.as_str())).collect()
}

#[test]
fn function_plan_with_expected_speech_text_logs_at_debug() {
    let text = "Good day to you transcribe.".to_owned();
    let plan = create_lambda_fn(
        "canary-1",
        "canary-1.zip",
        "arn:aws:lambda::role/exe-role",
        Some(&text),
        "bucket-for-code",
        "bucket-for-test",
    );
    assert_eq!(plan.function_name, "canary-1");
    assert_eq!(plan.handler, "aws-sdk-rust-lambda-canary");
    assert_eq!(plan.role, "arn:aws:lambda::role/exe-role");
    assert_eq!(plan.code_s3_bucket, "bucket-for-code");
    assert_eq!(plan.code_s3_key, "canary-1.zip");
    assert!(plan.publish);
    assert_eq!(plan.timeout_seconds, 60);
    assert_eq!(
        environment(&plan),
        vec![
            ("RUST_BACKTRACE", "1"),
            ("RUST_LOG", "debug"),
            ("CANARY_S3_BUCKET_NAME", "bucket-for-test"),
            ("CANARY_EXPECTED_TRANSCRIBE_RESULT", "Good day to you transcribe."),
        ]
    );
}

#[test]
fn function_plan_without_expected_speech_text_logs_at_info() {
    let plan = create_lambda_fn("canary-1", "canary-1.zip", "role", None, "code", "test");
    assert_eq!(
        environment(&plan),
        vec![("RUST_BACKTRACE", "1"), ("RUST_LOG", "info"), ("CANARY_S3_BUCKET_NAME", "test")]
    );
}

#[test]
fn activation_is_waited_for_twenty_checks() {
    assert_eq!(MAX_ACTIVATION_CHECKS, 20);
    assert_eq!(activation_step(false, 0), ActivationStep::WaitAndCheck);
    assert_eq!(activation_step(false, 19), ActivationStep::WaitAndCheck);
    assert_eq!(activation_step(false, 20), ActivationStep::TimedOut);
    assert_eq!(activation_step(false, u32::MAX), ActivationStep::TimedOut);
    assert_eq!(activation_step(true, 0), ActivationStep::Ready);
    assert_eq!(activation_step(true, 20), ActivationStep::Ready);
    assert_eq!(activation_outcome(ActivationStep::WaitAndCheck), None);
    assert_eq!(activation_outcome(ActivationStep::Ready), Some(Ok(())));
    assert_eq!(
        activation_outcome(ActivationStep::TimedOut),
        Some(Err(CanaryError::ActivationTimedOut))
    );
    // A function that never comes up is asked for exactly twenty times.
    let mut checks = 0;
    while activation_step(false, checks) == ActivationStep::WaitAndCheck {
        checks += 1;
    }
    assert_eq!(checks, 20);
}

#[test]
fn log_is_base64_of_utf8_text() {
    assert_eq!(decode_log("aGVsbG8gd29ybGQ="), Ok("hello world".to_owned()));
    assert_eq!(decode_log(""), Ok(String::new()));
    assert_eq!(decode_log("not base64!"), Err(CanaryError::LogNotBase64));
    // 0xff 0xfe is no UTF-8.
    assert_eq!(decode_log("//4="), Err(CanaryError::LogNotUtf8));
}

fn answer(status_code: i32, function_error: Option<&str>, payload: Option<PayloadReading>)
    -> InvocationResponse {
    InvocationResponse {
        status_code,
        function_error: function_error.map(str::to_owned),
        log_result: Some("bG9n".to_owned()),
        payload,
    }
}

fn payload(result: &str, failures: Option<Vec<(&str, &str)>>) -> PayloadReading {
    PayloadReading::Read(Payload {
        failures: failures.map(|list| {
            list.into_iter()
                .map(|(service, message)| ServiceFailure {
                    service: service.to_owned(),
                    message: message.to_owned(),
                })
                .collect()
        }),
        result: result.to_owned(),
    })
}

#[test]
fn successful_answers_pass() {
    assert_eq!(invoke_lambda(answer(200, None, None)), Ok(()));
    assert_eq!(invoke_lambda(answer(200, None, Some(payload("success", None)))), Ok(()));
    assert_eq!(invoke_lambda(answer(200, None, Some(payload("success", Some(vec![]))))), Ok(()));
    let without_log = InvocationResponse {
        status_code: 200,
        function_error: None,
        log_result: None,
        payload: None,
    };
    assert_eq!(invoke_lambda(without_log), Ok(()));
}

#[test]
fn bad_status_or_function_error_fails_the_invocation() {
    assert_eq!(
        invoke_lambda(answer(500, None, None)),
        Err(CanaryError::InvocationFailed { function_error: None })
    );
    assert_eq!(
        invoke_lambda(answer(200, Some("Unhandled"), Some(payload("success", None)))),
        Err(CanaryError::InvocationFailed { function_error: Some("Unhandled".to_owned()) })
    );
}

#[test]
fn reported_failures_fail_the_canary() {
    assert_eq!(
        invoke_lambda(answer(200, None, Some(payload("failure", None)))),
        Err(CanaryError::CanaryFailed)
    );
    assert_eq!(
        invoke_lambda(answer(
            200,
            None,
            Some(payload("success", Some(vec![("ec2_paginator", "service error")])))
        )),
        Err(CanaryError::CanaryFailed)
    );
    assert_eq!(
        invoke_lambda(answer(200, None, Some(PayloadReading::Unreadable))),
        Err(CanaryError::PayloadUnreadable)
    );
    assert!(payload_reports_failure(&Payload { failures: None, result: "failure".to_owned() }));
    assert!(!payload_reports_failure(&Payload { failures: None, result: "Failure".to_owned() }));
}

#[test]
fn unreadable_log_fails_before_anything_else_is_looked_at() {
    let mut response = answer(500, Some("Unhandled"), Some(PayloadReading::Unreadable));
    response.log_result = Some("not base64!".to_owned());
    assert_eq!(invoke_lambda(response), Err(CanaryError::LogNotBase64));
    assert_eq!(
        judge_invocation(Some(Err(CanaryError::LogNotUtf8)), 200, None, &None),
        Err(CanaryError::LogNotUtf8)
    );
    assert_eq!(
        judge_invocation(
            Some(Ok("log".to_owned())),
            500,
            None,
            &Some(PayloadReading::Unreadable)
        ),
        Err(CanaryError::InvocationFailed { function_error: None })
    );
}

#[test]
fn errors_say_what_went_wrong() {
    assert_eq!(
        CanaryError::ResetProhibited.message(),
        "Running git reset was prohibited by arguments"
    );
    assert_eq!(
        CanaryError::ActivationTimedOut.message(),
        "Timed out waiting for canary Lambda to become active"
    );
    assert_eq!(
        CanaryError::InvocationFailed { function_error: Some("Unhandled".to_owned()) }.message(),
        "Canary failed: Unhandled"
    );
    assert_eq!(
        CanaryError::InvocationFailed { function_error: None }.message(),
        "Canary failed: <no error given>"
    );
    assert_eq!(CanaryError::CanaryFailed.message(), "The canary failed.");
    for error in [
        CanaryError::LogNotBase64,
        CanaryError::LogNotUtf8,
        CanaryError::PayloadUnreadable,
    ] {
        assert!(!error.message().is_empty());
    }
}

#[test]
fn run_goes_step_by_step_and_stops_at_the_first_failure() {
    let order = [
        RunStep::LocateRepository,
        RunStep::EnterCanaryDirectory,
        RunStep::BuildBundle,
        RunStep::UploadBundle,
        RunStep::CreateFunction,
        RunStep::InvokeFunction,
        RunStep::DeleteFunction,
        RunStep::Finished,
    ];
    for pair in order.windows(2) {
        assert_eq!(run_canary(pair[0], true, false), pair[1]);
    }
    for step in &order[..5] {
        assert_eq!(run_canary(*step, false, false), RunStep::Finished);
    }
    assert_eq!(run_canary(RunStep::Finished, true, false), RunStep::Finished);
}

#[test]
fn function_is_deleted_after_the_invocation_unless_preserved() {
    assert_eq!(run_canary(RunStep::InvokeFunction, true, false), RunStep::DeleteFunction);
    assert_eq!(run_canary(RunStep::InvokeFunction, false, false), RunStep::DeleteFunction);
    assert_eq!(run_canary(RunStep::InvokeFunction, true, true), RunStep::Finished);
    assert_eq!(run_canary(RunStep::InvokeFunction, false, true), RunStep::Finished);
    assert_eq!(run_canary(RunStep::DeleteFunction, false, false), RunStep::Finished);
}

#[test]
fn failed_deletion_overrides_the_invocation() {
    let time = Duration::from_secs(3);
    assert_eq!(canary_outcome::<&str>(Ok(()), time, None), Ok(time));
    assert_eq!(canary_outcome::<&str>(Ok(()), time, Some(Ok(()))), Ok(time));
    assert_eq!(canary_outcome(Err("invoke"), time, Some(Ok(()))), Err("invoke"));
    assert_eq!(canary_outcome(Err("invoke"), time, None), Err("invoke"));
    assert_eq!(canary_outcome(Ok(()), time, Some(Err("delete"))), Err("delete"));
    assert_eq!(canary_outcome(Err("invoke"), time, Some(Err("delete"))), Err("delete"));
}
