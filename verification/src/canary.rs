//! The decisions of a canary run: which revision to build, how the Lambda
//! function is set up, how long to wait for it, what its answer means, and
//! which metrics are emitted at the end.

use vstd::prelude::*;
use vstd::string::*;
use vstd::utf8::{decode_utf8, valid_utf8};
use std::path::PathBuf;
use std::time::Duration;
use crate::release_tag::{ReleaseTag, precedes};

verus! {

/// `std::path::PathBuf`: a path, carried through as it came.
#[verifier::external_type_specification]
#[verifier::external_body]
pub struct ExPathBuf(std::path::PathBuf);

/// `base64::DecodeError`: why a text is not base64; only that it is one is
/// looked at.
#[verifier::external_type_specification]
#[verifier::external_body]
pub struct ExDecodeError(base64::DecodeError);

/// What went wrong in a canary run.
#[derive(Debug, PartialEq, Eq)]
pub enum CanaryError {
    /// A pinned revision is called for, but resetting the working tree was
    /// ruled out.
    ResetProhibited,
    /// The Lambda function did not become active in time.
    ActivationTimedOut,
    /// The tail of the log is not base64.
    LogNotBase64,
    /// The tail of the log is not UTF-8 text.
    LogNotUtf8,
    /// The invocation did not answer with status 200, or reported an error of
    /// the function.
    InvocationFailed { function_error: Option<String> },
    /// The payload of the answer could not be read.
    PayloadUnreadable,
    /// The canary reported failure.
    CanaryFailed,
}

impl CanaryError {
    /// What is said of the error.
    pub open spec fn message_of(self) -> Seq<char> {
        match self {
            CanaryError::ResetProhibited => "Running git reset was prohibited by arguments"@,
            CanaryError::ActivationTimedOut =>
                "Timed out waiting for canary Lambda to become active"@,
            CanaryError::LogNotBase64 => "The tail of the canary log is not base64"@,
            CanaryError::LogNotUtf8 => "The tail of the canary log is not UTF-8 text"@,
            CanaryError::InvocationFailed { function_error } => "Canary failed: "@ + (
            match function_error {
                Some(error) => error@,
                None => "<no error given>"@,
            }),
            CanaryError::PayloadUnreadable => "The payload of the canary could not be read"@,
            CanaryError::CanaryFailed => "The canary failed."@,
        }
    }

    /// What is said of the error.
    pub fn message(&self) -> (text: String)
        ensures
            text@ == self.message_of(),
    {
        match self {
            CanaryError::ResetProhibited => {
                "Running git reset was prohibited by arguments".to_owned()
            },
            CanaryError::ActivationTimedOut => {
                "Timed out waiting for canary Lambda to become active".to_owned()
            },
            CanaryError::LogNotBase64 => "The tail of the canary log is not base64".to_owned(),
            CanaryError::LogNotUtf8 => "The tail of the canary log is not UTF-8 text".to_owned(),
            CanaryError::InvocationFailed { function_error } => {
                let text = "Canary failed: ".to_owned();
                match function_error {
                    Some(error) => text.concat(error.as_str()),
                    None => text.concat("<no error given>"),
                }
            },
            CanaryError::PayloadUnreadable => {
                "The payload of the canary could not be read".to_owned()
            },
            CanaryError::CanaryFailed => "The canary failed.".to_owned(),
        }
    }
}

/// What standard base64 decodes a text to, or nothing where the text is not
/// base64.
pub uninterp spec fn base64_decoded(input: Seq<char>) -> Option<Seq<u8>>;

/// Calls `base64::decode` on the text: decoding with the standard alphabet
/// and padding. Trusted: whether it succeeds and what it gives depend on the
/// text alone.
#[verifier::external_body]
fn base64_decode(input: &str) -> (r: Result<Vec<u8>, base64::DecodeError>)
    ensures
        r is Ok <==> base64_decoded(input@) is Some,
        r matches Ok(bytes) ==> base64_decoded(input@) == Some(bytes@),
{
    base64::decode(input)
}

/// Calls `String::from_utf8` and drops the error's detail. Trusted: it
/// succeeds exactly on valid UTF-8, and the string then holds the characters
/// the bytes encode.
#[verifier::external_body]
fn text_of(bytes: Vec<u8>) -> (r: Option<String>)
    ensures
        r is Some <==> valid_utf8(bytes@),
        r matches Some(text) ==> text@ == decode_utf8(bytes@),
{
    String::from_utf8(bytes).ok()
}

/// A release up to which the canary has to be built from an older revision.
#[derive(Clone, Copy, Debug)]
pub struct PinnedVersion {
    /// The last release that needs the pinned revision.
    pub tag: ReleaseTag,
    /// The revision of the canary's sources that still builds against it.
    pub commit_hash: &'static str,
}

/// The releases pinned to a revision, oldest first.
pub open spec fn pinned_tags() -> Seq<ReleaseTag> {
    seq![
        ReleaseTag::Version { major: 0, minor: 6, patch: 0 },
        ReleaseTag::Date { year: 2022, month: 10, day: 26, suffix: None },
    ]
}

/// Every release in the list comes before the next one.
pub open spec fn in_release_order(pinned: Seq<PinnedVersion>) -> bool {
    forall|i: int, j: int| 0 <= i < j < pinned.len() ==> precedes(pinned[i].tag, pinned[j].tag)
}

/// Occasionally a breaking change makes the canary fail to build against
/// older releases of the SDK. Those releases are pinned to the last revision
/// of the canary that builds against them. The list is in release order.
pub fn pinned_smithy_rs_versions() -> (pinned: Vec<PinnedVersion>)
    ensures
        pinned@.len() == 2,
        forall|i: int| 0 <= i < 2 ==> (#[trigger] pinned@[i]).tag == pinned_tags()[i],
        pinned@[0].commit_hash@ == "d48c234796a16d518ca9e1dda5c7a1da4904318c"@,
        pinned@[1].commit_hash@ == "3e24477ae7a0a2b3853962a064bc8333a016af54"@,
        in_release_order(pinned@),
{
    let mut pinned: Vec<PinnedVersion> = Vec::new();
    // Releases up to 0.6.0 no longer build against the canary after this revision.
    pinned.push(
        PinnedVersion {
            tag: ReleaseTag::Version { major: 0, minor: 6, patch: 0 },
            commit_hash: "d48c234796a16d518ca9e1dda5c7a1da4904318c",
        },
    );
    // Releases up to 2022-10-26 no longer build against the canary after this revision.
    pinned.push(
        PinnedVersion {
            tag: ReleaseTag::Date { year: 2022, month: 10, day: 26, suffix: None },
            commit_hash: "3e24477ae7a0a2b3853962a064bc8333a016af54",
        },
    );
    pinned
}

/// The position, at `from` or after it, of the first pinned release that is
/// `tag` or a later one, if there is one.
pub open spec fn first_pin(pinned: Seq<PinnedVersion>, tag: ReleaseTag, from: int) -> Option<int>
    decreases pinned.len() - from,
{
    if from < 0 || from >= pinned.len() {
        None
    } else if !precedes(pinned[from].tag, tag) {
        Some(from)
    } else {
        first_pin(pinned, tag, from + 1)
    }
}

/// The first pin is a pin, and no release before it is one.
pub proof fn lemma_first_pin(pinned: Seq<PinnedVersion>, tag: ReleaseTag, from: int)
    requires
        0 <= from,
    ensures
        first_pin(pinned, tag, from) matches Some(i) ==> from <= i < pinned.len() && !precedes(
            pinned[i].tag,
            tag,
        ) && forall|j: int| from <= j < i ==> precedes(#[trigger] pinned[j].tag, tag),
        first_pin(pinned, tag, from) is None ==> forall|j: int|
            from <= j < pinned.len() ==> precedes(#[trigger] pinned[j].tag, tag),
    decreases pinned.len() - from,
{
    if from < pinned.len() && precedes(pinned[from].tag, tag) {
        lemma_first_pin(pinned, tag, from + 1);
    }
}

/// Finds the first pinned release that is `tag` or a later one.
pub fn find_pin(pinned: &Vec<PinnedVersion>, tag: &ReleaseTag) -> (r: Option<usize>)
    ensures
        r is Some <==> first_pin(pinned@, *tag, 0) is Some,
        r matches Some(i) ==> first_pin(pinned@, *tag, 0) == Some(i as int) && i < pinned@.len(),
{
    let mut index: usize = 0;
    while index < pinned.len()
        invariant
            index <= pinned@.len(),
            first_pin(pinned@, *tag, 0) == first_pin(pinned@, *tag, index as int),
        decreases pinned@.len() - index,
    {
        if pinned[index].tag.is_at_least(tag) {
            return Some(index);
        }
        index = index + 1;
    }
    None
}

/// What a run does about the revision of the canary's sources, for the
/// first pin it found: nothing without a pin, a reset to the pinned revision
/// with one, and failure where a reset is called for but ruled out.
pub open spec fn revision_choice(pinned: Seq<PinnedVersion>, pin: Option<int>, no_reset: bool)
    -> Result<Option<&'static str>, CanaryError> {
    match pin {
        None => Ok(None),
        Some(i) => if no_reset {
            Err(CanaryError::ResetProhibited)
        } else {
            Ok(Some(pinned[i].commit_hash))
        },
    }
}

/// Chooses the revision of the canary to build against release
/// `sdk_release_tag`: none where no pinned release is that release or a later
/// one (the current revision builds), else the revision of the first such
/// pinned release. The working tree has to be reset to a pinned revision;
/// where that is ruled out by `no_reset`, the run fails.
pub fn use_correct_revision(
    pinned: &Vec<PinnedVersion>,
    sdk_release_tag: &ReleaseTag,
    no_reset: bool,
) -> (r: Result<Option<&'static str>, CanaryError>)
    ensures
        r == revision_choice(pinned@, first_pin(pinned@, *sdk_release_tag, 0), no_reset),
{
    match find_pin(pinned, sdk_release_tag) {
        Some(index) => {
            if no_reset {
                Err(CanaryError::ResetProhibited)
            } else {
                Ok(Some(pinned[index].commit_hash))
            }
        },
        None => Ok(None),
    }
}

/// The arguments of a canary run.
#[derive(Debug, PartialEq, Eq)]
pub struct RunArgs {
    /// Rust version
    pub rust_version: Option<String>,
    /// Version of the SDK to compile the canary against
    pub sdk_release_tag: Option<ReleaseTag>,
    /// Path to the SDK to compile against
    pub sdk_path: Option<PathBuf>,
    /// Whether to target MUSL instead of GLIBC when compiling the Lambda
    pub musl: bool,
    /// Expected speech text generated by Transcribe. This needs to be passed
    /// in because it can change as the accuracy of generated text improves
    /// over time.
    pub expected_speech_text_by_transcribe: Option<String>,
    /// File path to a CDK outputs JSON file. This can be used instead of all
    /// the Lambda arguments.
    pub cdk_output: Option<PathBuf>,
    /// The name of the S3 bucket to upload the canary binary bundle to
    pub lambda_code_s3_bucket_name: Option<String>,
    /// The name of the S3 bucket for the canary Lambda to interact with
    pub lambda_test_s3_bucket_name: Option<String>,
    /// The ARN of the role that the Lambda will execute as
    pub lambda_execution_role_arn: Option<String>,
    /// Error if a git reset is indicated
    pub no_reset: bool,
    /// Keep the Lambda after invocation
    pub preserve_lambda: bool,
}

/// What a CDK outputs file says of the canary stack.
#[derive(Debug, PartialEq, Eq)]
pub struct CdkOutput {
    pub lambda_code_s3_bucket_name: String,
    pub lambda_test_s3_bucket_name: String,
    pub lambda_execution_role_arn: String,
}

/// The settings of a canary run, with the buckets and the role settled.
#[derive(Debug, PartialEq, Eq)]
pub struct Options {
    pub rust_version: Option<String>,
    pub sdk_release_tag: Option<ReleaseTag>,
    pub sdk_path: Option<PathBuf>,
    pub musl: bool,
    pub expected_speech_text_by_transcribe: Option<String>,
    pub lambda_code_s3_bucket_name: String,
    pub lambda_test_s3_bucket_name: String,
    pub lambda_execution_role_arn: String,
    pub preserve_lambda: bool,
    pub no_reset: bool,
}

impl Options {
    /// Settles the buckets and the role: from the CDK outputs where the
    /// arguments name such a file (`cdk` is what was read from it), else from
    /// the three Lambda arguments, which then have to be there.
    pub fn load_from(run_opt: RunArgs, cdk: Option<CdkOutput>) -> (options: Options)
        requires
            cdk is Some <==> run_opt.cdk_output is Some,
            cdk is None ==> run_opt.lambda_code_s3_bucket_name is Some
                && run_opt.lambda_test_s3_bucket_name is Some
                && run_opt.lambda_execution_role_arn is Some,
        ensures
            options == (Options {
                rust_version: run_opt.rust_version,
                sdk_release_tag: run_opt.sdk_release_tag,
                sdk_path: run_opt.sdk_path,
                musl: run_opt.musl,
                expected_speech_text_by_transcribe: run_opt.expected_speech_text_by_transcribe,
                lambda_code_s3_bucket_name: match cdk {
                    Some(output) => output.lambda_code_s3_bucket_name,
                    None => run_opt.lambda_code_s3_bucket_name->Some_0,
                },
                lambda_test_s3_bucket_name: match cdk {
                    Some(output) => output.lambda_test_s3_bucket_name,
                    None => run_opt.lambda_test_s3_bucket_name->Some_0,
                },
                lambda_execution_role_arn: match cdk {
                    Some(output) => output.lambda_execution_role_arn,
                    None => run_opt.lambda_execution_role_arn->Some_0,
                },
                preserve_lambda: run_opt.preserve_lambda,
                no_reset: run_opt.no_reset,
            }),
    {
        match cdk {
            Some(output) => Options {
                rust_version: run_opt.rust_version,
                sdk_release_tag: run_opt.sdk_release_tag,
                sdk_path: run_opt.sdk_path,
                musl: run_opt.musl,
                expected_speech_text_by_transcribe: run_opt.expected_speech_text_by_transcribe,
                lambda_code_s3_bucket_name: output.lambda_code_s3_bucket_name,
                lambda_test_s3_bucket_name: output.lambda_test_s3_bucket_name,
                lambda_execution_role_arn: output.lambda_execution_role_arn,
                preserve_lambda: run_opt.preserve_lambda,
                no_reset: run_opt.no_reset,
            },
            None => Options {
                rust_version: run_opt.rust_version,
                sdk_release_tag: run_opt.sdk_release_tag,
                sdk_path: run_opt.sdk_path,
                musl: run_opt.musl,
                expected_speech_text_by_transcribe: run_opt.expected_speech_text_by_transcribe,
                lambda_code_s3_bucket_name: run_opt.lambda_code_s3_bucket_name.unwrap(),
                lambda_test_s3_bucket_name: run_opt.lambda_test_s3_bucket_name.unwrap(),
                lambda_execution_role_arn: run_opt.lambda_execution_role_arn.unwrap(),
                preserve_lambda: run_opt.preserve_lambda,
                no_reset: run_opt.no_reset,
            },
        }
    }
}

/// The arguments of the bundle build.
#[derive(Debug, PartialEq, Eq)]
pub struct BuildBundleArgs {
    pub canary_path: Option<PathBuf>,
    pub rust_version: Option<String>,
    pub sdk_release_tag: Option<ReleaseTag>,
    pub sdk_path: Option<PathBuf>,
    pub musl: bool,
    pub manifest_only: bool,
}

/// The arguments with which a run builds its bundle: the run's own settings,
/// the canary at its usual place, and a full build, not only a manifest.
pub fn build_bundle(options: &Options) -> (args: BuildBundleArgs)
    ensures
        args.canary_path is None,
        args.rust_version is Some <==> options.rust_version is Some,
        args.rust_version matches Some(version) ==> version@
            == options.rust_version->Some_0@,
        args.sdk_release_tag == options.sdk_release_tag,
        args.sdk_path == options.sdk_path,
        args.musl == options.musl,
        !args.manifest_only,
{
    let rust_version = match &options.rust_version {
        Some(version) => Some(version.clone()),
        None => None,
    };
    let sdk_path = match &options.sdk_path {
        Some(path) => Some(copy_path(path)),
        None => None,
    };
    BuildBundleArgs {
        canary_path: None,
        rust_version,
        sdk_release_tag: options.sdk_release_tag,
        sdk_path,
        musl: options.musl,
        manifest_only: false,
    }
}

/// Calls `PathBuf::clone`. Trusted: the copy is the same path.
#[verifier::external_body]
fn copy_path(path: &PathBuf) -> (copy: PathBuf)
    ensures
        copy == *path,
{
    path.clone()
}

/// The unit a metric is counted in.
#[derive(Clone, Copy, Debug, PartialEq, Eq, Structural)]
pub enum MetricUnit {
    Count,
    Seconds,
}

/// The value of a metric: a flag, emitted as one or zero, or a length of
/// time, emitted in seconds.
#[derive(Clone, Copy, Debug, PartialEq, Eq)]
pub enum MetricValue {
    Flag(bool),
    Elapsed(Duration),
}

/// One metric of a canary run.
#[derive(Clone, Copy, Debug)]
pub struct Metric {
    pub name: &'static str,
    pub value: MetricValue,
    pub unit: MetricUnit,
}

/// The metrics a run emits: whether it succeeded, whether it failed, how
/// long it took in all and, for a run that succeeded, how long the
/// invocation took (`invoke_time`, there only for such a run).
pub fn canary_metrics(invoke_time: Option<Duration>, total_time: Duration) -> (metrics: Vec<Metric>)
    ensures
        metrics@.len() == (if invoke_time is Some {
            4int
        } else {
            3int
        }),
        metrics@[0].name@ == "canary-success"@,
        metrics@[0].value == MetricValue::Flag(invoke_time is Some),
        metrics@[0].unit == MetricUnit::Count,
        metrics@[1].name@ == "canary-failure"@,
        metrics@[1].value == MetricValue::Flag(invoke_time is None),
        metrics@[1].unit == MetricUnit::Count,
        metrics@[2].name@ == "canary-total-time"@,
        metrics@[2].value == MetricValue::Elapsed(total_time),
        metrics@[2].unit == MetricUnit::Seconds,
        invoke_time matches Some(time) ==> metrics@[3].name@ == "canary-invoke-time"@
            && metrics@[3].value == MetricValue::Elapsed(time) && metrics@[3].unit
            == MetricUnit::Seconds,
{
    let succeeded = invoke_time.is_some();
    let mut metrics: Vec<Metric> = Vec::new();
    metrics.push(
        Metric {
            name: "canary-success",
            value: MetricValue::Flag(succeeded),
            unit: MetricUnit::Count,
        },
    );
    metrics.push(
        Metric {
            name: "canary-failure",
            value: MetricValue::Flag(!succeeded),
            unit: MetricUnit::Count,
        },
    );
    metrics.push(
        Metric {
            name: "canary-total-time",
            value: MetricValue::Elapsed(total_time),
            unit: MetricUnit::Seconds,
        },
    );
    if let Some(time) = invoke_time {
        metrics.push(
            Metric {
                name: "canary-invoke-time",
                value: MetricValue::Elapsed(time),
                unit: MetricUnit::Seconds,
            },
        );
    }
    metrics
}

/// One variable of the Lambda function's environment.
#[derive(Debug, PartialEq, Eq)]
pub struct EnvironmentVariable {
    pub name: String,
    pub value: String,
}

/// How the canary's Lambda function is to be created.
#[derive(Debug, PartialEq, Eq)]
pub struct FunctionPlan {
    pub function_name: String,
    pub handler: String,
    pub role: String,
    pub code_s3_bucket: String,
    pub code_s3_key: String,
    pub publish: bool,
    pub timeout_seconds: i32,
    pub environment: Vec<EnvironmentVariable>,
}

/// The environment of the function, as pairs of name and value: backtraces
/// on, the bucket to test against, and, where the text Transcribe is
/// expected to give is known, that text, with logging turned up to `debug`
/// from `info`.
pub open spec fn environment_of(expected_speech_text: Option<Seq<char>>, test_s3_bucket: Seq<char>)
    -> Seq<(Seq<char>, Seq<char>)> {
    match expected_speech_text {
        Some(text) => seq![
            ("RUST_BACKTRACE"@, "1"@),
            ("RUST_LOG"@, "debug"@),
            ("CANARY_S3_BUCKET_NAME"@, test_s3_bucket),
            ("CANARY_EXPECTED_TRANSCRIBE_RESULT"@, text),
        ],
        None => seq![
            ("RUST_BACKTRACE"@, "1"@),
            ("RUST_LOG"@, "info"@),
            ("CANARY_S3_BUCKET_NAME"@, test_s3_bucket),
        ],
    }
}

/// How a list of variables reads as plain values.
pub open spec fn environment_view(variables: Seq<EnvironmentVariable>) -> Seq<
    (Seq<char>, Seq<char>),
> {
    Seq::new(variables.len(), |i: int| (variables[i].name@, variables[i].value@))
}

fn variable(name: &str, value: &str) -> (v: EnvironmentVariable)
    ensures
        v.name@ == name@,
        v.value@ == value@,
{
    EnvironmentVariable { name: name.to_owned(), value: value.to_owned() }
}

/// Lays out the canary's Lambda function: named after the bundle, running
/// the bundle's code from the code bucket as the canary handler, published,
/// with a minute to answer.
pub fn create_lambda_fn(
    bundle_name: &str,
    bundle_file_name: &str,
    execution_role: &str,
    expected_speech_text_by_transcribe: Option<&String>,
    code_s3_bucket: &str,
    test_s3_bucket: &str,
) -> (plan: FunctionPlan)
    ensures
        plan.function_name@ == bundle_name@,
        plan.handler@ == "aws-sdk-rust-lambda-canary"@,
        plan.role@ == execution_role@,
        plan.code_s3_bucket@ == code_s3_bucket@,
        plan.code_s3_key@ == bundle_file_name@,
        plan.publish,
        plan.timeout_seconds == 60,
        environment_view(plan.environment@) == environment_of(
            match expected_speech_text_by_transcribe {
                Some(text) => Some(text@),
                None => None,
            },
            test_s3_bucket@,
        ),
{
    let mut environment: Vec<EnvironmentVariable> = Vec::new();
    environment.push(variable("RUST_BACKTRACE", "1"));
    match expected_speech_text_by_transcribe {
        Some(text) => {
            environment.push(variable("RUST_LOG", "debug"));
            environment.push(variable("CANARY_S3_BUCKET_NAME", test_s3_bucket));
            environment.push(variable("CANARY_EXPECTED_TRANSCRIBE_RESULT", text.as_str()));
            assert(environment_view(environment@) =~= environment_of(Some(text@), test_s3_bucket@));
        },
        None => {
            environment.push(variable("RUST_LOG", "info"));
            environment.push(variable("CANARY_S3_BUCKET_NAME", test_s3_bucket));
            assert(environment_view(environment@) =~= environment_of(None, test_s3_bucket@));
        },
    }
    FunctionPlan {
        function_name: bundle_name.to_owned(),
        handler: "aws-sdk-rust-lambda-canary".to_owned(),
        role: execution_role.to_owned(),
        code_s3_bucket: code_s3_bucket.to_owned(),
        code_s3_key: bundle_file_name.to_owned(),
        publish: true,
        timeout_seconds: 60,
        environment,
    }
}

/// How often the function's state is asked for before the wait is given up.
pub const MAX_ACTIVATION_CHECKS: u32 = 20;

/// What to do while the function comes up.
#[derive(Clone, Copy, Debug, PartialEq, Eq, Structural)]
pub enum ActivationStep {
    /// Wait a second, ask for the function's state, and decide again.
    WaitAndCheck,
    /// The function is active.
    Ready,
    /// The function did not become active in time.
    TimedOut,
}

/// Decides how the wait for the function goes on, from whether it was last
/// seen active and how often its state was asked for: an active function is
/// ready, one that is not is asked again, up to `MAX_ACTIVATION_CHECKS`
/// times.
pub fn activation_step(active: bool, checks: u32) -> (step: ActivationStep)
    ensures
        step == (if active {
            ActivationStep::Ready
        } else if checks < MAX_ACTIVATION_CHECKS {
            ActivationStep::WaitAndCheck
        } else {
            ActivationStep::TimedOut
        }),
{
    if active {
        ActivationStep::Ready
    } else if checks < MAX_ACTIVATION_CHECKS {
        ActivationStep::WaitAndCheck
    } else {
        ActivationStep::TimedOut
    }
}

/// The outcome of the wait, once it has ended.
pub fn activation_outcome(step: ActivationStep) -> (r: Option<Result<(), CanaryError>>)
    ensures
        r == (match step {
            ActivationStep::WaitAndCheck => None,
            ActivationStep::Ready => Some(Ok(())),
            ActivationStep::TimedOut => Some(Err(CanaryError::ActivationTimedOut)),
        }),
{
    match step {
        ActivationStep::WaitAndCheck => None,
        ActivationStep::Ready => Some(Ok(())),
        ActivationStep::TimedOut => Some(Err(CanaryError::ActivationTimedOut)),
    }
}

/// One failure the canary reported: the service it tested and what went
/// wrong.
#[derive(Debug, PartialEq, Eq)]
pub struct ServiceFailure {
    pub service: String,
    pub message: String,
}

/// The payload of the canary's answer.
#[derive(Debug, PartialEq, Eq)]
pub struct Payload {
    pub failures: Option<Vec<ServiceFailure>>,
    pub result: String,
}

/// What became of the payload of the answer when it was read.
#[derive(Debug, PartialEq, Eq)]
pub enum PayloadReading {
    /// It is not a payload of the canary.
    Unreadable,
    Read(Payload),
}

/// What the invocation of the canary's function answered.
#[derive(Debug, PartialEq, Eq)]
pub struct InvocationResponse {
    pub status_code: i32,
    pub function_error: Option<String>,
    /// The tail of the function's log, base64-encoded.
    pub log_result: Option<String>,
    pub payload: Option<PayloadReading>,
}

/// The canary reports failure by saying so, or by listing a failure.
pub open spec fn reports_failure(payload: Payload) -> bool {
    payload.result@ == "failure"@ || (payload.failures matches Some(list) && list@.len() > 0)
}

/// Whether the payload reports failure.
pub fn payload_reports_failure(payload: &Payload) -> (r: bool)
    ensures
        r == reports_failure(*payload),
{
    let failure = "failure".to_owned();
    if payload.result == failure {
        return true;
    }
    match &payload.failures {
        Some(list) => list.len() > 0,
        None => false,
    }
}

/// What the tail of the log comes to: the text it encodes, or why it cannot
/// be read. `decoded` is what base64 decoding made of it.
pub open spec fn log_text_of(decoded: Option<Seq<u8>>) -> Result<Seq<char>, CanaryError> {
    match decoded {
        None => Err(CanaryError::LogNotBase64),
        Some(bytes) => if valid_utf8(bytes) {
            Ok(decode_utf8(bytes))
        } else {
            Err(CanaryError::LogNotUtf8)
        },
    }
}

/// Reads the tail of the log: base64 first, then UTF-8.
pub fn decode_log(log_result: &str) -> (r: Result<String, CanaryError>)
    ensures
        match r {
            Ok(text) => log_text_of(base64_decoded(log_result@)) == Ok::<Seq<char>, CanaryError>(
                text@,
            ),
            Err(e) => log_text_of(base64_decoded(log_result@)) == Err::<Seq<char>, CanaryError>(e),
        },
{
    match base64_decode(log_result) {
        Err(_) => Err(CanaryError::LogNotBase64),
        Ok(bytes) => match text_of(bytes) {
            Some(text) => Ok(text),
            None => Err(CanaryError::LogNotUtf8),
        },
    }
}

/// What an answer means, given what reading the tail of its log came to (if
/// it has one). In this order: a log that cannot be read fails the run; so
/// does a status other than 200 or an error of the function; so does a
/// payload that cannot be read or that reports failure. Anything else is
/// success.
pub open spec fn verdict(
    log: Option<Result<Seq<char>, CanaryError>>,
    status_code: i32,
    function_error: Option<String>,
    payload: Option<PayloadReading>,
) -> Result<(), CanaryError> {
    if log is Some && log->Some_0 is Err {
        Err(log->Some_0->Err_0)
    } else if status_code != 200 || function_error is Some {
        Err(CanaryError::InvocationFailed { function_error })
    } else {
        match payload {
            None => Ok(()),
            Some(PayloadReading::Unreadable) => Err(CanaryError::PayloadUnreadable),
            Some(PayloadReading::Read(p)) => if reports_failure(p) {
                Err(CanaryError::CanaryFailed)
            } else {
                Ok(())
            },
        }
    }
}

/// How the result of reading a log reads as plain values.
pub open spec fn log_view(log: Option<Result<String, CanaryError>>) -> Option<
    Result<Seq<char>, CanaryError>,
> {
    match log {
        None => None,
        Some(Ok(text)) => Some(Ok(text@)),
        Some(Err(e)) => Some(Err(e)),
    }
}

/// Judges an answer whose log was read already.
pub fn judge_invocation(
    log: Option<Result<String, CanaryError>>,
    status_code: i32,
    function_error: Option<String>,
    payload: &Option<PayloadReading>,
) -> (r: Result<(), CanaryError>)
    ensures
        r == verdict(log_view(log), status_code, function_error, *payload),
{
    if let Some(Err(e)) = log {
        return Err(e);
    }
    if status_code != 200 || function_error.is_some() {
        return Err(CanaryError::InvocationFailed { function_error });
    }
    match payload {
        None => Ok(()),
        Some(PayloadReading::Unreadable) => Err(CanaryError::PayloadUnreadable),
        Some(PayloadReading::Read(p)) => {
            if payload_reports_failure(p) {
                Err(CanaryError::CanaryFailed)
            } else {
                Ok(())
            }
        },
    }
}

/// Judges the answer of the canary's function: reads the tail of its log,
/// where it has one, and then decides as `verdict` says.
pub fn invoke_lambda(response: InvocationResponse) -> (r: Result<(), CanaryError>)
    ensures
        r == verdict(
            match response.log_result {
                Some(log) => Some(log_text_of(base64_decoded(log@))),
                None => None,
            },
            response.status_code,
            response.function_error,
            response.payload,
        ),
{
    let log = match &response.log_result {
        Some(log) => Some(decode_log(log.as_str())),
        None => None,
    };
    judge_invocation(log, response.status_code, response.function_error, &response.payload)
}

/// The steps of a canary run, in order.
#[derive(Clone, Copy, Debug, PartialEq, Eq, Structural)]
pub enum RunStep {
    LocateRepository,
    EnterCanaryDirectory,
    BuildBundle,
    UploadBundle,
    CreateFunction,
    InvokeFunction,
    DeleteFunction,
    Finished,
}

/// The step that follows `step`. A step that fails ends the run, with one
/// exception: however the invocation went, the function is deleted after it,
/// unless it is to be preserved.
pub open spec fn step_after(step: RunStep, succeeded: bool, preserve_lambda: bool) -> RunStep {
    match step {
        RunStep::LocateRepository => if succeeded {
            RunStep::EnterCanaryDirectory
        } else {
            RunStep::Finished
        },
        RunStep::EnterCanaryDirectory => if succeeded {
            RunStep::BuildBundle
        } else {
            RunStep::Finished
        },
        RunStep::BuildBundle => if succeeded {
            RunStep::UploadBundle
        } else {
            RunStep::Finished
        },
        RunStep::UploadBundle => if succeeded {
            RunStep::CreateFunction
        } else {
            RunStep::Finished
        },
        RunStep::CreateFunction => if succeeded {
            RunStep::InvokeFunction
        } else {
            RunStep::Finished
        },
        RunStep::InvokeFunction => if preserve_lambda {
            RunStep::Finished
        } else {
            RunStep::DeleteFunction
        },
        RunStep::DeleteFunction => RunStep::Finished,
        RunStep::Finished => RunStep::Finished,
    }
}

/// Decides which step of the run comes next.
pub fn run_canary(step: RunStep, succeeded: bool, preserve_lambda: bool) -> (next: RunStep)
    ensures
        next == step_after(step, succeeded, preserve_lambda),
{
    match step {
        RunStep::LocateRepository => if succeeded {
            RunStep::EnterCanaryDirectory
        } else {
            RunStep::Finished
        },
        RunStep::EnterCanaryDirectory => if succeeded {
            RunStep::BuildBundle
        } else {
            RunStep::Finished
        },
        RunStep::BuildBundle => if succeeded {
            RunStep::UploadBundle
        } else {
            RunStep::Finished
        },
        RunStep::UploadBundle => if succeeded {
            RunStep::CreateFunction
        } else {
            RunStep::Finished
        },
        RunStep::CreateFunction => if succeeded {
            RunStep::InvokeFunction
        } else {
            RunStep::Finished
        },
        RunStep::InvokeFunction => if preserve_lambda {
            RunStep::Finished
        } else {
            RunStep::DeleteFunction
        },
        RunStep::DeleteFunction => RunStep::Finished,
        RunStep::Finished => RunStep::Finished,
    }
}

/// What a run that got as far as invoking the function comes to: a failed
/// deletion fails it; else it stands or falls with the invocation, and a run
/// that stands reports how long the invocation took.
pub fn canary_outcome<E>(
    invocation: Result<(), E>,
    invoke_time: Duration,
    deletion: Option<Result<(), E>>,
) -> (r: Result<Duration, E>)
    ensures
        r == (match deletion {
            Some(Err(e)) => Err::<Duration, E>(e),
            _ => match invocation {
                Ok(()) => Ok(invoke_time),
                Err(e) => Err(e),
            },
        }),
{
    match deletion {
        Some(Err(e)) => Err(e),
        _ => match invocation {
            Ok(()) => Ok(invoke_time),
            Err(e) => Err(e),
        },
    }
}

} // verus!
