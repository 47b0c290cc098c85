//! The values exchanged with the reporting service, and what is made of its
//! answers. Times are whole numbers of picoseconds.

use crate::text::{chars_of, find_in, occurs_at};
use vstd::prelude::*;

verus! {

/// The variables of the query for one run's report.
#[derive(Clone, Debug)]
pub struct FetchRunReportVars {
    pub owner: String,
    pub name: String,
    pub run_id: String,
}

/// The variables of the query for the latest finished run.
#[derive(Clone, Debug)]
pub struct GetLatestFinishedRunVars {
    pub owner: String,
    pub name: String,
}

#[derive(Clone, Copy, Debug, PartialEq, Eq, Structural)]
pub enum ReportConclusion {
    AcknowledgedFailure,
    Failure,
    MissingBaseRun,
    Success,
}

#[derive(Clone, Copy, Debug, PartialEq, Eq, Structural)]
pub enum RunStatus {
    Completed,
    Failure,
    Pending,
    Processing,
}

/// A benchmark as the service names it; `uri` is its identifier.
#[derive(Debug)]
pub struct FetchRunBenchmark {
    pub name: String,
    pub uri: String,
}

/// One timed result of a run.
#[derive(Debug)]
pub struct FetchRunBenchmarkResult {
    pub time_picos: u64,
    pub benchmark: FetchRunBenchmark,
}

/// The mathematical value of a result: its identifier and its time.
pub struct ResultView {
    pub uri: Seq<char>,
    pub time_picos: u64,
}

impl View for FetchRunBenchmarkResult {
    type V = ResultView;

    open spec fn view(&self) -> ResultView {
        ResultView { uri: self.benchmark.uri@, time_picos: self.time_picos }
    }
}

/// The values of a sequence of results.
pub open spec fn result_views(rs: Seq<FetchRunBenchmarkResult>) -> Seq<ResultView> {
    rs.map_values(|r: FetchRunBenchmarkResult| r@)
}

#[derive(Debug)]
pub struct FetchRunReportRun {
    pub id: String,
    pub status: RunStatus,
    pub url: String,
    pub results: Vec<FetchRunBenchmarkResult>,
}

#[derive(Debug)]
pub struct GetLatestFinishedRun {
    pub id: String,
    pub date: String,
    pub status: RunStatus,
}

#[derive(Debug)]
pub struct FetchRunReportResponse {
    pub run: FetchRunReportRun,
}

#[derive(Debug)]
pub struct GetLatestFinishedRunResponse {
    pub run: Option<GetLatestFinishedRun>,
}

/// Why a query did not succeed.
#[derive(Debug)]
pub struct QueryFailure {
    /// The failure in words.
    pub detail: String,
    /// The errors that the service sent, as text; empty where it sent none.
    pub errors: String,
}

/// The code by which the service refuses a credential.
pub open spec fn unauthenticated_code() -> Seq<char> {
    "UNAUTHENTICATED"@
}

/// Whether the errors of a failure name `code`.
pub open spec fn names_code(errors: Seq<char>, code: Seq<char>) -> bool {
    exists|i: int| occurs_at(errors, code, i)
}

impl QueryFailure {
    /// Whether the service refused the credential.
    pub open spec fn unauthenticated(&self) -> bool {
        names_code(self.errors@, unauthenticated_code())
    }

    /// Whether the service refused the credential: whether its errors name
    /// the code for that.
    pub fn is_unauthenticated(&self) -> (r: bool)
        ensures
            r == self.unauthenticated(),
    {
        let errors = chars_of(self.errors.as_str());
        let code = chars_of("UNAUTHENTICATED");
        find_in(&errors, &code, 0).is_some()
    }
}

/// What can go wrong on the way to a report.
#[derive(Debug)]
pub enum ApiError {
    /// The service refused the credential.
    SessionExpired,
    /// The report of a run could not be fetched.
    ReportFetchFailed(String),
    /// The latest finished run could not be fetched.
    LatestRunFetchFailed(String),
    /// The repository has no finished run.
    NoFinishedRun,
}

impl ApiError {
    /// The error in words.
    pub open spec fn message_spec(self) -> Seq<char> {
        match self {
            ApiError::SessionExpired => "Your session has expired, please login again using `codspeed auth login`"@,
            ApiError::ReportFetchFailed(detail) => "Failed to fetch local run report: "@ + detail@,
            ApiError::LatestRunFetchFailed(detail) => "Failed to get latest finished run: "@
                + detail@,
            ApiError::NoFinishedRun => "No finished runs found for this repository"@,
        }
    }

    /// The error in words, for the user.
    pub fn message(&self) -> (text: String)
        ensures
            text@ == self.message_spec(),
    {
        match self {
            ApiError::SessionExpired => "Your session has expired, please login again using `codspeed auth login`".to_owned(),
            ApiError::ReportFetchFailed(detail) => {
                let mut text = "Failed to fetch local run report: ".to_owned();
                text.append(detail.as_str());
                text
            },
            ApiError::LatestRunFetchFailed(detail) => {
                let mut text = "Failed to get latest finished run: ".to_owned();
                text.append(detail.as_str());
                text
            },
            ApiError::NoFinishedRun => "No finished runs found for this repository".to_owned(),
        }
    }
}

/// The repository whose runs are reported.
pub open spec fn repository_owner() -> Seq<char> {
    "AvalancheHQ"@
}

/// The name of that repository.
pub open spec fn repository_name() -> Seq<char> {
    "library-ufc-championship"@
}

/// The variables that ask for the latest finished run of the repository.
pub fn latest_run_request() -> (vars: GetLatestFinishedRunVars)
    ensures
        vars.owner@ == repository_owner(),
        vars.name@ == repository_name(),
{
    GetLatestFinishedRunVars {
        owner: "AvalancheHQ".to_owned(),
        name: "library-ufc-championship".to_owned(),
    }
}

/// The variables that ask for the report of run `run_id` of the repository.
pub fn report_request(run_id: String) -> (vars: FetchRunReportVars)
    ensures
        vars.owner@ == repository_owner(),
        vars.name@ == repository_name(),
        vars.run_id == run_id,
{
    FetchRunReportVars {
        owner: "AvalancheHQ".to_owned(),
        name: "library-ufc-championship".to_owned(),
        run_id,
    }
}

/// What becomes of the answer to the query for a report: the run, or the
/// error that the failure stands for.
pub fn report_response(outcome: Result<FetchRunReportRun, QueryFailure>) -> (r: Result<
    FetchRunReportResponse,
    ApiError,
>)
    ensures
        match outcome {
            Ok(run) => r == Ok::<FetchRunReportResponse, ApiError>(FetchRunReportResponse { run }),
            Err(failure) => if failure.unauthenticated() {
                r == Err::<FetchRunReportResponse, ApiError>(ApiError::SessionExpired)
            } else {
                r == Err::<FetchRunReportResponse, ApiError>(
                    ApiError::ReportFetchFailed(failure.detail),
                )
            },
        },
{
    match outcome {
        Ok(run) => Ok(FetchRunReportResponse { run }),
        Err(failure) => {
            if failure.is_unauthenticated() {
                Err(ApiError::SessionExpired)
            } else {
                Err(ApiError::ReportFetchFailed(failure.detail))
            }
        },
    }
}

/// What becomes of the answer to the query for the latest finished run: the
/// first of the runs listed, none where the list is empty, or the error that
/// the failure stands for.
pub fn latest_run_response(outcome: Result<Vec<GetLatestFinishedRun>, QueryFailure>) -> (r: Result<
    GetLatestFinishedRunResponse,
    ApiError,
>)
    ensures
        match outcome {
            Ok(runs) => r == Ok::<GetLatestFinishedRunResponse, ApiError>(
                GetLatestFinishedRunResponse {
                    run: if runs.len() > 0 {
                        Some(runs[0])
                    } else {
                        None
                    },
                },
            ),
            Err(failure) => if failure.unauthenticated() {
                r == Err::<GetLatestFinishedRunResponse, ApiError>(ApiError::SessionExpired)
            } else {
                r == Err::<GetLatestFinishedRunResponse, ApiError>(
                    ApiError::LatestRunFetchFailed(failure.detail),
                )
            },
        },
{
    match outcome {
        Ok(runs) => {
            let mut runs = runs;
            if runs.len() > 0 {
                let first = runs.remove(0);
                Ok(GetLatestFinishedRunResponse { run: Some(first) })
            } else {
                Ok(GetLatestFinishedRunResponse { run: None })
            }
        },
        Err(failure) => {
            if failure.is_unauthenticated() {
                Err(ApiError::SessionExpired)
            } else {
                Err(ApiError::LatestRunFetchFailed(failure.detail))
            }
        },
    }
}

/// The id of the latest finished run, or the error that there is none.
pub fn latest_run_id(response: GetLatestFinishedRunResponse) -> (r: Result<String, ApiError>)
    ensures
        match response.run {
            Some(run) => r == Ok::<String, ApiError>(run.id),
            None => r == Err::<String, ApiError>(ApiError::NoFinishedRun),
        },
{
    match response.run {
        Some(run) => Ok(run.id),
        None => Err(ApiError::NoFinishedRun),
    }
}

/// How the client of the reporting service is set up.
#[derive(Debug)]
pub struct ClientSettings {
    pub endpoint: String,
    pub timeout_seconds: u64,
    /// The value of the `Authorization` header.
    pub authorization: String,
}

/// The address of the reporting service.
pub open spec fn service_endpoint() -> Seq<char> {
    "https://gql.codspeed.io/"@
}

/// The settings of a client that presents `token`.
pub fn client_settings(token: String) -> (settings: ClientSettings)
    ensures
        settings.endpoint@ == service_endpoint(),
        settings.timeout_seconds == 10,
        settings.authorization == token,
{
    ClientSettings {
        endpoint: "https://gql.codspeed.io/".to_owned(),
        timeout_seconds: 10,
        authorization: token,
    }
}

} // verus!
