//! Reports: the rows that describe them, the JSON documents that hold their
//! statistics, and the answers and errors of the report endpoints.
//!
//! Report ids are the 128-bit values of their UUIDs; times are
//! [`Timestamp`]s, to the nanosecond; statistics are the bit patterns of `f64` values.
use vstd::prelude::*;
use crate::collections::NamedMap;
use crate::time::Timestamp;
use crate::report_file::{resolve_stored_file_path, resolved_path};
use crate::status::{opt_view, Server};
use crate::text::{trim, trimmed};

verus! {

/// HTTP status 200.
pub const STATUS_OK: u16 = 200;

/// HTTP status 201.
pub const STATUS_CREATED: u16 = 201;

/// HTTP status 204.
pub const STATUS_NO_CONTENT: u16 = 204;

/// HTTP status 400.
pub const STATUS_BAD_REQUEST: u16 = 400;

/// HTTP status 404.
pub const STATUS_NOT_FOUND: u16 = 404;

/// HTTP status 500.
pub const STATUS_INTERNAL_SERVER_ERROR: u16 = 500;

/// HTTP status 503.
pub const STATUS_SERVICE_UNAVAILABLE: u16 = 503;

/// An error answer of the REST API: a status code and a message.
#[derive(Debug)]
pub struct ApiError {
    pub status: u16,
    pub error: String,
}

/// The JSON body of an error answer.
#[derive(Debug)]
pub struct ErrorResponse {
    pub error: String,
}

impl ApiError {
    /// The status code and the JSON body of this error.
    pub fn into_response(self) -> (r: (u16, ErrorResponse))
        ensures
            r.0 == self.status,
            r.1.error@ == self.error@,
    {
        (self.status, ErrorResponse { error: self.error })
    }

    /// An error with this status and message.
    pub fn new(status: u16, error: String) -> (e: ApiError)
        ensures
            e.status == status,
            e.error@ == error@,
    {
        ApiError { status, error }
    }
}

/// The message of the answer given while the database is down.
pub open spec fn db_unavailable_text() -> Seq<char> {
    "Database is temporarily unavailable. Service is running in degraded mode."@
}

/// The answer given while the database is down: 503.
pub fn db_unavailable_response() -> (e: ApiError)
    ensures
        e.status == STATUS_SERVICE_UNAVAILABLE,
        e.error@ == db_unavailable_text(),
{
    ApiError {
        status: STATUS_SERVICE_UNAVAILABLE,
        error: String::from_str(
            "Database is temporarily unavailable. Service is running in degraded mode.",
        ),
    }
}

/// The endpoints that need the database answer 503 while it is down.
pub fn ensure_db_available(db_connected: bool) -> (r: Option<ApiError>)
    ensures
        r is None <==> db_connected,
        r matches Some(e) ==> e.status == STATUS_SERVICE_UNAVAILABLE && e.error@
            == db_unavailable_text(),
{
    if !db_connected {
        return Some(db_unavailable_response());
    }
    None
}

/// The row of a report.
#[derive(Debug, Clone)]
pub struct Report {
    pub id: u128,
    pub server_id: i64,
    pub period_start: Timestamp,
    pub period_end: Timestamp,
    pub created_at: Option<Timestamp>,
    pub file_path: Option<String>,
}

/// A request to build a report.
#[derive(Debug, Clone, Copy, PartialEq, Eq, Structural)]
pub struct CreateReport {
    pub server_id: i64,
    pub period_start: Timestamp,
    pub period_end: Timestamp,
}

/// A request to change a report; absent fields stay as they are.
#[derive(Debug, Clone)]
pub struct UpdateReport {
    pub server_id: Option<i64>,
    pub period_start: Option<Timestamp>,
    pub period_end: Option<Timestamp>,
    pub file_path: Option<String>,
}

/// The statistics of one metric over a period, as the database computes them.
#[derive(Debug, Clone)]
pub struct MetricAggregate {
    pub metric_name: String,
    pub avg_bits: u64,
    pub min_bits: u64,
    pub min_at: Timestamp,
    pub max_bits: u64,
    pub max_at: Timestamp,
    pub count: i64,
}

/// The statistics of one metric in a report.
#[derive(Debug, Clone, Copy, PartialEq, Eq, Structural)]
pub struct ReportMetricStats {
    pub avg_bits: u64,
    pub min_bits: u64,
    pub min_at: Timestamp,
    pub max_bits: u64,
    pub max_at: Timestamp,
    pub count: i64,
}

/// The server a report is about.
#[derive(Debug, Clone)]
pub struct ReportServer {
    pub host: String,
    pub port: String,
}

/// The period a report covers.
#[derive(Debug, Clone, Copy, PartialEq, Eq, Structural)]
pub struct ReportPeriod {
    pub start: Timestamp,
    pub end: Timestamp,
}

/// The JSON document of a report.
#[derive(Debug)]
pub struct ReportFile {
    pub server: ReportServer,
    pub period: ReportPeriod,
    pub metrics: NamedMap<ReportMetricStats>,
}

/// A report in the list of reports.
#[derive(Debug, Clone, Copy, PartialEq, Eq, Structural)]
pub struct ReportSummaryResponse {
    pub id: u128,
    pub server_id: i64,
    pub period_start: Timestamp,
    pub period_end: Timestamp,
    pub created_at: Option<Timestamp>,
}

/// A report with its statistics.
#[derive(Debug)]
pub struct ReportResponse {
    pub id: u128,
    pub server_id: i64,
    pub server: ReportServer,
    pub period: ReportPeriod,
    pub metrics: NamedMap<ReportMetricStats>,
    pub created_at: Option<Timestamp>,
}

/// The statistics a report would have, before it is stored.
#[derive(Debug)]
pub struct ReportPreviewResponse {
    pub server_id: i64,
    pub server: ReportServer,
    pub period: ReportPeriod,
    pub metrics: NamedMap<ReportMetricStats>,
}

/// The list entry of a report row.
pub open spec fn summary_of(r: Report) -> ReportSummaryResponse {
    ReportSummaryResponse {
        id: r.id,
        server_id: r.server_id,
        period_start: r.period_start,
        period_end: r.period_end,
        created_at: r.created_at,
    }
}

/// The list of reports, in the order of the rows.
pub fn summarize_reports(reports: &Vec<Report>) -> (list: Vec<ReportSummaryResponse>)
    ensures
        list@.len() == reports@.len(),
        forall|i: int| 0 <= i < reports@.len() ==> #[trigger] list@[i] == summary_of(reports@[i]),
{
    let mut list: Vec<ReportSummaryResponse> = Vec::new();
    let n = reports.len();
    let mut i: usize = 0;
    while i < n
        invariant
            n == reports@.len(),
            i <= n,
            list@.len() == i,
            forall|j: int| 0 <= j < i ==> #[trigger] list@[j] == summary_of(reports@[j]),
        decreases n - i,
    {
        let r = &reports[i];
        list.push(
            ReportSummaryResponse {
                id: r.id,
                server_id: r.server_id,
                period_start: r.period_start,
                period_end: r.period_end,
                created_at: r.created_at,
            },
        );
        i = i + 1;
    }
    list
}

/// Text of an error that carries a database message.
pub open spec fn with_detail(prefix: Seq<char>, detail: Seq<char>) -> Seq<char> {
    prefix + detail
}

fn error_with_detail(status: u16, prefix: &str, detail: &str) -> (e: ApiError)
    ensures
        e.status == status,
        e.error@ == prefix@ + detail@,
{
    ApiError { status, error: String::from_str(prefix).concat(detail) }
}

/// The server a report is to be built for, from looking it up by id: 404 when
/// it does not exist, 500 with the database's message when the lookup failed.
pub fn server_for_report(lookup: Result<Option<Server>, String>) -> (r: Result<Server, ApiError>)
    ensures
        match lookup {
            Ok(Some(s)) => r == Ok::<Server, ApiError>(s),
            Ok(None) => r matches Err(e) && e.status == STATUS_NOT_FOUND && e.error@
                == "Server not found"@,
            Err(msg) => r matches Err(e) && e.status == STATUS_INTERNAL_SERVER_ERROR && e.error@
                == msg@,
        },
{
    match lookup {
        Ok(Some(s)) => Ok(s),
        Ok(None) => Err(ApiError { status: STATUS_NOT_FOUND, error: String::from_str("Server not found") }),
        Err(msg) => Err(ApiError { status: STATUS_INTERNAL_SERVER_ERROR, error: msg }),
    }
}

/// The statistics of one aggregate.
pub open spec fn stats_of(a: MetricAggregate) -> ReportMetricStats {
    ReportMetricStats {
        avg_bits: a.avg_bits,
        min_bits: a.min_bits,
        min_at: a.min_at,
        max_bits: a.max_bits,
        max_at: a.max_at,
        count: a.count,
    }
}

/// The statistics by metric name that aggregates give; a later aggregate of
/// the same name wins.
pub open spec fn stats_by_name(aggregates: Seq<MetricAggregate>) -> Map<Seq<char>, ReportMetricStats>
    decreases aggregates.len(),
{
    if aggregates.len() == 0 {
        Map::empty()
    } else {
        stats_by_name(aggregates.drop_last()).insert(
            aggregates.last().metric_name@,
            stats_of(aggregates.last()),
        )
    }
}

/// `aggregates[i]` is the last aggregate with its metric name.
pub open spec fn last_with_name(aggregates: Seq<MetricAggregate>, i: int) -> bool {
    &&& 0 <= i < aggregates.len()
    &&& forall|j: int|
        i < j < aggregates.len() ==> #[trigger] aggregates[j].metric_name@
            != aggregates[i].metric_name@
}

/// The statistics of a metric copy, field by field, the last aggregate with
/// that metric's name: its average, its minimum and when it was reached, its
/// maximum and when it was reached, and its count.
pub proof fn lemma_stats_copy_last_aggregate(aggregates: Seq<MetricAggregate>, i: int)
    requires
        last_with_name(aggregates, i),
    ensures
        stats_by_name(aggregates).contains_key(aggregates[i].metric_name@),
        stats_by_name(aggregates)[aggregates[i].metric_name@].avg_bits == aggregates[i].avg_bits,
        stats_by_name(aggregates)[aggregates[i].metric_name@].min_bits == aggregates[i].min_bits,
        stats_by_name(aggregates)[aggregates[i].metric_name@].min_at == aggregates[i].min_at,
        stats_by_name(aggregates)[aggregates[i].metric_name@].max_bits == aggregates[i].max_bits,
        stats_by_name(aggregates)[aggregates[i].metric_name@].max_at == aggregates[i].max_at,
        stats_by_name(aggregates)[aggregates[i].metric_name@].count == aggregates[i].count,
    decreases aggregates.len(),
{
    let last = aggregates.len() - 1;
    if i < last {
        let rest = aggregates.drop_last();
        assert forall|j: int| i < j < rest.len() implies #[trigger] rest[j].metric_name@
            != rest[i].metric_name@ by {
            assert(rest[j] == aggregates[j]);
        }
        assert(aggregates[last].metric_name@ != aggregates[i].metric_name@);
        lemma_stats_copy_last_aggregate(rest, i);
    }
}

/// A report has statistics for a metric name exactly when some aggregate has
/// that name.
pub proof fn lemma_stats_names(aggregates: Seq<MetricAggregate>, name: Seq<char>)
    ensures
        stats_by_name(aggregates).contains_key(name) <==> exists|i: int|
            0 <= i < aggregates.len() && #[trigger] aggregates[i].metric_name@ == name,
    decreases aggregates.len(),
{
    if aggregates.len() > 0 {
        let rest = aggregates.drop_last();
        lemma_stats_names(rest, name);
        if exists|i: int| 0 <= i < rest.len() && #[trigger] rest[i].metric_name@ == name {
            let i = choose|i: int| 0 <= i < rest.len() && #[trigger] rest[i].metric_name@ == name;
            assert(aggregates[i] == rest[i]);
        }
        if exists|i: int| 0 <= i < aggregates.len() && #[trigger] aggregates[i].metric_name@
            == name {
            let i = choose|i: int|
                0 <= i < aggregates.len() && #[trigger] aggregates[i].metric_name@ == name;
            if i < aggregates.len() - 1 {
                assert(rest[i] == aggregates[i]);
            }
        }
    }
}

/// The statistics by metric name of a report, from the aggregates of its
/// period.
pub fn report_metrics(aggregates: &Vec<MetricAggregate>) -> (m: NamedMap<ReportMetricStats>)
    ensures
        m.map() == stats_by_name(aggregates@),
        forall|name: Seq<char>|
            #![trigger m.map().contains_key(name)]
            m.map().contains_key(name) <==> exists|i: int|
                0 <= i < aggregates@.len() && #[trigger] aggregates@[i].metric_name@ == name,
        forall|i: int|
            #[trigger] last_with_name(aggregates@, i) ==> {
                let s = m.map()[aggregates@[i].metric_name@];
                &&& m.map().contains_key(aggregates@[i].metric_name@)
                &&& s.avg_bits == aggregates@[i].avg_bits
                &&& s.min_bits == aggregates@[i].min_bits
                &&& s.min_at == aggregates@[i].min_at
                &&& s.max_bits == aggregates@[i].max_bits
                &&& s.max_at == aggregates@[i].max_at
                &&& s.count == aggregates@[i].count
            },
{
    let mut m: NamedMap<ReportMetricStats> = NamedMap::new();
    let n = aggregates.len();
    let mut i: usize = 0;
    while i < n
        invariant
            n == aggregates@.len(),
            i <= n,
            m.map() == stats_by_name(aggregates@.subrange(0, i as int)),
        decreases n - i,
    {
        let a = &aggregates[i];
        m.insert(
            a.metric_name.clone(),
            ReportMetricStats {
                avg_bits: a.avg_bits,
                min_bits: a.min_bits,
                min_at: a.min_at,
                max_bits: a.max_bits,
                max_at: a.max_at,
                count: a.count,
            },
        );
        proof {
            assert(aggregates@.subrange(0, i + 1).drop_last() =~= aggregates@.subrange(0, i as int));
        }
        i = i + 1;
    }
    assert(aggregates@.subrange(0, n as int) =~= aggregates@);
    proof {
        assert forall|i: int| #[trigger] last_with_name(aggregates@, i) implies {
            let s = m.map()[aggregates@[i].metric_name@];
            &&& m.map().contains_key(aggregates@[i].metric_name@)
            &&& s.avg_bits == aggregates@[i].avg_bits
            &&& s.min_bits == aggregates@[i].min_bits
            &&& s.min_at == aggregates@[i].min_at
            &&& s.max_bits == aggregates@[i].max_bits
            &&& s.max_at == aggregates@[i].max_at
            &&& s.count == aggregates@[i].count
        } by {
            lemma_stats_copy_last_aggregate(aggregates@, i);
        }
        assert forall|name: Seq<char>| #[trigger] m.map().contains_key(name) <==> exists|i: int|
            0 <= i < aggregates@.len() && #[trigger] aggregates@[i].metric_name@ == name by {
            lemma_stats_names(aggregates@, name);
        }
    }
    m
}

/// The server part of a report: the server's host and port.
pub fn report_server(server: &Server) -> (s: ReportServer)
    ensures
        s.host@ == server.host@,
        s.port@ == server.port@,
{
    ReportServer { host: server.host.clone(), port: server.port.clone() }
}

/// The document of a report built for `payload` on `server`.
pub fn new_report_file(payload: &CreateReport, server: &Server, metrics: NamedMap<
    ReportMetricStats,
>) -> (f: ReportFile)
    ensures
        f.server.host@ == server.host@,
        f.server.port@ == server.port@,
        f.period == (ReportPeriod { start: payload.period_start, end: payload.period_end }),
        f.metrics.map() == metrics.map(),
{
    ReportFile {
        server: report_server(server),
        period: ReportPeriod { start: payload.period_start, end: payload.period_end },
        metrics,
    }
}

/// The preview of a report built for `payload` on `server`.
pub fn preview_response(
    payload: &CreateReport,
    server: &Server,
    metrics: NamedMap<ReportMetricStats>,
) -> (p: ReportPreviewResponse)
    ensures
        p.server_id == payload.server_id,
        p.server.host@ == server.host@,
        p.server.port@ == server.port@,
        p.period == (ReportPeriod { start: payload.period_start, end: payload.period_end }),
        p.metrics.map() == metrics.map(),
{
    ReportPreviewResponse {
        server_id: payload.server_id,
        server: report_server(server),
        period: ReportPeriod { start: payload.period_start, end: payload.period_end },
        metrics,
    }
}

/// A report answer: the row's id, server id and creation time, with the
/// server, period and statistics of its document.
pub fn report_response(report: &Report, file: ReportFile) -> (r: ReportResponse)
    ensures
        r.id == report.id,
        r.server_id == report.server_id,
        r.created_at == report.created_at,
        r.server.host@ == file.server.host@,
        r.server.port@ == file.server.port@,
        r.period == file.period,
        r.metrics.map() == file.metrics.map(),
{
    ReportResponse {
        id: report.id,
        server_id: report.server_id,
        server: file.server,
        period: file.period,
        metrics: file.metrics,
        created_at: report.created_at,
    }
}

/// A report row from looking it up by id: 404 when there is none, and the
/// given status with the database's message when the lookup failed.
pub fn found_report(lookup: Result<Option<Report>, String>, db_error_status: u16) -> (r: Result<
    Report,
    ApiError,
>)
    ensures
        match lookup {
            Ok(Some(rep)) => r == Ok::<Report, ApiError>(rep),
            Ok(None) => r matches Err(e) && e.status == STATUS_NOT_FOUND && e.error@
                == "Report not found"@,
            Err(msg) => r matches Err(e) && e.status == db_error_status && e.error@ == msg@,
        },
{
    match lookup {
        Ok(Some(rep)) => Ok(rep),
        Ok(None) => Err(ApiError { status: STATUS_NOT_FOUND, error: String::from_str("Report not found") }),
        Err(msg) => Err(ApiError { status: db_error_status, error: msg }),
    }
}

/// The stored path of a report, when it is set and not blank.
pub open spec fn stored_path(file_path: Option<String>) -> Option<Seq<char>> {
    match file_path {
        Some(p) => if trimmed(p@).len() > 0 {
            Some(trimmed(p@))
        } else {
            None
        },
        None => None,
    }
}

/// The message of the answer for a report row without a file path.
pub open spec fn missing_path_text() -> Seq<char> {
    "Report file path is missing in database."@
}

/// The file of a report's document: 500 when the row holds no path (or a
/// blank one), else the stored path resolved against `reports_dir`.
pub fn report_path_from_db(reports_dir: &str, report: &Report) -> (r: Result<String, ApiError>)
    ensures
        match stored_path(report.file_path) {
            Some(p) => r matches Ok(path) && path@ == resolved_path(reports_dir@, p),
            None => r matches Err(e) && e.status == STATUS_INTERNAL_SERVER_ERROR && e.error@
                == missing_path_text(),
        },
{
    let missing = ApiError {
        status: STATUS_INTERNAL_SERVER_ERROR,
        error: String::from_str("Report file path is missing in database."),
    };
    match &report.file_path {
        Some(p) => {
            let t = trim(p.as_str());
            if t.is_empty() {
                Err(missing)
            } else {
                Ok(resolve_stored_file_path(reports_dir, t))
            }
        },
        None => Err(missing),
    }
}

/// The file to remove with a report: its resolved path, when the row holds a
/// path that is not blank.
pub fn delete_target(reports_dir: &str, report: &Report) -> (r: Option<String>)
    ensures
        match report.file_path {
            Some(p) => if trimmed(p@).len() > 0 {
                r matches Some(path) && path@ == resolved_path(reports_dir@, p@)
            } else {
                r is None
            },
            None => r is None,
        },
{
    match &report.file_path {
        Some(p) => {
            let t = trim(p.as_str());
            if t.is_empty() {
                None
            } else {
                Some(resolve_stored_file_path(reports_dir, p.as_str()))
            }
        },
        None => None,
    }
}

/// The step of file handling that failed.
#[derive(Debug, Clone, Copy, PartialEq, Eq, Structural)]
pub enum FileStep {
    CreateDirectory,
    Serialize,
    Write,
    Read,
    Parse,
    Delete,
}

impl FileStep {
    /// The start of the message for a failure of this step.
    pub open spec fn prefix(self) -> Seq<char> {
        match self {
            FileStep::CreateDirectory => "Failed to create reports directory: "@,
            FileStep::Serialize => "Failed to serialize report: "@,
            FileStep::Write => "Failed to write report file: "@,
            FileStep::Read => "Failed to read report file: "@,
            FileStep::Parse => "Failed to parse report file: "@,
            FileStep::Delete => "Failed to delete report file: "@,
        }
    }
}

/// The answer for a failed file step: 500, the step's message and the
/// failure's own message.
pub fn file_error(step: FileStep, detail: &str) -> (e: ApiError)
    ensures
        e.status == STATUS_INTERNAL_SERVER_ERROR,
        e.error@ == step.prefix() + detail@,
{
    let prefix = match step {
        FileStep::CreateDirectory => "Failed to create reports directory: ",
        FileStep::Serialize => "Failed to serialize report: ",
        FileStep::Write => "Failed to write report file: ",
        FileStep::Read => "Failed to read report file: ",
        FileStep::Parse => "Failed to parse report file: ",
        FileStep::Delete => "Failed to delete report file: ",
    };
    error_with_detail(STATUS_INTERNAL_SERVER_ERROR, prefix, detail)
}

/// The answer when a report's document cannot be read: 404 when the file does
/// not exist, else 500 with the failure's message.
pub fn read_error(not_found: bool, detail: &str) -> (e: ApiError)
    ensures
        not_found ==> e.status == STATUS_NOT_FOUND && e.error@ == "Report file not found."@,
        !not_found ==> e.status == STATUS_INTERNAL_SERVER_ERROR && e.error@ == FileStep::Read.prefix()
            + detail@,
{
    if not_found {
        ApiError { status: STATUS_NOT_FOUND, error: String::from_str("Report file not found.") }
    } else {
        file_error(FileStep::Read, detail)
    }
}

/// Whether removing a report's file failed in a way that stops the deletion:
/// a file that is already gone does not.
pub fn delete_file_error(not_found: bool, detail: &str) -> (r: Option<ApiError>)
    ensures
        not_found ==> r is None,
        !not_found ==> (r matches Some(e) && e.status == STATUS_INTERNAL_SERVER_ERROR && e.error@
            == FileStep::Delete.prefix() + detail@),
{
    if not_found {
        None
    } else {
        Some(file_error(FileStep::Delete, detail))
    }
}

/// The answer to a deletion from the database's outcome: 204 when a row was
/// deleted, 404 when none was, 500 with the message when it failed.
pub fn delete_outcome(deleted: Result<bool, String>) -> (r: Result<u16, ApiError>)
    ensures
        match deleted {
            Ok(true) => r == Ok::<u16, ApiError>(STATUS_NO_CONTENT),
            Ok(false) => r matches Err(e) && e.status == STATUS_NOT_FOUND && e.error@
                == "Report not found"@,
            Err(msg) => r matches Err(e) && e.status == STATUS_INTERNAL_SERVER_ERROR && e.error@
                == msg@,
        },
{
    match deleted {
        Ok(true) => Ok(STATUS_NO_CONTENT),
        Ok(false) => Err(ApiError { status: STATUS_NOT_FOUND, error: String::from_str("Report not found") }),
        Err(msg) => Err(ApiError { status: STATUS_INTERNAL_SERVER_ERROR, error: msg }),
    }
}

/// The value of an optional field, or the fallback.
pub open spec fn or_else<T>(o: Option<T>, fallback: T) -> T {
    match o {
        Some(v) => v,
        None => fallback,
    }
}

/// The build request for an updated report: each field of the update, or
/// the report's own where the update leaves it out.
pub open spec fn merged_payload(u: UpdateReport, current: Report) -> CreateReport {
    CreateReport {
        server_id: or_else(u.server_id, current.server_id),
        period_start: or_else(u.period_start, current.period_start),
        period_end: or_else(u.period_end, current.period_end),
    }
}

/// The build request for an updated report.
pub fn next_payload(u: &UpdateReport, current: &Report) -> (p: CreateReport)
    ensures
        p == merged_payload(*u, *current),
{
    CreateReport {
        server_id: match u.server_id {
            Some(v) => v,
            None => current.server_id,
        },
        period_start: match u.period_start {
            Some(v) => v,
            None => current.period_start,
        },
        period_end: match u.period_end {
            Some(v) => v,
            None => current.period_end,
        },
    }
}

/// The file path stored by an update: the update's, else the report's, else
/// the empty text.
pub open spec fn merged_file_path(u: UpdateReport, current: Report) -> Seq<char> {
    match u.file_path {
        Some(p) => p@,
        None => match current.file_path {
            Some(p) => p@,
            None => Seq::empty(),
        },
    }
}

/// The values an update writes to a report row: server id, period start,
/// period end and file path.
pub fn merged_update(current: &Report, u: &UpdateReport) -> (r: (i64, Timestamp, Timestamp, String))
    ensures
        r.0 == or_else(u.server_id, current.server_id),
        r.1 == or_else(u.period_start, current.period_start),
        r.2 == or_else(u.period_end, current.period_end),
        r.3@ == merged_file_path(*u, *current),
{
    let p = next_payload(u, current);
    let file_path = match &u.file_path {
        Some(f) => f.clone(),
        None => match &current.file_path {
            Some(f) => f.clone(),
            None => String::new(),
        },
    };
    (p.server_id, p.period_start, p.period_end, file_path)
}

/// The row whose document an update rewrites: the current one, moved to the
/// update's file path when it gives one.
pub fn update_target(current: &Report, u: &UpdateReport) -> (t: Report)
    ensures
        t.id == current.id,
        t.server_id == current.server_id,
        t.period_start == current.period_start,
        t.period_end == current.period_end,
        t.created_at == current.created_at,
        opt_view(t.file_path) == match u.file_path {
            Some(p) => Some(p@),
            None => opt_view(current.file_path),
        },
{
    let file_path = match &u.file_path {
        Some(f) => Some(f.clone()),
        None => crate::status::copy_opt_string(&current.file_path),
    };
    Report {
        id: current.id,
        server_id: current.server_id,
        period_start: current.period_start,
        period_end: current.period_end,
        created_at: current.created_at,
        file_path,
    }
}

/// An update that sets every field writes exactly those values; one that sets
/// none keeps the row's values (a row without a file path gets an empty one).
pub proof fn lemma_update_merge(u: UpdateReport, current: Report)
    ensures
        u.server_id is Some ==> merged_payload(u, current).server_id == u.server_id->0,
        u.server_id is None ==> merged_payload(u, current).server_id == current.server_id,
        u.period_start is Some ==> merged_payload(u, current).period_start == u.period_start->0,
        u.period_start is None ==> merged_payload(u, current).period_start
            == current.period_start,
        u.period_end is Some ==> merged_payload(u, current).period_end == u.period_end->0,
        u.period_end is None ==> merged_payload(u, current).period_end == current.period_end,
        u.file_path is None && current.file_path is Some ==> merged_file_path(u, current)
            == current.file_path->0@,
        u.file_path is Some ==> merged_file_path(u, current) == u.file_path->0@,
{
}

} // verus!
