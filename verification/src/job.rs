//! Print jobs claimed from the queue: which one is printed, by which route,
//! and what is reported back when it is done.

use vstd::prelude::*;
use base64::Engine;
use crate::text::{decimal, decimal_text, contains_text, occurs_in};
use crate::http_status::{status_line, status_text};
use crate::printer::text_result;

verus! {

/// A job as the claim reply gives it. A text field is `Some` when the job
/// holds that field as a JSON string, and `None` when it is missing or holds
/// another kind of value.
pub struct PrintJob {
    pub id: Option<String>,
    pub printer_ip: Option<String>,
    pub printer_type: Option<String>,
    pub payload_base64: Option<String>,
    /// Whether the job holds an `http_url` field at all, whatever its value.
    pub has_http_url: bool,
    pub http_url: Option<String>,
    pub http_method: Option<String>,
    /// The entries of `http_headers` when it is a JSON object, in order; an
    /// entry's value is `Some` when it is a JSON string.
    pub http_headers: Vec<(String, Option<String>)>,
    pub http_body: Option<String>,
}

/// The text of an optional field, or `default` where it is absent.
pub open spec fn text_or(field: Option<String>, default: Seq<char>) -> Seq<char> {
    match field {
        Some(s) => s@,
        None => default,
    }
}

fn take_text_or(field: Option<String>, default: &str) -> (r: String)
    ensures
        r@ == text_or(field, default@),
{
    match field {
        Some(s) => s,
        None => String::from_str(default),
    }
}

/// How a job reaches its printer.
pub enum PrintRoute {
    /// Raw bytes, given in base64, sent over TCP to `host:port`.
    Tcp { host: String, port: u16, payload_base64: String },
    /// An HTTP request to the printer's own endpoint.
    Http {
        url: String,
        method: String,
        headers: Vec<(String, Option<String>)>,
        body: String,
    },
}

/// A claimed job that is to be printed.
pub struct PlannedJob {
    pub job_id: String,
    pub route: PrintRoute,
}

/// Whether a job goes over raw TCP: generic printers, and any job without an
/// `http_url` field.
pub open spec fn uses_tcp(job: PrintJob) -> bool {
    text_or(job.printer_type, "generic"@) == "generic"@ || !job.has_http_url
}

/// Whether `plan` is what the relay does with `job`.
pub open spec fn plans_job(job: PrintJob, plan: PlannedJob) -> bool {
    &&& plan.job_id@ == text_or(job.id, Seq::empty())
    &&& if uses_tcp(job) {
        plan.route matches PrintRoute::Tcp { host, port, payload_base64 } && host@ == text_or(
            job.printer_ip,
            Seq::empty(),
        ) && port == 9100 && payload_base64@ == text_or(job.payload_base64, Seq::empty())
    } else {
        plan.route matches PrintRoute::Http { url, method, headers, body } && url@ == text_or(
            job.http_url,
            Seq::empty(),
        ) && method@ == text_or(job.http_method, "POST"@) && headers.deep_view()
            == job.http_headers.deep_view() && body@ == text_or(job.http_body, Seq::empty())
    }
}

/// A job for a generic printer (or one that names no printer type) is
/// printed over raw TCP to its `printer_ip` on port 9100 with its payload,
/// whatever it holds under `http_url`.
pub proof fn lemma_generic_jobs_print_over_tcp(job: PrintJob, plan: PlannedJob)
    requires
        plans_job(job, plan),
        job.printer_type is None || (job.printer_type matches Some(t) && t@ == "generic"@),
    ensures
        plan.route matches PrintRoute::Tcp { host, port, payload_base64 } && port == 9100 && (
        job.printer_ip matches Some(ip) ==> host@ == ip@) && (job.printer_ip is None ==> host@.len()
            == 0) && (job.payload_base64 matches Some(p) ==> payload_base64@ == p@),
{
    reveal_strlit("");
}

/// A job of another printer type is printed over HTTP exactly when it has an
/// `http_url` field; without one it too goes over raw TCP.
pub proof fn lemma_typed_jobs_route_by_url_field(job: PrintJob, plan: PlannedJob)
    requires
        plans_job(job, plan),
        job.printer_type matches Some(t) && t@ != "generic"@,
    ensures
        job.has_http_url ==> (plan.route matches PrintRoute::Http { url, method, headers, body } && (
        job.http_url matches Some(u) ==> url@ == u@) && (job.http_method matches Some(m)
            ==> method@ == m@) && headers.deep_view() == job.http_headers.deep_view()),
        !job.has_http_url ==> plan.route is Tcp,
{
}

/// Picks the job to print from a claim reply: the first job, provided it has
/// a non-empty id. A job with an empty or missing id is never printed.
pub fn plan_job(jobs: Vec<PrintJob>) -> (r: Option<PlannedJob>)
    ensures
        r is None <==> (jobs@.len() == 0 || text_or(jobs@[0].id, Seq::empty()).len() == 0),
        r matches Some(plan) ==> plans_job(jobs@[0], plan),
{
    let mut jobs = jobs;
    if jobs.len() == 0 {
        return None;
    }
    let ghost first = jobs@[0];
    let job = jobs.remove(0);
    proof {
        reveal_strlit("");
        assert(job == first);
    }
    let job_id = take_text_or(job.id, "");
    let printer_ip = take_text_or(job.printer_ip, "");
    let printer_type = take_text_or(job.printer_type, "generic");
    let payload = take_text_or(job.payload_base64, "");
    if job_id.unicode_len() == 0 {
        return None;
    }
    let generic = crate::text::same_text(printer_type.as_str(), "generic");
    if generic || !job.has_http_url {
        assert(uses_tcp(first));
        assert(printer_ip@ == text_or(first.printer_ip, Seq::empty()));
        assert(payload@ == text_or(first.payload_base64, Seq::empty()));
        let plan = PlannedJob {
            job_id,
            route: PrintRoute::Tcp { host: printer_ip, port: 9100, payload_base64: payload },
        };
        assert(plans_job(first, plan));
        Some(plan)
    } else {
        assert(!uses_tcp(first));
        let url = take_text_or(job.http_url, "");
        let method = take_text_or(job.http_method, "POST");
        let body = take_text_or(job.http_body, "");
        assert(url@ == text_or(first.http_url, Seq::empty()));
        assert(method@ == text_or(first.http_method, "POST"@));
        assert(body@ == text_or(first.http_body, Seq::empty()));
        let plan = PlannedJob {
            job_id,
            route: PrintRoute::Http { url, method, headers: job.http_headers, body },
        };
        assert(plans_job(first, plan));
        Some(plan)
    }
}

/// A refused claim means an empty queue exactly when its reply is empty or
/// says "no rows", whatever the status code; any other reply is an error
/// that names the reply.
pub proof fn lemma_refused_claim_no_job_only_on_no_rows(code: u16, body: Seq<char>)
    ensures
        (occurs_in(body, "no rows"@) || body.len() == 0) ==> refused_claim_verdict(code, body)
            == Ok::<bool, Seq<char>>(false),
        (!occurs_in(body, "no rows"@) && body.len() > 0) ==> (refused_claim_verdict(code, body)
            matches Err(msg) && body.is_suffix_of(msg)),
{
    if !occurs_in(body, "no rows"@) && body.len() > 0 {
        let msg = refused_claim_verdict(code, body)->Err_0;
        assert(msg.subrange(msg.len() - body.len(), msg.len() as int) =~= body);
    }
}

/// What a claim that the queue refused is answered: an empty reply or one
/// that says "no rows" means there is no job; anything else is an error
/// with the status and the reply.
pub open spec fn refused_claim_verdict(code: u16, body: Seq<char>) -> Result<bool, Seq<char>> {
    if occurs_in(body, "no rows"@) || body.len() == 0 {
        Ok(false)
    } else {
        Err("Claim failed: "@ + status_text(code) + " — "@ + body)
    }
}

/// Judges a claim that the queue answered with a failure status `code` and
/// the reply text `body`. `Ok(false)` means that there was no job to print.
pub fn refused_claim(code: u16, body: &str) -> (r: Result<bool, String>)
    ensures
        text_result(r) == refused_claim_verdict(code, body@),
{
    if contains_text(body, "no rows") || body.unicode_len() == 0 {
        return Ok(false);
    }
    let mut msg = String::from_str("Claim failed: ");
    let line = status_line(code);
    msg.append(line.as_str());
    msg.append(" — ");
    msg.append(body);
    Err(msg)
}

/// Why base64 text could not be decoded; the variants of `base64::DecodeError`.
#[derive(Clone, Copy, Debug, PartialEq, Eq)]
pub enum Base64DecodeError {
    InvalidByte(usize, u8),
    InvalidLength(usize),
    InvalidLastSymbol(usize, u8),
    InvalidPadding,
}

impl Base64DecodeError {
    /// The text that `base64::DecodeError` displays for this error.
    pub open spec fn text(self) -> Seq<char> {
        match self {
            Base64DecodeError::InvalidByte(index, byte) => "Invalid symbol "@ + decimal_text(
                byte as nat,
            ) + ", offset "@ + decimal_text(index as nat) + "."@,
            Base64DecodeError::InvalidLength(len) => "Invalid input length: "@ + decimal_text(
                len as nat,
            ),
            Base64DecodeError::InvalidLastSymbol(index, byte) => "Invalid last symbol "@
                + decimal_text(byte as nat) + ", offset "@ + decimal_text(index as nat) + "."@,
            Base64DecodeError::InvalidPadding => "Invalid padding"@,
        }
    }

    /// The text that `base64::DecodeError` displays for this error.
    pub fn message(&self) -> (s: String)
        ensures
            s@ == self.text(),
    {
        match self {
            Base64DecodeError::InvalidByte(index, byte) => {
                let mut s = String::from_str("Invalid symbol ");
                s.append(decimal(*byte as u64).as_str());
                s.append(", offset ");
                s.append(decimal(*index as u64).as_str());
                s.append(".");
                s
            },
            Base64DecodeError::InvalidLength(len) => {
                let mut s = String::from_str("Invalid input length: ");
                s.append(decimal(*len as u64).as_str());
                s
            },
            Base64DecodeError::InvalidLastSymbol(index, byte) => {
                let mut s = String::from_str("Invalid last symbol ");
                s.append(decimal(*byte as u64).as_str());
                s.append(", offset ");
                s.append(decimal(*index as u64).as_str());
                s.append(".");
                s
            },
            Base64DecodeError::InvalidPadding => String::from_str("Invalid padding"),
        }
    }
}

/// What decoding a text with the standard, padded base64 engine gives.
pub uninterp spec fn standard_base64_decoded(input: Seq<char>) -> Result<Seq<u8>, Base64DecodeError>;

/// The view of decoded bytes.
pub open spec fn bytes_result_view<E>(r: Result<Vec<u8>, E>) -> Result<Seq<u8>, E> {
    match r {
        Ok(v) => Ok(v@),
        Err(e) => Err(e),
    }
}

/// The error type of base64 decoding, carried opaquely.
#[verifier::external_type_specification]
#[verifier::external_body]
pub struct ExBase64DecodeError(base64::DecodeError);

/// Calls `Engine::decode` of `base64::engine::general_purpose::STANDARD`.
/// The contract claims only that the outcome is the one named
/// `standard_base64_decoded(input)`: the decoding rules are not stated.
#[verifier::external_body]
fn decode_standard_base64(input: &str) -> (r: Result<Vec<u8>, Base64DecodeError>)
    ensures
        bytes_result_view(r) == standard_base64_decoded(input@),
{
    match base64::engine::general_purpose::STANDARD.decode(input) {
        Ok(bytes) => Ok(bytes),
        Err(e) => Err(convert_base64_error(e)),
    }
}

/// Tells the variants of `base64::DecodeError` apart, one arm each.
#[verifier::external_body]
fn convert_base64_error(e: base64::DecodeError) -> Base64DecodeError {
    match e {
        base64::DecodeError::InvalidByte(index, byte) => Base64DecodeError::InvalidByte(index, byte),
        base64::DecodeError::InvalidLength(len) => Base64DecodeError::InvalidLength(len),
        base64::DecodeError::InvalidLastSymbol(index, byte) => Base64DecodeError::InvalidLastSymbol(index, byte),
        base64::DecodeError::InvalidPadding => Base64DecodeError::InvalidPadding,
    }
}

/// The bytes of a TCP job, or why its payload cannot be decoded.
pub open spec fn payload_verdict(decoded: Result<Seq<u8>, Base64DecodeError>) -> Result<Seq<u8>, Seq<char>> {
    match decoded {
        Ok(bytes) => Ok(bytes),
        Err(e) => Err("Base64 decode: "@ + e.text()),
    }
}

/// The view of bytes or an error text.
pub open spec fn payload_view(r: Result<Vec<u8>, String>) -> Result<Seq<u8>, Seq<char>> {
    match r {
        Ok(v) => Ok(v@),
        Err(e) => Err(e@),
    }
}

/// Decoding hands on the decoded bytes unchanged, and a payload that does
/// not decode is never printed.
pub proof fn lemma_payload_bytes_unchanged(bytes: Seq<u8>, e: Base64DecodeError)
    ensures
        payload_verdict(Ok(bytes)) == Ok::<Seq<u8>, Seq<char>>(bytes),
        payload_verdict(Err(e)) is Err,
{
}

/// Turns the outcome of decoding a TCP job's payload into its bytes or the
/// error that the job is reported with.
pub fn payload_from_decoded(decoded: Result<Vec<u8>, Base64DecodeError>) -> (r: Result<Vec<u8>, String>)
    ensures
        payload_view(r) == payload_verdict(bytes_result_view(decoded)),
        decoded matches Ok(bytes) ==> r matches Ok(sent) && sent@ == bytes@,
        decoded is Err ==> r is Err,
{
    match decoded {
        Ok(bytes) => Ok(bytes),
        Err(e) => {
            let mut msg = String::from_str("Base64 decode: ");
            msg.append(e.message().as_str());
            Err(msg)
        },
    }
}

/// Decodes the base64 payload of a TCP job.
pub fn decode_payload(payload_base64: &str) -> (r: Result<Vec<u8>, String>)
    ensures
        payload_view(r) == payload_verdict(standard_base64_decoded(payload_base64@)),
{
    payload_from_decoded(decode_standard_base64(payload_base64))
}

/// What the relay reports to the queue when a job is done.
pub struct CompletionReport {
    pub job_id: String,
    pub success: bool,
    pub error: Option<String>,
}

/// The report for job `job_id` whose print ended with `result`: success
/// exactly when it printed, and the error text exactly when it did not.
pub fn completion_report(job_id: String, result: &Result<(), String>) -> (r: CompletionReport)
    ensures
        r.job_id == job_id,
        r.success == (result is Ok),
        r.error.deep_view() == match result {
            Ok(_) => None,
            Err(e) => Some(e@),
        },
{
    match result {
        Ok(_) => CompletionReport { job_id, success: true, error: None },
        Err(e) => CompletionReport { job_id, success: false, error: Some(e.clone()) },
    }
}

} // verus!
