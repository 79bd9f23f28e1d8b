//! Error taxonomy and response interpretation for the email API client.
//!
//! Every HTTP exchange ends in one of the outcomes modeled here: a transport
//! failure, or a response with a status code and a body.  A single
//! classification function maps non-success status codes to a closed set of
//! error kinds; requests that expect a body decode it as JSON on 200/201,
//! while deletions treat 200/204 as bodiless success.

use vstd::prelude::*;

use crate::json::{json_to_string, parse_json, spec_parse_json, spec_ser, Json, JsonValue};
use crate::text::{spec_udec, u64_to_string};
use crate::types::{
    CreateApiKeyRequest, CreateDomainRequest, CreateTemplateRequest, SendEmailRequest,
    UpdateDomainRequest, UpdateEmailRequest, UpdateTemplateRequest,
};
use crate::wire::{
    spec_create_api_key_json, spec_create_domain_json, spec_create_template_json,
    spec_list_of, spec_send_email_json, spec_update_domain_json, spec_update_email_json,
    spec_update_template_json, FromJson,
};

verus! {

use vstd::string::StringExecFns;

/// Mathematical value of an [`ApiError`].
pub enum ApiErrorV {
    AuthenticationError,
    NotFoundError(Seq<char>),
    RateLimitError,
    ValidationError(Seq<char>),
    ApiError { status: int, message: Seq<char> },
    NetworkError(Seq<char>),
}

/// The closed set of error kinds a client operation can end in.
///
/// `NotFoundError`, `ValidationError` and the generic `ApiError` carry the
/// raw response body text as their detail; `AuthenticationError` and
/// `RateLimitError` deliberately carry nothing, so a response body can never
/// leak into their messages.
#[derive(Debug)]
pub enum ApiError {
    AuthenticationError,
    NotFoundError(String),
    RateLimitError,
    ValidationError(String),
    ApiError { status: u16, message: String },
    NetworkError(String),
}

impl View for ApiError {
    type V = ApiErrorV;

    open spec fn view(&self) -> ApiErrorV {
        match self {
            ApiError::AuthenticationError => ApiErrorV::AuthenticationError,
            ApiError::NotFoundError(m) => ApiErrorV::NotFoundError(m@),
            ApiError::RateLimitError => ApiErrorV::RateLimitError,
            ApiError::ValidationError(m) => ApiErrorV::ValidationError(m@),
            ApiError::ApiError { status, message } => ApiErrorV::ApiError {
                status: *status as int,
                message: message@,
            },
            ApiError::NetworkError(m) => ApiErrorV::NetworkError(m@),
        }
    }
}

/// Classification of a non-success HTTP status code together with the raw
/// response body text:
/// 401 and 403 map to `AuthenticationError` whatever the body says; 404
/// carries the body as not-found detail; 429 maps to `RateLimitError` with
/// no detail; 400 and 422 carry the body as validation detail; anything else
/// is the generic `ApiError` with the numeric status and the body verbatim.
pub open spec fn spec_classify(status: u16, body: Seq<char>) -> ApiErrorV {
    if status == 401 || status == 403 {
        ApiErrorV::AuthenticationError
    } else if status == 404 {
        ApiErrorV::NotFoundError(body)
    } else if status == 429 {
        ApiErrorV::RateLimitError
    } else if status == 400 || status == 422 {
        ApiErrorV::ValidationError(body)
    } else {
        ApiErrorV::ApiError { status: status as int, message: body }
    }
}

/// Map a status code and raw body text to the error kind the caller
/// reports.  The interpretation functions handle success codes first, so
/// classification only ever sees failures.
pub fn classify_error(status: u16, body: String) -> (r: ApiError)
    ensures
        r@ == spec_classify(status, body@),
{
    if status == 401 || status == 403 {
        ApiError::AuthenticationError
    } else if status == 404 {
        ApiError::NotFoundError(body)
    } else if status == 429 {
        ApiError::RateLimitError
    } else if status == 400 || status == 422 {
        ApiError::ValidationError(body)
    } else {
        ApiError::ApiError { status, message: body }
    }
}

/// Statuses in 401 and 403 classify to `AuthenticationError`, whatever the
/// body holds; in particular the classification of two different bodies is
/// the same value, so no body text can reach the error's message.
pub proof fn lemma_auth_classification(status: u16, body: Seq<char>, other: Seq<char>)
    requires
        status == 401 || status == 403,
    ensures
        spec_classify(status, body) == ApiErrorV::AuthenticationError,
        spec_classify(status, body) == spec_classify(status, other),
{
}

/// Statuses 400 and 422 classify to `ValidationError` whose detail is the
/// raw body text, byte for byte.
pub proof fn lemma_validation_detail(status: u16, body: Seq<char>)
    requires
        status == 400 || status == 422,
    ensures
        spec_classify(status, body) == ApiErrorV::ValidationError(body),
{
}

/// Status 404 classifies to `NotFoundError` whose detail is the raw body.
pub proof fn lemma_not_found_detail(body: Seq<char>)
    ensures
        spec_classify(404, body) == ApiErrorV::NotFoundError(body),
{
}

/// Status 429 classifies to `RateLimitError` for every body; the
/// interpretation functions return it directly, with no retry path.
pub proof fn lemma_rate_limit_classification(body: Seq<char>)
    ensures
        spec_classify(429, body) == ApiErrorV::RateLimitError,
{
}

/// User-facing message of an error value.
pub open spec fn spec_error_message(e: ApiErrorV) -> Seq<char> {
    match e {
        ApiErrorV::AuthenticationError => "Authentication failed. Check your API key."@,
        ApiErrorV::NotFoundError(d) => "Resource not found: "@ + d,
        ApiErrorV::RateLimitError => "Rate limit exceeded. Please try again later."@,
        ApiErrorV::ValidationError(d) => "Validation error: "@ + d,
        ApiErrorV::ApiError { status, message } => "API error: "@ + spec_udec(status) + " - "@
            + message,
        ApiErrorV::NetworkError(d) => "Network error: "@ + d,
    }
}

impl ApiError {
    /// Render the diagnostic message shown to the operator.
    pub fn message(&self) -> (r: String)
        ensures
            r@ == spec_error_message(self@),
    {
        match self {
            ApiError::AuthenticationError => String::from_str(
                "Authentication failed. Check your API key.",
            ),
            ApiError::NotFoundError(d) => {
                let mut s = String::from_str("Resource not found: ");
                s.append(d.as_str());
                s
            },
            ApiError::RateLimitError => String::from_str(
                "Rate limit exceeded. Please try again later.",
            ),
            ApiError::ValidationError(d) => {
                let mut s = String::from_str("Validation error: ");
                s.append(d.as_str());
                s
            },
            ApiError::ApiError { status, message } => {
                let mut s = String::from_str("API error: ");
                let digits = u64_to_string(*status as u64);
                s.append(digits.as_str());
                s.append(" - ");
                s.append(message.as_str());
                proof {
                    assert(s@ =~= spec_error_message(self@));
                }
                s
            },
            ApiError::NetworkError(d) => {
                let mut s = String::from_str("Network error: ");
                s.append(d.as_str());
                s
            },
        }
    }
}

/// Mathematical value of a [`ClientError`].
pub enum ClientErrorV {
    Api(ApiErrorV),
    Decode(Seq<char>),
}

/// What a body-decoding operation can end in besides success: one of the
/// classified API error kinds, or a decode failure for a nominally
/// successful response whose body does not match the expected shape.  The
/// decode failure is deliberately not one of the API error kinds: it marks
/// a contract violation between client and server, not a user-correctable
/// condition.
#[derive(Debug)]
pub enum ClientError {
    Api(ApiError),
    Decode(String),
}

impl View for ClientError {
    type V = ClientErrorV;

    open spec fn view(&self) -> ClientErrorV {
        match self {
            ClientError::Api(e) => ClientErrorV::Api(e@),
            ClientError::Decode(m) => ClientErrorV::Decode(m@),
        }
    }
}

/// User-facing message of a client error.
pub open spec fn spec_client_error_message(e: ClientErrorV) -> Seq<char> {
    match e {
        ClientErrorV::Api(inner) => spec_error_message(inner),
        ClientErrorV::Decode(m) => m,
    }
}

impl ClientError {
    /// Render the diagnostic message shown to the operator.
    pub fn message(&self) -> (r: String)
        ensures
            r@ == spec_client_error_message(self@),
    {
        match self {
            ClientError::Api(e) => e.message(),
            ClientError::Decode(m) => m.clone(),
        }
    }
}

/// Mathematical value of an [`Outcome`].
pub enum OutcomeV {
    Response { status: u16, body: Seq<char> },
    Failure { timeout: bool, detail: Seq<char> },
}

/// Everything a transport exchange can end in: a response with a status
/// code and its body text, or a transport-level failure — connection,
/// name resolution, TLS or timeout — with the timeout case distinguished.
#[derive(Debug)]
pub enum Outcome {
    Response { status: u16, body: String },
    Failure { timeout: bool, detail: String },
}

impl View for Outcome {
    type V = OutcomeV;

    open spec fn view(&self) -> OutcomeV {
        match self {
            Outcome::Response { status, body } => OutcomeV::Response {
                status: *status,
                body: body@,
            },
            Outcome::Failure { timeout, detail } => OutcomeV::Failure {
                timeout: *timeout,
                detail: detail@,
            },
        }
    }
}

/// The error a transport failure maps to: a timeout is reported as such,
/// any other failure carries the transport's own description.
pub open spec fn spec_network_error(timeout: bool, detail: Seq<char>) -> ApiErrorV {
    if timeout {
        ApiErrorV::NetworkError("Request timeout"@)
    } else {
        ApiErrorV::NetworkError(detail)
    }
}

/// A timeout maps to the network error kind with the fixed timeout
/// message, whatever detail the transport reported.
pub proof fn lemma_timeout_classification(detail: Seq<char>)
    ensures
        spec_network_error(true, detail) == ApiErrorV::NetworkError("Request timeout"@),
{
}

fn network_error(timeout: bool, detail: String) -> (r: ApiError)
    ensures
        r@ == spec_network_error(timeout, detail@),
{
    if timeout {
        ApiError::NetworkError(String::from_str("Request timeout"))
    } else {
        ApiError::NetworkError(detail)
    }
}

/// What interpreting an exchange that expects a `T` body yields: transport
/// failures become network errors; 200 and 201 decode the body, a body of
/// unexpected shape being a decode failure; every other status classifies
/// as [`spec_classify`] says.
pub open spec fn spec_interpret<T: FromJson>(o: OutcomeV) -> Result<
    <T as DeepView>::V,
    ClientErrorV,
> {
    match o {
        OutcomeV::Failure { timeout, detail } => Err(
            ClientErrorV::Api(spec_network_error(timeout, detail)),
        ),
        OutcomeV::Response { status, body } => {
            if status == 200 || status == 201 {
                match spec_parse_json(body) {
                    None => Err(ClientErrorV::Decode("Failed to parse response"@)),
                    Some(j) => match T::spec_of_json(j) {
                        Some(v) => Ok(v),
                        None => Err(ClientErrorV::Decode("Failed to parse response"@)),
                    },
                }
            } else {
                Err(ClientErrorV::Api(spec_classify(status, body)))
            }
        },
    }
}

/// Interpret the outcome of an exchange whose success body is one `T`
/// record.
pub fn interpret<T: FromJson>(o: Outcome) -> (r: Result<T, ClientError>)
    ensures
        match spec_interpret::<T>(o@) {
            Ok(v) => r matches Ok(x) && x.deep_view() == v,
            Err(e) => r matches Err(ce) && ce@ == e,
        },
{
    match o {
        Outcome::Failure { timeout, detail } => Err(ClientError::Api(network_error(
            timeout,
            detail,
        ))),
        Outcome::Response { status, body } => {
            if status == 200 || status == 201 {
                match parse_json(body.as_str()) {
                    None => Err(ClientError::Decode(String::from_str("Failed to parse response"))),
                    Some(j) => match T::of_json(&j) {
                        Some(v) => Ok(v),
                        None => Err(
                            ClientError::Decode(String::from_str("Failed to parse response")),
                        ),
                    },
                }
            } else {
                Err(ClientError::Api(classify_error(status, body)))
            }
        },
    }
}

/// What interpreting a list exchange yields: like [`spec_interpret`], with
/// the success body a `data` envelope whose items all decode; the caller
/// receives the plain ordered run, never the envelope.
pub open spec fn spec_interpret_list<T: FromJson>(o: OutcomeV) -> Result<
    Seq<<T as DeepView>::V>,
    ClientErrorV,
> {
    match o {
        OutcomeV::Failure { timeout, detail } => Err(
            ClientErrorV::Api(spec_network_error(timeout, detail)),
        ),
        OutcomeV::Response { status, body } => {
            if status == 200 || status == 201 {
                match spec_parse_json(body) {
                    None => Err(ClientErrorV::Decode("Failed to parse response"@)),
                    Some(j) => match spec_list_of::<T>(j) {
                        Some(vs) => Ok(vs),
                        None => Err(ClientErrorV::Decode("Failed to parse response"@)),
                    },
                }
            } else {
                Err(ClientErrorV::Api(spec_classify(status, body)))
            }
        },
    }
}

/// Interpret the outcome of an exchange whose success body is a list
/// envelope of `T` records.
pub fn interpret_list<T: FromJson>(o: Outcome) -> (r: Result<Vec<T>, ClientError>)
    ensures
        match spec_interpret_list::<T>(o@) {
            Ok(vs) => r matches Ok(out) && out.deep_view() == vs,
            Err(e) => r matches Err(ce) && ce@ == e,
        },
{
    match o {
        Outcome::Failure { timeout, detail } => Err(ClientError::Api(network_error(
            timeout,
            detail,
        ))),
        Outcome::Response { status, body } => {
            if status == 200 || status == 201 {
                match parse_json(body.as_str()) {
                    None => Err(ClientError::Decode(String::from_str("Failed to parse response"))),
                    Some(j) => match crate::wire::list_of_json::<T>(&j) {
                        Some(vs) => Ok(vs),
                        None => Err(
                            ClientError::Decode(String::from_str("Failed to parse response")),
                        ),
                    },
                }
            } else {
                Err(ClientError::Api(classify_error(status, body)))
            }
        },
    }
}

/// What interpreting a deletion yields: a 200 or 204 response is success
/// with no body decoded, whatever the body text holds; everything else is
/// classified exactly as for the body-expecting exchanges.
pub open spec fn spec_interpret_delete(o: OutcomeV) -> Result<(), ApiErrorV> {
    match o {
        OutcomeV::Failure { timeout, detail } => Err(spec_network_error(timeout, detail)),
        OutcomeV::Response { status, body } => {
            if status == 200 || status == 204 {
                Ok(())
            } else {
                Err(spec_classify(status, body))
            }
        },
    }
}

/// Interpret the outcome of a deletion, which never decodes a success
/// body.
pub fn interpret_delete(o: Outcome) -> (r: Result<(), ApiError>)
    ensures
        match spec_interpret_delete(o@) {
            Ok(v) => r is Ok,
            Err(e) => r matches Err(ae) && ae@ == e,
        },
{
    match o {
        Outcome::Failure { timeout, detail } => Err(network_error(timeout, detail)),
        Outcome::Response { status, body } => {
            if status == 200 || status == 204 {
                Ok(())
            } else {
                Err(classify_error(status, body))
            }
        },
    }
}

// === Request building ===

/// The HTTP verb of a request.
#[derive(Debug, Clone, Copy, PartialEq, Eq, Structural)]
pub enum Method {
    Get,
    Post,
    Patch,
    Delete,
}

/// One planned request: the verb, the server-relative path beginning with
/// `/`, and the serialized JSON body where the endpoint takes one.
#[derive(Debug)]
pub struct ApiRequest {
    pub method: Method,
    pub path: String,
    pub body: Option<String>,
}

fn join_path(prefix: &'static str, id: &str) -> (r: String)
    ensures
        r@ == prefix@ + id@,
{
    let mut s = String::from_str(prefix);
    s.append(id);
    s
}

fn join_path_suffix(prefix: &'static str, id: &str, suffix: &'static str) -> (r: String)
    ensures
        r@ == prefix@ + id@ + suffix@,
{
    let mut s = String::from_str(prefix);
    s.append(id);
    s.append(suffix);
    s
}

/// The empty JSON object, sent where an endpoint takes no request fields.
fn empty_body() -> (r: String)
    ensures
        r@ == "{}"@,
{
    let empty: Vec<(String, JsonValue)> = Vec::new();
    let body = json_to_string(&JsonValue::Obj(empty));
    proof {
        reveal_strlit("{}");
        assert(crate::json::spec_members_of(Seq::<(String, JsonValue)>::empty()).len() == 0);
        assert(crate::json::spec_ser_members(
            crate::json::spec_members_of(Seq::<(String, JsonValue)>::empty()),
        ).len() == 0);
        assert(body@ =~= "{}"@);
    }
    body
}

/// Plan the send-email exchange.
pub fn send_email_request(req: &SendEmailRequest) -> (r: ApiRequest)
    ensures
        r.method == Method::Post,
        r.path@ == "/emails"@,
        r.body matches Some(b) && b@ == spec_ser(spec_send_email_json(req@)),
{
    ApiRequest {
        method: Method::Post,
        path: String::from_str("/emails"),
        body: Some(json_to_string(&req.to_json())),
    }
}

/// Plan the fetch of one email by its identifier.
pub fn get_email_request(id: &str) -> (r: ApiRequest)
    ensures
        r.method == Method::Get,
        r.path@ == "/emails/"@ + id@,
        r.body is None,
{
    ApiRequest { method: Method::Get, path: join_path("/emails/", id), body: None }
}

/// Plan the listing of emails.
pub fn list_emails_request() -> (r: ApiRequest)
    ensures
        r.method == Method::Get,
        r.path@ == "/emails"@,
        r.body is None,
{
    ApiRequest { method: Method::Get, path: String::from_str("/emails"), body: None }
}

/// Plan the cancellation of a scheduled email; the endpoint takes an
/// empty object body.
pub fn cancel_email_request(id: &str) -> (r: ApiRequest)
    ensures
        r.method == Method::Post,
        r.path@ == "/emails/"@ + id@ + "/cancel"@,
        r.body matches Some(b) && b@ == "{}"@,
{
    ApiRequest {
        method: Method::Post,
        path: join_path_suffix("/emails/", id, "/cancel"),
        body: Some(empty_body()),
    }
}

/// Plan the reschedule of an email.
pub fn update_email_request(id: &str, req: &UpdateEmailRequest) -> (r: ApiRequest)
    ensures
        r.method == Method::Patch,
        r.path@ == "/emails/"@ + id@,
        r.body matches Some(b) && b@ == spec_ser(spec_update_email_json(req@)),
{
    ApiRequest {
        method: Method::Patch,
        path: join_path("/emails/", id),
        body: Some(json_to_string(&req.to_json())),
    }
}

/// Plan the registration of a domain.
pub fn create_domain_request(req: &CreateDomainRequest) -> (r: ApiRequest)
    ensures
        r.method == Method::Post,
        r.path@ == "/domains"@,
        r.body matches Some(b) && b@ == spec_ser(spec_create_domain_json(req@)),
{
    ApiRequest {
        method: Method::Post,
        path: String::from_str("/domains"),
        body: Some(json_to_string(&req.to_json())),
    }
}

/// Plan the listing of domains.
pub fn list_domains_request() -> (r: ApiRequest)
    ensures
        r.method == Method::Get,
        r.path@ == "/domains"@,
        r.body is None,
{
    ApiRequest { method: Method::Get, path: String::from_str("/domains"), body: None }
}

/// Plan the fetch of one domain.
pub fn get_domain_request(id: &str) -> (r: ApiRequest)
    ensures
        r.method == Method::Get,
        r.path@ == "/domains/"@ + id@,
        r.body is None,
{
    ApiRequest { method: Method::Get, path: join_path("/domains/", id), body: None }
}

/// Plan the verification of a domain; the endpoint takes an empty object
/// body.
pub fn verify_domain_request(id: &str) -> (r: ApiRequest)
    ensures
        r.method == Method::Post,
        r.path@ == "/domains/"@ + id@ + "/verify"@,
        r.body matches Some(b) && b@ == "{}"@,
{
    ApiRequest {
        method: Method::Post,
        path: join_path_suffix("/domains/", id, "/verify"),
        body: Some(empty_body()),
    }
}

/// Plan the update of a domain's settings.
pub fn update_domain_request(id: &str, req: &UpdateDomainRequest) -> (r: ApiRequest)
    ensures
        r.method == Method::Patch,
        r.path@ == "/domains/"@ + id@,
        r.body matches Some(b) && b@ == spec_ser(spec_update_domain_json(req@)),
{
    ApiRequest {
        method: Method::Patch,
        path: join_path("/domains/", id),
        body: Some(json_to_string(&req.to_json())),
    }
}

/// Plan the deletion of a domain.
pub fn delete_domain_request(id: &str) -> (r: ApiRequest)
    ensures
        r.method == Method::Delete,
        r.path@ == "/domains/"@ + id@,
        r.body is None,
{
    ApiRequest { method: Method::Delete, path: join_path("/domains/", id), body: None }
}

/// Plan the creation of an API key.
pub fn create_api_key_request(req: &CreateApiKeyRequest) -> (r: ApiRequest)
    ensures
        r.method == Method::Post,
        r.path@ == "/api-keys"@,
        r.body matches Some(b) && b@ == spec_ser(spec_create_api_key_json(req@)),
{
    ApiRequest {
        method: Method::Post,
        path: String::from_str("/api-keys"),
        body: Some(json_to_string(&req.to_json())),
    }
}

/// Plan the listing of API keys.
pub fn list_api_keys_request() -> (r: ApiRequest)
    ensures
        r.method == Method::Get,
        r.path@ == "/api-keys"@,
        r.body is None,
{
    ApiRequest { method: Method::Get, path: String::from_str("/api-keys"), body: None }
}

/// Plan the deletion of an API key.
pub fn delete_api_key_request(id: &str) -> (r: ApiRequest)
    ensures
        r.method == Method::Delete,
        r.path@ == "/api-keys/"@ + id@,
        r.body is None,
{
    ApiRequest { method: Method::Delete, path: join_path("/api-keys/", id), body: None }
}

/// Plan the creation of a template.
pub fn create_template_request(req: &CreateTemplateRequest) -> (r: ApiRequest)
    ensures
        r.method == Method::Post,
        r.path@ == "/templates"@,
        r.body matches Some(b) && b@ == spec_ser(spec_create_template_json(req@)),
{
    ApiRequest {
        method: Method::Post,
        path: String::from_str("/templates"),
        body: Some(json_to_string(&req.to_json())),
    }
}

/// Plan the listing of templates.
pub fn list_templates_request() -> (r: ApiRequest)
    ensures
        r.method == Method::Get,
        r.path@ == "/templates"@,
        r.body is None,
{
    ApiRequest { method: Method::Get, path: String::from_str("/templates"), body: None }
}

/// Plan the fetch of one template.
pub fn get_template_request(id: &str) -> (r: ApiRequest)
    ensures
        r.method == Method::Get,
        r.path@ == "/templates/"@ + id@,
        r.body is None,
{
    ApiRequest { method: Method::Get, path: join_path("/templates/", id), body: None }
}

/// Plan the update of a template.
pub fn update_template_request(id: &str, req: &UpdateTemplateRequest) -> (r: ApiRequest)
    ensures
        r.method == Method::Patch,
        r.path@ == "/templates/"@ + id@,
        r.body matches Some(b) && b@ == spec_ser(spec_update_template_json(req@)),
{
    ApiRequest {
        method: Method::Patch,
        path: join_path("/templates/", id),
        body: Some(json_to_string(&req.to_json())),
    }
}

/// Plan the deletion of a template.
pub fn delete_template_request(id: &str) -> (r: ApiRequest)
    ensures
        r.method == Method::Delete,
        r.path@ == "/templates/"@ + id@,
        r.body is None,
{
    ApiRequest { method: Method::Delete, path: join_path("/templates/", id), body: None }
}

/// Plan the harmless read that validates a key before it is stored: the
/// domain listing, whose outcome stands for whether the key
/// authenticates.
pub fn test_connection_request() -> (r: ApiRequest)
    ensures
        r.method == Method::Get,
        r.path@ == "/domains"@,
        r.body is None,
{
    list_domains_request()
}

} // verus!
