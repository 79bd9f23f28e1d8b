//! Resource records exchanged with the email API, their mathematical
//! views, and the tabular projection used by the table renderer.
//!
//! Request records carry optional fields that are omitted from the wire
//! body when unset; response records tolerate absent optional fields.
//! Every record shown as a table supplies a fixed list of column headers
//! and a row of rendered values of the same length, so rendering stays
//! generic over the record type.

use vstd::prelude::*;

verus! {

use vstd::string::StringExecFns;

/// Output format selected on the command line.
#[derive(Debug, Clone, Copy, PartialEq, Eq, Structural)]
pub enum OutputFormat {
    Table,
    Json,
}

/// The rendered text of an optional field: the value when set, empty
/// otherwise.
pub open spec fn spec_opt_text(o: Option<Seq<char>>) -> Seq<char> {
    match o {
        Some(s) => s,
        None => Seq::empty(),
    }
}

/// The items of a list joined with `", "`.
pub open spec fn spec_join_comma(items: Seq<Seq<char>>) -> Seq<char>
    decreases items.len(),
{
    if items.len() == 0 {
        Seq::empty()
    } else if items.len() == 1 {
        items[0]
    } else {
        spec_join_comma(items.drop_last()) + ", "@ + items.last()
    }
}

/// Join a list of strings with `", "`, as shown in table cells.
pub fn join_comma(items: &Vec<String>) -> (r: String)
    ensures
        r@ == spec_join_comma(items.deep_view()),
{
    let ghost goal = items.deep_view();
    let mut out = String::new();
    let mut i: usize = 0;
    proof {
        assert(out@ =~= spec_join_comma(goal.take(0)));
    }
    while i < items.len()
        invariant
            i <= items.len(),
            goal == items.deep_view(),
            goal.len() == items@.len(),
            forall|k: int| 0 <= k < items@.len() ==> goal[k] == items@[k]@,
            out@ == spec_join_comma(goal.take(i as int)),
        decreases items.len() - i,
    {
        if i > 0 {
            out.append(", ");
        }
        out.append(items[i].as_str());
        proof {
            let t = goal.take(i + 1 as int);
            assert(t.drop_last() =~= goal.take(i as int));
            assert(t.last() == goal[i as int]);
            if i == 0 {
                assert(out@ =~= spec_join_comma(t));
            } else {
                assert(out@ =~= spec_join_comma(t));
            }
        }
        i = i + 1;
    }
    proof {
        assert(goal.take(items@.len() as int) =~= goal);
    }
    out
}

/// Clone the text of an optional field, or produce the empty string.
pub fn opt_text(o: &Option<String>) -> (r: String)
    ensures
        r@ == spec_opt_text(o.deep_view()),
{
    match o {
        Some(s) => s.clone(),
        None => String::new(),
    }
}

/// A record type that can be rendered as a table: a fixed ordered list of
/// column headers, and for each value a row of rendered cells in the same
/// order and of the same length.
pub trait Tabular: Sized {
    /// The column headers, as mathematical values.
    spec fn spec_headers() -> Seq<Seq<char>>;

    /// The rendered row of one record, as mathematical values.
    spec fn spec_row(&self) -> Seq<Seq<char>>;

    /// The column headers.
    fn headers() -> (r: Vec<&'static str>)
        ensures
            r.deep_view() == Self::spec_headers(),
    ;

    /// The rendered row of this record; always as long as the header list.
    fn row(&self) -> (r: Vec<String>)
        ensures
            r.deep_view() == self.spec_row(),
            r@.len() == Self::spec_headers().len(),
    ;
}

// === Email records ===

/// Request to send an email.  Every `Option` field is omitted from the wire
/// body when `None`.
#[derive(Debug, Clone)]
pub struct SendEmailRequest {
    pub from: String,
    pub to: Vec<String>,
    pub subject: String,
    pub html: Option<String>,
    pub text: Option<String>,
    pub cc: Option<Vec<String>>,
    pub bcc: Option<Vec<String>>,
    pub reply_to: Option<Vec<String>>,
    pub scheduled_at: Option<String>,
}

/// Mathematical value of a [`SendEmailRequest`].
pub struct SendEmailRequestV {
    pub from: Seq<char>,
    pub to: Seq<Seq<char>>,
    pub subject: Seq<char>,
    pub html: Option<Seq<char>>,
    pub text: Option<Seq<char>>,
    pub cc: Option<Seq<Seq<char>>>,
    pub bcc: Option<Seq<Seq<char>>>,
    pub reply_to: Option<Seq<Seq<char>>>,
    pub scheduled_at: Option<Seq<char>>,
}

impl View for SendEmailRequest {
    type V = SendEmailRequestV;

    open spec fn view(&self) -> SendEmailRequestV {
        SendEmailRequestV {
            from: self.from@,
            to: self.to.deep_view(),
            subject: self.subject@,
            html: self.html.deep_view(),
            text: self.text.deep_view(),
            cc: self.cc.deep_view(),
            bcc: self.bcc.deep_view(),
            reply_to: self.reply_to.deep_view(),
            scheduled_at: self.scheduled_at.deep_view(),
        }
    }
}

/// Request to reschedule an email.
#[derive(Debug, Clone)]
pub struct UpdateEmailRequest {
    pub scheduled_at: String,
}

/// Mathematical value of an [`UpdateEmailRequest`].
pub struct UpdateEmailRequestV {
    pub scheduled_at: Seq<char>,
}

impl View for UpdateEmailRequest {
    type V = UpdateEmailRequestV;

    open spec fn view(&self) -> UpdateEmailRequestV {
        UpdateEmailRequestV { scheduled_at: self.scheduled_at@ }
    }
}

/// Successful send: the identifier the service assigned.
#[derive(Debug, Clone)]
pub struct SendEmailResponse {
    pub id: String,
}

/// Mathematical value of a [`SendEmailResponse`].
pub struct SendEmailResponseV {
    pub id: Seq<char>,
}

impl View for SendEmailResponse {
    type V = SendEmailResponseV;

    open spec fn view(&self) -> SendEmailResponseV {
        SendEmailResponseV { id: self.id@ }
    }
}

impl DeepView for SendEmailResponse {
    type V = SendEmailResponseV;

    open spec fn deep_view(&self) -> SendEmailResponseV {
        self.view()
    }
}

/// An email record as returned by the service.
#[derive(Debug, Clone)]
pub struct Email {
    pub id: String,
    pub from: Option<String>,
    pub to: Option<Vec<String>>,
    pub subject: Option<String>,
    pub created_at: Option<String>,
    pub last_event: Option<String>,
}

/// Mathematical value of an [`Email`].
pub struct EmailV {
    pub id: Seq<char>,
    pub from: Option<Seq<char>>,
    pub to: Option<Seq<Seq<char>>>,
    pub subject: Option<Seq<char>>,
    pub created_at: Option<Seq<char>>,
    pub last_event: Option<Seq<char>>,
}

impl View for Email {
    type V = EmailV;

    open spec fn view(&self) -> EmailV {
        EmailV {
            id: self.id@,
            from: self.from.deep_view(),
            to: self.to.deep_view(),
            subject: self.subject.deep_view(),
            created_at: self.created_at.deep_view(),
            last_event: self.last_event.deep_view(),
        }
    }
}

impl DeepView for Email {
    type V = EmailV;

    open spec fn deep_view(&self) -> EmailV {
        self.view()
    }
}

impl Tabular for Email {
    open spec fn spec_headers() -> Seq<Seq<char>> {
        seq!["ID"@, "TO"@, "SUBJECT"@, "STATUS"@, "CREATED"@]
    }

    open spec fn spec_row(&self) -> Seq<Seq<char>> {
        seq![
            self.id@,
            match self.to.deep_view() {
                Some(items) => spec_join_comma(items),
                None => Seq::empty(),
            },
            spec_opt_text(self.subject.deep_view()),
            spec_opt_text(self.last_event.deep_view()),
            spec_opt_text(self.created_at.deep_view()),
        ]
    }

    fn headers() -> (r: Vec<&'static str>) {
        let mut v: Vec<&'static str> = Vec::new();
        v.push("ID");
        v.push("TO");
        v.push("SUBJECT");
        v.push("STATUS");
        v.push("CREATED");
        proof {
            assert(v.deep_view() =~= Self::spec_headers());
        }
        v
    }

    fn row(&self) -> (r: Vec<String>) {
        let mut v: Vec<String> = Vec::new();
        v.push(self.id.clone());
        let to_text = match &self.to {
            Some(items) => join_comma(items),
            None => String::new(),
        };
        v.push(to_text);
        v.push(opt_text(&self.subject));
        v.push(opt_text(&self.last_event));
        v.push(opt_text(&self.created_at));
        proof {
            assert(v.deep_view() =~= self.spec_row());
        }
        v
    }
}

/// Envelope around a list of emails.
#[derive(Debug, Clone)]
pub struct EmailsResponse {
    pub data: Vec<Email>,
}

// === Domain records ===

/// Request to register a sending domain.
#[derive(Debug, Clone)]
pub struct CreateDomainRequest {
    pub name: String,
    pub region: Option<String>,
}

/// Mathematical value of a [`CreateDomainRequest`].
pub struct CreateDomainRequestV {
    pub name: Seq<char>,
    pub region: Option<Seq<char>>,
}

impl View for CreateDomainRequest {
    type V = CreateDomainRequestV;

    open spec fn view(&self) -> CreateDomainRequestV {
        CreateDomainRequestV { name: self.name@, region: self.region.deep_view() }
    }
}

/// Request to change a domain's settings; unset fields are left untouched.
#[derive(Debug, Clone)]
pub struct UpdateDomainRequest {
    pub click_tracking: Option<bool>,
    pub open_tracking: Option<bool>,
    pub tls: Option<String>,
}

/// Mathematical value of an [`UpdateDomainRequest`].
pub struct UpdateDomainRequestV {
    pub click_tracking: Option<bool>,
    pub open_tracking: Option<bool>,
    pub tls: Option<Seq<char>>,
}

impl View for UpdateDomainRequest {
    type V = UpdateDomainRequestV;

    open spec fn view(&self) -> UpdateDomainRequestV {
        UpdateDomainRequestV {
            click_tracking: self.click_tracking,
            open_tracking: self.open_tracking,
            tls: self.tls.deep_view(),
        }
    }
}

/// A DNS record the operator must publish for a domain.
#[derive(Debug, Clone)]
pub struct DnsRecord {
    pub record: String,
    pub name: String,
    pub record_type: Option<String>,
    pub ttl: Option<String>,
    pub value: String,
    pub status: Option<String>,
    pub priority: Option<i32>,
}

/// Mathematical value of a [`DnsRecord`].
pub struct DnsRecordV {
    pub record: Seq<char>,
    pub name: Seq<char>,
    pub record_type: Option<Seq<char>>,
    pub ttl: Option<Seq<char>>,
    pub value: Seq<char>,
    pub status: Option<Seq<char>>,
    pub priority: Option<int>,
}

impl View for DnsRecord {
    type V = DnsRecordV;

    open spec fn view(&self) -> DnsRecordV {
        DnsRecordV {
            record: self.record@,
            name: self.name@,
            record_type: self.record_type.deep_view(),
            ttl: self.ttl.deep_view(),
            value: self.value@,
            status: self.status.deep_view(),
            priority: match self.priority {
                Some(p) => Some(p as int),
                None => None,
            },
        }
    }
}

impl DeepView for DnsRecord {
    type V = DnsRecordV;

    open spec fn deep_view(&self) -> DnsRecordV {
        self.view()
    }
}

/// A sending domain as returned by the service.
#[derive(Debug, Clone)]
pub struct Domain {
    pub id: String,
    pub name: String,
    pub status: Option<String>,
    pub region: Option<String>,
    pub records: Option<Vec<DnsRecord>>,
}

/// Mathematical value of a [`Domain`].
pub struct DomainV {
    pub id: Seq<char>,
    pub name: Seq<char>,
    pub status: Option<Seq<char>>,
    pub region: Option<Seq<char>>,
    pub records: Option<Seq<DnsRecordV>>,
}

impl View for Domain {
    type V = DomainV;

    open spec fn view(&self) -> DomainV {
        DomainV {
            id: self.id@,
            name: self.name@,
            status: self.status.deep_view(),
            region: self.region.deep_view(),
            records: self.records.deep_view(),
        }
    }
}

impl DeepView for Domain {
    type V = DomainV;

    open spec fn deep_view(&self) -> DomainV {
        self.view()
    }
}

impl Tabular for Domain {
    open spec fn spec_headers() -> Seq<Seq<char>> {
        seq!["ID"@, "NAME"@, "STATUS"@, "REGION"@]
    }

    open spec fn spec_row(&self) -> Seq<Seq<char>> {
        seq![
            self.id@,
            self.name@,
            spec_opt_text(self.status.deep_view()),
            spec_opt_text(self.region.deep_view()),
        ]
    }

    fn headers() -> (r: Vec<&'static str>) {
        let mut v: Vec<&'static str> = Vec::new();
        v.push("ID");
        v.push("NAME");
        v.push("STATUS");
        v.push("REGION");
        proof {
            assert(v.deep_view() =~= Self::spec_headers());
        }
        v
    }

    fn row(&self) -> (r: Vec<String>) {
        let mut v: Vec<String> = Vec::new();
        v.push(self.id.clone());
        v.push(self.name.clone());
        v.push(opt_text(&self.status));
        v.push(opt_text(&self.region));
        proof {
            assert(v.deep_view() =~= self.spec_row());
        }
        v
    }
}

/// Envelope around a list of domains.
#[derive(Debug, Clone)]
pub struct DomainsResponse {
    pub data: Vec<Domain>,
}

// === API key records ===

/// Request to create an API key.
#[derive(Debug, Clone)]
pub struct CreateApiKeyRequest {
    pub name: String,
    pub permission: Option<String>,
    pub domain_id: Option<String>,
}

/// Mathematical value of a [`CreateApiKeyRequest`].
pub struct CreateApiKeyRequestV {
    pub name: Seq<char>,
    pub permission: Option<Seq<char>>,
    pub domain_id: Option<Seq<char>>,
}

impl View for CreateApiKeyRequest {
    type V = CreateApiKeyRequestV;

    open spec fn view(&self) -> CreateApiKeyRequestV {
        CreateApiKeyRequestV {
            name: self.name@,
            permission: self.permission.deep_view(),
            domain_id: self.domain_id.deep_view(),
        }
    }
}

/// An API key record; the token is only returned at creation.
#[derive(Debug, Clone)]
pub struct ApiKey {
    pub id: String,
    pub name: String,
    pub token: Option<String>,
    pub created_at: Option<String>,
}

/// Mathematical value of an [`ApiKey`].
pub struct ApiKeyV {
    pub id: Seq<char>,
    pub name: Seq<char>,
    pub token: Option<Seq<char>>,
    pub created_at: Option<Seq<char>>,
}

impl View for ApiKey {
    type V = ApiKeyV;

    open spec fn view(&self) -> ApiKeyV {
        ApiKeyV {
            id: self.id@,
            name: self.name@,
            token: self.token.deep_view(),
            created_at: self.created_at.deep_view(),
        }
    }
}

impl DeepView for ApiKey {
    type V = ApiKeyV;

    open spec fn deep_view(&self) -> ApiKeyV {
        self.view()
    }
}

impl Tabular for ApiKey {
    open spec fn spec_headers() -> Seq<Seq<char>> {
        seq!["ID"@, "NAME"@, "CREATED"@]
    }

    open spec fn spec_row(&self) -> Seq<Seq<char>> {
        seq![self.id@, self.name@, spec_opt_text(self.created_at.deep_view())]
    }

    fn headers() -> (r: Vec<&'static str>) {
        let mut v: Vec<&'static str> = Vec::new();
        v.push("ID");
        v.push("NAME");
        v.push("CREATED");
        proof {
            assert(v.deep_view() =~= Self::spec_headers());
        }
        v
    }

    fn row(&self) -> (r: Vec<String>) {
        let mut v: Vec<String> = Vec::new();
        v.push(self.id.clone());
        v.push(self.name.clone());
        v.push(opt_text(&self.created_at));
        proof {
            assert(v.deep_view() =~= self.spec_row());
        }
        v
    }
}

/// Envelope around a list of API keys.
#[derive(Debug, Clone)]
pub struct ApiKeysResponse {
    pub data: Vec<ApiKey>,
}

// === Template records ===

/// Request to create an email template.
#[derive(Debug, Clone)]
pub struct CreateTemplateRequest {
    pub name: String,
    pub subject: String,
    pub html: Option<String>,
    pub text: Option<String>,
}

/// Mathematical value of a [`CreateTemplateRequest`].
pub struct CreateTemplateRequestV {
    pub name: Seq<char>,
    pub subject: Seq<char>,
    pub html: Option<Seq<char>>,
    pub text: Option<Seq<char>>,
}

impl View for CreateTemplateRequest {
    type V = CreateTemplateRequestV;

    open spec fn view(&self) -> CreateTemplateRequestV {
        CreateTemplateRequestV {
            name: self.name@,
            subject: self.subject@,
            html: self.html.deep_view(),
            text: self.text.deep_view(),
        }
    }
}

/// Request to change a template; unset fields are left untouched.
#[derive(Debug, Clone)]
pub struct UpdateTemplateRequest {
    pub name: Option<String>,
    pub subject: Option<String>,
    pub html: Option<String>,
    pub text: Option<String>,
}

/// Mathematical value of an [`UpdateTemplateRequest`].
pub struct UpdateTemplateRequestV {
    pub name: Option<Seq<char>>,
    pub subject: Option<Seq<char>>,
    pub html: Option<Seq<char>>,
    pub text: Option<Seq<char>>,
}

impl View for UpdateTemplateRequest {
    type V = UpdateTemplateRequestV;

    open spec fn view(&self) -> UpdateTemplateRequestV {
        UpdateTemplateRequestV {
            name: self.name.deep_view(),
            subject: self.subject.deep_view(),
            html: self.html.deep_view(),
            text: self.text.deep_view(),
        }
    }
}

/// An email template record.
#[derive(Debug, Clone)]
pub struct Template {
    pub id: String,
    pub name: String,
    pub subject: Option<String>,
    pub created_at: Option<String>,
}

/// Mathematical value of a [`Template`].
pub struct TemplateV {
    pub id: Seq<char>,
    pub name: Seq<char>,
    pub subject: Option<Seq<char>>,
    pub created_at: Option<Seq<char>>,
}

impl View for Template {
    type V = TemplateV;

    open spec fn view(&self) -> TemplateV {
        TemplateV {
            id: self.id@,
            name: self.name@,
            subject: self.subject.deep_view(),
            created_at: self.created_at.deep_view(),
        }
    }
}

impl DeepView for Template {
    type V = TemplateV;

    open spec fn deep_view(&self) -> TemplateV {
        self.view()
    }
}

impl Tabular for Template {
    open spec fn spec_headers() -> Seq<Seq<char>> {
        seq!["ID"@, "NAME"@, "SUBJECT"@, "CREATED"@]
    }

    open spec fn spec_row(&self) -> Seq<Seq<char>> {
        seq![
            self.id@,
            self.name@,
            spec_opt_text(self.subject.deep_view()),
            spec_opt_text(self.created_at.deep_view()),
        ]
    }

    fn headers() -> (r: Vec<&'static str>) {
        let mut v: Vec<&'static str> = Vec::new();
        v.push("ID");
        v.push("NAME");
        v.push("SUBJECT");
        v.push("CREATED");
        proof {
            assert(v.deep_view() =~= Self::spec_headers());
        }
        v
    }

    fn row(&self) -> (r: Vec<String>) {
        let mut v: Vec<String> = Vec::new();
        v.push(self.id.clone());
        v.push(self.name.clone());
        v.push(opt_text(&self.subject));
        v.push(opt_text(&self.created_at));
        proof {
            assert(v.deep_view() =~= self.spec_row());
        }
        v
    }
}

/// Envelope around a list of templates.
#[derive(Debug, Clone)]
pub struct TemplatesResponse {
    pub data: Vec<Template>,
}

// === Error body ===

/// The shape the service uses for structured error bodies; kept for
/// callers that wish to inspect one, the client itself forwards error
/// bodies verbatim.
#[derive(Debug, Clone)]
pub struct ErrorResponse {
    pub message: Option<String>,
    pub name: Option<String>,
}

} // verus!
