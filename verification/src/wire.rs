//! The wire shape of each resource record: how requests are framed as JSON
//! and how response bodies decode into typed records.
//!
//! Requests follow the skip-if-unset rule: an optional field that is unset
//! contributes no member to the serialized object, rather than a null.
//! Response decoding requires the fields a record cannot live without and
//! tolerates absent or null optional ones; a present field of the wrong
//! shape is a decode failure, never silently defaulted.

use vstd::prelude::*;

use crate::json::{
    spec_json_of, spec_jsons_of, spec_members_of, spec_obj_lookup, lemma_jsons_of,
    lemma_members_of, Json, JsonValue,
};
use crate::types::{
    ApiKey, ApiKeyV, CreateApiKeyRequest, CreateApiKeyRequestV, CreateDomainRequest,
    CreateDomainRequestV, CreateTemplateRequest, CreateTemplateRequestV, DnsRecord, DnsRecordV,
    Domain, DomainV, Email, EmailV, SendEmailRequest, SendEmailRequestV, SendEmailResponse,
    SendEmailResponseV, Template, TemplateV, UpdateDomainRequest, UpdateDomainRequestV,
    UpdateEmailRequest, UpdateEmailRequestV, UpdateTemplateRequest, UpdateTemplateRequestV,
};

verus! {

use vstd::string::StringExecFns;

// === Request framing ===

/// A list of strings as JSON values.
pub open spec fn spec_json_strs(items: Seq<Seq<char>>) -> Seq<Json> {
    Seq::new(items.len(), |i: int| Json::Str(items[i]))
}

/// The members an optional string field contributes: one when set, none
/// when unset.
pub open spec fn spec_opt_str_members(key: Seq<char>, o: Option<Seq<char>>) -> Seq<
    (Seq<char>, Json),
> {
    match o {
        Some(s) => seq![(key, Json::Str(s))],
        None => Seq::empty(),
    }
}

/// The members an optional string-list field contributes.
pub open spec fn spec_opt_strs_members(key: Seq<char>, o: Option<Seq<Seq<char>>>) -> Seq<
    (Seq<char>, Json),
> {
    match o {
        Some(items) => seq![(key, Json::Arr(spec_json_strs(items)))],
        None => Seq::empty(),
    }
}

/// The members an optional boolean field contributes.
pub open spec fn spec_opt_bool_members(key: Seq<char>, o: Option<bool>) -> Seq<
    (Seq<char>, Json),
> {
    match o {
        Some(b) => seq![(key, Json::Bool(b))],
        None => Seq::empty(),
    }
}

/// The keys of an object's members, in order.
pub open spec fn spec_obj_keys(members: Seq<(Seq<char>, Json)>) -> Seq<Seq<char>> {
    Seq::new(members.len(), |i: int| members[i].0)
}

/// The wire body of a send-email request: `from`, `to` and `subject`
/// always, each optional field only when set.
pub open spec fn spec_send_email_json(r: SendEmailRequestV) -> Json {
    Json::Obj(
        seq![
            ("from"@, Json::Str(r.from)),
            ("to"@, Json::Arr(spec_json_strs(r.to))),
            ("subject"@, Json::Str(r.subject)),
        ] + spec_opt_str_members("html"@, r.html) + spec_opt_str_members("text"@, r.text)
            + spec_opt_strs_members("cc"@, r.cc) + spec_opt_strs_members("bcc"@, r.bcc)
            + spec_opt_strs_members("reply_to"@, r.reply_to) + spec_opt_str_members(
            "scheduled_at"@,
            r.scheduled_at,
        ),
    )
}

/// The wire body of a reschedule request: the one required field.
pub open spec fn spec_update_email_json(r: UpdateEmailRequestV) -> Json {
    Json::Obj(seq![("scheduled_at"@, Json::Str(r.scheduled_at))])
}

/// The wire body of a create-domain request.
pub open spec fn spec_create_domain_json(r: CreateDomainRequestV) -> Json {
    Json::Obj(
        seq![("name"@, Json::Str(r.name))] + spec_opt_str_members("region"@, r.region),
    )
}

/// The wire body of an update-domain request: only the set fields.
pub open spec fn spec_update_domain_json(r: UpdateDomainRequestV) -> Json {
    Json::Obj(
        spec_opt_bool_members("click_tracking"@, r.click_tracking) + spec_opt_bool_members(
            "open_tracking"@,
            r.open_tracking,
        ) + spec_opt_str_members("tls"@, r.tls),
    )
}

/// The wire body of a create-key request.
pub open spec fn spec_create_api_key_json(r: CreateApiKeyRequestV) -> Json {
    Json::Obj(
        seq![("name"@, Json::Str(r.name))] + spec_opt_str_members("permission"@, r.permission)
            + spec_opt_str_members("domain_id"@, r.domain_id),
    )
}

/// The wire body of a create-template request.
pub open spec fn spec_create_template_json(r: CreateTemplateRequestV) -> Json {
    Json::Obj(
        seq![("name"@, Json::Str(r.name)), ("subject"@, Json::Str(r.subject))]
            + spec_opt_str_members("html"@, r.html) + spec_opt_str_members("text"@, r.text),
    )
}

/// The wire body of an update-template request: only the set fields.
pub open spec fn spec_update_template_json(r: UpdateTemplateRequestV) -> Json {
    Json::Obj(
        spec_opt_str_members("name"@, r.name) + spec_opt_str_members("subject"@, r.subject)
            + spec_opt_str_members("html"@, r.html) + spec_opt_str_members("text"@, r.text),
    )
}

/// A list of strings as a JSON array value.
fn strs_to_json(items: &Vec<String>) -> (r: JsonValue)
    ensures
        r@ == Json::Arr(spec_json_strs(items.deep_view())),
{
    let mut out: Vec<JsonValue> = Vec::new();
    let mut i: usize = 0;
    while i < items.len()
        invariant
            i <= items@.len(),
            out@.len() == i,
            forall|k: int| 0 <= k < i ==> (#[trigger] out@[k])@ == Json::Str(items@[k]@),
        decreases items@.len() - i,
    {
        out.push(JsonValue::Str(items[i].clone()));
        i = i + 1;
    }
    proof {
        lemma_jsons_of(out@);
        assert forall|k: int| 0 <= k < out@.len() implies spec_jsons_of(out@)[k]
            == spec_json_strs(items.deep_view())[k] by {
            assert(spec_jsons_of(out@)[k] == spec_json_of(out@[k]));
            assert(out@[k]@ == Json::Str(items@[k]@));
            assert(items.deep_view()[k] == items@[k]@);
        }
        assert(spec_jsons_of(out@) =~= spec_json_strs(items.deep_view()));
    }
    JsonValue::Arr(out)
}

/// Mathematical members of a member list grow one entry per push.
proof fn lemma_members_of_push(ms: Seq<(String, JsonValue)>, x: (String, JsonValue))
    ensures
        spec_members_of(ms.push(x)) == spec_members_of(ms).push(
            (x.0@, spec_json_of(x.1)),
        ),
{
    assert(ms.push(x).drop_last() =~= ms);
    assert(ms.push(x).last() == x);
}

/// Append the member of a required string field.
fn push_str(members: &mut Vec<(String, JsonValue)>, key: &'static str, v: &String)
    ensures
        spec_members_of(final(members)@) == spec_members_of(old(members)@) + seq![
            (key@, Json::Str(v@)),
        ],
{
    let ghost prev = members@;
    let entry = (String::from_str(key), JsonValue::Str(v.clone()));
    let ghost gx = entry;
    members.push(entry);
    proof {
        lemma_members_of_push(prev, gx);
        assert(spec_members_of(members@) =~= spec_members_of(prev) + seq![(key@, Json::Str(v@))]);
    }
}

/// Append the member of a required string-list field.
fn push_strs(members: &mut Vec<(String, JsonValue)>, key: &'static str, items: &Vec<String>)
    ensures
        spec_members_of(final(members)@) == spec_members_of(old(members)@) + seq![
            (key@, Json::Arr(spec_json_strs(items.deep_view()))),
        ],
{
    let ghost prev = members@;
    let entry = (String::from_str(key), strs_to_json(items));
    let ghost gx = entry;
    members.push(entry);
    proof {
        lemma_members_of_push(prev, gx);
        assert(spec_members_of(members@) =~= spec_members_of(prev) + seq![
            (key@, Json::Arr(spec_json_strs(items.deep_view()))),
        ]);
    }
}

/// Append the member of an optional string field, when it is set.
fn push_opt_str(members: &mut Vec<(String, JsonValue)>, key: &'static str, o: &Option<String>)
    ensures
        spec_members_of(final(members)@) == spec_members_of(old(members)@)
            + spec_opt_str_members(key@, o.deep_view()),
{
    match o {
        Some(v) => {
            let ghost prev = members@;
            let entry = (String::from_str(key), JsonValue::Str(v.clone()));
            let ghost gx = entry;
            members.push(entry);
            proof {
                lemma_members_of_push(prev, gx);
                assert(spec_members_of(members@) =~= spec_members_of(prev)
                    + spec_opt_str_members(key@, o.deep_view()));
            }
        },
        None => {
            proof {
                assert(spec_members_of(members@) =~= spec_members_of(members@)
                    + spec_opt_str_members(key@, o.deep_view()));
            }
        },
    }
}

/// Append the member of an optional string-list field, when it is set.
fn push_opt_strs(
    members: &mut Vec<(String, JsonValue)>,
    key: &'static str,
    o: &Option<Vec<String>>,
)
    ensures
        spec_members_of(final(members)@) == spec_members_of(old(members)@)
            + spec_opt_strs_members(key@, o.deep_view()),
{
    match o {
        Some(items) => {
            let ghost prev = members@;
            let entry = (String::from_str(key), strs_to_json(items));
            let ghost gx = entry;
            members.push(entry);
            proof {
                lemma_members_of_push(prev, gx);
                assert(spec_members_of(members@) =~= spec_members_of(prev)
                    + spec_opt_strs_members(key@, o.deep_view()));
            }
        },
        None => {
            proof {
                assert(spec_members_of(members@) =~= spec_members_of(members@)
                    + spec_opt_strs_members(key@, o.deep_view()));
            }
        },
    }
}

/// Append the member of an optional boolean field, when it is set.
fn push_opt_bool(members: &mut Vec<(String, JsonValue)>, key: &'static str, o: Option<bool>)
    ensures
        spec_members_of(final(members)@) == spec_members_of(old(members)@)
            + spec_opt_bool_members(key@, o),
{
    match o {
        Some(b) => {
            let ghost prev = members@;
            let entry = (String::from_str(key), JsonValue::Bool(b));
            let ghost gx = entry;
            members.push(entry);
            proof {
                lemma_members_of_push(prev, gx);
                assert(spec_members_of(members@) =~= spec_members_of(prev)
                    + spec_opt_bool_members(key@, o));
            }
        },
        None => {
            proof {
                assert(spec_members_of(members@) =~= spec_members_of(members@)
                    + spec_opt_bool_members(key@, o));
            }
        },
    }
}

impl SendEmailRequest {
    /// The JSON tree of this request's wire body.
    pub fn to_json(&self) -> (r: JsonValue)
        ensures
            r@ == spec_send_email_json(self@),
    {
        let mut members: Vec<(String, JsonValue)> = Vec::new();
        proof {
            assert(spec_members_of(members@) =~= Seq::<(Seq<char>, Json)>::empty());
        }
        push_str(&mut members, "from", &self.from);
        push_strs(&mut members, "to", &self.to);
        push_str(&mut members, "subject", &self.subject);
        push_opt_str(&mut members, "html", &self.html);
        push_opt_str(&mut members, "text", &self.text);
        push_opt_strs(&mut members, "cc", &self.cc);
        push_opt_strs(&mut members, "bcc", &self.bcc);
        push_opt_strs(&mut members, "reply_to", &self.reply_to);
        push_opt_str(&mut members, "scheduled_at", &self.scheduled_at);
        proof {
            assert(spec_members_of(members@) =~= spec_send_email_json(self@)->Obj_0);
        }
        JsonValue::Obj(members)
    }
}

impl UpdateEmailRequest {
    /// The JSON tree of this request's wire body.
    pub fn to_json(&self) -> (r: JsonValue)
        ensures
            r@ == spec_update_email_json(self@),
    {
        let mut members: Vec<(String, JsonValue)> = Vec::new();
        proof {
            assert(spec_members_of(members@) =~= Seq::<(Seq<char>, Json)>::empty());
        }
        push_str(&mut members, "scheduled_at", &self.scheduled_at);
        proof {
            assert(spec_members_of(members@) =~= spec_update_email_json(self@)->Obj_0);
        }
        JsonValue::Obj(members)
    }
}

impl CreateDomainRequest {
    /// The JSON tree of this request's wire body.
    pub fn to_json(&self) -> (r: JsonValue)
        ensures
            r@ == spec_create_domain_json(self@),
    {
        let mut members: Vec<(String, JsonValue)> = Vec::new();
        proof {
            assert(spec_members_of(members@) =~= Seq::<(Seq<char>, Json)>::empty());
        }
        push_str(&mut members, "name", &self.name);
        push_opt_str(&mut members, "region", &self.region);
        proof {
            assert(spec_members_of(members@) =~= spec_create_domain_json(self@)->Obj_0);
        }
        JsonValue::Obj(members)
    }
}

impl UpdateDomainRequest {
    /// The JSON tree of this request's wire body.
    pub fn to_json(&self) -> (r: JsonValue)
        ensures
            r@ == spec_update_domain_json(self@),
    {
        let mut members: Vec<(String, JsonValue)> = Vec::new();
        proof {
            assert(spec_members_of(members@) =~= Seq::<(Seq<char>, Json)>::empty());
        }
        push_opt_bool(&mut members, "click_tracking", self.click_tracking);
        push_opt_bool(&mut members, "open_tracking", self.open_tracking);
        push_opt_str(&mut members, "tls", &self.tls);
        proof {
            assert(spec_members_of(members@) =~= spec_update_domain_json(self@)->Obj_0);
        }
        JsonValue::Obj(members)
    }
}

impl CreateApiKeyRequest {
    /// The JSON tree of this request's wire body.
    pub fn to_json(&self) -> (r: JsonValue)
        ensures
            r@ == spec_create_api_key_json(self@),
    {
        let mut members: Vec<(String, JsonValue)> = Vec::new();
        proof {
            assert(spec_members_of(members@) =~= Seq::<(Seq<char>, Json)>::empty());
        }
        push_str(&mut members, "name", &self.name);
        push_opt_str(&mut members, "permission", &self.permission);
        push_opt_str(&mut members, "domain_id", &self.domain_id);
        proof {
            assert(spec_members_of(members@) =~= spec_create_api_key_json(self@)->Obj_0);
        }
        JsonValue::Obj(members)
    }
}

impl CreateTemplateRequest {
    /// The JSON tree of this request's wire body.
    pub fn to_json(&self) -> (r: JsonValue)
        ensures
            r@ == spec_create_template_json(self@),
    {
        let mut members: Vec<(String, JsonValue)> = Vec::new();
        proof {
            assert(spec_members_of(members@) =~= Seq::<(Seq<char>, Json)>::empty());
        }
        push_str(&mut members, "name", &self.name);
        push_str(&mut members, "subject", &self.subject);
        push_opt_str(&mut members, "html", &self.html);
        push_opt_str(&mut members, "text", &self.text);
        proof {
            assert(spec_members_of(members@) =~= spec_create_template_json(self@)->Obj_0);
        }
        JsonValue::Obj(members)
    }
}

impl UpdateTemplateRequest {
    /// The JSON tree of this request's wire body.
    pub fn to_json(&self) -> (r: JsonValue)
        ensures
            r@ == spec_update_template_json(self@),
    {
        let mut members: Vec<(String, JsonValue)> = Vec::new();
        proof {
            assert(spec_members_of(members@) =~= Seq::<(Seq<char>, Json)>::empty());
        }
        push_opt_str(&mut members, "name", &self.name);
        push_opt_str(&mut members, "subject", &self.subject);
        push_opt_str(&mut members, "html", &self.html);
        push_opt_str(&mut members, "text", &self.text);
        proof {
            assert(spec_members_of(members@) =~= spec_update_template_json(self@)->Obj_0);
        }
        JsonValue::Obj(members)
    }
}

/// A send-email request with every optional field unset frames exactly
/// its three required members, in order: no unset field reaches the wire,
/// as a null or otherwise.
pub proof fn lemma_send_email_omits_unset(r: SendEmailRequestV)
    requires
        r.html is None,
        r.text is None,
        r.cc is None,
        r.bcc is None,
        r.reply_to is None,
        r.scheduled_at is None,
    ensures
        spec_obj_keys(spec_send_email_json(r)->Obj_0) =~= seq!["from"@, "to"@, "subject"@],
{
}

/// An optional field of a send-email request contributes a member exactly
/// when it is set.
#[verifier::rlimit(100)]
pub proof fn lemma_send_email_optional_keys(r: SendEmailRequestV)
    ensures
        spec_obj_keys(spec_send_email_json(r)->Obj_0).contains("html"@) <==> r.html is Some,
        spec_obj_keys(spec_send_email_json(r)->Obj_0).contains("text"@) <==> r.text is Some,
        spec_obj_keys(spec_send_email_json(r)->Obj_0).contains("cc"@) <==> r.cc is Some,
        spec_obj_keys(spec_send_email_json(r)->Obj_0).contains("bcc"@) <==> r.bcc is Some,
        spec_obj_keys(spec_send_email_json(r)->Obj_0).contains("reply_to"@) <==> (
        r.reply_to is Some),
        spec_obj_keys(spec_send_email_json(r)->Obj_0).contains("scheduled_at"@) <==> (
        r.scheduled_at is Some),
{
    reveal_strlit("from");
    reveal_strlit("to");
    reveal_strlit("subject");
    reveal_strlit("html");
    reveal_strlit("text");
    reveal_strlit("cc");
    reveal_strlit("bcc");
    reveal_strlit("reply_to");
    reveal_strlit("scheduled_at");
    let ms = spec_send_email_json(r)->Obj_0;
    let keys = spec_obj_keys(ms);
    assert("from"@.len() != "to"@.len() && "from"@ != "to"@);
    assert("from"@.len() != "subject"@.len() && "from"@ != "subject"@);
    assert("from"@[0] != "html"@[0] && "from"@ != "html"@);
    assert("from"@[0] != "text"@[0] && "from"@ != "text"@);
    assert("from"@.len() != "cc"@.len() && "from"@ != "cc"@);
    assert("from"@.len() != "bcc"@.len() && "from"@ != "bcc"@);
    assert("from"@.len() != "reply_to"@.len() && "from"@ != "reply_to"@);
    assert("from"@.len() != "scheduled_at"@.len() && "from"@ != "scheduled_at"@);
    assert("to"@.len() != "subject"@.len() && "to"@ != "subject"@);
    assert("to"@.len() != "html"@.len() && "to"@ != "html"@);
    assert("to"@.len() != "text"@.len() && "to"@ != "text"@);
    assert("to"@[0] != "cc"@[0] && "to"@ != "cc"@);
    assert("to"@.len() != "bcc"@.len() && "to"@ != "bcc"@);
    assert("to"@.len() != "reply_to"@.len() && "to"@ != "reply_to"@);
    assert("to"@.len() != "scheduled_at"@.len() && "to"@ != "scheduled_at"@);
    assert("subject"@.len() != "html"@.len() && "subject"@ != "html"@);
    assert("subject"@.len() != "text"@.len() && "subject"@ != "text"@);
    assert("subject"@.len() != "cc"@.len() && "subject"@ != "cc"@);
    assert("subject"@.len() != "bcc"@.len() && "subject"@ != "bcc"@);
    assert("subject"@.len() != "reply_to"@.len() && "subject"@ != "reply_to"@);
    assert("subject"@.len() != "scheduled_at"@.len() && "subject"@ != "scheduled_at"@);
    assert("html"@[0] != "text"@[0] && "html"@ != "text"@);
    assert("html"@.len() != "cc"@.len() && "html"@ != "cc"@);
    assert("html"@.len() != "bcc"@.len() && "html"@ != "bcc"@);
    assert("html"@.len() != "reply_to"@.len() && "html"@ != "reply_to"@);
    assert("html"@.len() != "scheduled_at"@.len() && "html"@ != "scheduled_at"@);
    assert("text"@.len() != "cc"@.len() && "text"@ != "cc"@);
    assert("text"@.len() != "bcc"@.len() && "text"@ != "bcc"@);
    assert("text"@.len() != "reply_to"@.len() && "text"@ != "reply_to"@);
    assert("text"@.len() != "scheduled_at"@.len() && "text"@ != "scheduled_at"@);
    assert("cc"@.len() != "bcc"@.len() && "cc"@ != "bcc"@);
    assert("cc"@.len() != "reply_to"@.len() && "cc"@ != "reply_to"@);
    assert("cc"@.len() != "scheduled_at"@.len() && "cc"@ != "scheduled_at"@);
    assert("bcc"@.len() != "reply_to"@.len() && "bcc"@ != "reply_to"@);
    assert("bcc"@.len() != "scheduled_at"@.len() && "bcc"@ != "scheduled_at"@);
    assert("reply_to"@.len() != "scheduled_at"@.len() && "reply_to"@ != "scheduled_at"@);
    assert(spec_opt_str_members("html"@, r.html).len() == if r.html is Some {
        1int
    } else {
        0
    });
    assert(spec_opt_str_members("text"@, r.text).len() == if r.text is Some {
        1int
    } else {
        0
    });
    assert(spec_opt_strs_members("cc"@, r.cc).len() == if r.cc is Some {
        1int
    } else {
        0
    });
    assert(spec_opt_strs_members("bcc"@, r.bcc).len() == if r.bcc is Some {
        1int
    } else {
        0
    });
    assert(spec_opt_strs_members("reply_to"@, r.reply_to).len() == if r.reply_to is Some {
        1int
    } else {
        0
    });
    assert(spec_opt_str_members("scheduled_at"@, r.scheduled_at).len()
        == if r.scheduled_at is Some {
        1int
    } else {
        0
    });
    let i_html: int = 3;
    let i_text: int = i_html + if r.html is Some {
        1int
    } else {
        0
    };
    let i_cc: int = i_text + if r.text is Some {
        1int
    } else {
        0
    };
    let i_bcc: int = i_cc + if r.cc is Some {
        1int
    } else {
        0
    };
    let i_reply: int = i_bcc + if r.bcc is Some {
        1int
    } else {
        0
    };
    let i_sched: int = i_reply + if r.reply_to is Some {
        1int
    } else {
        0
    };
    if r.html is Some {
        assert(keys[i_html] == "html"@);
        assert(keys.contains("html"@));
    }
    if r.text is Some {
        assert(keys[i_text] == "text"@);
        assert(keys.contains("text"@));
    }
    if r.cc is Some {
        assert(keys[i_cc] == "cc"@);
        assert(keys.contains("cc"@));
    }
    if r.bcc is Some {
        assert(keys[i_bcc] == "bcc"@);
        assert(keys.contains("bcc"@));
    }
    if r.reply_to is Some {
        assert(keys[i_reply] == "reply_to"@);
        assert(keys.contains("reply_to"@));
    }
    if r.scheduled_at is Some {
        assert(keys[i_sched] == "scheduled_at"@);
        assert(keys.contains("scheduled_at"@));
    }
    assert forall|i: int| 0 <= i < ms.len() implies ms[i].0 == "from"@ || ms[i].0 == "to"@
        || ms[i].0 == "subject"@ || (r.html is Some && ms[i].0 == "html"@) || (r.text is Some
        && ms[i].0 == "text"@) || (r.cc is Some && ms[i].0 == "cc"@) || (r.bcc is Some && ms[i].0
        == "bcc"@) || (r.reply_to is Some && ms[i].0 == "reply_to"@) || (r.scheduled_at is Some
        && ms[i].0 == "scheduled_at"@) by {
    }
}

/// An update-template request with nothing set frames the empty object.
pub proof fn lemma_update_template_omits_unset(r: UpdateTemplateRequestV)
    requires
        r.name is None,
        r.subject is None,
        r.html is None,
        r.text is None,
    ensures
        spec_update_template_json(r)->Obj_0 =~= Seq::<(Seq<char>, Json)>::empty(),
{
}

/// An update-domain request with nothing set frames the empty object.
pub proof fn lemma_update_domain_omits_unset(r: UpdateDomainRequestV)
    requires
        r.click_tracking is None,
        r.open_tracking is None,
        r.tls is None,
    ensures
        spec_update_domain_json(r)->Obj_0 =~= Seq::<(Seq<char>, Json)>::empty(),
{
}

/// A create-domain request without a region frames only the name.
pub proof fn lemma_create_domain_omits_unset(r: CreateDomainRequestV)
    requires
        r.region is None,
    ensures
        spec_obj_keys(spec_create_domain_json(r)->Obj_0) =~= seq!["name"@],
{
}

/// A create-key request with neither option set frames only the name.
pub proof fn lemma_create_api_key_omits_unset(r: CreateApiKeyRequestV)
    requires
        r.permission is None,
        r.domain_id is None,
    ensures
        spec_obj_keys(spec_create_api_key_json(r)->Obj_0) =~= seq!["name"@],
{
}

/// A create-template request with neither body set frames name and
/// subject alone.
pub proof fn lemma_create_template_omits_unset(r: CreateTemplateRequestV)
    requires
        r.html is None,
        r.text is None,
    ensures
        spec_obj_keys(spec_create_template_json(r)->Obj_0) =~= seq!["name"@, "subject"@],
{
}

// === Response decoding ===

/// A required string field: the value under `key` when the tree is an
/// object carrying a string there, failure otherwise.
pub open spec fn spec_field_str(j: Json, key: Seq<char>) -> Option<Seq<char>> {
    match j {
        Json::Obj(ms) => match spec_obj_lookup(ms, key) {
            Some(Json::Str(s)) => Some(s),
            _ => None,
        },
        _ => None,
    }
}

/// An optional string field: unset when absent or null, its value when a
/// string, failure for any other shape.  The outer option is the decode
/// outcome, the inner one the field.
pub open spec fn spec_field_opt_str(j: Json, key: Seq<char>) -> Option<Option<Seq<char>>> {
    match j {
        Json::Obj(ms) => match spec_obj_lookup(ms, key) {
            None => Some(None),
            Some(Json::Null) => Some(None),
            Some(Json::Str(s)) => Some(Some(s)),
            Some(_) => None,
        },
        _ => None,
    }
}

/// A list of JSON values as strings, failing on any non-string item.
pub open spec fn spec_strs_of(items: Seq<Json>) -> Option<Seq<Seq<char>>>
    decreases items.len(),
{
    if items.len() == 0 {
        Some(Seq::empty())
    } else {
        match spec_strs_of(items.drop_last()) {
            None => None,
            Some(pref) => match items.last() {
                Json::Str(s) => Some(pref.push(s)),
                _ => None,
            },
        }
    }
}

/// An optional string-list field.
pub open spec fn spec_field_opt_strs(j: Json, key: Seq<char>) -> Option<
    Option<Seq<Seq<char>>>,
> {
    match j {
        Json::Obj(ms) => match spec_obj_lookup(ms, key) {
            None => Some(None),
            Some(Json::Null) => Some(None),
            Some(Json::Arr(items)) => match spec_strs_of(items) {
                Some(ss) => Some(Some(ss)),
                None => None,
            },
            Some(_) => None,
        },
        _ => None,
    }
}

/// An optional small-integer field; an integer beyond the 32-bit range is
/// a decode failure.
pub open spec fn spec_field_opt_i32(j: Json, key: Seq<char>) -> Option<Option<int>> {
    match j {
        Json::Obj(ms) => match spec_obj_lookup(ms, key) {
            None => Some(None),
            Some(Json::Null) => Some(None),
            Some(Json::Int(n)) => if -0x8000_0000 <= n <= 0x7fff_ffff {
                Some(Some(n))
            } else {
                None
            },
            Some(_) => None,
        },
        _ => None,
    }
}

fn field_str(j: &JsonValue, key: &str) -> (r: Option<String>)
    ensures
        match spec_field_str(j@, key@) {
            Some(s) => r matches Some(x) && x@ == s,
            None => r is None,
        },
{
    match j.get(key) {
        Some(v) => match v {
            JsonValue::Str(s) => Some(s.clone()),
            _ => None,
        },
        None => None,
    }
}

fn field_opt_str(j: &JsonValue, key: &str) -> (r: Option<Option<String>>)
    ensures
        match spec_field_opt_str(j@, key@) {
            Some(o) => r matches Some(x) && x.deep_view() == o,
            None => r is None,
        },
{
    let is_obj = match j {
        JsonValue::Obj(_) => true,
        _ => false,
    };
    if !is_obj {
        return None;
    }
    match j.get(key) {
        None => Some(None),
        Some(v) => match v {
            JsonValue::Null => Some(None),
            JsonValue::Str(s) => Some(Some(s.clone())),
            _ => None,
        },
    }
}

/// A run of JSON values as strings.
fn strs_of(items: &Vec<JsonValue>) -> (r: Option<Vec<String>>)
    ensures
        match spec_strs_of(spec_jsons_of(items@)) {
            Some(ss) => r matches Some(v) && v.deep_view() == ss,
            None => r is None,
        },
{
    let ghost gitems = spec_jsons_of(items@);
    proof {
        lemma_jsons_of(items@);
    }
    let mut out: Vec<String> = Vec::new();
    let mut i: usize = 0;
    while i < items.len()
        invariant
            i <= items@.len(),
            gitems == spec_jsons_of(items@),
            gitems.len() == items@.len(),
            forall|k: int| 0 <= k < items@.len() ==> gitems[k] == spec_json_of(
                #[trigger] items@[k],
            ),
            spec_strs_of(gitems.take(i as int)) == Some(out.deep_view()),
        decreases items@.len() - i,
    {
        match &items[i] {
            JsonValue::Str(s) => {
                out.push(s.clone());
                proof {
                    let t = gitems.take(i + 1);
                    assert(t.drop_last() =~= gitems.take(i as int));
                    assert(t.last() == gitems[i as int]);
                    assert(spec_strs_of(t) == Some(out.deep_view())) by {
                        assert(out.deep_view() =~= out.deep_view().drop_last().push(
                            out.deep_view().last(),
                        ));
                    }
                }
            },
            _ => {
                proof {
                    assert(!(gitems[i as int] is Str));
                    lemma_strs_of_bad(gitems, i as int);
                }
                return None;
            },
        }
        i = i + 1;
    }
    proof {
        assert(gitems.take(items@.len() as int) =~= gitems);
    }
    Some(out)
}

/// One non-string item makes the whole string-list fail.
proof fn lemma_strs_of_bad(items: Seq<Json>, at: int)
    requires
        0 <= at < items.len(),
        !(items[at] is Str),
    ensures
        spec_strs_of(items) is None,
    decreases items.len(),
{
    if at < items.len() - 1 {
        assert(items.drop_last()[at] == items[at]);
        lemma_strs_of_bad(items.drop_last(), at);
    }
}

fn field_opt_strs(j: &JsonValue, key: &str) -> (r: Option<Option<Vec<String>>>)
    ensures
        match spec_field_opt_strs(j@, key@) {
            Some(o) => r matches Some(x) && x.deep_view() == o,
            None => r is None,
        },
{
    let is_obj = match j {
        JsonValue::Obj(_) => true,
        _ => false,
    };
    if !is_obj {
        return None;
    }
    match j.get(key) {
        None => Some(None),
        Some(v) => match v {
            JsonValue::Null => Some(None),
            JsonValue::Arr(items) => match strs_of(items) {
                Some(ss) => Some(Some(ss)),
                None => None,
            },
            _ => None,
        },
    }
}

fn field_opt_i32(j: &JsonValue, key: &str) -> (r: Option<Option<i32>>)
    ensures
        match spec_field_opt_i32(j@, key@) {
            Some(o) => r matches Some(x) && (match x {
                Some(p) => o == Some(p as int),
                None => o is None,
            }),
            None => r is None,
        },
{
    let is_obj = match j {
        JsonValue::Obj(_) => true,
        _ => false,
    };
    if !is_obj {
        return None;
    }
    match j.get(key) {
        None => Some(None),
        Some(v) => match v {
            JsonValue::Null => Some(None),
            JsonValue::Int(n) => {
                let n = *n;
                if -0x8000_0000i64 <= n && n <= 0x7fff_ffffi64 {
                    Some(Some(n as i32))
                } else {
                    None
                }
            },
            _ => None,
        },
    }
}

/// A record type that decodes from a JSON tree: the mathematical decode is
/// fixed by `spec_of_json`, and `of_json` computes exactly it.
pub trait FromJson: Sized + DeepView {
    /// What the tree decodes to, when it has the expected shape.
    spec fn spec_of_json(j: Json) -> Option<<Self as DeepView>::V>;

    /// Decode a tree; nothing exactly when the shape is unexpected.
    fn of_json(j: &JsonValue) -> (r: Option<Self>)
        ensures
            match Self::spec_of_json(j@) {
                Some(v) => r matches Some(x) && x.deep_view() == v,
                None => r is None,
            },
    ;
}

impl FromJson for SendEmailResponse {
    open spec fn spec_of_json(j: Json) -> Option<SendEmailResponseV> {
        match spec_field_str(j, "id"@) {
            Some(id) => Some(SendEmailResponseV { id }),
            None => None,
        }
    }

    fn of_json(j: &JsonValue) -> (r: Option<Self>) {
        match field_str(j, "id") {
            Some(id) => Some(SendEmailResponse { id }),
            None => None,
        }
    }
}

impl FromJson for Email {
    open spec fn spec_of_json(j: Json) -> Option<EmailV> {
        match spec_field_str(j, "id"@) {
            None => None,
            Some(id) => match spec_field_opt_str(j, "from"@) {
                None => None,
                Some(from) => match spec_field_opt_strs(j, "to"@) {
                    None => None,
                    Some(to) => match spec_field_opt_str(j, "subject"@) {
                        None => None,
                        Some(subject) => match spec_field_opt_str(j, "created_at"@) {
                            None => None,
                            Some(created_at) => match spec_field_opt_str(j, "last_event"@) {
                                None => None,
                                Some(last_event) => Some(
                                    EmailV { id, from, to, subject, created_at, last_event },
                                ),
                            },
                        },
                    },
                },
            },
        }
    }

    fn of_json(j: &JsonValue) -> (r: Option<Self>) {
        let id = match field_str(j, "id") {
            Some(v) => v,
            None => {
                return None;
            },
        };
        let from = match field_opt_str(j, "from") {
            Some(v) => v,
            None => {
                return None;
            },
        };
        let to = match field_opt_strs(j, "to") {
            Some(v) => v,
            None => {
                return None;
            },
        };
        let subject = match field_opt_str(j, "subject") {
            Some(v) => v,
            None => {
                return None;
            },
        };
        let created_at = match field_opt_str(j, "created_at") {
            Some(v) => v,
            None => {
                return None;
            },
        };
        let last_event = match field_opt_str(j, "last_event") {
            Some(v) => v,
            None => {
                return None;
            },
        };
        Some(Email { id, from, to, subject, created_at, last_event })
    }
}

impl FromJson for DnsRecord {
    open spec fn spec_of_json(j: Json) -> Option<DnsRecordV> {
        match spec_field_str(j, "record"@) {
            None => None,
            Some(record) => match spec_field_str(j, "name"@) {
                None => None,
                Some(name) => match spec_field_opt_str(j, "type"@) {
                    None => None,
                    Some(record_type) => match spec_field_opt_str(j, "ttl"@) {
                        None => None,
                        Some(ttl) => match spec_field_str(j, "value"@) {
                            None => None,
                            Some(value) => match spec_field_opt_str(j, "status"@) {
                                None => None,
                                Some(status) => match spec_field_opt_i32(j, "priority"@) {
                                    None => None,
                                    Some(priority) => Some(
                                        DnsRecordV {
                                            record,
                                            name,
                                            record_type,
                                            ttl,
                                            value,
                                            status,
                                            priority,
                                        },
                                    ),
                                },
                            },
                        },
                    },
                },
            },
        }
    }

    fn of_json(j: &JsonValue) -> (r: Option<Self>) {
        let record = match field_str(j, "record") {
            Some(v) => v,
            None => {
                return None;
            },
        };
        let name = match field_str(j, "name") {
            Some(v) => v,
            None => {
                return None;
            },
        };
        let record_type = match field_opt_str(j, "type") {
            Some(v) => v,
            None => {
                return None;
            },
        };
        let ttl = match field_opt_str(j, "ttl") {
            Some(v) => v,
            None => {
                return None;
            },
        };
        let value = match field_str(j, "value") {
            Some(v) => v,
            None => {
                return None;
            },
        };
        let status = match field_opt_str(j, "status") {
            Some(v) => v,
            None => {
                return None;
            },
        };
        let priority = match field_opt_i32(j, "priority") {
            Some(v) => v,
            None => {
                return None;
            },
        };
        Some(DnsRecord { record, name, record_type, ttl, value, status, priority })
    }
}

/// A run of JSON values, each decoded as a `T` record, failing on any item
/// of unexpected shape.
pub open spec fn spec_items_of<T: FromJson>(items: Seq<Json>) -> Option<
    Seq<<T as DeepView>::V>,
>
    decreases items.len(),
{
    if items.len() == 0 {
        Some(Seq::empty())
    } else {
        match spec_items_of::<T>(items.drop_last()) {
            None => None,
            Some(pref) => match T::spec_of_json(items.last()) {
                None => None,
                Some(v) => Some(pref.push(v)),
            },
        }
    }
}

/// One undecodable item makes the whole run fail.
proof fn lemma_items_of_bad<T: FromJson>(items: Seq<Json>, at: int)
    requires
        0 <= at < items.len(),
        T::spec_of_json(items[at]) is None,
    ensures
        spec_items_of::<T>(items) is None,
    decreases items.len(),
{
    if at < items.len() - 1 {
        assert(items.drop_last()[at] == items[at]);
        lemma_items_of_bad::<T>(items.drop_last(), at);
    }
}

/// A decoded run holds exactly the decode of each item, in order.
pub proof fn lemma_items_of_elementwise<T: FromJson>(items: Seq<Json>, vs: Seq<<T as DeepView>::V>)
    requires
        spec_items_of::<T>(items) == Some(vs),
    ensures
        vs.len() == items.len(),
        forall|i: int| 0 <= i < items.len() ==> T::spec_of_json(#[trigger] items[i]) == Some(
            vs[i],
        ),
    decreases items.len(),
{
    if items.len() > 0 {
        let pref = spec_items_of::<T>(items.drop_last());
        lemma_items_of_elementwise::<T>(items.drop_last(), pref->0);
        assert forall|i: int| 0 <= i < items.len() implies T::spec_of_json(#[trigger] items[i])
            == Some(vs[i]) by {
            if i < items.len() - 1 {
                assert(items.drop_last()[i] == items[i]);
                assert(vs[i] == pref->0[i]);
            } else {
                assert(items.last() == items[i]);
            }
        }
    }
}

/// Decode a run of JSON values as `T` records.
pub fn items_of_json<T: FromJson>(items: &Vec<JsonValue>) -> (r: Option<Vec<T>>)
    ensures
        match spec_items_of::<T>(spec_jsons_of(items@)) {
            Some(vs) => r matches Some(out) && out.deep_view() == vs,
            None => r is None,
        },
{
    let ghost gitems = spec_jsons_of(items@);
    proof {
        lemma_jsons_of(items@);
    }
    let mut out: Vec<T> = Vec::new();
    let mut i: usize = 0;
    while i < items.len()
        invariant
            i <= items@.len(),
            gitems == spec_jsons_of(items@),
            gitems.len() == items@.len(),
            forall|k: int| 0 <= k < items@.len() ==> gitems[k] == spec_json_of(
                #[trigger] items@[k],
            ),
            spec_items_of::<T>(gitems.take(i as int)) == Some(out.deep_view()),
        decreases items@.len() - i,
    {
        match T::of_json(&items[i]) {
            Some(v) => {
                out.push(v);
                proof {
                    let t = gitems.take(i + 1);
                    assert(t.drop_last() =~= gitems.take(i as int));
                    assert(t.last() == gitems[i as int]);
                    assert(spec_items_of::<T>(t) == Some(out.deep_view())) by {
                        assert(out.deep_view() =~= out.deep_view().drop_last().push(
                            out.deep_view().last(),
                        ));
                    }
                }
            },
            None => {
                proof {
                    lemma_items_of_bad::<T>(gitems, i as int);
                }
                return None;
            },
        }
        i = i + 1;
    }
    proof {
        assert(gitems.take(items@.len() as int) =~= gitems);
    }
    Some(out)
}

/// An optional field holding a run of `T` records.
pub open spec fn spec_field_opt_items<T: FromJson>(j: Json, key: Seq<char>) -> Option<
    Option<Seq<<T as DeepView>::V>>,
> {
    match j {
        Json::Obj(ms) => match spec_obj_lookup(ms, key) {
            None => Some(None),
            Some(Json::Null) => Some(None),
            Some(Json::Arr(items)) => match spec_items_of::<T>(items) {
                Some(vs) => Some(Some(vs)),
                None => None,
            },
            Some(_) => None,
        },
        _ => None,
    }
}

fn field_opt_items<T: FromJson>(j: &JsonValue, key: &str) -> (r: Option<Option<Vec<T>>>)
    ensures
        match spec_field_opt_items::<T>(j@, key@) {
            Some(o) => r matches Some(x) && (match x {
                Some(v) => o == Some(v.deep_view()),
                None => o is None,
            }),
            None => r is None,
        },
{
    let is_obj = match j {
        JsonValue::Obj(_) => true,
        _ => false,
    };
    if !is_obj {
        return None;
    }
    match j.get(key) {
        None => Some(None),
        Some(v) => match v {
            JsonValue::Null => Some(None),
            JsonValue::Arr(items) => match items_of_json::<T>(items) {
                Some(vs) => Some(Some(vs)),
                None => None,
            },
            _ => None,
        },
    }
}

impl FromJson for Domain {
    open spec fn spec_of_json(j: Json) -> Option<DomainV> {
        match spec_field_str(j, "id"@) {
            None => None,
            Some(id) => match spec_field_str(j, "name"@) {
                None => None,
                Some(name) => match spec_field_opt_str(j, "status"@) {
                    None => None,
                    Some(status) => match spec_field_opt_str(j, "region"@) {
                        None => None,
                        Some(region) => match spec_field_opt_items::<DnsRecord>(j, "records"@) {
                            None => None,
                            Some(records) => Some(
                                DomainV { id, name, status, region, records },
                            ),
                        },
                    },
                },
            },
        }
    }

    fn of_json(j: &JsonValue) -> (r: Option<Self>) {
        let id = match field_str(j, "id") {
            Some(v) => v,
            None => {
                return None;
            },
        };
        let name = match field_str(j, "name") {
            Some(v) => v,
            None => {
                return None;
            },
        };
        let status = match field_opt_str(j, "status") {
            Some(v) => v,
            None => {
                return None;
            },
        };
        let region = match field_opt_str(j, "region") {
            Some(v) => v,
            None => {
                return None;
            },
        };
        let records = match field_opt_items::<DnsRecord>(j, "records") {
            Some(v) => v,
            None => {
                return None;
            },
        };
        Some(Domain { id, name, status, region, records })
    }
}

impl FromJson for ApiKey {
    open spec fn spec_of_json(j: Json) -> Option<ApiKeyV> {
        match spec_field_str(j, "id"@) {
            None => None,
            Some(id) => match spec_field_str(j, "name"@) {
                None => None,
                Some(name) => match spec_field_opt_str(j, "token"@) {
                    None => None,
                    Some(token) => match spec_field_opt_str(j, "created_at"@) {
                        None => None,
                        Some(created_at) => Some(ApiKeyV { id, name, token, created_at }),
                    },
                },
            },
        }
    }

    fn of_json(j: &JsonValue) -> (r: Option<Self>) {
        let id = match field_str(j, "id") {
            Some(v) => v,
            None => {
                return None;
            },
        };
        let name = match field_str(j, "name") {
            Some(v) => v,
            None => {
                return None;
            },
        };
        let token = match field_opt_str(j, "token") {
            Some(v) => v,
            None => {
                return None;
            },
        };
        let created_at = match field_opt_str(j, "created_at") {
            Some(v) => v,
            None => {
                return None;
            },
        };
        Some(ApiKey { id, name, token, created_at })
    }
}

impl FromJson for Template {
    open spec fn spec_of_json(j: Json) -> Option<TemplateV> {
        match spec_field_str(j, "id"@) {
            None => None,
            Some(id) => match spec_field_str(j, "name"@) {
                None => None,
                Some(name) => match spec_field_opt_str(j, "subject"@) {
                    None => None,
                    Some(subject) => match spec_field_opt_str(j, "created_at"@) {
                        None => None,
                        Some(created_at) => Some(TemplateV { id, name, subject, created_at }),
                    },
                },
            },
        }
    }

    fn of_json(j: &JsonValue) -> (r: Option<Self>) {
        let id = match field_str(j, "id") {
            Some(v) => v,
            None => {
                return None;
            },
        };
        let name = match field_str(j, "name") {
            Some(v) => v,
            None => {
                return None;
            },
        };
        let subject = match field_opt_str(j, "subject") {
            Some(v) => v,
            None => {
                return None;
            },
        };
        let created_at = match field_opt_str(j, "created_at") {
            Some(v) => v,
            None => {
                return None;
            },
        };
        Some(Template { id, name, subject, created_at })
    }
}

// === The list envelope ===

/// What a list response decodes to: the envelope is an object whose `data`
/// member holds the items, which are returned as a plain ordered run with
/// the envelope discarded.
pub open spec fn spec_list_of<T: FromJson>(j: Json) -> Option<Seq<<T as DeepView>::V>> {
    match j {
        Json::Obj(ms) => match spec_obj_lookup(ms, "data"@) {
            Some(Json::Arr(items)) => spec_items_of::<T>(items),
            _ => None,
        },
        _ => None,
    }
}

/// Unwrap a list envelope: the ordered items under `data`.
pub fn list_of_json<T: FromJson>(j: &JsonValue) -> (r: Option<Vec<T>>)
    ensures
        match spec_list_of::<T>(j@) {
            Some(vs) => r matches Some(out) && out.deep_view() == vs,
            None => r is None,
        },
{
    match j.get("data") {
        Some(v) => match v {
            JsonValue::Arr(items) => items_of_json::<T>(items),
            _ => None,
        },
        None => None,
    }
}

/// Unwrapping the envelope keeps the order: when `data` holds items that
/// all decode, the result is exactly their decodes, item by item.
pub proof fn lemma_list_envelope_order<T: FromJson>(items: Seq<Json>, vs: Seq<<T as DeepView>::V>)
    requires
        spec_list_of::<T>(Json::Obj(seq![("data"@, Json::Arr(items))])) == Some(vs),
    ensures
        vs.len() == items.len(),
        forall|i: int| 0 <= i < items.len() ==> T::spec_of_json(#[trigger] items[i]) == Some(
            vs[i],
        ),
{
    let ms = seq![("data"@, Json::Arr(items))];
    assert(spec_obj_lookup(ms, "data"@) == Some(Json::Arr(items)));
    lemma_items_of_elementwise::<T>(items, vs);
}

/// A record without its required field does not decode: an object with no
/// `id` member never yields a send response, rather than a default-filled
/// value.
pub proof fn lemma_missing_required_field(ms: Seq<(Seq<char>, Json)>)
    requires
        spec_obj_lookup(ms, "id"@) is None,
    ensures
        <SendEmailResponse as FromJson>::spec_of_json(Json::Obj(ms)) is None,
{
}

// === Rendering records back to JSON ===

/// A record type that renders to a JSON tree for structured output.
/// Unlike request framing, output rendering writes every field, an unset
/// optional one as null.
pub trait ToJson: Sized {
    /// The tree this record renders to.
    spec fn spec_to_json(&self) -> Json;

    /// Render the record; exactly [`ToJson::spec_to_json`].
    fn to_output_json(&self) -> (r: JsonValue)
        ensures
            r@ == self.spec_to_json(),
    ;
}

/// An optional string as a JSON value: null when unset.
pub open spec fn spec_nullable_str(o: Option<Seq<char>>) -> Json {
    match o {
        Some(s) => Json::Str(s),
        None => Json::Null,
    }
}

/// An optional string list as a JSON value: null when unset.
pub open spec fn spec_nullable_strs(o: Option<Seq<Seq<char>>>) -> Json {
    match o {
        Some(items) => Json::Arr(spec_json_strs(items)),
        None => Json::Null,
    }
}

/// Append a member holding a string or null.
fn push_nullable_str(members: &mut Vec<(String, JsonValue)>, key: &'static str, o: &Option<String>)
    ensures
        spec_members_of(final(members)@) == spec_members_of(old(members)@) + seq![
            (key@, spec_nullable_str(o.deep_view())),
        ],
{
    let ghost prev = members@;
    let value = match o {
        Some(s) => JsonValue::Str(s.clone()),
        None => JsonValue::Null,
    };
    let entry = (String::from_str(key), value);
    let ghost gx = entry;
    members.push(entry);
    proof {
        lemma_members_of_push(prev, gx);
        assert(spec_members_of(members@) =~= spec_members_of(prev) + seq![
            (key@, spec_nullable_str(o.deep_view())),
        ]);
    }
}

/// Append a member holding a string list or null.
fn push_nullable_strs(
    members: &mut Vec<(String, JsonValue)>,
    key: &'static str,
    o: &Option<Vec<String>>,
)
    ensures
        spec_members_of(final(members)@) == spec_members_of(old(members)@) + seq![
            (key@, spec_nullable_strs(o.deep_view())),
        ],
{
    let ghost prev = members@;
    let value = match o {
        Some(items) => strs_to_json(items),
        None => JsonValue::Null,
    };
    let entry = (String::from_str(key), value);
    let ghost gx = entry;
    members.push(entry);
    proof {
        lemma_members_of_push(prev, gx);
        assert(spec_members_of(members@) =~= spec_members_of(prev) + seq![
            (key@, spec_nullable_strs(o.deep_view())),
        ]);
    }
}

impl ToJson for SendEmailResponse {
    open spec fn spec_to_json(&self) -> Json {
        Json::Obj(seq![("id"@, Json::Str(self.id@))])
    }

    fn to_output_json(&self) -> (r: JsonValue) {
        let mut members: Vec<(String, JsonValue)> = Vec::new();
        proof {
            assert(spec_members_of(members@) =~= Seq::<(Seq<char>, Json)>::empty());
        }
        push_str(&mut members, "id", &self.id);
        proof {
            assert(spec_members_of(members@) =~= self.spec_to_json()->Obj_0);
        }
        JsonValue::Obj(members)
    }
}

impl ToJson for Email {
    open spec fn spec_to_json(&self) -> Json {
        Json::Obj(
            seq![
                ("id"@, Json::Str(self.id@)),
                ("from"@, spec_nullable_str(self.from.deep_view())),
                ("to"@, spec_nullable_strs(self.to.deep_view())),
                ("subject"@, spec_nullable_str(self.subject.deep_view())),
                ("created_at"@, spec_nullable_str(self.created_at.deep_view())),
                ("last_event"@, spec_nullable_str(self.last_event.deep_view())),
            ],
        )
    }

    fn to_output_json(&self) -> (r: JsonValue) {
        let mut members: Vec<(String, JsonValue)> = Vec::new();
        proof {
            assert(spec_members_of(members@) =~= Seq::<(Seq<char>, Json)>::empty());
        }
        push_str(&mut members, "id", &self.id);
        push_nullable_str(&mut members, "from", &self.from);
        push_nullable_strs(&mut members, "to", &self.to);
        push_nullable_str(&mut members, "subject", &self.subject);
        push_nullable_str(&mut members, "created_at", &self.created_at);
        push_nullable_str(&mut members, "last_event", &self.last_event);
        proof {
            assert(spec_members_of(members@) =~= self.spec_to_json()->Obj_0);
        }
        JsonValue::Obj(members)
    }
}

impl ToJson for DnsRecord {
    open spec fn spec_to_json(&self) -> Json {
        Json::Obj(
            seq![
                ("record"@, Json::Str(self.record@)),
                ("name"@, Json::Str(self.name@)),
                ("type"@, spec_nullable_str(self.record_type.deep_view())),
                ("ttl"@, spec_nullable_str(self.ttl.deep_view())),
                ("value"@, Json::Str(self.value@)),
                ("status"@, spec_nullable_str(self.status.deep_view())),
                (
                    "priority"@,
                    match self.priority {
                        Some(p) => Json::Int(p as int),
                        None => Json::Null,
                    },
                ),
            ],
        )
    }

    fn to_output_json(&self) -> (r: JsonValue) {
        let mut members: Vec<(String, JsonValue)> = Vec::new();
        proof {
            assert(spec_members_of(members@) =~= Seq::<(Seq<char>, Json)>::empty());
        }
        push_str(&mut members, "record", &self.record);
        push_str(&mut members, "name", &self.name);
        push_nullable_str(&mut members, "type", &self.record_type);
        push_nullable_str(&mut members, "ttl", &self.ttl);
        push_str(&mut members, "value", &self.value);
        push_nullable_str(&mut members, "status", &self.status);
        let ghost prev = members@;
        let value = match self.priority {
            Some(p) => JsonValue::Int(p as i64),
            None => JsonValue::Null,
        };
        let entry = (String::from_str("priority"), value);
        let ghost gx = entry;
        members.push(entry);
        proof {
            lemma_members_of_push(prev, gx);
            assert(spec_members_of(members@) =~= self.spec_to_json()->Obj_0);
        }
        JsonValue::Obj(members)
    }
}

/// The trees of a run of records, in order.
pub open spec fn spec_jsons_to<T: ToJson>(items: Seq<T>) -> Seq<Json> {
    Seq::new(items.len(), |i: int| items[i].spec_to_json())
}

/// Render a run of records as a JSON array value.
pub fn items_to_json<T: ToJson>(items: &Vec<T>) -> (r: JsonValue)
    ensures
        r@ == Json::Arr(spec_jsons_to(items@)),
{
    let mut out: Vec<JsonValue> = Vec::new();
    let mut i: usize = 0;
    while i < items.len()
        invariant
            i <= items@.len(),
            out@.len() == i,
            forall|k: int| 0 <= k < i ==> (#[trigger] out@[k])@ == items@[k].spec_to_json(),
        decreases items@.len() - i,
    {
        out.push(items[i].to_output_json());
        i = i + 1;
    }
    proof {
        lemma_jsons_of(out@);
        assert forall|k: int| 0 <= k < out@.len() implies spec_jsons_of(out@)[k]
            == spec_jsons_to(items@)[k] by {
            assert(spec_jsons_of(out@)[k] == spec_json_of(out@[k]));
        }
        assert(spec_jsons_of(out@) =~= spec_jsons_to(items@));
    }
    JsonValue::Arr(out)
}

impl ToJson for Domain {
    open spec fn spec_to_json(&self) -> Json {
        Json::Obj(
            seq![
                ("id"@, Json::Str(self.id@)),
                ("name"@, Json::Str(self.name@)),
                ("status"@, spec_nullable_str(self.status.deep_view())),
                ("region"@, spec_nullable_str(self.region.deep_view())),
                (
                    "records"@,
                    match self.records {
                        Some(rs) => Json::Arr(spec_jsons_to(rs@)),
                        None => Json::Null,
                    },
                ),
            ],
        )
    }

    fn to_output_json(&self) -> (r: JsonValue) {
        let mut members: Vec<(String, JsonValue)> = Vec::new();
        proof {
            assert(spec_members_of(members@) =~= Seq::<(Seq<char>, Json)>::empty());
        }
        push_str(&mut members, "id", &self.id);
        push_str(&mut members, "name", &self.name);
        push_nullable_str(&mut members, "status", &self.status);
        push_nullable_str(&mut members, "region", &self.region);
        let ghost prev = members@;
        let value = match &self.records {
            Some(rs) => items_to_json(rs),
            None => JsonValue::Null,
        };
        let entry = (String::from_str("records"), value);
        let ghost gx = entry;
        members.push(entry);
        proof {
            lemma_members_of_push(prev, gx);
            assert(spec_members_of(members@) =~= self.spec_to_json()->Obj_0);
        }
        JsonValue::Obj(members)
    }
}

impl ToJson for ApiKey {
    open spec fn spec_to_json(&self) -> Json {
        Json::Obj(
            seq![
                ("id"@, Json::Str(self.id@)),
                ("name"@, Json::Str(self.name@)),
                ("token"@, spec_nullable_str(self.token.deep_view())),
                ("created_at"@, spec_nullable_str(self.created_at.deep_view())),
            ],
        )
    }

    fn to_output_json(&self) -> (r: JsonValue) {
        let mut members: Vec<(String, JsonValue)> = Vec::new();
        proof {
            assert(spec_members_of(members@) =~= Seq::<(Seq<char>, Json)>::empty());
        }
        push_str(&mut members, "id", &self.id);
        push_str(&mut members, "name", &self.name);
        push_nullable_str(&mut members, "token", &self.token);
        push_nullable_str(&mut members, "created_at", &self.created_at);
        proof {
            assert(spec_members_of(members@) =~= self.spec_to_json()->Obj_0);
        }
        JsonValue::Obj(members)
    }
}

impl ToJson for Template {
    open spec fn spec_to_json(&self) -> Json {
        Json::Obj(
            seq![
                ("id"@, Json::Str(self.id@)),
                ("name"@, Json::Str(self.name@)),
                ("subject"@, spec_nullable_str(self.subject.deep_view())),
                ("created_at"@, spec_nullable_str(self.created_at.deep_view())),
            ],
        )
    }

    fn to_output_json(&self) -> (r: JsonValue) {
        let mut members: Vec<(String, JsonValue)> = Vec::new();
        proof {
            assert(spec_members_of(members@) =~= Seq::<(Seq<char>, Json)>::empty());
        }
        push_str(&mut members, "id", &self.id);
        push_str(&mut members, "name", &self.name);
        push_nullable_str(&mut members, "subject", &self.subject);
        push_nullable_str(&mut members, "created_at", &self.created_at);
        proof {
            assert(spec_members_of(members@) =~= self.spec_to_json()->Obj_0);
        }
        JsonValue::Obj(members)
    }
}

} // verus!
