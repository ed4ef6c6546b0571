//! The SSM JSON protocol: each action read from its JSON request and answered
//! in JSON.
use vstd::prelude::*;
use crate::http::{append_json_str, append_json_str_array, json_str, json_str_array, reply, Reply, JSON11_TYPE};
use crate::json::{body_reads_as, body_unreadable, json_request_body, get_bool, get_str, get_strings, get_u64, json_as_bool, json_as_str, json_as_u64, json_get, json_strings, JsonValue};
use crate::ses::state::opt_text;
use crate::ssm::store::{page_size, SsmEngine, SsmError, SsmErrorKind};
use crate::ssm::types::{param_views, ParamView, Parameter, PutParameterRequest};
use crate::text::{append, append_i64, is_prefix, signed_decimal, str_eq, strip_prefix, views};

verus! {

/// The JSON form of a parameter, keys in order.
pub open spec fn parameter_json(p: ParamView) -> Seq<char> {
    "{\"ARN\":"@ + json_str(p.arn) + ",\"DataType\":"@ + json_str(p.data_type) + ",\"LastModifiedDate\":"@
        + signed_decimal(p.last_modified_date as int) + ",\"Name\":"@ + json_str(p.name) + ",\"Tier\":"@
        + json_str(p.tier) + ",\"Type\":"@ + json_str(p.parameter_type.name()) + ",\"Value\":"@ + json_str(p.value)
        + ",\"Version\":"@ + signed_decimal(p.version as int) + "}"@
}

/// Appends the JSON form of a parameter.
fn append_parameter(x: &mut String, p: &Parameter)
    ensures
        final(x)@ == old(x)@ + parameter_json(p@),
{
    append(x, "{\"ARN\":");
    append_json_str(x, p.arn.as_str());
    append(x, ",\"DataType\":");
    append_json_str(x, p.data_type.as_str());
    append(x, ",\"LastModifiedDate\":");
    append_i64(x, p.last_modified_date);
    append(x, ",\"Name\":");
    append_json_str(x, p.name.as_str());
    append(x, ",\"Tier\":");
    append_json_str(x, p.tier.as_str());
    append(x, ",\"Type\":");
    append_json_str(x, p.parameter_type.as_str());
    append(x, ",\"Value\":");
    append_json_str(x, p.value.as_str());
    append(x, ",\"Version\":");
    append_i64(x, p.version);
    append(x, "}");
    assert(x@ =~= old(x)@ + parameter_json(p@));
}

/// An optional string in JSON: a string literal or `null`.
pub open spec fn json_opt_str(o: Option<Seq<char>>) -> Seq<char> {
    match o {
        Some(s) => json_str(s),
        None => "null"@,
    }
}

/// The JSON form of a parameter's description, keys in order.
pub open spec fn description_json(p: ParamView) -> Seq<char> {
    "{\"DataType\":"@ + json_str(p.data_type) + ",\"Description\":"@ + json_opt_str(p.description)
        + ",\"LastModifiedDate\":"@ + signed_decimal(p.last_modified_date as int) + ",\"Name\":"@ + json_str(p.name)
        + ",\"Tier\":"@ + json_str(p.tier) + ",\"Type\":"@ + json_str(p.parameter_type.name()) + ",\"Version\":"@
        + signed_decimal(p.version as int) + "}"@
}

/// Appends the JSON description of a parameter.
fn append_description(x: &mut String, p: &Parameter)
    ensures
        final(x)@ == old(x)@ + description_json(p@),
{
    append(x, "{\"DataType\":");
    append_json_str(x, p.data_type.as_str());
    append(x, ",\"Description\":");
    match &p.description {
        Some(d) => append_json_str(x, d.as_str()),
        None => append(x, "null"),
    }
    append(x, ",\"LastModifiedDate\":");
    append_i64(x, p.last_modified_date);
    append(x, ",\"Name\":");
    append_json_str(x, p.name.as_str());
    append(x, ",\"Tier\":");
    append_json_str(x, p.tier.as_str());
    append(x, ",\"Type\":");
    append_json_str(x, p.parameter_type.as_str());
    append(x, ",\"Version\":");
    append_i64(x, p.version);
    append(x, "}");
    assert(x@ =~= old(x)@ + description_json(p@));
}

/// The items of a JSON array, each by `f`, joined by `,`.
pub open spec fn joined(ps: Seq<ParamView>, describe: bool) -> Seq<char>
    decreases ps.len(),
{
    if ps.len() == 0 {
        Seq::empty()
    } else {
        let item = if describe { description_json(ps.last()) } else { parameter_json(ps.last()) };
        if ps.len() == 1 { item } else { joined(ps.drop_last(), describe) + ","@ + item }
    }
}

/// A JSON array of parameters, in full or as descriptions.
pub open spec fn params_array(ps: Seq<ParamView>, describe: bool) -> Seq<char> {
    "["@ + joined(ps, describe) + "]"@
}

/// Appends a JSON array of parameters, in full or as descriptions.
#[verifier::rlimit(40)]
fn append_parameters(x: &mut String, ps: &Vec<Parameter>, describe: bool)
    ensures
        final(x)@ == old(x)@ + params_array(param_views(ps@), describe),
{
    let ghost pv = param_views(ps@);
    append(x, "[");
    let ghost head = x@;
    let mut i: usize = 0;
    while i < ps.len()
        invariant
            pv == param_views(ps@),
            i <= pv.len(),
            x@ == head + joined(pv.subrange(0, i as int), describe),
        decreases pv.len() - i,
    {
        assert(pv.subrange(0, i + 1).drop_last() =~= pv.subrange(0, i as int));
        if i > 0 {
            append(x, ",");
        }
        if describe {
            append_description(x, &ps[i]);
        } else {
            append_parameter(x, &ps[i]);
        }
        i = i + 1;
        assert(x@ =~= head + joined(pv.subrange(0, i as int), describe));
    }
    assert(pv.subrange(0, pv.len() as int) =~= pv);
    append(x, "]");
    assert(x@ =~= old(x)@ + params_array(pv, describe));
}

/// The JSON error body.
pub open spec fn ssm_error_json(code: Seq<char>, message: Seq<char>) -> Seq<char> {
    "{\"__type\":"@ + json_str(code) + ",\"message\":"@ + json_str(message) + "}"@
}

/// The answer to a failed request.
pub fn make_ssm_error_response(err: &SsmError) -> (r: Reply)
    ensures
        r.status == (if err.kind == SsmErrorKind::ParameterNotFound || err.kind == SsmErrorKind::ParameterVersionNotFound {
            404u16
        } else {
            400u16
        }),
        r.content_type@ == JSON11_TYPE@,
        r.body@ == ssm_error_json(err.kind.code_spec(), err.message@),
{
    let mut x = String::new();
    append(&mut x, "{\"__type\":");
    append_json_str(&mut x, err.kind.code());
    append(&mut x, ",\"message\":");
    append_json_str(&mut x, err.message.as_str());
    append(&mut x, "}");
    assert(x@ =~= ssm_error_json(err.kind.code_spec(), err.message@));
    reply(err.kind.status(), JSON11_TYPE, x)
}

/// The action named by the target: what follows `AmazonSSM.`, or the target.
pub open spec fn ssm_action(target: Seq<char>) -> Seq<char> {
    if is_prefix("AmazonSSM."@, target) { target.subrange("AmazonSSM."@.len() as int, target.len() as int) } else { target }
}

/// A validation failure with a message.
fn validation(message: &str) -> (e: SsmError)
    ensures
        e.kind == SsmErrorKind::ValidationException,
        e.message@ == message@,
{
    SsmError { kind: SsmErrorKind::ValidationException, message: message.to_owned() }
}

/// An answer with a body.
fn ok_json(x: String) -> (r: Reply)
    ensures
        r.status == 200,
        r.content_type@ == JSON11_TYPE@,
        r.body@ == x@,
{
    reply(200, JSON11_TYPE, x)
}

/// The answer to a failed request, in JSON.
pub open spec fn ssm_error_reply(r: Reply, kind: SsmErrorKind, message: Seq<char>) -> bool {
    &&& r.status == (if kind == SsmErrorKind::ParameterNotFound || kind == SsmErrorKind::ParameterVersionNotFound { 404u16 } else { 400u16 })
    &&& r.body@ == ssm_error_json(kind.code_spec(), message)
}

/// The answer to a put.
pub open spec fn put_json(version: i64) -> Seq<char> {
    "{\"Tier\":\"Standard\",\"Version\":"@ + signed_decimal(version as int) + "}"@
}

/// The name member of a request.
pub open spec fn name_of(body: JsonValue) -> Option<Seq<char>> {
    json_as_str(json_get(body, "Name"@))
}

/// What a `PutParameter` request does and answers.
pub open spec fn put_outcome(old: SsmEngine, new: SsmEngine, body: JsonValue, r: Reply) -> bool {
    match name_of(body) {
        None => ssm_error_reply(r, SsmErrorKind::ValidationException, "Parameter Name is required."@)
            && new.params() == old.params() && new.history() == old.history(),
        Some(n) => match json_as_str(json_get(body, "Value"@)) {
            None => ssm_error_reply(r, SsmErrorKind::ValidationException, "Parameter Value is required."@)
                && new.params() == old.params() && new.history() == old.history(),
            Some(v) => {
                ||| r.status == 200 && new.params().contains_key(n) && new.params()[n].value == v
                    && new.params() == old.params().insert(n, new.params()[n])
                    && r.body@ == put_json(new.params()[n].version)
                ||| old.params().contains_key(n) && new.params() == old.params() && new.history() == old.history()
                    && ssm_error_reply(r, SsmErrorKind::ParameterAlreadyExists, "The parameter already exists: "@ + n)
            },
        },
    }
}

/// Answers a `PutParameter` request.
fn ssm_put(engine: &mut SsmEngine, body: &JsonValue) -> (r: Reply)
    requires
        old(engine).wf(),
    ensures
        final(engine).wf(),
        final(engine).account() == old(engine).account(),
        final(engine).home_region() == old(engine).home_region(),
        r.content_type@ == JSON11_TYPE@,
        put_outcome(*old(engine), *final(engine), *body, r),
{
    let name = match get_str(body, "Name") {
        Some(n) => n,
        None => return make_ssm_error_response(&validation("Parameter Name is required.")),
    };
    let value = match get_str(body, "Value") {
        Some(v) => v,
        None => return make_ssm_error_response(&validation("Parameter Value is required.")),
    };
    let req = PutParameterRequest {
        name,
        value,
        parameter_type: get_str(body, "Type"),
        description: get_str(body, "Description"),
        overwrite: get_bool(body, "Overwrite"),
        key_id: get_str(body, "KeyId"),
        tier: get_str(body, "Tier"),
        data_type: get_str(body, "DataType"),
        allowed_pattern: get_str(body, "AllowedPattern"),
    };
    match engine.put_parameter(req) {
        Ok(version) => {
            let mut x = String::new();
            append(&mut x, "{\"Tier\":\"Standard\",\"Version\":");
            append_i64(&mut x, version);
            append(&mut x, "}");
            assert(x@ =~= put_json(version));
            ok_json(x)
        },
        Err(e) => make_ssm_error_response(&e),
    }
}

/// What a `GetParameter` request answers.
pub open spec fn get_outcome(e: SsmEngine, body: JsonValue, r: Reply) -> bool {
    match name_of(body) {
        None => ssm_error_reply(r, SsmErrorKind::ValidationException, "Parameter Name is required."@),
        Some(n) => {
            let (nm, ver) = crate::ssm::store::split_version(n);
            match ver {
                None => if e.params().contains_key(nm) {
                    r.status == 200 && r.body@ == "{\"Parameter\":"@ + parameter_json(e.params()[nm]) + "}"@
                } else {
                    ssm_error_reply(r, SsmErrorKind::ParameterNotFound, "Parameter "@ + nm + " not found."@)
                },
                Some(v) => match (if e.history().contains_key(nm) {
                    crate::ssm::store::find_version(e.history()[nm], v)
                } else {
                    None
                }) {
                    Some(p) => r.status == 200 && r.body@ == "{\"Parameter\":"@ + parameter_json(p) + "}"@,
                    None => ssm_error_reply(r, SsmErrorKind::ParameterVersionNotFound,
                        "Parameter "@ + nm + " version "@ + signed_decimal(v as int) + " not found"@),
                },
            }
        },
    }
}

/// Answers a `GetParameter` request.
fn ssm_get(engine: &SsmEngine, body: &JsonValue) -> (r: Reply)
    requires
        engine.wf(),
    ensures
        r.content_type@ == JSON11_TYPE@,
        get_outcome(*engine, *body, r),
{
    let name = match get_str(body, "Name") {
        Some(n) => n,
        None => return make_ssm_error_response(&validation("Parameter Name is required.")),
    };
    let with_decryption = match get_bool(body, "WithDecryption") { Some(b) => b, None => false };
    match engine.get_parameter(name.as_str(), with_decryption) {
        Ok(p) => {
            let mut x = String::new();
            append(&mut x, "{\"Parameter\":");
            append_parameter(&mut x, &p);
            append(&mut x, "}");
            ok_json(x)
        },
        Err(e) => make_ssm_error_response(&e),
    }
}

/// What a `GetParameters` request answers.
pub open spec fn get_many_outcome(e: SsmEngine, body: JsonValue, r: Reply) -> bool {
    let asked = json_strings(json_get(body, "Names"@));
    let ps = e.params();
    &&& r.status == 200
    &&& r.body@ == "{\"InvalidParameters\":"@ + json_str_array(crate::ssm::store::missing_names(ps, asked))
        + ",\"Parameters\":"@ + params_array(crate::ssm::store::found_params(ps, asked), false) + "}"@
}

/// Answers a `GetParameters` request.
fn ssm_get_many(engine: &SsmEngine, body: &JsonValue) -> (r: Reply)
    requires
        engine.wf(),
    ensures
        r.content_type@ == JSON11_TYPE@,
        get_many_outcome(*engine, *body, r),
{
    let names = get_strings(body, "Names");
    let with_decryption = match get_bool(body, "WithDecryption") { Some(b) => b, None => false };
    match engine.get_parameters(names.as_slice(), with_decryption) {
        Ok((params, invalid)) => {
            let mut x = String::new();
            append(&mut x, "{\"InvalidParameters\":");
            append_json_str_array(&mut x, &invalid);
            append(&mut x, ",\"Parameters\":");
            append_parameters(&mut x, &params, false);
            append(&mut x, "}");
            ok_json(x)
        },
        Err(e) => make_ssm_error_response(&e),
    }
}

/// What a `GetParametersByPath` request answers.
pub open spec fn by_path_outcome(e: SsmEngine, body: JsonValue, r: Reply) -> bool {
    match json_as_str(json_get(body, "Path"@)) {
        None => ssm_error_reply(r, SsmErrorKind::ValidationException, "Parameter Path is required."@),
        Some(path) => r.status == 200 && r.body@ == "{\"Parameters\":"@ + params_array(crate::ssm::store::path_matches(
            e.param_list(), crate::text::trim_end_char(path, '/'),
            match json_as_bool(json_get(body, "Recursive"@)) { Some(b) => b, None => true },
            page_size(match json_as_u64(json_get(body, "MaxResults"@)) { Some(m) => Some(m as usize), None => None }),
        ), false) + "}"@,
    }
}

/// Answers a `GetParametersByPath` request.
fn ssm_by_path(engine: &SsmEngine, body: &JsonValue) -> (r: Reply)
    requires
        engine.wf(),
    ensures
        r.content_type@ == JSON11_TYPE@,
        by_path_outcome(*engine, *body, r),
{
    let path = match get_str(body, "Path") {
        Some(p) => p,
        None => return make_ssm_error_response(&validation("Parameter Path is required.")),
    };
    let recursive = match get_bool(body, "Recursive") { Some(b) => b, None => true };
    let with_decryption = match get_bool(body, "WithDecryption") { Some(b) => b, None => false };
    let max_results = match get_u64(body, "MaxResults") { Some(m) => Some(m as usize), None => None };
    match engine.get_parameters_by_path(path.as_str(), recursive, with_decryption, max_results) {
        Ok(params) => {
            let mut x = String::new();
            append(&mut x, "{\"Parameters\":");
            append_parameters(&mut x, &params, false);
            append(&mut x, "}");
            ok_json(x)
        },
        Err(e) => make_ssm_error_response(&e),
    }
}

/// What a `DeleteParameter` request does and answers.
pub open spec fn delete_outcome(old: SsmEngine, new: SsmEngine, body: JsonValue, r: Reply) -> bool {
    match name_of(body) {
        None => ssm_error_reply(r, SsmErrorKind::ValidationException, "Parameter Name is required."@)
            && new.params() == old.params() && new.history() == old.history(),
        Some(n) => if old.params().contains_key(n) {
            r.status == 200 && r.body@ == "{}"@ && new.params() == old.params().remove(n)
                && new.history() == old.history().remove(n)
        } else {
            ssm_error_reply(r, SsmErrorKind::ParameterNotFound, "Parameter "@ + n + " not found."@)
                && new.params() == old.params() && new.history() == old.history()
        },
    }
}

/// Answers a `DeleteParameter` request.
fn ssm_delete(engine: &mut SsmEngine, body: &JsonValue) -> (r: Reply)
    requires
        old(engine).wf(),
    ensures
        final(engine).wf(),
        final(engine).account() == old(engine).account(),
        final(engine).home_region() == old(engine).home_region(),
        r.content_type@ == JSON11_TYPE@,
        delete_outcome(*old(engine), *final(engine), *body, r),
{
    let name = match get_str(body, "Name") {
        Some(n) => n,
        None => return make_ssm_error_response(&validation("Parameter Name is required.")),
    };
    match engine.delete_parameter(name.as_str()) {
        Ok(()) => ok_json("{}".to_owned()),
        Err(e) => make_ssm_error_response(&e),
    }
}

/// What a `DeleteParameters` request does and answers.
pub open spec fn delete_many_outcome(old: SsmEngine, new: SsmEngine, body: JsonValue, r: Reply) -> bool {
    let asked = json_strings(json_get(body, "Names"@));
    let present = old.params().dom();
    &&& r.status == 200
    &&& r.body@ == "{\"DeletedParameters\":"@ + json_str_array(crate::ssm::store::deleted_names(present, asked))
        + ",\"InvalidParameters\":"@ + json_str_array(crate::ssm::store::invalid_names(present, asked)) + "}"@
    &&& new.params() == old.params().remove_keys(asked.to_set())
    &&& new.history() == old.history().remove_keys(crate::ssm::store::deleted_names(present, asked).to_set())
}

/// Answers a `DeleteParameters` request.
fn ssm_delete_many(engine: &mut SsmEngine, body: &JsonValue) -> (r: Reply)
    requires
        old(engine).wf(),
    ensures
        final(engine).wf(),
        final(engine).account() == old(engine).account(),
        final(engine).home_region() == old(engine).home_region(),
        r.content_type@ == JSON11_TYPE@,
        delete_many_outcome(*old(engine), *final(engine), *body, r),
{
    let names = get_strings(body, "Names");
    match engine.delete_parameters(names.as_slice()) {
        Ok((deleted, invalid)) => {
            let mut x = String::new();
            append(&mut x, "{\"DeletedParameters\":");
            append_json_str_array(&mut x, &deleted);
            append(&mut x, ",\"InvalidParameters\":");
            append_json_str_array(&mut x, &invalid);
            append(&mut x, "}");
            ok_json(x)
        },
        Err(e) => make_ssm_error_response(&e),
    }
}

/// Answers a `DescribeParameters` request: every parameter's description.
fn ssm_describe(engine: &SsmEngine) -> (r: Reply)
    requires
        engine.wf(),
    ensures
        r.content_type@ == JSON11_TYPE@,
        r.status == 200 && r.body@ == "{\"Parameters\":"@ + params_array(engine.param_list(), true) + "}"@,
{
    match engine.describe_parameters() {
        Ok(list) => {
            let mut x = String::new();
            append(&mut x, "{\"Parameters\":");
            append_parameters(&mut x, &list, true);
            append(&mut x, "}");
            ok_json(x)
        },
        Err(e) => {
            assert(false);
            make_ssm_error_response(&e)
        },
    }
}

/// The actions of the SSM protocol.
#[derive(Debug, Clone, Copy, PartialEq, Eq)]
pub enum SsmAction {
    PutParameter,
    GetParameter,
    GetParameters,
    GetParametersByPath,
    DeleteParameter,
    DeleteParameters,
    DescribeParameters,
    Unknown,
}

/// The action an action name stands for.
pub open spec fn ssm_action_of(a: Seq<char>) -> SsmAction {
    if a == "PutParameter"@ {
        SsmAction::PutParameter
    } else if a == "GetParameter"@ {
        SsmAction::GetParameter
    } else if a == "GetParameters"@ {
        SsmAction::GetParameters
    } else if a == "GetParametersByPath"@ {
        SsmAction::GetParametersByPath
    } else if a == "DeleteParameter"@ {
        SsmAction::DeleteParameter
    } else if a == "DeleteParameters"@ {
        SsmAction::DeleteParameters
    } else if a == "DescribeParameters"@ {
        SsmAction::DescribeParameters
    } else {
        SsmAction::Unknown
    }
}

/// The action an action name stands for.
pub fn parse_ssm_action(a: &str) -> (r: SsmAction)
    ensures
        r == ssm_action_of(a@),
{
    if str_eq(a, "PutParameter") {
        SsmAction::PutParameter
    } else if str_eq(a, "GetParameter") {
        SsmAction::GetParameter
    } else if str_eq(a, "GetParameters") {
        SsmAction::GetParameters
    } else if str_eq(a, "GetParametersByPath") {
        SsmAction::GetParametersByPath
    } else if str_eq(a, "DeleteParameter") {
        SsmAction::DeleteParameter
    } else if str_eq(a, "DeleteParameters") {
        SsmAction::DeleteParameters
    } else if str_eq(a, "DescribeParameters") {
        SsmAction::DescribeParameters
    } else {
        SsmAction::Unknown
    }
}

/// How `r` answered a request whose target is `target` and whose body is
/// `body`, the store going from `e0` to `e1`.
pub open spec fn json_answered(e0: SsmEngine, e1: SsmEngine, target: Seq<char>, body: JsonValue, r: Reply) -> bool {
    &&& e1.account() == e0.account()
    &&& e1.home_region() == e0.home_region()
    &&& r.content_type@ == JSON11_TYPE@
    &&& {
        let act = ssm_action_of(ssm_action(target));
        &&& !(act == SsmAction::PutParameter || act == SsmAction::DeleteParameter || act == SsmAction::DeleteParameters)
            ==> e1.params() == e0.params() && e1.history() == e0.history()
        &&& act == SsmAction::PutParameter ==> put_outcome(e0, e1, body, r)
        &&& act == SsmAction::GetParameter ==> get_outcome(e0, body, r)
        &&& act == SsmAction::GetParameters ==> get_many_outcome(e0, body, r)
        &&& act == SsmAction::GetParametersByPath ==> by_path_outcome(e0, body, r)
        &&& act == SsmAction::DeleteParameter ==> delete_outcome(e0, e1, body, r)
        &&& act == SsmAction::DeleteParameters ==> delete_many_outcome(e0, e1, body, r)
        &&& act == SsmAction::DescribeParameters ==> r.status == 200
            && r.body@ == "{\"Parameters\":"@ + params_array(e0.param_list(), true) + "}"@
        &&& act == SsmAction::Unknown ==> ssm_error_reply(r, SsmErrorKind::InvalidAction,
            "Action "@ + ssm_action(target) + " is not supported by SSM."@)
    }
}

/// Performs one SSM action, named by the request's target, on the store and
/// answers it in JSON.
pub fn handle_ssm_json(engine: &mut SsmEngine, target: &str, body: &JsonValue) -> (r: Reply)
    requires
        old(engine).wf(),
    ensures
        final(engine).wf(),
        json_answered(*old(engine), *final(engine), target@, *body, r),
{
    let action = match strip_prefix(target, "AmazonSSM.") {
        Some(a) => a,
        None => target.to_owned(),
    };
    let a = action.as_str();
    match parse_ssm_action(a) {
        SsmAction::PutParameter => ssm_put(engine, body),
        SsmAction::GetParameter => ssm_get(engine, body),
        SsmAction::GetParameters => ssm_get_many(engine, body),
        SsmAction::GetParametersByPath => ssm_by_path(engine, body),
        SsmAction::DeleteParameter => ssm_delete(engine, body),
        SsmAction::DeleteParameters => ssm_delete_many(engine, body),
        SsmAction::DescribeParameters => ssm_describe(engine),
        SsmAction::Unknown => {
            let mut m = String::new();
            append(&mut m, "Action ");
            append(&mut m, a);
            append(&mut m, " is not supported by SSM.");
            make_ssm_error_response(&SsmError { kind: SsmErrorKind::InvalidAction, message: m })
        },
    }
}


/// Handles a request: the body is read as JSON (an empty body as an empty
/// object) and the action that the target names is performed. `parsed` is
/// what the JSON reader made of the body; it is read only when the body is not
/// empty, and a body it could not read is refused.
pub fn handle_ssm_request(
    engine: &mut SsmEngine,
    target: Option<&str>,
    body: &[u8],
    parsed: Result<JsonValue, String>,
) -> (r: Reply)
    requires
        old(engine).wf(),
    ensures
        final(engine).wf(),
        body_unreadable(body@, parsed) ==> *final(engine) == *old(engine) && r.content_type@ == JSON11_TYPE@
            && ssm_error_reply(r, SsmErrorKind::BadRequest, parsed->Err_0@),
        !body_unreadable(body@, parsed) ==> exists|v: JsonValue|
            #[trigger] body_reads_as(body@, parsed, v) && json_answered(
                *old(engine),
                *final(engine),
                match target {
                    Some(t) => t@,
                    None => Seq::empty(),
                },
                v,
                r,
            ),
{
    match json_request_body(body, parsed) {
        Err(m) => make_ssm_error_response(&SsmError { kind: SsmErrorKind::BadRequest, message: m }),
        Ok(v) => {
            let t = match target {
                Some(t) => t,
                None => "",
            };
            proof {
                reveal_strlit("");
            }
            assert(t@ =~= match target {
                Some(t) => t@,
                None => Seq::empty(),
            });
            let r = handle_ssm_json(engine, t, &v);
            assert(body_reads_as(body@, parsed, v));
            r
        },
    }
}

} // verus!
