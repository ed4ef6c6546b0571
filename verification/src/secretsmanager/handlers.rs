//! The Secrets Manager JSON protocol: each action read from its JSON request
//! and answered in JSON.
use vstd::prelude::*;
use crate::http::{append_json_str, append_json_str_array, json_str, json_str_array, reply, Reply, JSON11_TYPE};
use crate::json::{body_reads_as, body_unreadable, json_request_body, get_bool, get_str, get_strings, get_u64, json_as_bool, json_as_str, json_as_u64, json_get, json_strings, JsonValue};
use crate::runtime::uuid_bits;
use crate::secretsmanager::store::{SecretsManagerEngine, SmError, SmErrorKind};
use crate::secretsmanager::types::{CreateSecretRequest, Secret, SecretVersion, SecretView, VersionView};
use crate::ses::state::opt_text;
use crate::text::{append, append_i64, is_prefix, push_char, signed_decimal, str_eq, strip_prefix, views};

verus! {

/// The JSON error body.
pub open spec fn sm_error_json(code: Seq<char>, message: Seq<char>) -> Seq<char> {
    "{\"__type\":"@ + json_str(code) + ",\"message\":"@ + json_str(message) + "}"@
}

/// The answer to a failed request.
pub fn make_secretsmanager_error_response(err: &SmError) -> (r: Reply)
    ensures
        r.status == err.kind.status_spec(),
        r.content_type@ == JSON11_TYPE@,
        r.body@ == sm_error_json(err.kind.code_spec(), err.message@),
{
    let mut x = String::new();
    append(&mut x, "{\"__type\":");
    append_json_str(&mut x, err.kind.code());
    append(&mut x, ",\"message\":");
    append_json_str(&mut x, err.message.as_str());
    append(&mut x, "}");
    assert(x@ =~= sm_error_json(err.kind.code_spec(), err.message@));
    reply(err.kind.status(), JSON11_TYPE, x)
}

/// An answer with a JSON body.
fn ok_json(x: String) -> (r: Reply)
    ensures
        r.status == 200,
        r.content_type@ == JSON11_TYPE@,
        r.body@ == x@,
{
    reply(200, JSON11_TYPE, x)
}

/// The failure for a missing member.
fn missing(message: &str) -> (r: Reply)
    ensures
        r.status == 400,
        r.content_type@ == JSON11_TYPE@,
        r.body@ == sm_error_json("InvalidParameterException"@, message@),
{
    make_secretsmanager_error_response(&SmError { kind: SmErrorKind::InvalidParameter, message: message.to_owned() })
}

/// The action named by a target: what follows `secretsmanager.` (or
/// `secretsmanager`), else the target.
pub open spec fn sm_action(target: Seq<char>) -> Seq<char> {
    if is_prefix("secretsmanager."@, target) {
        target.subrange("secretsmanager."@.len() as int, target.len() as int)
    } else if is_prefix("secretsmanager"@, target) {
        target.subrange("secretsmanager"@.len() as int, target.len() as int)
    } else {
        target
    }
}

/// An optional string in JSON: a literal or `null`.
pub open spec fn opt_json_str(o: Option<Seq<char>>) -> Seq<char> {
    match o {
        Some(s) => json_str(s),
        None => "null"@,
    }
}

/// An optional number in JSON: the number or `null`.
pub open spec fn opt_json_num(o: Option<i64>) -> Seq<char> {
    match o {
        Some(n) => signed_decimal(n as int),
        None => "null"@,
    }
}

/// Appends an optional string in JSON.
fn append_opt_str(x: &mut String, o: &Option<String>)
    ensures
        final(x)@ == old(x)@ + opt_json_str(opt_text(*o)),
{
    match o {
        Some(s) => append_json_str(x, s.as_str()),
        None => append(x, "null"),
    }
}

/// Appends an optional number in JSON.
fn append_opt_num(x: &mut String, o: Option<i64>)
    ensures
        final(x)@ == old(x)@ + opt_json_num(o),
{
    match o {
        Some(n) => append_i64(x, n),
        None => append(x, "null"),
    }
}

/// The answer to `CreateSecret`.
pub open spec fn create_json(arn: Seq<char>, name: Seq<char>, vid: Seq<char>) -> Seq<char> {
    "{\"ARN\":"@ + json_str(arn) + ",\"Name\":"@ + json_str(name) + ",\"VersionId\":"@ + json_str(vid) + "}"@
}

/// `r` answers a creation of `name` with ARN `arn` and some version id (the
/// token, when given).
pub open spec fn create_reply(r: Reply, arn: Seq<char>, name: Seq<char>, token: Option<Seq<char>>) -> bool {
    exists|vid: Seq<char>| (token matches Some(t) ==> vid == t) && r.body@ == #[trigger] create_json(arn, name, vid)
}

/// How `r` answered a `CreateSecret` request with `body`, the store going from `e0` to `e1`.
pub open spec fn create_outcome(e0: SecretsManagerEngine, e1: SecretsManagerEngine, body: JsonValue, r: Reply) -> bool {
    &&& e1.account() == e0.account()
    &&& e1.home_region() == e0.home_region()
    &&& r.content_type@ == JSON11_TYPE@
    &&& match json_as_str(json_get(body, "Name"@)) {
        None => r.status == 400 && r.body@ == sm_error_json("InvalidParameterException"@, "Parameter Name is required."@)
            && e1.secrets() == e0.secrets() && e1.arns() == e0.arns(),
        Some(n) => if e0.secrets().contains_key(n) {
            r.status == 400 && r.body@ == sm_error_json("ResourceExistsException"@, "The secret "@ + n + " already exists."@)
                && e1.secrets() == e0.secrets() && e1.arns() == e0.arns()
        } else {
            let s = e1.secrets()[n];
            &&& e1.secrets() == e0.secrets().insert(n, s)
            &&& e1.arns() == e0.arns().insert(s.arn, n)
            &&& s.description == json_as_str(json_get(body, "Description"@))
            &&& s.kms_key_id == json_as_str(json_get(body, "KmsKeyId"@))
            &&& r.status == 200
            &&& create_reply(r, s.arn, n, json_as_str(json_get(body, "ClientRequestToken"@)))
        },
    }
}

/// Answers `CreateSecret`.
fn sm_create(engine: &mut SecretsManagerEngine, body: &JsonValue) -> (r: Reply)
    requires
        old(engine).wf(),
    ensures
        final(engine).wf(),
        create_outcome(*old(engine), *final(engine), *body, r),
{
    let name = match get_str(body, "Name") {
        Some(n) => n,
        None => return missing("Parameter Name is required."),
    };
    let req = CreateSecretRequest {
        name: name.clone(),
        description: get_str(body, "Description"),
        kms_key_id: get_str(body, "KmsKeyId"),
        secret_string: get_str(body, "SecretString"),
        secret_binary: get_str(body, "SecretBinary"),
        client_request_token: get_str(body, "ClientRequestToken"),
    };
    match engine.create_secret(req) {
        Ok((arn, vid)) => {
            let mut x = String::new();
            append(&mut x, "{\"ARN\":");
            append_json_str(&mut x, arn.as_str());
            append(&mut x, ",\"Name\":");
            append_json_str(&mut x, name.as_str());
            append(&mut x, ",\"VersionId\":");
            append_json_str(&mut x, vid.as_str());
            append(&mut x, "}");
            assert(x@ =~= create_json(arn@, name@, vid@));
            ok_json(x)
        },
        Err(e) => make_secretsmanager_error_response(&e),
    }
}

/// The answer to `GetSecretValue`: the secret's ARN and name, and the version.
pub open spec fn value_json(arn: Seq<char>, name: Seq<char>, v: VersionView) -> Seq<char> {
    "{\"ARN\":"@ + json_str(arn) + ",\"CreatedDate\":"@ + signed_decimal(v.created_date as int) + ",\"Name\":"@ + json_str(name)
        + (match v.secret_binary { Some(b) => ",\"SecretBinary\":"@ + json_str(b), None => Seq::empty() })
        + (match v.secret_string { Some(t) => ",\"SecretString\":"@ + json_str(t), None => Seq::empty() })
        + ",\"VersionId\":"@ + json_str(v.version_id) + ",\"VersionStages\":"@ + json_str_array(v.version_stages) + "}"@
}

/// The member `SecretId`.
pub open spec fn secret_id_of(body: JsonValue) -> Option<Seq<char>> {
    json_as_str(json_get(body, "SecretId"@))
}

/// The failure for a missing `SecretId`.
pub open spec fn missing_id(r: Reply) -> bool {
    r.status == 400 && r.body@ == sm_error_json("InvalidParameterException"@, "Parameter SecretId is required."@)
}

/// `r` answers a failed request with an error of the store.
pub open spec fn store_error(r: Reply) -> bool {
    exists|e: SmError| r.status == e.kind.status_spec() && r.body@ == #[trigger] sm_error_json(e.kind.code_spec(), e.message@)
}

/// How `r` answered a `GetSecretValue` request with `body`, the store going from `e0` to `e1`.
pub open spec fn get_value_outcome(e0: SecretsManagerEngine, e1: SecretsManagerEngine, body: JsonValue, r: Reply) -> bool {
    &&& e1.account() == e0.account()
    &&& e1.home_region() == e0.home_region()
    &&& e1.arns() == e0.arns()
    &&& e1.secrets().dom() == e0.secrets().dom()
    &&& r.content_type@ == JSON11_TYPE@
    &&& match secret_id_of(body) {
        None => missing_id(r) && e1.secrets() == e0.secrets(),
        Some(id) => match e0.resolve(id) {
            None => store_error(r) && r.status == 404 && e1.secrets() == e0.secrets(),
            Some(n) => r.status == 200 ==> exists|k: Seq<char>| {
                &&& e0.secrets()[n].versions.contains_key(k)
                &&& (json_as_str(json_get(body, "VersionId"@)) matches Some(w) ==> k == w)
                &&& r.body@ == #[trigger] value_json(e0.secrets()[n].arn, e0.secrets()[n].name,
                    e0.secrets()[n].versions[k])
            },
        },
    }
    &&& r.status == 200 || store_error(r) || missing_id(r)
}

/// Answers `GetSecretValue`.
#[verifier::rlimit(40)]
fn sm_get_value(engine: &mut SecretsManagerEngine, body: &JsonValue) -> (r: Reply)
    requires
        old(engine).wf(),
    ensures
        final(engine).wf(),
        get_value_outcome(*old(engine), *final(engine), *body, r),
{
    let id = match get_str(body, "SecretId") {
        Some(i) => i,
        None => return missing("Parameter SecretId is required."),
    };
    let version_id = get_str(body, "VersionId");
    let version_stage = get_str(body, "VersionStage");
    let vid_ref: Option<&str> = match &version_id { Some(v) => Some(v.as_str()), None => None };
    let stage_ref: Option<&str> = match &version_stage { Some(v) => Some(v.as_str()), None => None };
    let ghost old_engine = *engine;
    proof { old_engine.lemma_resolve(id@); }
    let res = engine.get_secret_value(id.as_str(), vid_ref, stage_ref);
    assert(engine.secrets().dom() =~= old_engine.secrets().dom());
    let ver = match res {
        Ok(v) => v,
        Err(e) => return make_secretsmanager_error_response(&e),
    };
    let desc = match engine.describe_secret(id.as_str()) {
        Ok(d) => d,
        Err(e) => return make_secretsmanager_error_response(&e),
    };
    let mut x = String::new();
    append(&mut x, "{\"ARN\":");
    append_json_str(&mut x, desc.arn.as_str());
    append(&mut x, ",\"CreatedDate\":");
    append_i64(&mut x, ver.created_date);
    append(&mut x, ",\"Name\":");
    append_json_str(&mut x, desc.name.as_str());
    match &ver.secret_binary {
        Some(b) => {
            append(&mut x, ",\"SecretBinary\":");
            append_json_str(&mut x, b.as_str());
        },
        None => {},
    }
    match &ver.secret_string {
        Some(t) => {
            append(&mut x, ",\"SecretString\":");
            append_json_str(&mut x, t.as_str());
        },
        None => {},
    }
    append(&mut x, ",\"VersionId\":");
    append_json_str(&mut x, ver.version_id.as_str());
    append(&mut x, ",\"VersionStages\":");
    append_json_str_array(&mut x, &ver.version_stages);
    append(&mut x, "}");
    proof {
        let n = old_engine.resolve(id@)->0;
        let s = old_engine.secrets()[n];
        assert(desc@.arn == s.arn && desc@.name == s.name);
        assert(x@ =~= value_json(s.arn, s.name, ver@));
        if version_id is Some {
            assert(s.versions.contains_key(version_id->0@));
        } else {
            let stage = match version_stage { Some(st) => st@, None => crate::secretsmanager::store::current_stage() };
            old_engine.lemma_version_ids(n);
            crate::secretsmanager::store::lemma_first_with_stage_found(old_engine.version_ids(n), s.versions, stage);
            let i = choose|i: int| 0 <= i < old_engine.version_ids(n).len() && ver@ == s.versions[old_engine.version_ids(n)[i]];
            assert(s.versions.contains_key(old_engine.version_ids(n)[i]));
        }
    }
    ok_json(x)
}

/// The answer to `PutSecretValue`.
pub open spec fn put_value_json(arn: Seq<char>, name: Seq<char>, vid: Seq<char>, stages: Seq<Seq<char>>) -> Seq<char> {
    "{\"ARN\":"@ + json_str(arn) + ",\"Name\":"@ + json_str(name) + ",\"VersionId\":"@ + json_str(vid)
        + ",\"VersionStages\":"@ + json_str_array(stages) + "}"@
}

/// The stages a `PutSecretValue` request names (`AWSCURRENT` when none).
pub open spec fn put_stages(body: JsonValue) -> Seq<Seq<char>> {
    match json_get(body, "VersionStages"@) {
        Some(JsonValue::Array(items)) => crate::json::strings_of(items@),
        _ => seq![crate::secretsmanager::store::current_stage()],
    }
}

/// `r` answers a put that added a version (with the requested value and
/// stages) to the secret `ns` named `n`.
pub open spec fn put_value_reply(ns: SecretView, n: Seq<char>, body: JsonValue, r: Reply) -> bool {
    exists|vid: Seq<char>| ns.versions.contains_key(vid)
        && ns.versions[vid].secret_string == json_as_str(json_get(body, "SecretString"@))
        && ns.versions[vid].version_stages == put_stages(body)
        && r.body@ == #[trigger] put_value_json(ns.arn, n, vid, put_stages(body))
}

/// How `r` answered a `PutSecretValue` request with `body`, the store going from `e0` to `e1`.
pub open spec fn put_value_outcome(e0: SecretsManagerEngine, e1: SecretsManagerEngine, body: JsonValue, r: Reply) -> bool {
    &&& e1.account() == e0.account()
    &&& e1.home_region() == e0.home_region()
    &&& e1.arns() == e0.arns()
    &&& r.content_type@ == JSON11_TYPE@
    &&& match secret_id_of(body) {
        None => missing_id(r) && e1.secrets() == e0.secrets(),
        Some(id) => match e0.resolve(id) {
            None => store_error(r) && r.status == 404 && e1.secrets() == e0.secrets(),
            Some(n) => {
                &&& e1.secrets() == e0.secrets().insert(n, e1.secrets()[n])
                &&& r.status == 200
                &&& put_value_reply(e1.secrets()[n], n, body, r)
            },
        },
    }
}

/// Answers `PutSecretValue`.
fn sm_put_value(engine: &mut SecretsManagerEngine, body: &JsonValue) -> (r: Reply)
    requires
        old(engine).wf(),
    ensures
        final(engine).wf(),
        put_value_outcome(*old(engine), *final(engine), *body, r),
{
    let id = match get_str(body, "SecretId") {
        Some(i) => i,
        None => return missing("Parameter SecretId is required."),
    };
    let secret_string = get_str(body, "SecretString");
    let secret_binary = get_str(body, "SecretBinary");
    let token = get_str(body, "ClientRequestToken");
    let stages: Option<Vec<String>> = match body.get("VersionStages") {
        Some(JsonValue::Array(_)) => Some(get_strings(body, "VersionStages")),
        _ => None,
    };
    let ghost old_engine = *engine;
    proof { old_engine.lemma_resolve(id@); }
    let (arn, vid, stages_out) = match engine.put_secret_value(id.as_str(), secret_string, secret_binary, token, stages) {
        Ok(t) => t,
        Err(e) => return make_secretsmanager_error_response(&e),
    };
    let desc = match engine.describe_secret(id.as_str()) {
        Ok(d) => d,
        Err(e) => return make_secretsmanager_error_response(&e),
    };
    let mut x = String::new();
    append(&mut x, "{\"ARN\":");
    append_json_str(&mut x, arn.as_str());
    append(&mut x, ",\"Name\":");
    append_json_str(&mut x, desc.name.as_str());
    append(&mut x, ",\"VersionId\":");
    append_json_str(&mut x, vid.as_str());
    append(&mut x, ",\"VersionStages\":");
    append_json_str_array(&mut x, &stages_out);
    append(&mut x, "}");
    proof {
        let n = old_engine.resolve(id@)->0;
        assert(engine.resolve(id@) == Some(n));
        engine.lemma_stored_names();
        let ns = engine.secrets()[n];
        assert(engine.secrets().contains_key(n));
        assert(desc@ == ns);
        assert(desc.name@ == n);
        assert(arn@ == ns.arn);
        assert(x@ =~= put_value_json(ns.arn, n, vid@, views(stages_out@)));
        assert(ns.versions.contains_key(vid@));
        assert(ns.versions[vid@].version_stages == views(stages_out@));
        assert(views(stages_out@) == put_stages(*body));
        assert(x@ == put_value_json(ns.arn, n, vid@, put_stages(*body)));
    }
    ok_json(x)
}

/// The answer to `UpdateSecret`.
pub open spec fn arn_name_json(arn: Seq<char>, name: Seq<char>) -> Seq<char> {
    "{\"ARN\":"@ + json_str(arn) + ",\"Name\":"@ + json_str(name) + "}"@
}

/// How `r` answered an `UpdateSecret` request with `body`, the store going from `e0` to `e1`.
pub open spec fn update_outcome(e0: SecretsManagerEngine, e1: SecretsManagerEngine, body: JsonValue, r: Reply) -> bool {
    &&& e1.account() == e0.account()
    &&& e1.home_region() == e0.home_region()
    &&& e1.arns() == e0.arns()
    &&& r.content_type@ == JSON11_TYPE@
    &&& match secret_id_of(body) {
        None => missing_id(r) && e1.secrets() == e0.secrets(),
        Some(id) => match e0.resolve(id) {
            None => store_error(r) && r.status == 404 && e1.secrets() == e0.secrets(),
            Some(n) => {
                let ns = e1.secrets()[n];
                &&& e1.secrets() == e0.secrets().insert(n, ns)
                &&& ns.description == match json_as_str(json_get(body, "Description"@)) {
                    Some(d) => Some(d),
                    None => e0.secrets()[n].description,
                }
                &&& r.status == 200 && r.body@ == arn_name_json(ns.arn, n)
            },
        },
    }
}

/// Answers `UpdateSecret`.
fn sm_update(engine: &mut SecretsManagerEngine, body: &JsonValue) -> (r: Reply)
    requires
        old(engine).wf(),
    ensures
        final(engine).wf(),
        update_outcome(*old(engine), *final(engine), *body, r),
{
    let id = match get_str(body, "SecretId") {
        Some(i) => i,
        None => return missing("Parameter SecretId is required."),
    };
    let ghost old_engine = *engine;
    proof { old_engine.lemma_resolve(id@); }
    let arn = match engine.update_secret(id.as_str(), get_str(body, "Description"), get_str(body, "KmsKeyId"),
        get_str(body, "SecretString"), get_str(body, "SecretBinary"), get_str(body, "ClientRequestToken")) {
        Ok(a) => a,
        Err(e) => return make_secretsmanager_error_response(&e),
    };
    let desc = match engine.describe_secret(id.as_str()) {
        Ok(d) => d,
        Err(e) => return make_secretsmanager_error_response(&e),
    };
    let mut x = String::new();
    append(&mut x, "{\"ARN\":");
    append_json_str(&mut x, arn.as_str());
    append(&mut x, ",\"Name\":");
    append_json_str(&mut x, desc.name.as_str());
    append(&mut x, "}");
    proof {
        let n = old_engine.resolve(id@)->0;
        assert(engine.resolve(id@) == Some(n));
        engine.lemma_stored_names();
        let ns = engine.secrets()[n];
        assert(engine.secrets().contains_key(n));
        assert(desc@ == ns);
        assert(desc.name@ == n);
        assert(arn@ == ns.arn);
        assert(x@ =~= arn_name_json(engine.secrets()[n].arn, n));
    }
    ok_json(x)
}

/// The answer to `DeleteSecret`.
pub open spec fn delete_json(arn: Seq<char>, name: Seq<char>, date: Option<i64>) -> Seq<char> {
    "{\"ARN\":"@ + json_str(arn) + (match date { Some(d) => ",\"DeletionDate\":"@ + signed_decimal(d as int), None => Seq::empty() })
        + ",\"Name\":"@ + json_str(name) + "}"@
}

/// How `r` answered a `DeleteSecret` request with `body`, the store going from `e0` to `e1`.
pub open spec fn delete_outcome(e0: SecretsManagerEngine, e1: SecretsManagerEngine, body: JsonValue, r: Reply) -> bool {
    &&& e1.account() == e0.account()
    &&& e1.home_region() == e0.home_region()
    &&& r.content_type@ == JSON11_TYPE@
    &&& match secret_id_of(body) {
        None => missing_id(r) && e1.secrets() == e0.secrets(),
        Some(id) => match e0.resolve(id) {
            None => store_error(r) && r.status == 404 && e1.secrets() == e0.secrets(),
            Some(n) => {
                let s = e0.secrets()[n];
                &&& r.status == 200
                &&& if json_as_bool(json_get(body, "ForceDeleteWithoutRecovery"@)) == Some(true) {
                    e1.secrets() == e0.secrets().remove(n) && r.body@ == delete_json(s.arn, n, None)
                } else {
                    e1.secrets().contains_key(n) && e1.secrets()[n].deleted_date is Some
                        && exists|d: i64| r.body@ == #[trigger] delete_json(s.arn, n, Some(d))
                }
            },
        },
    }
}

/// Answers `DeleteSecret`.
fn sm_delete(engine: &mut SecretsManagerEngine, body: &JsonValue) -> (r: Reply)
    requires
        old(engine).wf(),
    ensures
        final(engine).wf(),
        delete_outcome(*old(engine), *final(engine), *body, r),
{
    let id = match get_str(body, "SecretId") {
        Some(i) => i,
        None => return missing("Parameter SecretId is required."),
    };
    let force = match get_bool(body, "ForceDeleteWithoutRecovery") { Some(b) => b, None => false };
    match engine.delete_secret(id.as_str(), force) {
        Ok((arn, name, date)) => {
            let mut x = String::new();
            append(&mut x, "{\"ARN\":");
            append_json_str(&mut x, arn.as_str());
            match date {
                Some(d) => {
                    append(&mut x, ",\"DeletionDate\":");
                    append_i64(&mut x, d);
                },
                None => {},
            }
            append(&mut x, ",\"Name\":");
            append_json_str(&mut x, name.as_str());
            append(&mut x, "}");
            assert(x@ =~= delete_json(arn@, name@, date));
            ok_json(x)
        },
        Err(e) => make_secretsmanager_error_response(&e),
    }
}

/// The version ids of a secret with their stages, as JSON members, in
/// version-id order.
pub open spec fn stages_members(ids: Seq<Seq<char>>, vs: Map<Seq<char>, VersionView>) -> Seq<char>
    decreases ids.len(),
{
    if ids.len() == 0 {
        Seq::empty()
    } else {
        let item = json_str(ids.last()) + ":"@ + json_str_array(vs[ids.last()].version_stages);
        if ids.len() == 1 { item } else { stages_members(ids.drop_last(), vs) + ","@ + item }
    }
}

/// The answer to `DescribeSecret`.
pub open spec fn describe_json(s: SecretView, ids: Seq<Seq<char>>) -> Seq<char> {
    "{\"ARN\":"@ + json_str(s.arn) + ",\"Description\":"@ + opt_json_str(s.description) + ",\"KmsKeyId\":"@
        + opt_json_str(s.kms_key_id) + ",\"LastAccessedDate\":"@ + opt_json_num(s.last_accessed_date)
        + ",\"LastChangedDate\":"@ + opt_json_num(s.last_changed_date) + ",\"Name\":"@ + json_str(s.name)
        + ",\"VersionIdsToStages\":{"@ + stages_members(ids, s.versions) + "}}"@
}

/// Answers `DescribeSecret`.
fn sm_describe(engine: &SecretsManagerEngine, body: &JsonValue) -> (r: Reply)
    requires
        engine.wf(),
    ensures
        r.content_type@ == JSON11_TYPE@,
        match secret_id_of(*body) {
            None => missing_id(r),
            Some(id) => match engine.resolve(id) {
                None => store_error(r) && r.status == 404,
                Some(n) => r.status == 200 && r.body@ == describe_json(engine.secrets()[n], engine.version_ids(n)),
            },
        },
{
    let id = match get_str(body, "SecretId") {
        Some(i) => i,
        None => return missing("Parameter SecretId is required."),
    };
    let s = match engine.describe_secret(id.as_str()) {
        Ok(s) => s,
        Err(e) => return make_secretsmanager_error_response(&e),
    };
    let mut x = String::new();
    append(&mut x, "{\"ARN\":");
    append_json_str(&mut x, s.arn.as_str());
    append(&mut x, ",\"Description\":");
    append_opt_str(&mut x, &s.description);
    append(&mut x, ",\"KmsKeyId\":");
    append_opt_str(&mut x, &s.kms_key_id);
    append(&mut x, ",\"LastAccessedDate\":");
    append_opt_num(&mut x, s.last_accessed_date);
    append(&mut x, ",\"LastChangedDate\":");
    append_opt_num(&mut x, s.last_changed_date);
    append(&mut x, ",\"Name\":");
    append_json_str(&mut x, s.name.as_str());
    append(&mut x, ",\"VersionIdsToStages\":{");
    let ghost head = x@;
    let ghost ids = s.versions.keys();
    let ghost vs = s@.versions;
    let n = s.versions.len();
    proof { s.versions.lemma_wf(); }
    let mut i: usize = 0;
    while i < n
        invariant
            s.versions.wf(),
            n == ids.len(),
            ids == s.versions.keys(),
            vs == s@.versions,
            i <= n,
            forall|j: int| 0 <= j < n ==> #[trigger] s.versions@.contains_key(ids[j]) && s.versions@[ids[j]] == s.versions.vals()[j],
            x@ == head + stages_members(ids.subrange(0, i as int), vs),
        decreases n - i,
    {
        let (k, v) = s.versions.entry(i);
        assert(ids.subrange(0, i + 1).drop_last() =~= ids.subrange(0, i as int));
        assert(s.versions@.contains_key(ids[i as int]));
        assert(vs[ids[i as int]] == v@);
        if i > 0 {
            append(&mut x, ",");
        }
        append_json_str(&mut x, k.as_str());
        append(&mut x, ":");
        append_json_str_array(&mut x, &v.version_stages);
        i = i + 1;
        assert(x@ =~= head + stages_members(ids.subrange(0, i as int), vs));
    }
    assert(ids.subrange(0, n as int) =~= ids);
    append(&mut x, "}}");
    assert(x@ =~= describe_json(s@, ids));
    ok_json(x)
}

/// One entry of the answer to `ListSecrets`.
pub open spec fn listed_json(s: SecretView) -> Seq<char> {
    "{\"ARN\":"@ + json_str(s.arn) + ",\"Description\":"@ + opt_json_str(s.description) + ",\"KmsKeyId\":"@
        + opt_json_str(s.kms_key_id) + ",\"Name\":"@ + json_str(s.name) + "}"@
}

/// The entries of the answer to `ListSecrets`, joined by `,`.
pub open spec fn listed_items(ss: Seq<SecretView>) -> Seq<char>
    decreases ss.len(),
{
    if ss.len() == 0 {
        Seq::empty()
    } else if ss.len() == 1 {
        listed_json(ss[0])
    } else {
        listed_items(ss.drop_last()) + ","@ + listed_json(ss.last())
    }
}

/// Appends one entry of the answer to `ListSecrets`.
fn append_listed(x: &mut String, s: &Secret)
    ensures
        final(x)@ == old(x)@ + listed_json(s@),
{
    append(x, "{\"ARN\":");
    append_json_str(x, s.arn.as_str());
    append(x, ",\"Description\":");
    append_opt_str(x, &s.description);
    append(x, ",\"KmsKeyId\":");
    append_opt_str(x, &s.kms_key_id);
    append(x, ",\"Name\":");
    append_json_str(x, s.name.as_str());
    append(x, "}");
    assert(x@ =~= old(x)@ + listed_json(s@));
}

/// Answers `ListSecrets`: the secrets not marked for deletion, by name.
fn sm_list(engine: &SecretsManagerEngine, body: &JsonValue) -> (r: Reply)
    requires
        engine.wf(),
    ensures
        r.content_type@ == JSON11_TYPE@,
        r.status == 200,
        r.body@ == "{\"SecretList\":["@ + listed_items(crate::secretsmanager::store::live_secrets(engine.names(), engine.secrets())) + "]}"@,
{
    let max_results = match get_u64(body, "MaxResults") { Some(m) => Some(m as usize), None => None };
    let list = match engine.list_secrets(max_results) {
        Ok(l) => l,
        Err(e) => {
            assert(false);
            return make_secretsmanager_error_response(&e);
        },
    };
    let ghost ss = list@.map_values(|s: Secret| s@);
    let mut x = String::new();
    append(&mut x, "{\"SecretList\":[");
    let ghost head = x@;
    let mut i: usize = 0;
    while i < list.len()
        invariant
            ss == list@.map_values(|s: Secret| s@),
            i <= ss.len(),
            x@ == head + listed_items(ss.subrange(0, i as int)),
        decreases ss.len() - i,
    {
        assert(ss.subrange(0, i + 1).drop_last() =~= ss.subrange(0, i as int));
        let s = &list[i];
        assert(ss[i as int] == s@);
        if i > 0 {
            append(&mut x, ",");
        }
        append_listed(&mut x, s);
        i = i + 1;
        assert(x@ =~= head + listed_items(ss.subrange(0, i as int)));
    }
    assert(ss.subrange(0, ss.len() as int) =~= ss);
    append(&mut x, "]}");
    ok_json(x)
}

/// The characters a random password is drawn from.
pub const PASSWORD_CHARS: &'static str = "ABCDEFGHIJKLMNOPQRSTUVWXYZabcdefghijklmnopqrstuvwxyz0123456789!@#$%^&*()_+-=";

/// A password of `n` characters, each drawn from [`PASSWORD_CHARS`] by a
/// fresh UUID's bits.
pub fn random_password(n: u64) -> (p: String)
    ensures
        p@.len() == n,
        forall|i: int| 0 <= i < n ==> PASSWORD_CHARS@.contains(#[trigger] p@[i]),
{
    let alphabet = crate::text::to_chars(PASSWORD_CHARS);
    proof { reveal_strlit("ABCDEFGHIJKLMNOPQRSTUVWXYZabcdefghijklmnopqrstuvwxyz0123456789!@#$%^&*()_+-="); }
    let len = alphabet.len();
    let mut p = String::new();
    let mut i: u64 = 0;
    while i < n
        invariant
            alphabet@ == PASSWORD_CHARS@,
            len == alphabet@.len(),
            len > 0,
            i <= n,
            p@.len() == i,
            forall|j: int| 0 <= j < i ==> PASSWORD_CHARS@.contains(#[trigger] p@[j]),
        decreases n - i,
    {
        let bits = uuid_bits();
        let idx = ((bits as usize) % len) as usize;
        let c = alphabet[idx];
        assert(PASSWORD_CHARS@[idx as int] == c);
        push_char(&mut p, c);
        i = i + 1;
    }
    p
}

/// Answers `GetRandomPassword`: `PasswordLength` characters (32 by default).
fn sm_random_password(body: &JsonValue) -> (r: Reply)
    ensures
        r.content_type@ == JSON11_TYPE@,
        r.status == 200,
        exists|p: Seq<char>| p.len() == match json_as_u64(json_get(*body, "PasswordLength"@)) { Some(n) => n as nat, None => 32 }
            && r.body@ == #[trigger] ("{\"RandomPassword\":"@ + json_str(p) + "}"@),
{
    let n = match get_u64(body, "PasswordLength") { Some(n) => n, None => 32 };
    let p = random_password(n);
    let mut x = String::new();
    append(&mut x, "{\"RandomPassword\":");
    append_json_str(&mut x, p.as_str());
    append(&mut x, "}");
    assert(x@ == "{\"RandomPassword\":"@ + json_str(p@) + "}"@);
    ok_json(x)
}

/// The actions of the Secrets Manager protocol.
#[derive(Debug, Clone, Copy, PartialEq, Eq)]
pub enum SmAction {
    CreateSecret,
    GetSecretValue,
    PutSecretValue,
    UpdateSecret,
    DeleteSecret,
    DescribeSecret,
    ListSecrets,
    GetRandomPassword,
    Unknown,
}

/// The action an action name stands for.
pub open spec fn sm_action_of(a: Seq<char>) -> SmAction {
    if a == "CreateSecret"@ {
        SmAction::CreateSecret
    } else if a == "GetSecretValue"@ {
        SmAction::GetSecretValue
    } else if a == "PutSecretValue"@ {
        SmAction::PutSecretValue
    } else if a == "UpdateSecret"@ {
        SmAction::UpdateSecret
    } else if a == "DeleteSecret"@ {
        SmAction::DeleteSecret
    } else if a == "DescribeSecret"@ {
        SmAction::DescribeSecret
    } else if a == "ListSecrets"@ {
        SmAction::ListSecrets
    } else if a == "GetRandomPassword"@ {
        SmAction::GetRandomPassword
    } else {
        SmAction::Unknown
    }
}

/// The action an action name stands for.
pub fn parse_sm_action(a: &str) -> (r: SmAction)
    ensures
        r == sm_action_of(a@),
{
    if str_eq(a, "CreateSecret") {
        SmAction::CreateSecret
    } else if str_eq(a, "GetSecretValue") {
        SmAction::GetSecretValue
    } else if str_eq(a, "PutSecretValue") {
        SmAction::PutSecretValue
    } else if str_eq(a, "UpdateSecret") {
        SmAction::UpdateSecret
    } else if str_eq(a, "DeleteSecret") {
        SmAction::DeleteSecret
    } else if str_eq(a, "DescribeSecret") {
        SmAction::DescribeSecret
    } else if str_eq(a, "ListSecrets") {
        SmAction::ListSecrets
    } else if str_eq(a, "GetRandomPassword") {
        SmAction::GetRandomPassword
    } else {
        SmAction::Unknown
    }
}

/// How `r` answered a request whose target is `target` and whose body is
/// `body`, the store going from `e0` to `e1`.
pub open spec fn json_answered(e0: SecretsManagerEngine, e1: SecretsManagerEngine, target: Seq<char>, body: JsonValue, r: Reply) -> bool {
    &&& e1.account() == e0.account()
    &&& e1.home_region() == e0.home_region()
    &&& r.content_type@ == JSON11_TYPE@
    &&& {
        let act = sm_action_of(sm_action(target));
        &&& (act == SmAction::DescribeSecret || act == SmAction::ListSecrets || act == SmAction::GetRandomPassword
            || act == SmAction::Unknown) ==> e1.secrets() == e0.secrets()
            && e1.arns() == e0.arns()
        &&& act == SmAction::CreateSecret ==> create_outcome(e0, e1, body, r)
        &&& act == SmAction::GetSecretValue ==> get_value_outcome(e0, e1, body, r)
        &&& act == SmAction::PutSecretValue ==> put_value_outcome(e0, e1, body, r)
        &&& act == SmAction::UpdateSecret ==> update_outcome(e0, e1, body, r)
        &&& act == SmAction::DeleteSecret ==> delete_outcome(e0, e1, body, r)
        &&& act == SmAction::GetRandomPassword ==> r.status == 200 && exists|p: Seq<char>| p.len() == match json_as_u64(
            json_get(body, "PasswordLength"@),
        ) {
            Some(n) => n as nat,
            None => 32,
        } && r.body@ == #[trigger] ("{\"RandomPassword\":"@ + json_str(p) + "}"@)
        &&& act == SmAction::DescribeSecret ==> match secret_id_of(body) {
            None => missing_id(r),
            Some(id) => match e0.resolve(id) {
                None => store_error(r) && r.status == 404,
                Some(n) => r.status == 200 && r.body@ == describe_json(e0.secrets()[n], e0.version_ids(n)),
            },
        }
        &&& act == SmAction::ListSecrets ==> r.status == 200 && r.body@ == "{\"SecretList\":["@
            + listed_items(crate::secretsmanager::store::live_secrets(e0.names(), e0.secrets())) + "]}"@
        &&& act == SmAction::Unknown ==> r.status == 400 && r.body@ == sm_error_json("InvalidAction"@,
            "Action "@ + sm_action(target) + " is not supported by Secrets Manager."@)
    }
}

/// Performs one Secrets Manager action, named by the request's target, and
/// answers it in JSON. Reading actions leave the secrets as they were (but for
/// the access time that `GetSecretValue` records).
pub fn handle_secretsmanager_json(engine: &mut SecretsManagerEngine, target: &str, body: &JsonValue) -> (r: Reply)
    requires
        old(engine).wf(),
    ensures
        final(engine).wf(),
        json_answered(*old(engine), *final(engine), target@, *body, r),
{
    let action = match strip_prefix(target, "secretsmanager.") {
        Some(a) => a,
        None => match strip_prefix(target, "secretsmanager") {
            Some(a) => a,
            None => target.to_owned(),
        },
    };
    let a = action.as_str();
    match parse_sm_action(a) {
        SmAction::CreateSecret => sm_create(engine, body),
        SmAction::GetSecretValue => sm_get_value(engine, body),
        SmAction::PutSecretValue => sm_put_value(engine, body),
        SmAction::UpdateSecret => sm_update(engine, body),
        SmAction::DeleteSecret => sm_delete(engine, body),
        SmAction::DescribeSecret => sm_describe(engine, body),
        SmAction::ListSecrets => sm_list(engine, body),
        SmAction::GetRandomPassword => sm_random_password(body),
        SmAction::Unknown => {
            let mut m = String::new();
            append(&mut m, "Action ");
            append(&mut m, a);
            append(&mut m, " is not supported by Secrets Manager.");
            make_secretsmanager_error_response(&SmError { kind: SmErrorKind::InvalidAction, message: m })
        },
    }
}


/// Handles a request: the body is read as JSON (an empty body as an empty
/// object) and the action that the target names is performed. `parsed` is
/// what the JSON reader made of the body; it is read only when the body is not
/// empty, and a body it could not read is refused.
pub fn handle_secretsmanager_request(
    engine: &mut SecretsManagerEngine,
    target: Option<&str>,
    body: &[u8],
    parsed: Result<JsonValue, String>,
) -> (r: Reply)
    requires
        old(engine).wf(),
    ensures
        final(engine).wf(),
        body_unreadable(body@, parsed) ==> *final(engine) == *old(engine) && r.content_type@ == JSON11_TYPE@
            && r.status == 400 && r.body@ == sm_error_json("BadRequest"@, parsed->Err_0@),
        !body_unreadable(body@, parsed) ==> exists|v: JsonValue|
            #[trigger] body_reads_as(body@, parsed, v) && json_answered(
                *old(engine),
                *final(engine),
                match target {
                    Some(t) => t@,
                    None => Seq::empty(),
                },
                v,
                r,
            ),
{
    match json_request_body(body, parsed) {
        Err(m) => make_secretsmanager_error_response(&SmError { kind: SmErrorKind::BadRequest, message: m }),
        Ok(v) => {
            let t = match target {
                Some(t) => t,
                None => "",
            };
            proof {
                reveal_strlit("");
            }
            assert(t@ =~= match target {
                Some(t) => t@,
                None => Seq::empty(),
            });
            let r = handle_secretsmanager_json(engine, t, &v);
            assert(body_reads_as(body@, parsed, v));
            r
        },
    }
}

} // verus!
