//! The SES protocols: reading requests from query parameters, and the XML and
//! JSON answers to each action.
use vstd::prelude::*;
use crate::ses::types::{
    BodyContent, Content, SendDataPoint, DeleteIdentityRequest, GetIdentityVerificationAttributesRequest,
    VerifyDomainIdentityRequest, VerifyEmailIdentityRequest, Destination, ListIdentitiesRequest, Message, RawMessage, SendEmailRequest,
    SendRawEmailRequest,
};
use crate::http::{append_json_str, append_json_str_array, json_str, json_str_array, reply, Reply, JSON_TYPE, XML_TYPE};
use crate::ses::state::{filter_ids, take_at_most, SesError, SesState};
use crate::table::Table;
use crate::http::{form_pairs, parse_form, request_param_map, request_params, set_pairs, with_pairs};
use crate::json::JsonValue;
use crate::sqs::handlers::str_view;
use crate::text::{
    all_digits, append, append_u64, decimal, digits_value, is_digit, lemma_decimal_injective, lemma_decimal_value,
    parse_u64, parse_unsigned, views, append_escaped, xml_escaped, append_i64, signed_decimal,
    contains_str, find_sub, is_prefix, lemma_split_on_nonempty, split_char, split_on, starts_with,
    seq_lt, str_eq, trim_ws,
};

verus! {

/// The query parameters of a request, by name.
pub open spec fn param_map(params: &Table<String>) -> Map<Seq<char>, Seq<char>> {
    params@.map_values(|v: String| v@)
}

/// The key `{prefix}.member.{i}`.
pub open spec fn member_key(prefix: Seq<char>, i: nat) -> Seq<char> {
    prefix + ".member."@ + decimal(i)
}

/// The key `{prefix}.{i}`.
pub open spec fn index_key(prefix: Seq<char>, i: nat) -> Seq<char> {
    prefix + "."@ + decimal(i)
}

/// The `i`-th member of a list parameter: under `{prefix}.member.{i}`, else
/// under `{prefix}.{i}`.
pub open spec fn member_at(params: Map<Seq<char>, Seq<char>>, prefix: Seq<char>, i: nat) -> Option<Seq<char>> {
    if params.contains_key(member_key(prefix, i)) {
        Some(params[member_key(prefix, i)])
    } else if params.contains_key(index_key(prefix, i)) {
        Some(params[index_key(prefix, i)])
    } else {
        None
    }
}

/// The key under which the `i`-th member was found.
pub open spec fn found_key(params: Map<Seq<char>, Seq<char>>, prefix: Seq<char>, i: nat) -> Seq<char> {
    if params.contains_key(member_key(prefix, i)) { member_key(prefix, i) } else { index_key(prefix, i) }
}

/// `items` are the list parameter `prefix`: the members numbered from 1 up to
/// the first missing number; with no first member, the plain parameter
/// `prefix` if there is one.
pub open spec fn is_member_list(params: Map<Seq<char>, Seq<char>>, prefix: Seq<char>, items: Seq<Seq<char>>) -> bool {
    if member_at(params, prefix, 1) is Some {
        &&& forall|j: int| 0 <= j < items.len() ==> member_at(params, prefix, (j + 1) as nat) == Some(#[trigger] items[j])
        &&& member_at(params, prefix, (items.len() + 1) as nat) is None
    } else if params.contains_key(prefix) {
        items == seq![params[prefix]]
    } else {
        items.len() == 0
    }
}

/// The keys tried for different numbers are different.
proof fn lemma_member_keys_distinct(params: Map<Seq<char>, Seq<char>>, prefix: Seq<char>, i: nat, j: nat)
    requires
        i != j,
    ensures
        found_key(params, prefix, i) != found_key(params, prefix, j),
{
    reveal_strlit(".member.");
    reveal_strlit(".");
    lemma_decimal_value(i);
    lemma_decimal_value(j);
    let ki = found_key(params, prefix, i);
    let kj = found_key(params, prefix, j);
    let n: int = prefix.len() as int;
    if ki == kj {
        if ki == member_key(prefix, i) && kj == member_key(prefix, j) {
            assert(ki.subrange(n + 8, ki.len() as int) =~= decimal(i));
            assert(kj.subrange(n + 8, kj.len() as int) =~= decimal(j));
            lemma_decimal_injective(i, j);
        } else if ki == index_key(prefix, i) && kj == index_key(prefix, j) {
            assert(ki.subrange(n + 1, ki.len() as int) =~= decimal(i));
            assert(kj.subrange(n + 1, kj.len() as int) =~= decimal(j));
            lemma_decimal_injective(i, j);
        } else if ki == member_key(prefix, i) {
            assert(ki[n + 1] == 'm');
            assert(kj[n + 1] == decimal(j)[0]);
            assert(is_digit(decimal(j)[0]));
        } else {
            assert(kj[n + 1] == 'm');
            assert(ki[n + 1] == decimal(i)[0]);
            assert(is_digit(decimal(i)[0]));
        }
    }
}

/// The text of `{prefix}{sep}{i}`.
fn numbered_key(prefix: &str, sep: &str, i: u64) -> (k: String)
    ensures
        k@ == prefix@ + sep@ + decimal(i as nat),
{
    let mut k = String::new();
    append(&mut k, prefix);
    append(&mut k, sep);
    append_u64(&mut k, i);
    assert(k@ =~= prefix@ + sep@ + decimal(i as nat));
    k
}

/// Reads a list parameter (`X.member.1`, `X.member.2`, ... or `X.1`, `X.2`, ...,
/// else the plain `X`).
pub fn extract_member_list(params: &Table<String>, prefix: &str) -> (items: Vec<String>)
    requires
        params.wf(),
        params@.len() < u64::MAX,
    ensures
        is_member_list(param_map(params), prefix@, views(items@)),
{
    let ghost pm = param_map(params);
    let mut items: Vec<String> = Vec::new();
    let mut i: u64 = 1;
    let mut done = false;
    let ghost mut found: Set<Seq<char>> = Set::empty();
    proof {
        params.lemma_wf();
        assert(pm.dom() =~= params@.dom());
    }
    while !done
        invariant
            params.wf(),
            pm == param_map(params),
            pm.dom().finite(),
            pm.dom().len() == params@.len(),
            params@.len() < u64::MAX,
            i == items@.len() + 1,
            forall|j: int| 0 <= j < items@.len() ==> member_at(pm, prefix@, (j + 1) as nat) == Some(#[trigger] views(items@)[j]),
            done ==> member_at(pm, prefix@, i as nat) is None,
            found.finite(),
            found.len() == items@.len(),
            found.subset_of(pm.dom()),
            forall|k: Seq<char>| #[trigger] found.contains(k) ==> exists|j: nat| 1 <= j < i && k == found_key(pm, prefix@, j),
        decreases pm.dom().len() - found.len(), if done { 0int } else { 1int },
    {
        let k1 = numbered_key(prefix, ".member.", i);
        let k2 = numbered_key(prefix, ".", i);
        let v = match params.get(k1.as_str()) {
            Some(v) => Some(v),
            None => params.get(k2.as_str()),
        };
        match v {
            Some(v) => {
                let ghost key = found_key(pm, prefix@, i as nat);
                proof {
                    assert(!found.contains(key)) by {
                        if found.contains(key) {
                            let j = choose|j: nat| 1 <= j < i && key == found_key(pm, prefix@, j);
                            lemma_member_keys_distinct(pm, prefix@, i as nat, j);
                        }
                    }
                    assert(pm.dom().contains(key));
                    vstd::set_lib::lemma_len_subset(found.insert(key), pm.dom());
                }
                let ghost before = items@;
                items.push(v.clone());
                proof {
                    found = found.insert(key);
                    assert(views(items@) =~= views(before).push(v@));
                }
                i = i + 1;
            },
            None => {
                done = true;
            },
        }
    }
    assert(views(items@).len() == items@.len());
    if items.len() > 0 {
        assert(member_at(pm, prefix@, 1) == Some(views(items@)[0]));
        assert(member_at(pm, prefix@, (views(items@).len() + 1) as nat) is None);
    }
    if items.len() == 0 {
        assert(member_at(pm, prefix@, 1) is None);
        match params.get(prefix) {
            Some(v) => {
                items.push(v.clone());
                assert(views(items@) =~= seq![v@]);
            },
            None => {
                assert(views(items@) =~= Seq::<Seq<char>>::empty());
            },
        }
    }
    items
}

/// The value of a parameter, if given.
pub open spec fn param(pm: Map<Seq<char>, Seq<char>>, k: Seq<char>) -> Option<Seq<char>> {
    if pm.contains_key(k) { Some(pm[k]) } else { None }
}

/// The value of a parameter, or the empty text.
pub open spec fn param_or_empty(pm: Map<Seq<char>, Seq<char>>, k: Seq<char>) -> Seq<char> {
    if pm.contains_key(k) { pm[k] } else { Seq::empty() }
}

/// A copy of a parameter's value, if given.
pub fn get_param(params: &Table<String>, k: &str) -> (r: Option<String>)
    requires
        params.wf(),
    ensures
        crate::ses::state::opt_text(r) == param(param_map(params), k@),
{
    match params.get(k) {
        Some(v) => Some(v.clone()),
        None => None,
    }
}

/// A copy of a parameter's value, or the empty string.
pub fn get_param_or_empty(params: &Table<String>, k: &str) -> (r: String)
    requires
        params.wf(),
    ensures
        r@ == param_or_empty(param_map(params), k@),
{
    match params.get(k) {
        Some(v) => v.clone(),
        None => String::new(),
    }
}

/// The content under `{data_key}`, with its charset under `{charset_key}`, if
/// the data is given.
pub open spec fn content_param(pm: Map<Seq<char>, Seq<char>>, data_key: Seq<char>, charset_key: Seq<char>) -> Option<(Seq<char>, Option<Seq<char>>)> {
    match param(pm, data_key) {
        Some(d) => Some((d, param(pm, charset_key))),
        None => None,
    }
}

/// An optional content as data and charset.
pub open spec fn content_view(c: Option<Content>) -> Option<(Seq<char>, Option<Seq<char>>)> {
    match c {
        Some(c) => Some((c.data@, crate::ses::state::opt_text(c.charset))),
        None => None,
    }
}

/// An optional list of strings as texts.
pub open spec fn opt_list(o: Option<Vec<String>>) -> Option<Seq<Seq<char>>> {
    match o {
        Some(v) => Some(views(v@)),
        None => None,
    }
}

/// Reads an optional content.
fn content_from(params: &Table<String>, data_key: &str, charset_key: &str) -> (r: Option<Content>)
    requires
        params.wf(),
    ensures
        content_view(r) == content_param(param_map(params), data_key@, charset_key@),
{
    match params.get(data_key) {
        Some(d) => Some(Content { data: d.clone(), charset: get_param(params, charset_key) }),
        None => None,
    }
}

/// Reads a send request from the query parameters.
pub fn parse_send_email_query(params: &Table<String>) -> (req: SendEmailRequest)
    requires
        params.wf(),
        params@.len() < u64::MAX,
    ensures
        ({
            let pm = param_map(params);
            &&& req.source@ == param_or_empty(pm, "Source"@)
            &&& is_member_list(pm, "Destination.ToAddresses"@, views(req.destination.to_addresses@))
            &&& is_member_list(pm, "Destination.CcAddresses"@, views(req.destination.cc_addresses@))
            &&& is_member_list(pm, "Destination.BccAddresses"@, views(req.destination.bcc_addresses@))
            &&& req.message.subject.data@ == param_or_empty(pm, "Message.Subject.Data"@)
            &&& crate::ses::state::opt_text(req.message.subject.charset) == param(pm, "Message.Subject.Charset"@)
            &&& content_view(req.message.body.text) == content_param(pm, "Message.Body.Text.Data"@, "Message.Body.Text.Charset"@)
            &&& content_view(req.message.body.html) == content_param(pm, "Message.Body.Html.Data"@, "Message.Body.Html.Charset"@)
            &&& exists|reply_to: Seq<Seq<char>>| is_member_list(pm, "ReplyToAddresses"@, reply_to)
                && opt_list(req.reply_to_addresses) == if reply_to.len() == 0 { None } else { Some(reply_to) }
            &&& crate::ses::state::opt_text(req.return_path) == param(pm, "ReturnPath"@)
            &&& crate::ses::state::opt_text(req.source_arn) == param(pm, "SourceArn"@)
            &&& crate::ses::state::opt_text(req.return_path_arn) == param(pm, "ReturnPathArn"@)
            &&& req.tags is None
            &&& crate::ses::state::opt_text(req.configuration_set_name) == param(pm, "ConfigurationSetName"@)
        }),
{
    let source = get_param_or_empty(params, "Source");
    let to_addresses = extract_member_list(params, "Destination.ToAddresses");
    let cc_addresses = extract_member_list(params, "Destination.CcAddresses");
    let bcc_addresses = extract_member_list(params, "Destination.BccAddresses");
    let destination = Destination { to_addresses, cc_addresses, bcc_addresses };
    let subject = Content {
        data: get_param_or_empty(params, "Message.Subject.Data"),
        charset: get_param(params, "Message.Subject.Charset"),
    };
    let text = content_from(params, "Message.Body.Text.Data", "Message.Body.Text.Charset");
    let html = content_from(params, "Message.Body.Html.Data", "Message.Body.Html.Charset");
    let message = Message { subject, body: BodyContent { text, html } };
    let reply_to = extract_member_list(params, "ReplyToAddresses");
    let ghost rt = views(reply_to@);
    let reply_to_addresses = if reply_to.len() == 0 { None } else { Some(reply_to) };
    assert(opt_list(reply_to_addresses) == if rt.len() == 0 { None } else { Some(rt) });
    SendEmailRequest {
        source,
        destination,
        message,
        reply_to_addresses,
        return_path: get_param(params, "ReturnPath"),
        source_arn: get_param(params, "SourceArn"),
        return_path_arn: get_param(params, "ReturnPathArn"),
        tags: None,
        configuration_set_name: get_param(params, "ConfigurationSetName"),
    }
}

/// Reads a raw send request from the query parameters.
pub fn parse_send_raw_email_query(params: &Table<String>) -> (req: SendRawEmailRequest)
    requires
        params.wf(),
        params@.len() < u64::MAX,
    ensures
        ({
            let pm = param_map(params);
            &&& crate::ses::state::opt_text(req.source) == param(pm, "Source"@)
            &&& exists|dests: Seq<Seq<char>>| is_member_list(pm, "Destinations"@, dests)
                && opt_list(req.destinations) == if dests.len() == 0 { None } else { Some(dests) }
            &&& req.raw_message.data@ == param_or_empty(pm, "RawMessage.Data"@)
            &&& crate::ses::state::opt_text(req.from_arn) == param(pm, "FromArn"@)
            &&& crate::ses::state::opt_text(req.source_arn) == param(pm, "SourceArn"@)
            &&& crate::ses::state::opt_text(req.return_path_arn) == param(pm, "ReturnPathArn"@)
            &&& req.tags is None
            &&& crate::ses::state::opt_text(req.configuration_set_name) == param(pm, "ConfigurationSetName"@)
        }),
{
    let source = get_param(params, "Source");
    let dests = extract_member_list(params, "Destinations");
    let ghost ds = views(dests@);
    let destinations = if dests.len() == 0 { None } else { Some(dests) };
    assert(opt_list(destinations) == if ds.len() == 0 { None } else { Some(ds) });
    SendRawEmailRequest {
        source,
        destinations,
        raw_message: RawMessage { data: get_param_or_empty(params, "RawMessage.Data") },
        from_arn: get_param(params, "FromArn"),
        source_arn: get_param(params, "SourceArn"),
        return_path_arn: get_param(params, "ReturnPathArn"),
        tags: None,
        configuration_set_name: get_param(params, "ConfigurationSetName"),
    }
}

/// What `str::parse::<usize>` gives.
pub open spec fn parse_usize_spec(s: Seq<char>) -> Option<usize> {
    match parse_unsigned(s) {
        Some(v) => if v <= usize::MAX { Some(v as usize) } else { None },
        None => None,
    }
}

/// `str::parse::<usize>`.
pub fn parse_usize(s: &str) -> (r: Option<usize>)
    ensures
        r == parse_usize_spec(s@),
{
    match parse_u64(s) {
        Some(v) => if v <= usize::MAX as u64 { Some(v as usize) } else { None },
        None => None,
    }
}

/// Reads a listing request from the query parameters.
pub fn parse_list_identities_query(params: &Table<String>) -> (req: ListIdentitiesRequest)
    requires
        params.wf(),
    ensures
        ({
            let pm = param_map(params);
            &&& crate::ses::state::opt_text(req.identity_type) == param(pm, "IdentityType"@)
            &&& req.max_items == match param(pm, "MaxItems"@) {
                Some(t) => parse_usize_spec(t),
                None => None,
            }
            &&& crate::ses::state::opt_text(req.next_token) == param(pm, "NextToken"@)
        }),
{
    let max_items = match params.get("MaxItems") {
        Some(t) => parse_usize(t.as_str()),
        None => None,
    };
    ListIdentitiesRequest {
        identity_type: get_param(params, "IdentityType"),
        max_items,
        next_token: get_param(params, "NextToken"),
    }
}

/// The XML answer of an action: its result element inside the response
/// element, with the request id.
pub open spec fn ses_envelope(name: Seq<char>, result: Seq<char>, rid: Seq<char>) -> Seq<char> {
    "<"@ + name + "Response xmlns=\"http://ses.amazonaws.com/doc/2010-12-01/\">\n  "@ + result
        + "\n  <ResponseMetadata>\n    <RequestId>"@ + rid + "</RequestId>\n  </ResponseMetadata>\n</"@ + name
        + "Response>"@
}

/// Builds the XML answer of an action around its result element.
pub fn ses_xml(name: &str, result: &str, rid: &str) -> (xml: String)
    ensures
        xml@ == ses_envelope(name@, result@, rid@),
{
    let mut x = String::new();
    append(&mut x, "<");
    append(&mut x, name);
    append(&mut x, "Response xmlns=\"http://ses.amazonaws.com/doc/2010-12-01/\">\n  ");
    append(&mut x, result);
    append(&mut x, "\n  <ResponseMetadata>\n    <RequestId>");
    append(&mut x, rid);
    append(&mut x, "</RequestId>\n  </ResponseMetadata>\n</");
    append(&mut x, name);
    append(&mut x, "Response>");
    assert(x@ =~= ses_envelope(name@, result@, rid@));
    x
}

/// The XML error answer.
pub open spec fn ses_error_xml(code: Seq<char>, message: Seq<char>, rid: Seq<char>) -> Seq<char> {
    "<ErrorResponse xmlns=\"http://ses.amazonaws.com/doc/2010-12-01/\">\n  <Error>\n    <Type>Sender</Type>\n    <Code>"@
        + xml_escaped(code) + "</Code>\n    <Message>"@ + xml_escaped(message) + "</Message>\n  </Error>\n  <RequestId>"@
        + rid + "</RequestId>\n</ErrorResponse>"@
}

/// The JSON error answer.
pub open spec fn ses_error_json(code: Seq<char>, message: Seq<char>) -> Seq<char> {
    "{\"__type\":"@ + json_str(code) + ",\"message\":"@ + json_str(message) + "}"@
}

/// An error answer, in XML or in JSON.
pub fn make_error_response(is_json: bool, status: u16, code: &str, message: &str, rid: &str) -> (r: Reply)
    ensures
        r.status == status,
        r.content_type@ == if is_json { JSON_TYPE@ } else { XML_TYPE@ },
        r.body@ == if is_json { ses_error_json(code@, message@) } else { ses_error_xml(code@, message@, rid@) },
{
    let mut x = String::new();
    if is_json {
        append(&mut x, "{\"__type\":");
        append_json_str(&mut x, code);
        append(&mut x, ",\"message\":");
        append_json_str(&mut x, message);
        append(&mut x, "}");
        assert(x@ =~= ses_error_json(code@, message@));
        reply(status, JSON_TYPE, x)
    } else {
        append(&mut x, "<ErrorResponse xmlns=\"http://ses.amazonaws.com/doc/2010-12-01/\">\n  <Error>\n    <Type>Sender</Type>\n    <Code>");
        append_escaped(&mut x, code);
        append(&mut x, "</Code>\n    <Message>");
        append_escaped(&mut x, message);
        append(&mut x, "</Message>\n  </Error>\n  <RequestId>");
        append(&mut x, rid);
        append(&mut x, "</RequestId>\n</ErrorResponse>");
        assert(x@ =~= ses_error_xml(code@, message@, rid@));
        reply(status, XML_TYPE, x)
    }
}

/// The error answer for an engine error: its code, status and message.
pub fn map_ses_error(is_json: bool, err: SesError, rid: &str) -> (r: Reply)
    ensures
        r.status == err.status_spec(),
        r.content_type@ == if is_json { JSON_TYPE@ } else { XML_TYPE@ },
        r.body@ == if is_json {
            ses_error_json(err.code_spec(), err.message_view())
        } else {
            ses_error_xml(err.code_spec(), err.message_view(), rid@)
        },
{
    let code = err.code();
    let status = err.status();
    make_error_response(is_json, status, code, err.message().as_str(), rid)
}

/// A success answer: the JSON body, or the XML envelope around `result`.
pub open spec fn ses_ok_body(is_json: bool, name: Seq<char>, json: Seq<char>, result: Seq<char>, rid: Seq<char>) -> Seq<char> {
    if is_json { json } else { ses_envelope(name, result, rid) }
}

/// Builds a success answer.
fn ses_ok(is_json: bool, name: &str, json: String, result: String, rid: &str) -> (r: Reply)
    ensures
        r.status == 200,
        r.content_type@ == if is_json { JSON_TYPE@ } else { XML_TYPE@ },
        r.body@ == ses_ok_body(is_json, name@, json@, result@, rid@),
{
    if is_json {
        reply(200, JSON_TYPE, json)
    } else {
        reply(200, XML_TYPE, ses_xml(name, result.as_str(), rid))
    }
}

/// `<member>` elements, one per item, escaped.
pub open spec fn members_xml(items: Seq<Seq<char>>) -> Seq<char>
    decreases items.len(),
{
    if items.len() == 0 {
        Seq::empty()
    } else {
        members_xml(items.drop_last()) + "<member>"@ + xml_escaped(items.last()) + "</member>"@
    }
}

/// Appends `<member>` elements.
fn append_members(x: &mut String, items: &Vec<String>)
    ensures
        final(x)@ == old(x)@ + members_xml(views(items@)),
{
    let ghost its = views(items@);
    let ghost head = x@;
    let mut i: usize = 0;
    while i < items.len()
        invariant
            its == views(items@),
            i <= its.len(),
            x@ == head + members_xml(its.subrange(0, i as int)),
        decreases its.len() - i,
    {
        assert(its.subrange(0, i + 1).drop_last() =~= its.subrange(0, i as int));
        append(x, "<member>");
        append_escaped(x, items[i].as_str());
        append(x, "</member>");
        i = i + 1;
        assert(x@ =~= head + members_xml(its.subrange(0, i as int)));
    }
    assert(its.subrange(0, its.len() as int) =~= its);
}

/// `{"MessageId":"..."}`.
pub open spec fn message_id_json(id: Seq<char>) -> Seq<char> {
    "{\"MessageId\":"@ + json_str(id) + "}"@
}

/// The result element that carries a message id.
pub open spec fn message_id_result(name: Seq<char>, id: Seq<char>) -> Seq<char> {
    "<"@ + name + "Result>\n    <MessageId>"@ + xml_escaped(id) + "</MessageId>\n  </"@ + name + "Result>"@
}

/// The answer to a send: the message id.
fn message_id_reply(is_json: bool, name: &str, id: &str, rid: &str) -> (r: Reply)
    ensures
        r.status == 200,
        r.content_type@ == if is_json { JSON_TYPE@ } else { XML_TYPE@ },
        r.body@ == ses_ok_body(is_json, name@, message_id_json(id@), message_id_result(name@, id@), rid@),
{
    let mut j = String::new();
    append(&mut j, "{\"MessageId\":");
    append_json_str(&mut j, id);
    append(&mut j, "}");
    assert(j@ =~= message_id_json(id@));
    let mut x = String::new();
    append(&mut x, "<");
    append(&mut x, name);
    append(&mut x, "Result>\n    <MessageId>");
    append_escaped(&mut x, id);
    append(&mut x, "</MessageId>\n  </");
    append(&mut x, name);
    append(&mut x, "Result>");
    assert(x@ =~= message_id_result(name@, id@));
    ses_ok(is_json, name, j, x, rid)
}

/// The answer to a listing of identities.
pub open spec fn identities_json(key: Seq<char>, ids: Seq<Seq<char>>, with_token: bool) -> Seq<char> {
    "{\""@ + key + "\":"@ + json_str_array(ids) + (if with_token { ",\"NextToken\":null}"@ } else { "}"@ })
}

/// The result element of a listing of identities.
pub open spec fn identities_result(name: Seq<char>, list: Seq<char>, ids: Seq<Seq<char>>) -> Seq<char> {
    "<"@ + name + "Result>\n    <"@ + list + ">"@ + members_xml(ids) + "</"@ + list + ">\n  </"@ + name + "Result>"@
}

/// Answers a listing of identities.
fn identities_reply(is_json: bool, name: &str, key: &str, list: &str, with_token: bool, ids: &Vec<String>, rid: &str) -> (r: Reply)
    ensures
        r.status == 200,
        r.content_type@ == if is_json { JSON_TYPE@ } else { XML_TYPE@ },
        r.body@ == ses_ok_body(is_json, name@, identities_json(key@, views(ids@), with_token),
            identities_result(name@, list@, views(ids@)), rid@),
{
    let mut j = String::new();
    append(&mut j, "{\"");
    append(&mut j, key);
    append(&mut j, "\":");
    append_json_str_array(&mut j, ids);
    if with_token {
        append(&mut j, ",\"NextToken\":null}");
    } else {
        append(&mut j, "}");
    }
    assert(j@ =~= identities_json(key@, views(ids@), with_token));
    let mut x = String::new();
    append(&mut x, "<");
    append(&mut x, name);
    append(&mut x, "Result>\n    <");
    append(&mut x, list);
    append(&mut x, ">");
    append_members(&mut x, ids);
    append(&mut x, "</");
    append(&mut x, list);
    append(&mut x, ">\n  </");
    append(&mut x, name);
    append(&mut x, "Result>");
    assert(x@ =~= identities_result(name@, list@, views(ids@)));
    ses_ok(is_json, name, j, x, rid)
}

/// The answer that carries nothing: `{}`, or an empty result element.
fn empty_reply(is_json: bool, name: &str, rid: &str) -> (r: Reply)
    ensures
        r.status == 200,
        r.content_type@ == if is_json { JSON_TYPE@ } else { XML_TYPE@ },
        r.body@ == ses_ok_body(is_json, name@, "{}"@, "<"@ + name@ + "Result/>"@, rid@),
{
    let mut x = String::new();
    append(&mut x, "<");
    append(&mut x, name);
    append(&mut x, "Result/>");
    assert(x@ =~= "<"@ + name@ + "Result/>"@);
    ses_ok(is_json, name, "{}".to_owned(), x, rid)
}

/// The JSON answer to a domain verification.
pub open spec fn token_json(token: Seq<char>) -> Seq<char> {
    "{\"VerificationToken\":"@ + json_str(token) + "}"@
}

/// The result element of a domain verification.
pub open spec fn token_result(token: Seq<char>) -> Seq<char> {
    "<VerifyDomainIdentityResult>\n    <VerificationToken>"@ + xml_escaped(token)
        + "</VerificationToken>\n  </VerifyDomainIdentityResult>"@
}

/// Answers a domain verification.
fn token_reply(is_json: bool, token: &str, rid: &str) -> (r: Reply)
    ensures
        r.status == 200,
        r.content_type@ == if is_json { JSON_TYPE@ } else { XML_TYPE@ },
        r.body@ == ses_ok_body(is_json, "VerifyDomainIdentity"@, token_json(token@), token_result(token@), rid@),
{
    let mut j = String::new();
    append(&mut j, "{\"VerificationToken\":");
    append_json_str(&mut j, token);
    append(&mut j, "}");
    assert(j@ =~= token_json(token@));
    let mut x = String::new();
    append(&mut x, "<VerifyDomainIdentityResult>\n    <VerificationToken>");
    append_escaped(&mut x, token);
    append(&mut x, "</VerificationToken>\n  </VerifyDomainIdentityResult>");
    assert(x@ =~= token_result(token@));
    ses_ok(is_json, "VerifyDomainIdentity", j, x, rid)
}

/// The JSON answer to a quota request, for `n` messages sent.
pub open spec fn quota_json(n: nat) -> Seq<char> {
    "{\"Max24HourSend\":200.0,\"MaxSendRate\":1.0,\"SentLast24Hours\":"@ + decimal(n) + ".0}"@
}

/// The result element of a quota request, for `n` messages sent.
pub open spec fn quota_result(n: nat) -> Seq<char> {
    "<GetSendQuotaResult>\n    <Max24HourSend>200.0</Max24HourSend>\n    <MaxSendRate>1.0</MaxSendRate>\n    <SentLast24Hours>"@
        + decimal(n) + ".0</SentLast24Hours>\n  </GetSendQuotaResult>"@
}

/// Answers a quota request: 200 a day, one a second, `n` sent.
fn quota_reply(is_json: bool, n: u64, rid: &str) -> (r: Reply)
    ensures
        r.status == 200,
        r.content_type@ == if is_json { JSON_TYPE@ } else { XML_TYPE@ },
        r.body@ == ses_ok_body(is_json, "GetSendQuota"@, quota_json(n as nat), quota_result(n as nat), rid@),
{
    let mut j = String::new();
    append(&mut j, "{\"Max24HourSend\":200.0,\"MaxSendRate\":1.0,\"SentLast24Hours\":");
    append_u64(&mut j, n);
    append(&mut j, ".0}");
    assert(j@ =~= quota_json(n as nat));
    let mut x = String::new();
    append(&mut x, "<GetSendQuotaResult>\n    <Max24HourSend>200.0</Max24HourSend>\n    <MaxSendRate>1.0</MaxSendRate>\n    <SentLast24Hours>");
    append_u64(&mut x, n);
    append(&mut x, ".0</SentLast24Hours>\n  </GetSendQuotaResult>");
    assert(x@ =~= quota_result(n as nat));
    ses_ok(is_json, "GetSendQuota", j, x, rid)
}

/// The JSON answer to a statistics request: one point.
pub open spec fn statistics_json(ts: Seq<char>, attempts: int) -> Seq<char> {
    "{\"SendDataPoints\":[{\"Bounces\":0,\"Complaints\":0,\"DeliveryAttempts\":"@ + signed_decimal(attempts)
        + ",\"Rejects\":0,\"Timestamp\":"@ + json_str(ts) + "}]}"@
}

/// The result element of a statistics request: one point.
pub open spec fn statistics_result(ts: Seq<char>, attempts: int) -> Seq<char> {
    "<GetSendStatisticsResult>\n    <SendDataPoints>"@ + "<member><Timestamp>"@ + xml_escaped(ts)
        + "</Timestamp><DeliveryAttempts>"@ + signed_decimal(attempts)
        + "</DeliveryAttempts><Bounces>0</Bounces><Complaints>0</Complaints><Rejects>0</Rejects></member>"@
        + "</SendDataPoints>\n  </GetSendStatisticsResult>"@
}

/// Answers a statistics request with its one data point.
fn statistics_reply(is_json: bool, p: &SendDataPoint, rid: &str) -> (r: Reply)
    requires
        p.bounces == 0 && p.complaints == 0 && p.rejects == 0,
    ensures
        r.status == 200,
        r.content_type@ == if is_json { JSON_TYPE@ } else { XML_TYPE@ },
        r.body@ == ses_ok_body(is_json, "GetSendStatistics"@, statistics_json(p.timestamp@, p.delivery_attempts as int),
            statistics_result(p.timestamp@, p.delivery_attempts as int), rid@),
{
    let mut j = String::new();
    append(&mut j, "{\"SendDataPoints\":[{\"Bounces\":0,\"Complaints\":0,\"DeliveryAttempts\":");
    append_i64(&mut j, p.delivery_attempts);
    append(&mut j, ",\"Rejects\":0,\"Timestamp\":");
    append_json_str(&mut j, p.timestamp.as_str());
    append(&mut j, "}]}");
    assert(j@ =~= statistics_json(p.timestamp@, p.delivery_attempts as int));
    let mut x = String::new();
    append(&mut x, "<GetSendStatisticsResult>\n    <SendDataPoints>");
    append(&mut x, "<member><Timestamp>");
    append_escaped(&mut x, p.timestamp.as_str());
    append(&mut x, "</Timestamp><DeliveryAttempts>");
    append_i64(&mut x, p.delivery_attempts);
    append(&mut x, "</DeliveryAttempts><Bounces>0</Bounces><Complaints>0</Complaints><Rejects>0</Rejects></member>");
    append(&mut x, "</SendDataPoints>\n  </GetSendStatisticsResult>");
    assert(x@ =~= statistics_result(p.timestamp@, p.delivery_attempts as int));
    ses_ok(is_json, "GetSendStatistics", j, x, rid)
}

/// The `entry` elements of a verification report, in key order.
pub open spec fn entries_xml(keys: Seq<Seq<char>>) -> Seq<char>
    decreases keys.len(),
{
    if keys.len() == 0 {
        Seq::empty()
    } else {
        entries_xml(keys.drop_last()) + "<entry><key>"@ + xml_escaped(keys.last())
            + "</key><value><VerificationStatus>Success</VerificationStatus></value></entry>"@
    }
}

/// The members of the JSON verification report, in key order.
pub open spec fn entries_json(keys: Seq<Seq<char>>) -> Seq<char>
    decreases keys.len(),
{
    if keys.len() == 0 {
        Seq::empty()
    } else if keys.len() == 1 {
        json_str(keys[0]) + ":{\"VerificationStatus\":\"Success\",\"VerificationToken\":null}"@
    } else {
        entries_json(keys.drop_last()) + ","@ + json_str(keys.last())
            + ":{\"VerificationStatus\":\"Success\",\"VerificationToken\":null}"@
    }
}

/// Answers a verification report in which every listed identity succeeded.
fn attributes_reply(is_json: bool, keys: &Vec<String>, rid: &str) -> (r: Reply)
    ensures
        r.status == 200,
        r.content_type@ == if is_json { JSON_TYPE@ } else { XML_TYPE@ },
        r.body@ == ses_ok_body(is_json, "GetIdentityVerificationAttributes"@,
            "{\"VerificationAttributes\":{"@ + entries_json(views(keys@)) + "}}"@,
            "<GetIdentityVerificationAttributesResult>\n    <VerificationAttributes>"@ + entries_xml(views(keys@))
                + "</VerificationAttributes>\n  </GetIdentityVerificationAttributesResult>"@, rid@),
{
    let ghost ks = views(keys@);
    let mut j = String::new();
    let mut x = String::new();
    append(&mut j, "{\"VerificationAttributes\":{");
    append(&mut x, "<GetIdentityVerificationAttributesResult>\n    <VerificationAttributes>");
    let ghost jh = j@;
    let ghost xh = x@;
    let mut i: usize = 0;
    while i < keys.len()
        invariant
            ks == views(keys@),
            i <= ks.len(),
            j@ == jh + entries_json(ks.subrange(0, i as int)),
            x@ == xh + entries_xml(ks.subrange(0, i as int)),
        decreases ks.len() - i,
    {
        assert(ks.subrange(0, i + 1).drop_last() =~= ks.subrange(0, i as int));
        if i > 0 {
            append(&mut j, ",");
        }
        append_json_str(&mut j, keys[i].as_str());
        append(&mut j, ":{\"VerificationStatus\":\"Success\",\"VerificationToken\":null}");
        append(&mut x, "<entry><key>");
        append_escaped(&mut x, keys[i].as_str());
        append(&mut x, "</key><value><VerificationStatus>Success</VerificationStatus></value></entry>");
        i = i + 1;
        assert(j@ =~= jh + entries_json(ks.subrange(0, i as int)));
        assert(x@ =~= xh + entries_xml(ks.subrange(0, i as int)));
    }
    assert(ks.subrange(0, ks.len() as int) =~= ks);
    append(&mut j, "}}");
    append(&mut x, "</VerificationAttributes>\n  </GetIdentityVerificationAttributesResult>");
    ses_ok(is_json, "GetIdentityVerificationAttributes", j, x, rid)
}

/// The JSON answer to an account request.
pub open spec fn account_json() -> Seq<char> {
    "{\"DedicatedIpAutoWarmupEnabled\":true,\"EnforcementStatus\":\"HEALTHY\",\"ProductionAccessEnabled\":true,\"SendingEnabled\":true}"@
}

/// The result element of an account request.
pub open spec fn account_result() -> Seq<char> {
    "<GetAccountResult>\n    <DedicatedIpAutoWarmupEnabled>true</DedicatedIpAutoWarmupEnabled>\n    <EnforcementStatus>HEALTHY</EnforcementStatus>\n    <ProductionAccessEnabled>true</ProductionAccessEnabled>\n    <SendingEnabled>true</SendingEnabled>\n  </GetAccountResult>"@
}

/// A request body of the JSON protocol, read for the action at hand; `Absent`
/// when there is none, the protocol is not JSON, or it did not parse.
pub enum SesJsonBody {
    Absent,
    SendEmail(SendEmailRequest),
    SendRawEmail(SendRawEmailRequest),
    VerifyEmailIdentity(String),
    VerifyDomainIdentity(String),
    ListIdentities(ListIdentitiesRequest),
    DeleteIdentity(String),
    GetIdentityVerificationAttributes(Vec<String>),
}

/// Whether a request speaks the JSON protocol: its target names SES, or its
/// content type is JSON.
pub open spec fn ses_is_json_spec(target: Option<Seq<char>>, content_type: Option<Seq<char>>) -> bool {
    (match target {
        Some(t) => is_prefix("SimpleEmailService"@, t) || is_prefix("SES"@, t),
        None => false,
    }) || (match content_type {
        Some(c) => find_sub(c, "application/x-amz-json"@) is Some || find_sub(c, "application/json"@) is Some,
        None => false,
    })
}

/// Whether a request speaks the JSON protocol.
pub fn ses_is_json(target: Option<&str>, content_type: Option<&str>) -> (r: bool)
    ensures
        r == ses_is_json_spec(
            match target { Some(t) => Some(t@), None => None },
            match content_type { Some(c) => Some(c@), None => None },
        ),
{
    let a = match target {
        Some(t) => starts_with(t, "SimpleEmailService") || starts_with(t, "SES"),
        None => false,
    };
    let b = match content_type {
        Some(c) => contains_str(c, "application/x-amz-json") || contains_str(c, "application/json"),
        None => false,
    };
    a || b
}

/// The action of a request: the `Action` parameter, else what follows the last
/// `.` of the target, else nothing.
pub open spec fn ses_action_spec(pm: Map<Seq<char>, Seq<char>>, target: Option<Seq<char>>) -> Seq<char> {
    if pm.contains_key("Action"@) {
        pm["Action"@]
    } else {
        match target {
            Some(t) => split_on(t, '.').last(),
            None => Seq::empty(),
        }
    }
}

/// The action of a request.
pub fn ses_action(params: &Table<String>, target: Option<&str>) -> (r: String)
    requires
        params.wf(),
    ensures
        r@ == ses_action_spec(param_map(params), match target { Some(t) => Some(t@), None => None }),
{
    match params.get("Action") {
        Some(a) => a.clone(),
        None => match target {
            Some(t) => {
                let parts = split_char(t, '.');
                proof { lemma_split_on_nonempty(t@, '.'); }
                let n = parts.len();
                assert(views(parts@)[n - 1] == parts@[n - 1]@);
                parts[n - 1].clone()
            },
            None => String::new(),
        },
    }
}

/// The identity named by the parameter `key`, else by the JSON body.
pub open spec fn named_identity(pm: Map<Seq<char>, Seq<char>>, key: Seq<char>, from_body: Option<Seq<char>>) -> Option<Seq<char>> {
    if pm.contains_key(key) { Some(pm[key]) } else { from_body }
}

/// A count as a 64-bit signed number, capped at its largest value.
pub open spec fn clamped_count(n: nat) -> int {
    if n <= i64::MAX { n as int } else { i64::MAX as int }
}

/// An error answer's body, in the request's protocol.
pub open spec fn ses_error_body(is_json: bool, code: Seq<char>, message: Seq<char>, rid: Seq<char>) -> Seq<char> {
    if is_json { ses_error_json(code, message) } else { ses_error_xml(code, message, rid) }
}

/// The identity that a verification or removal names, from the parameter
/// `key` or, in the JSON protocol, the body.
pub open spec fn body_identity(body: SesJsonBody, is_json: bool, action: Seq<char>) -> Option<Seq<char>> {
    if !is_json {
        None
    } else {
        match body {
            SesJsonBody::VerifyEmailIdentity(e) => if action == "VerifyEmailIdentity"@ { Some(e@) } else { None },
            SesJsonBody::VerifyDomainIdentity(d) => if action == "VerifyDomainIdentity"@ { Some(d@) } else { None },
            SesJsonBody::DeleteIdentity(i) => if action == "DeleteIdentity"@ { Some(i@) } else { None },
            _ => None,
        }
    }
}

/// `ks` lists the set `s` in ascending order, each once.
pub open spec fn sorted_listing(ks: Seq<Seq<char>>, s: Set<Seq<char>>) -> bool {
    &&& ks.to_set() == s
    &&& forall|i: int, j: int| 0 <= i < j < ks.len() ==> seq_lt(#[trigger] ks[i], #[trigger] ks[j])
}

/// The identity a verification or removal works on: the parameter, else the
/// body's, or an error answer when there is none.
fn identity_arg(params: &Table<String>, key: &str, from_body: Option<String>) -> (r: Option<String>)
    requires
        params.wf(),
    ensures
        crate::ses::state::opt_text(r) == named_identity(param_map(params), key@, crate::ses::state::opt_text(from_body)),
{
    match params.get(key) {
        Some(v) => Some(v.clone()),
        None => from_body,
    }
}

/// Whether a member list is given at all: numbered or as the plain parameter.
pub open spec fn list_given(pm: Map<Seq<char>, Seq<char>>, prefix: Seq<char>) -> bool {
    member_at(pm, prefix, 1) is Some || pm.contains_key(prefix)
}

/// A member list is empty exactly when it is not given.
pub proof fn lemma_member_list_empty(pm: Map<Seq<char>, Seq<char>>, prefix: Seq<char>, items: Seq<Seq<char>>)
    requires
        is_member_list(pm, prefix, items),
    ensures
        items.len() > 0 <==> list_given(pm, prefix),
{
}

/// Whether a send asks what the state accepts: for `SendEmail`, a source
/// that is not blank and at least one destination; for `SendRawEmail`, raw
/// data that is not blank. The request is the JSON body's when it holds one
/// for the action, else the one the parameters give.
pub open spec fn send_owed(action: Seq<char>, body: SesJsonBody, pm: Map<Seq<char>, Seq<char>>) -> bool {
    if action == "SendEmail"@ {
        match body {
            SesJsonBody::SendEmail(req) => trim_ws(req.source@).len() != 0 && req.destination.to_addresses@.len()
                + req.destination.cc_addresses@.len() + req.destination.bcc_addresses@.len() != 0,
            _ => trim_ws(param_or_empty(pm, "Source"@)).len() != 0 && (list_given(pm, "Destination.ToAddresses"@)
                || list_given(pm, "Destination.CcAddresses"@) || list_given(pm, "Destination.BccAddresses"@)),
        }
    } else {
        match body {
            SesJsonBody::SendRawEmail(req) => trim_ws(req.raw_message.data@).len() != 0,
            _ => trim_ws(param_or_empty(pm, "RawMessage.Data"@)).len() != 0,
        }
    }
}

/// How `r` answered a request for `action` in the JSON protocol (`is_json`)
/// or the query protocol, with parameters `pm`, JSON body `body` and request id
/// `rid`, the state going from `s0` to `s1`.
pub open spec fn action_answered(
    s0: SesState,
    s1: SesState,
    action: Seq<char>,
    is_json: bool,
    pm: Map<Seq<char>, Seq<char>>,
    body: SesJsonBody,
    rid: Seq<char>,
    r: Reply,
) -> bool {
    &&& s1.account() == s0.account()
    &&& s1.home_region() == s0.home_region()
    &&& r.content_type@ == (if is_json { JSON_TYPE@ } else { XML_TYPE@ })
    &&& !(action == "SendEmail"@ || action == "SendRawEmail"@) ==> s1.sent() == s0.sent()
    &&& !(action == "VerifyEmailIdentity"@ || action == "VerifyDomainIdentity"@ || action == "DeleteIdentity"@)
        ==> s1.identities() == s0.identities()
    &&& action.len() == 0 ==> r.status == 400 && r.body@ == ses_error_body(is_json, "MissingAction"@,
        "Missing Action parameter or x-amz-target header"@, rid)
    &&& action == "SendEmail"@ || action == "SendRawEmail"@ ==> {
        ||| s1.sent() == s0.sent() && r.status == 400
            && exists|m: Seq<char>| r.body@ == ses_error_body(is_json, "InvalidParameterValue"@, m, rid)
        ||| s1.sent().len() == s0.sent().len() + 1
            && s1.sent().drop_last() == s0.sent()
            && crate::ses::state::is_message_id(s1.sent().last().message_id)
            && r.status == 200 && r.body@ == ses_ok_body(is_json, action,
                message_id_json(s1.sent().last().message_id),
                message_id_result(action, s1.sent().last().message_id), rid)
    }
    &&& action == "SendEmail"@ || action == "SendRawEmail"@ ==> (r.status == 200 <==> send_owed(action, body, pm))
    &&& action == "VerifyEmailIdentity"@ || action == "VerifyDomainIdentity"@ || action == "DeleteIdentity"@ ==> {
        let key = if action == "VerifyEmailIdentity"@ { "EmailAddress"@ } else if action == "VerifyDomainIdentity"@ {
            "Domain"@
        } else {
            "Identity"@
        };
        match named_identity(pm, key, body_identity(body, is_json, action)) {
            None => r.status == 400 && s1.identities() == s0.identities()
                && r.body@ == ses_error_body(is_json, "InvalidParameterValue"@, "Missing "@ + key, rid),
            Some(id) => if trim_ws(id).len() == 0 {
                r.status == 400 && s1.identities() == s0.identities()
                    && r.body@ == ses_error_body(is_json, "InvalidParameterValue"@, key + " must not be empty"@, rid)
            } else if action == "DeleteIdentity"@ {
                r.status == 200 && s1.identities() == s0.identities().remove(trim_ws(id))
                    && r.body@ == ses_ok_body(is_json, action, "{}"@, "<"@ + action + "Result/>"@, rid)
            } else if action == "VerifyEmailIdentity"@ {
                r.status == 200 && s1.identities() == s0.identities().insert(trim_ws(id))
                    && r.body@ == ses_ok_body(is_json, action, "{}"@, "<"@ + action + "Result/>"@, rid)
            } else {
                r.status == 200 && s1.identities() == s0.identities().insert(trim_ws(id))
                    && exists|t: Seq<char>| t.len() == 36
                        && r.body@ == ses_ok_body(is_json, action, token_json(t), token_result(t), rid)
            },
        }
    }
    &&& action == "ListIdentities"@ ==> r.status == 200 && exists|kind: Option<Seq<char>>, max: nat|
        r.body@ == ses_ok_body(is_json, action, identities_json("Identities"@,
            take_at_most(filter_ids(s0.identity_list(), kind), max), true),
            identities_result(action, "Identities"@, take_at_most(filter_ids(s0.identity_list(), kind), max)), rid)
    &&& action == "ListVerifiedEmailAddresses"@ ==> r.status == 200 && r.body@ == ses_ok_body(is_json, action,
        identities_json("VerifiedEmailAddresses"@, take_at_most(filter_ids(s0.identity_list(), Some("EmailAddress"@)), 100), false),
        identities_result(action, "VerifiedEmailAddresses"@, take_at_most(filter_ids(s0.identity_list(), Some("EmailAddress"@)), 100)), rid)
    &&& action == "GetSendQuota"@ ==> r.status == 200
        && r.body@ == ses_ok_body(is_json, action, quota_json(s0.sent().len()), quota_result(s0.sent().len()), rid)
    &&& action == "GetSendStatistics"@ ==> r.status == 200 && exists|ts: Seq<char>|
        r.body@ == ses_ok_body(is_json, action, #[trigger] statistics_json(ts, clamped_count(s0.sent().len())),
            statistics_result(ts, clamped_count(s0.sent().len())), rid)
    &&& action == "GetIdentityVerificationAttributes"@ ==> r.status == 200 && exists|asked: Seq<Seq<char>>, ks: Seq<Seq<char>>|
        sorted_listing(ks, asked.to_set().intersect(s0.identities()))
        && r.body@ == ses_ok_body(is_json, action, "{\"VerificationAttributes\":{"@ + entries_json(ks) + "}}"@,
            "<GetIdentityVerificationAttributesResult>\n    <VerificationAttributes>"@ + entries_xml(ks)
                + "</VerificationAttributes>\n  </GetIdentityVerificationAttributesResult>"@, rid)
    &&& action == "GetAccount"@ ==> r.status == 200 && r.body@ == ses_ok_body(is_json, action, account_json(), account_result(), rid)
    &&& action.len() != 0 && !(action == "SendEmail"@ || action == "SendRawEmail"@ || action == "VerifyEmailIdentity"@
        || action == "VerifyDomainIdentity"@ || action == "DeleteIdentity"@ || action == "ListIdentities"@
        || action == "ListVerifiedEmailAddresses"@ || action == "GetSendQuota"@ || action == "GetSendStatistics"@
        || action == "GetIdentityVerificationAttributes"@ || action == "GetAccount"@) ==> r.status == 400
        && r.body@ == ses_error_body(is_json, "InvalidAction"@, "The action "@ + action + " is not valid for this endpoint."@, rid)
}

/// Performs one SES action on the state and answers it in the request's
/// protocol (JSON or XML).
#[verifier::rlimit(50)]
pub fn handle_ses_action(
    state: &mut SesState,
    action: &str,
    is_json: bool,
    params: &Table<String>,
    body: SesJsonBody,
    rid: &str,
) -> (r: Reply)
    requires
        old(state).wf(),
        params.wf(),
        params@.len() < u64::MAX,
    ensures
        final(state).wf(),
        action_answered(*old(state), *final(state), action@, is_json, param_map(params), body, rid@, r),
{
    proof {
        reveal_strlit("SendEmail");
        reveal_strlit("SendRawEmail");
        reveal_strlit("VerifyEmailIdentity");
        reveal_strlit("VerifyDomainIdentity");
        reveal_strlit("DeleteIdentity");
        reveal_strlit("ListIdentities");
        reveal_strlit("ListVerifiedEmailAddresses");
        reveal_strlit("GetSendQuota");
        reveal_strlit("GetSendStatistics");
        reveal_strlit("GetIdentityVerificationAttributes");
        reveal_strlit("GetAccount");
        reveal_strlit("EmailAddress");
        reveal_strlit("Domain");
        reveal_strlit("Identity");
        reveal_strlit(" must not be empty");
        reveal_strlit("EmailAddress must not be empty");
        reveal_strlit("Domain must not be empty");
        reveal_strlit("Identity must not be empty");
        assert("SendRawEmail"@[0] != "GetSendQuota"@[0]);
        assert("DeleteIdentity"@[0] != "ListIdentities"@[0]);
        assert("EmailAddress"@ + " must not be empty"@ =~= "EmailAddress must not be empty"@);
        assert("Domain"@ + " must not be empty"@ =~= "Domain must not be empty"@);
        assert("Identity"@ + " must not be empty"@ =~= "Identity must not be empty"@);
    }
    let ghost gbody = body;
    if action.is_empty() {
        return make_error_response(is_json, 400, "MissingAction", "Missing Action parameter or x-amz-target header", rid);
    }
    if str_eq(action, "SendEmail") {
        let req = match body {
            SesJsonBody::SendEmail(req) => req,
            _ => parse_send_email_query(params),
        };
        proof {
            let pm = param_map(params);
            if !(gbody is SendEmail) {
                lemma_member_list_empty(pm, "Destination.ToAddresses"@, views(req.destination.to_addresses@));
                lemma_member_list_empty(pm, "Destination.CcAddresses"@, views(req.destination.cc_addresses@));
                lemma_member_list_empty(pm, "Destination.BccAddresses"@, views(req.destination.bcc_addresses@));
            }
            assert(send_owed(action@, gbody, pm) <==> (trim_ws(req.source@).len() != 0
                && req.destination.to_addresses@.len() + req.destination.cc_addresses@.len()
                + req.destination.bcc_addresses@.len() != 0));
        }
        return match state.send_email(req) {
            Ok(resp) => {
                let r = message_id_reply(is_json, "SendEmail", resp.message_id.as_str(), rid);
                assert(state.sent().len() == old(state).sent().len() + 1
                    && state.sent().drop_last() == old(state).sent()
                    && crate::ses::state::is_message_id(state.sent().last().message_id)
                    && r.status == 200 && r.body@ == ses_ok_body(is_json, action@,
                        message_id_json(state.sent().last().message_id),
                        message_id_result(action@, state.sent().last().message_id), rid@));
                assert(action_answered(*old(state), *state, action@, is_json, param_map(params), gbody, rid@, r));
                r
            },
            Err(e) => {
                let ghost m = e.message_view();
                let r = map_ses_error(is_json, e, rid);
                assert(r.body@ == ses_error_body(is_json, "InvalidParameterValue"@, m, rid@));
                assert(action_answered(*old(state), *state, action@, is_json, param_map(params), gbody, rid@, r));
                r
            },
        };
    }
    if str_eq(action, "SendRawEmail") {
        let req = match body {
            SesJsonBody::SendRawEmail(req) => req,
            _ => parse_send_raw_email_query(params),
        };
        assert(send_owed(action@, gbody, param_map(params)) <==> trim_ws(req.raw_message.data@).len() != 0);
        return match state.send_raw_email(req) {
            Ok(resp) => {
                let r = message_id_reply(is_json, "SendRawEmail", resp.message_id.as_str(), rid);
                assert(state.sent().len() == old(state).sent().len() + 1
                    && state.sent().drop_last() == old(state).sent()
                    && crate::ses::state::is_message_id(state.sent().last().message_id)
                    && r.status == 200 && r.body@ == ses_ok_body(is_json, action@,
                        message_id_json(state.sent().last().message_id),
                        message_id_result(action@, state.sent().last().message_id), rid@));
                assert(action_answered(*old(state), *state, action@, is_json, param_map(params), gbody, rid@, r));
                r
            },
            Err(e) => {
                let ghost m = e.message_view();
                let r = map_ses_error(is_json, e, rid);
                assert(r.body@ == ses_error_body(is_json, "InvalidParameterValue"@, m, rid@));
                assert(action_answered(*old(state), *state, action@, is_json, param_map(params), gbody, rid@, r));
                r
            },
        };
    }
    if str_eq(action, "VerifyEmailIdentity") || str_eq(action, "VerifyDomainIdentity") || str_eq(action, "DeleteIdentity") {
        let from_body = if !is_json {
            None
        } else {
            match body {
                SesJsonBody::VerifyEmailIdentity(e) => if str_eq(action, "VerifyEmailIdentity") { Some(e) } else { None },
                SesJsonBody::VerifyDomainIdentity(d) => if str_eq(action, "VerifyDomainIdentity") { Some(d) } else { None },
                SesJsonBody::DeleteIdentity(i) => if str_eq(action, "DeleteIdentity") { Some(i) } else { None },
                _ => None,
            }
        };
        let key: &str = if str_eq(action, "VerifyEmailIdentity") {
            "EmailAddress"
        } else if str_eq(action, "VerifyDomainIdentity") {
            "Domain"
        } else {
            "Identity"
        };
        let id = match identity_arg(params, key, from_body) {
            Some(id) => id,
            None => {
                let mut m = String::new();
                append(&mut m, "Missing ");
                append(&mut m, key);
                return make_error_response(is_json, 400, "InvalidParameterValue", m.as_str(), rid);
            },
        };
        if str_eq(action, "VerifyEmailIdentity") {
            return match state.verify_email_identity(VerifyEmailIdentityRequest { email_address: id }) {
                Ok(()) => empty_reply(is_json, "VerifyEmailIdentity", rid),
                Err(e) => map_ses_error(is_json, e, rid),
            };
        } else if str_eq(action, "VerifyDomainIdentity") {
            return match state.verify_domain_identity(VerifyDomainIdentityRequest { domain: id }) {
                Ok(resp) => token_reply(is_json, resp.verification_token.as_str(), rid),
                Err(e) => map_ses_error(is_json, e, rid),
            };
        } else {
            return match state.delete_identity(DeleteIdentityRequest { identity: id }) {
                Ok(()) => empty_reply(is_json, "DeleteIdentity", rid),
                Err(e) => map_ses_error(is_json, e, rid),
            };
        }
    }
    if str_eq(action, "ListIdentities") {
        let req = match body {
            SesJsonBody::ListIdentities(req) => req,
            _ => parse_list_identities_query(params),
        };
        let ghost kind = crate::ses::state::opt_text(req.identity_type);
        let ghost max: nat = match req.max_items { Some(m) => m as nat, None => 100 };
        return match state.list_identities(req) {
            Ok(resp) => {
                let r = identities_reply(is_json, "ListIdentities", "Identities", "Identities", true, &resp.identities, rid);
                assert(views(resp.identities@) == take_at_most(filter_ids(state.identity_list(), kind), max));
                r
            },
            Err(e) => map_ses_error(is_json, e, rid),
        };
    }
    if str_eq(action, "ListVerifiedEmailAddresses") {
        let req = ListIdentitiesRequest { identity_type: Some("EmailAddress".to_owned()), max_items: None, next_token: None };
        return match state.list_identities(req) {
            Ok(resp) => identities_reply(is_json, "ListVerifiedEmailAddresses", "VerifiedEmailAddresses",
                "VerifiedEmailAddresses", false, &resp.identities, rid),
            Err(e) => map_ses_error(is_json, e, rid),
        };
    }
    if str_eq(action, "GetSendQuota") {
        let n = state.sent_count();
        return quota_reply(is_json, n as u64, rid);
    }
    if str_eq(action, "GetSendStatistics") {
        return match state.get_send_statistics() {
            Ok(resp) => {
                let p = &resp.send_data_points[0];
                let r = statistics_reply(is_json, p, rid);
                assert(p.delivery_attempts as int == clamped_count(state.sent().len()));
                assert(r.body@ == ses_ok_body(is_json, action@, statistics_json(p.timestamp@, clamped_count(state.sent().len())),
                    statistics_result(p.timestamp@, clamped_count(state.sent().len())), rid@));
                r
            },
            Err(e) => map_ses_error(is_json, e, rid),
        };
    }
    if str_eq(action, "GetIdentityVerificationAttributes") {
        let listed = extract_member_list(params, "Identities");
        let identities = if listed.len() == 0 && is_json {
            match body {
                SesJsonBody::GetIdentityVerificationAttributes(ids) => ids,
                _ => listed,
            }
        } else {
            listed
        };
        let ghost asked = views(identities@);
        return match state.get_identity_verification_attributes(GetIdentityVerificationAttributesRequest { identities }) {
            Ok(resp) => {
                let keys = resp.verification_attributes.key_list();
                proof {
                    resp.verification_attributes.lemma_wf();
                    let ks = views(keys@);
                    assert(ks =~= resp.verification_attributes.keys());
                    assert(ks.to_set() =~= resp.verification_attributes@.dom());
                    assert(sorted_listing(ks, asked.to_set().intersect(state.identities())));
                }
                attributes_reply(is_json, &keys, rid)
            },
            Err(e) => map_ses_error(is_json, e, rid),
        };
    }
    if str_eq(action, "GetAccount") {
        let mut j = String::new();
        append(&mut j, "{\"DedicatedIpAutoWarmupEnabled\":true,\"EnforcementStatus\":\"HEALTHY\",\"ProductionAccessEnabled\":true,\"SendingEnabled\":true}");
        let mut x = String::new();
        append(&mut x, "<GetAccountResult>\n    <DedicatedIpAutoWarmupEnabled>true</DedicatedIpAutoWarmupEnabled>\n    <EnforcementStatus>HEALTHY</EnforcementStatus>\n    <ProductionAccessEnabled>true</ProductionAccessEnabled>\n    <SendingEnabled>true</SendingEnabled>\n  </GetAccountResult>");
        return ses_ok(is_json, "GetAccount", j, x, rid);
    }
    let mut m = String::new();
    append(&mut m, "The action ");
    append(&mut m, action);
    append(&mut m, " is not valid for this endpoint.");
    make_error_response(is_json, 400, "InvalidAction", m.as_str(), rid)
}


/// The text that a member of a JSON body gives a parameter: a string as it is,
/// a boolean as `true` or `false`, an integer that a signed 64-bit number holds
/// in decimal; any other value gives none.
pub open spec fn json_param_text(v: JsonValue) -> Option<Seq<char>> {
    match v {
        JsonValue::Str(t) => Some(t@),
        JsonValue::Bool(b) => Some(if b { "true"@ } else { "false"@ }),
        JsonValue::Int(i) => Some(signed_decimal(i as int)),
        JsonValue::UInt(u) => if u <= i64::MAX { Some(decimal(u as nat)) } else { None },
        _ => None,
    }
}

/// The parameters that the members of a JSON object give, in order.
pub open spec fn json_param_pairs(entries: Seq<(String, JsonValue)>) -> Seq<(Seq<char>, Seq<char>)>
    decreases entries.len(),
{
    if entries.len() == 0 {
        Seq::empty()
    } else {
        let rest = json_param_pairs(entries.drop_last());
        match json_param_text(entries.last().1) {
            Some(t) => rest.push((entries.last().0@, t)),
            None => rest,
        }
    }
}

/// The parameters of a request: those of its query string; then, for a body
/// that is not empty, the members of the JSON object it holds, or, when it is
/// not JSON, its form pairs. `parsed` is what the JSON reader made of the body.
pub open spec fn ses_param_map(
    query: Option<Seq<char>>,
    body: Seq<u8>,
    parsed: Result<JsonValue, String>,
) -> Map<Seq<char>, Seq<char>> {
    let m = request_param_map(query, Seq::empty());
    if body.len() == 0 {
        m
    } else {
        match parsed {
            Ok(JsonValue::Object(entries)) => with_pairs(m, json_param_pairs(entries@)),
            Ok(_) => m,
            Err(_) => with_pairs(m, form_pairs(body)),
        }
    }
}

/// The text that a member of a JSON body gives a parameter.
fn json_param_text_of(v: &JsonValue) -> (r: Option<String>)
    ensures
        crate::ses::state::opt_text(r) == json_param_text(*v),
{
    match v {
        JsonValue::Str(t) => Some(t.clone()),
        JsonValue::Bool(b) => {
            let mut x = String::new();
            if *b {
                append(&mut x, "true");
            } else {
                append(&mut x, "false");
            }
            proof {
                reveal_strlit("true");
                reveal_strlit("false");
            }
            assert(x@ =~= if *b { "true"@ } else { "false"@ });
            Some(x)
        },
        JsonValue::Int(i) => {
            let mut x = String::new();
            append_i64(&mut x, *i);
            assert(x@ =~= signed_decimal(*i as int));
            Some(x)
        },
        JsonValue::UInt(u) => {
            if *u <= 9223372036854775807u64 {
                let mut x = String::new();
                append_u64(&mut x, *u);
                assert(x@ =~= decimal(*u as nat));
                Some(x)
            } else {
                None
            }
        },
        _ => None,
    }
}

/// The parameters that the members of a JSON object give, in order.
fn json_params(entries: &Vec<(String, JsonValue)>) -> (r: Vec<(String, String)>)
    ensures
        r@.map_values(|p: (String, String)| (p.0@, p.1@)) == json_param_pairs(entries@),
{
    let mut out: Vec<(String, String)> = Vec::new();
    let mut i: usize = 0;
    assert(entries@.take(0) =~= Seq::<(String, JsonValue)>::empty());
    while i < entries.len()
        invariant
            i <= entries@.len(),
            out@.map_values(|p: (String, String)| (p.0@, p.1@)) == json_param_pairs(entries@.take(i as int)),
        decreases entries@.len() - i,
    {
        assert(entries@.take(i + 1).drop_last() =~= entries@.take(i as int));
        assert(entries@.take(i + 1).last() == entries@[i as int]);
        let ghost before = out@;
        match json_param_text_of(&entries[i].1) {
            Some(t) => {
                out.push((entries[i].0.clone(), t));
                assert(out@.map_values(|p: (String, String)| (p.0@, p.1@)) =~= before.map_values(
                    |p: (String, String)| (p.0@, p.1@),
                ).push((entries@[i as int].0@, json_param_text(entries@[i as int].1)->0)));
            },
            None => {},
        }
        i = i + 1;
    }
    assert(entries@.take(entries@.len() as int) =~= entries@);
    out
}

/// The parameters of a request (see `ses_param_map`).
pub fn ses_request_params(query: Option<&str>, body: &[u8], parsed: &Result<JsonValue, String>) -> (r: Table<String>)
    ensures
        r.wf(),
        param_map(&r) == ses_param_map(str_view(query), body@, *parsed),
{
    let empty: Vec<u8> = Vec::new();
    let mut t = request_params(query, empty.as_slice());
    assert(empty@ =~= Seq::<u8>::empty());
    if body.len() > 0 {
        match parsed {
            Ok(JsonValue::Object(entries)) => {
                let ps = json_params(entries);
                set_pairs(&mut t, ps);
            },
            Ok(_) => {},
            Err(_) => {
                let ps = parse_form(body);
                set_pairs(&mut t, ps);
            },
        }
    }
    t
}

/// Handles a request: its protocol is JSON when its target names SES or its
/// content type is JSON; its parameters are read from the query string and
/// the body (see `ses_param_map`); its action is the `Action` parameter, else
/// the end of its target; the action is performed and answered. `parsed` is
/// what the JSON reader made of the body, and `json_body` the request that a
/// JSON body holds for the action, when there is one.
pub fn handle_ses_request(
    state: &mut SesState,
    target: Option<&str>,
    content_type: Option<&str>,
    query: Option<&str>,
    body: &[u8],
    parsed: Result<JsonValue, String>,
    json_body: SesJsonBody,
    rid: &str,
) -> (r: Reply)
    requires
        old(state).wf(),
    ensures
        final(state).wf(),
        ({
            let pm = ses_param_map(str_view(query), body@, parsed);
            pm.len() < u64::MAX ==> action_answered(
                *old(state),
                *final(state),
                ses_action_spec(pm, str_view(target)),
                ses_is_json_spec(str_view(target), str_view(content_type)),
                pm,
                json_body,
                rid@,
                r,
            )
        }),
{
    let is_json = ses_is_json(target, content_type);
    let params = ses_request_params(query, body, &parsed);
    let action = ses_action(&params, target);
    proof {
        params.lemma_wf();
        assert(param_map(&params).dom() =~= params@.dom());
    }
    let n = params.len();
    if n as u64 == u64::MAX {
        return make_error_response(is_json, 400, "InvalidParameterValue", "Too many parameters", rid);
    }
    handle_ses_action(state, action.as_str(), is_json, &params, json_body, rid)
}

} // verus!
