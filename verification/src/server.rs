//! The gateway's own settings and state-reset requests.
use vstd::prelude::*;
use crate::http::{append_json_str_array, json_str_array};
use crate::rds::state::{lowercase, lowercase_of};
use crate::text::{append, contains_str, is_prefix, starts_with, str_eq, views};

verus! {

/// The gateway's settings: where it listens, which services it starts, the
/// region and account it answers for, and where it keeps its state.
#[derive(Debug)]
pub struct Opts {
    pub port: u16,
    pub host: String,
    pub services: String,
    pub region: String,
    pub account_id: String,
    pub data_dir: Option<String>,
    pub persistence: bool,
}

impl Opts {
    /// The settings when none are given: port 4566 on all interfaces, the
    /// core services, region `us-east-1`, account `000000000000`, no saved state.
    pub fn default_opts() -> (r: Self)
        ensures
            r.port == 4566,
            r.host@ == "0.0.0.0"@,
            r.services@ == "s3,sqs,sns,events,ssm,secretsmanager,sts,dynamodb,kms,logs,iam,cloudwatch,ses,kinesis,lambda"@,
            r.region@ == "us-east-1"@,
            r.account_id@ == "000000000000"@,
            r.data_dir is None,
            !r.persistence,
    {
        Opts {
            port: 4566,
            host: "0.0.0.0".to_owned(),
            services: "s3,sqs,sns,events,ssm,secretsmanager,sts,dynamodb,kms,logs,iam,cloudwatch,ses,kinesis,lambda".to_owned(),
            region: "us-east-1".to_owned(),
            account_id: "000000000000".to_owned(),
            data_dir: None,
            persistence: false,
        }
    }
}

/// A request to reset the state of some services (all when none are named).
#[derive(Debug)]
pub struct ResetStateRequest {
    pub services: Option<Vec<String>>,
}

/// A request to save the state, to a file if one is named.
#[derive(Debug)]
pub struct DumpStateRequest {
    pub file_path: Option<String>,
}

/// Every service whose state can be reset, by name.
pub open spec fn all_services() -> Seq<Seq<char>> {
    seq![
        "s3"@, "sqs"@, "sns"@, "eventbridge"@, "ssm"@, "secretsmanager"@, "sts"@, "dynamodb"@, "kms"@, "logs"@,
        "iam"@, "cloudwatch"@, "ses"@, "kinesis"@, "lambda"@, "cognito"@, "apigateway"@, "route53"@,
        "stepfunctions"@, "cloudformation"@, "ecr"@, "ecs"@, "ec2"@, "elbv2"@, "bedrock"@, "opensearch"@,
        "athena"@, "rds"@, "elasticache"@, "redshift"@, "acm"@, "wafv2"@, "organizations"@
    ]
}

/// The services a reset request names: its list when it names any, else all.
pub open spec fn reset_targets_spec(req: ResetStateRequest) -> Seq<Seq<char>> {
    match req.services {
        Some(list) => if list@.len() > 0 { views(list@) } else { all_services() },
        None => all_services(),
    }
}

/// Every service whose state can be reset, by name.
pub fn all_service_names() -> (r: Vec<String>)
    ensures
        views(r@) == all_services(),
{
    let names: [&str; 33] = [
        "s3", "sqs", "sns", "eventbridge", "ssm", "secretsmanager", "sts", "dynamodb", "kms", "logs", "iam",
        "cloudwatch", "ses", "kinesis", "lambda", "cognito", "apigateway", "route53", "stepfunctions",
        "cloudformation", "ecr", "ecs", "ec2", "elbv2", "bedrock", "opensearch", "athena", "rds", "elasticache",
        "redshift", "acm", "wafv2", "organizations",
    ];
    let mut r: Vec<String> = Vec::new();
    let mut i: usize = 0;
    while i < 33
        invariant
            i <= 33,
            names@.len() == 33,
            views(r@) == names@.subrange(0, i as int).map_values(|s: &str| s@),
        decreases 33 - i,
    {
        let ghost before = r@;
        let nm: &str = names[i];
        let o = nm.to_owned();
        assert(o@ == nm@);
        r.push(o);
        assert(views(r@) =~= views(before).push(nm@));
        assert(names@.subrange(0, i + 1) =~= names@.subrange(0, i as int).push(nm));
        assert(views(r@) =~= names@.subrange(0, i + 1).map_values(|s: &str| s@));
        i = i + 1;
    }
    assert(names@.subrange(0, 33) =~= names@);
    assert(names@.map_values(|s: &str| s@) =~= all_services());
    r
}

/// The services a reset request names: its list when it names any, else all.
pub fn reset_targets(req: &ResetStateRequest) -> (r: Vec<String>)
    ensures
        views(r@) == reset_targets_spec(*req),
{
    match &req.services {
        Some(list) => if list.len() > 0 { crate::ses::state::copy_strings(list) } else { all_service_names() },
        None => all_service_names(),
    }
}

/// A service whose state the gateway can reset.
#[derive(Debug, Clone, Copy, PartialEq, Eq, Structural)]
pub enum Service {
    S3,
    Sqs,
    Sns,
    EventBridge,
    Ssm,
    SecretsManager,
    Sts,
    DynamoDb,
    Kms,
    Logs,
    Iam,
    CloudWatch,
    Ses,
    Kinesis,
    Lambda,
    Cognito,
    ApiGateway,
    Route53,
    StepFunctions,
    CloudFormation,
    Ecr,
    Ecs,
    Ec2,
    Elbv2,
    Bedrock,
    OpenSearch,
    Athena,
    Rds,
    ElastiCache,
    Redshift,
    Acm,
    Wafv2,
    Organizations,
}

/// The service a name (already in lower case) stands for, with its aliases.
pub open spec fn service_of_lower(n: Seq<char>) -> Option<Service> {
    if n == "s3"@ { Some(Service::S3) }
    else if n == "sqs"@ { Some(Service::Sqs) }
    else if n == "sns"@ { Some(Service::Sns) }
    else if n == "eventbridge"@ || n == "events"@ { Some(Service::EventBridge) }
    else if n == "ssm"@ { Some(Service::Ssm) }
    else if n == "secretsmanager"@ { Some(Service::SecretsManager) }
    else if n == "sts"@ { Some(Service::Sts) }
    else if n == "dynamodb"@ { Some(Service::DynamoDb) }
    else if n == "kms"@ { Some(Service::Kms) }
    else if n == "logs"@ { Some(Service::Logs) }
    else if n == "iam"@ { Some(Service::Iam) }
    else if n == "cloudwatch"@ { Some(Service::CloudWatch) }
    else if n == "ses"@ { Some(Service::Ses) }
    else if n == "kinesis"@ { Some(Service::Kinesis) }
    else if n == "lambda"@ { Some(Service::Lambda) }
    else if n == "cognito"@ || n == "cognito-idp"@ { Some(Service::Cognito) }
    else if n == "apigateway"@ { Some(Service::ApiGateway) }
    else if n == "route53"@ { Some(Service::Route53) }
    else if n == "stepfunctions"@ || n == "states"@ { Some(Service::StepFunctions) }
    else if n == "cloudformation"@ { Some(Service::CloudFormation) }
    else if n == "ecr"@ { Some(Service::Ecr) }
    else if n == "ecs"@ { Some(Service::Ecs) }
    else if n == "ec2"@ { Some(Service::Ec2) }
    else if n == "elbv2"@ || n == "elasticloadbalancing"@ { Some(Service::Elbv2) }
    else if n == "bedrock"@ { Some(Service::Bedrock) }
    else if n == "opensearch"@ || n == "es"@ { Some(Service::OpenSearch) }
    else if n == "athena"@ { Some(Service::Athena) }
    else if n == "rds"@ { Some(Service::Rds) }
    else if n == "elasticache"@ { Some(Service::ElastiCache) }
    else if n == "redshift"@ { Some(Service::Redshift) }
    else if n == "acm"@ { Some(Service::Acm) }
    else if n == "wafv2"@ || n == "waf"@ { Some(Service::Wafv2) }
    else if n == "organizations"@ { Some(Service::Organizations) }
    else { None }
}

/// The service a name (already in lower case) stands for, with its aliases.
pub fn service_of_lower_name(n: &str) -> (r: Option<Service>)
    ensures
        r == service_of_lower(n@),
{
    if str_eq(n, "s3") { Some(Service::S3) }
    else if str_eq(n, "sqs") { Some(Service::Sqs) }
    else if str_eq(n, "sns") { Some(Service::Sns) }
    else if str_eq(n, "eventbridge") || str_eq(n, "events") { Some(Service::EventBridge) }
    else if str_eq(n, "ssm") { Some(Service::Ssm) }
    else if str_eq(n, "secretsmanager") { Some(Service::SecretsManager) }
    else if str_eq(n, "sts") { Some(Service::Sts) }
    else if str_eq(n, "dynamodb") { Some(Service::DynamoDb) }
    else if str_eq(n, "kms") { Some(Service::Kms) }
    else if str_eq(n, "logs") { Some(Service::Logs) }
    else if str_eq(n, "iam") { Some(Service::Iam) }
    else if str_eq(n, "cloudwatch") { Some(Service::CloudWatch) }
    else if str_eq(n, "ses") { Some(Service::Ses) }
    else if str_eq(n, "kinesis") { Some(Service::Kinesis) }
    else if str_eq(n, "lambda") { Some(Service::Lambda) }
    else if str_eq(n, "cognito") || str_eq(n, "cognito-idp") { Some(Service::Cognito) }
    else if str_eq(n, "apigateway") { Some(Service::ApiGateway) }
    else if str_eq(n, "route53") { Some(Service::Route53) }
    else if str_eq(n, "stepfunctions") || str_eq(n, "states") { Some(Service::StepFunctions) }
    else if str_eq(n, "cloudformation") { Some(Service::CloudFormation) }
    else if str_eq(n, "ecr") { Some(Service::Ecr) }
    else if str_eq(n, "ecs") { Some(Service::Ecs) }
    else if str_eq(n, "ec2") { Some(Service::Ec2) }
    else if str_eq(n, "elbv2") || str_eq(n, "elasticloadbalancing") { Some(Service::Elbv2) }
    else if str_eq(n, "bedrock") { Some(Service::Bedrock) }
    else if str_eq(n, "opensearch") || str_eq(n, "es") { Some(Service::OpenSearch) }
    else if str_eq(n, "athena") { Some(Service::Athena) }
    else if str_eq(n, "rds") { Some(Service::Rds) }
    else if str_eq(n, "elasticache") { Some(Service::ElastiCache) }
    else if str_eq(n, "redshift") { Some(Service::Redshift) }
    else if str_eq(n, "acm") { Some(Service::Acm) }
    else if str_eq(n, "wafv2") || str_eq(n, "waf") { Some(Service::Wafv2) }
    else if str_eq(n, "organizations") { Some(Service::Organizations) }
    else { None }
}

/// The services a reset resets: each named one (in lower case) that the
/// gateway knows, in order; unknown names are skipped.
pub open spec fn reset_plan_spec(names: Seq<Seq<char>>) -> Seq<Service>
    decreases names.len(),
{
    if names.len() == 0 {
        Seq::empty()
    } else {
        let prev = reset_plan_spec(names.drop_last());
        match service_of_lower(lowercase_of(names.last())) {
            Some(s) => prev.push(s),
            None => prev,
        }
    }
}

/// The services a reset resets, in the order named.
pub fn reset_plan(names: &Vec<String>) -> (r: Vec<Service>)
    ensures
        r@ == reset_plan_spec(views(names@)),
{
    let ghost nv = views(names@);
    let mut r: Vec<Service> = Vec::new();
    let mut i: usize = 0;
    while i < names.len()
        invariant
            nv == views(names@),
            i <= nv.len(),
            r@ == reset_plan_spec(nv.subrange(0, i as int)),
        decreases nv.len() - i,
    {
        assert(nv.subrange(0, i + 1).drop_last() =~= nv.subrange(0, i as int));
        let lower = lowercase(names[i].as_str());
        match service_of_lower_name(lower.as_str()) {
            Some(s) => r.push(s),
            None => {},
        }
        i = i + 1;
    }
    assert(nv.subrange(0, nv.len() as int) =~= nv);
    r
}

/// The JSON answer to a reset: the services named (keys in sorted order).
pub open spec fn reset_answer(names: Seq<Seq<char>>) -> Seq<char> {
    "{\"message\":\"State reset successfully\",\"reset_services\":"@ + json_str_array(names) + ",\"status\":\"ok\"}"@
}

/// The JSON answer to a reset.
pub fn reset_response(names: &Vec<String>) -> (r: String)
    ensures
        r@ == reset_answer(views(names@)),
{
    let mut s = String::new();
    append(&mut s, "{\"message\":\"State reset successfully\",\"reset_services\":");
    append_json_str_array(&mut s, names);
    append(&mut s, ",\"status\":\"ok\"}");
    assert(s@ =~= reset_answer(views(names@)));
    s
}

/// The service a request is for: by its `X-Amz-Target` prefix, then by a
/// Route 53 path, then by the action it names (queue, topic, mail, database and
/// warehouse actions); anything else goes to S3.
pub open spec fn service_for_spec(target: Option<Seq<char>>, path: Seq<char>, action: Option<Seq<char>>) -> Service {
    match target {
        Some(t) => if is_prefix("AmazonSQS"@, t) {
            Service::Sqs
        } else if is_prefix("AmazonSNS"@, t) {
            Service::Sns
        } else if is_prefix("AmazonSSM"@, t) {
            Service::Ssm
        } else if is_prefix("secretsmanager"@, t) {
            Service::SecretsManager
        } else if is_prefix("SimpleEmailService"@, t) || is_prefix("SES"@, t) {
            Service::Ses
        } else {
            by_path_or_action(path, action)
        },
        None => by_path_or_action(path, action),
    }
}

/// The service by a Route 53 path, else by the action named.
pub open spec fn by_path_or_action(path: Seq<char>, action: Option<Seq<char>>) -> Service {
    if is_prefix("/2013-04-01"@, path) || is_prefix("/hostedzone"@, path) {
        Service::Route53
    } else {
        match action {
            Some(a) => if a.len() > 0 && (contains_seq(a, "Queue"@) || contains_seq(a, "Message"@) && !contains_seq(a, "Email"@)) {
                Service::Sqs
            } else if contains_seq(a, "Topic"@) || contains_seq(a, "Subscri"@) || a == "Publish"@ || a == "PublishBatch"@ {
                Service::Sns
            } else if contains_seq(a, "Email"@) || contains_seq(a, "Identit"@) || contains_seq(a, "SendQuota"@) || contains_seq(a, "SendStatistics"@) {
                Service::Ses
            } else if contains_seq(a, "DB"@) {
                Service::Rds
            } else if contains_seq(a, "Cluster"@) {
                Service::Redshift
            } else {
                Service::S3
            },
            None => Service::S3,
        }
    }
}

/// Whether `d` occurs in `s`.
pub open spec fn contains_seq(s: Seq<char>, d: Seq<char>) -> bool {
    crate::text::find_sub(s, d) is Some
}

/// The service a request is for.
pub fn service_for(target: Option<&str>, path: &str, action: Option<&str>) -> (r: Service)
    ensures
        r == service_for_spec(
            match target { Some(t) => Some(t@), None => None },
            path@,
            match action { Some(a) => Some(a@), None => None },
        ),
{
    match target {
        Some(t) => {
            if starts_with(t, "AmazonSQS") {
                return Service::Sqs;
            } else if starts_with(t, "AmazonSNS") {
                return Service::Sns;
            } else if starts_with(t, "AmazonSSM") {
                return Service::Ssm;
            } else if starts_with(t, "secretsmanager") {
                return Service::SecretsManager;
            } else if starts_with(t, "SimpleEmailService") || starts_with(t, "SES") {
                return Service::Ses;
            }
        },
        None => {},
    }
    if starts_with(path, "/2013-04-01") || starts_with(path, "/hostedzone") {
        return Service::Route53;
    }
    match action {
        Some(a) => {
            if !a.is_empty() && (contains_str(a, "Queue") || contains_str(a, "Message") && !contains_str(a, "Email")) {
                Service::Sqs
            } else if contains_str(a, "Topic") || contains_str(a, "Subscri") || str_eq(a, "Publish") || str_eq(a, "PublishBatch") {
                Service::Sns
            } else if contains_str(a, "Email") || contains_str(a, "Identit") || contains_str(a, "SendQuota") || contains_str(a, "SendStatistics") {
                Service::Ses
            } else if contains_str(a, "DB") {
                Service::Rds
            } else if contains_str(a, "Cluster") {
                Service::Redshift
            } else {
                Service::S3
            }
        },
        None => Service::S3,
    }
}

} // verus!
