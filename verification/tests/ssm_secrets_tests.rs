use ruststack::json::JsonValue;
use ruststack::secretsmanager::handlers::handle_secretsmanager_json;
use ruststack::secretsmanager::store::SecretsManagerEngine;
use ruststack::ssm::handlers::handle_ssm_json;
use ruststack::ssm::store::SsmEngine;

fn s(v: &str) -> JsonValue {
    JsonValue::Str(v.to_string())
}

fn obj(entries: Vec<(&str, JsonValue)>) -> JsonValue {
    JsonValue::Object(entries.into_iter().map(|(k, v)| (k.to_string(), v)).collect())
}

#[test]
fn test_ssm_parameter_crud() {
    let mut e = SsmEngine::new("000000000000".to_string(), "us-east-1".to_string());
    let put = obj(vec![
        ("Name", s("/config/db/password")),
        ("Value", s("supersecret123")),
        ("Type", s("SecureString")),
        ("Description", s("Production DB password")),
    ]);
    let r = handle_ssm_json(&mut e, "AmazonSSM.PutParameter", &put);
    assert_eq!(r.status, 200);
    assert!(r.body.contains("\"Version\":1"));
    let again = obj(vec![("Name", s("/config/db/password")), ("Value", s("x")), ("Type", s("SecureString"))]);
    let r = handle_ssm_json(&mut e, "AmazonSSM.PutParameter", &again);
    assert_eq!(r.status, 400);
    let over = obj(vec![
        ("Name", s("/config/db/password")),
        ("Value", s("new_supersecret456")),
        ("Type", s("SecureString")),
        ("Overwrite", JsonValue::Bool(true)),
    ]);
    let r = handle_ssm_json(&mut e, "AmazonSSM.PutParameter", &over);
    assert_eq!(r.status, 200);
    assert!(r.body.contains("\"Version\":2"));
    let r = handle_ssm_json(&mut e, "AmazonSSM.GetParameter", &obj(vec![("Name", s("/config/db/password"))]));
    assert!(r.body.contains("new_supersecret456"));
    let r = handle_ssm_json(&mut e, "AmazonSSM.GetParameter", &obj(vec![("Name", s("/config/db/password:1"))]));
    assert!(r.body.contains("supersecret123"));
    let r = handle_ssm_json(&mut e, "AmazonSSM.DeleteParameter", &obj(vec![("Name", s("/config/db/password"))]));
    assert_eq!(r.status, 200);
    let r = handle_ssm_json(&mut e, "AmazonSSM.GetParameter", &obj(vec![("Name", s("/config/db/password"))]));
    assert_eq!(r.status, 404);
}

#[test]
fn test_ssm_get_parameters_by_path() {
    let mut e = SsmEngine::new("000000000000".to_string(), "us-east-1".to_string());
    for (n, v) in [
        ("/app/prod/api/host", "api.prod.example.com"),
        ("/app/prod/api/port", "8080"),
        ("/app/prod/db/host", "db.prod.example.com"),
        ("/app/dev/api/host", "api.dev.example.com"),
    ] {
        let put = obj(vec![("Name", s(n)), ("Value", s(v)), ("Type", s("String"))]);
        assert_eq!(handle_ssm_json(&mut e, "AmazonSSM.PutParameter", &put).status, 200);
    }
    let q = obj(vec![("Path", s("/app/prod")), ("Recursive", JsonValue::Bool(true))]);
    let r = handle_ssm_json(&mut e, "AmazonSSM.GetParametersByPath", &q);
    assert_eq!(r.status, 200);
    assert!(r.body.contains("api.prod.example.com"));
    assert!(r.body.contains("db.prod.example.com"));
    assert!(!r.body.contains("api.dev.example.com"));
}

#[test]
fn test_secretsmanager_lifecycle() {
    let mut e = SecretsManagerEngine::new("000000000000".to_string(), "us-east-1".to_string());
    let create = obj(vec![
        ("Name", s("my-database-secret")),
        ("Description", s("PostgreSQL credentials")),
        ("SecretString", s("{\"user\":\"dbadmin\",\"pass\":\"initial123\"}")),
    ]);
    let r = handle_secretsmanager_json(&mut e, "secretsmanager.CreateSecret", &create);
    assert_eq!(r.status, 200);
    assert!(r.body.contains("\"ARN\""));
    assert!(r.body.contains("\"VersionId\""));
    let r = handle_secretsmanager_json(&mut e, "secretsmanager.GetSecretValue", &obj(vec![("SecretId", s("my-database-secret"))]));
    assert!(r.body.contains("initial123"));
    let put = obj(vec![
        ("SecretId", s("my-database-secret")),
        ("SecretString", s("{\"user\":\"dbadmin\",\"pass\":\"rotated456\"}")),
    ]);
    let r = handle_secretsmanager_json(&mut e, "secretsmanager.PutSecretValue", &put);
    assert_eq!(r.status, 200);
    let r = handle_secretsmanager_json(&mut e, "secretsmanager.GetSecretValue", &obj(vec![("SecretId", s("my-database-secret"))]));
    assert!(r.body.contains("rotated456"));
    let prev = obj(vec![("SecretId", s("my-database-secret")), ("VersionStage", s("AWSPREVIOUS"))]);
    let r = handle_secretsmanager_json(&mut e, "secretsmanager.GetSecretValue", &prev);
    assert!(r.body.contains("initial123"));
    let del = obj(vec![("SecretId", s("my-database-secret")), ("ForceDeleteWithoutRecovery", JsonValue::Bool(true))]);
    let r = handle_secretsmanager_json(&mut e, "secretsmanager.DeleteSecret", &del);
    assert_eq!(r.status, 200);
    let r = handle_secretsmanager_json(&mut e, "secretsmanager.GetSecretValue", &obj(vec![("SecretId", s("my-database-secret"))]));
    assert_eq!(r.status, 404);
}
