use ruststack::ses::state::SesState;
use ruststack::ses::types::{
    BodyContent, Content, DeleteIdentityRequest, Destination, ListIdentitiesRequest, Message, RawMessage,
    SendEmailRequest, SendRawEmailRequest, VerifyEmailIdentityRequest,
};

fn content(s: &str) -> Content {
    Content { data: s.to_string(), charset: None }
}

fn list(state: &SesState, kind: Option<&str>) -> Vec<String> {
    state
        .list_identities(ListIdentitiesRequest { identity_type: kind.map(|k| k.to_string()), max_items: None, next_token: None })
        .unwrap()
        .identities
}

#[test]
fn test_ses_state_direct_lifecycle() {
    let mut state = SesState::new("000000000000", "us-east-1");
    state.verify_email_identity(VerifyEmailIdentityRequest { email_address: "alice@example.com".into() }).unwrap();
    state.verify_email_identity(VerifyEmailIdentityRequest { email_address: "bob@example.com".into() }).unwrap();
    assert_eq!(list(&state, None).len(), 2);
    assert_eq!(list(&state, Some("EmailAddress")).len(), 2);
    assert_eq!(list(&state, Some("Domain")).len(), 0);
    let resp = state
        .send_email(SendEmailRequest {
            source: "alice@example.com".into(),
            destination: Destination {
                to_addresses: vec!["recipient1@example.com".into()],
                cc_addresses: vec!["cc@example.com".into()],
                bcc_addresses: vec!["bcc@example.com".into()],
            },
            message: Message {
                subject: content("Welcome to RustStack"),
                body: BodyContent { text: Some(content("Hello plain text!")), html: Some(content("<p>Hello HTML!</p>")) },
            },
            reply_to_addresses: Some(vec!["reply@example.com".into()]),
            return_path: Some("bounce@example.com".into()),
            source_arn: None,
            return_path_arn: None,
            tags: None,
            configuration_set_name: None,
        })
        .unwrap();
    assert!(!resp.message_id.is_empty());
    assert_eq!(state.sent_count(), 1);
    let raw = state.send_raw_email(SendRawEmailRequest {
        source: Some("alice@example.com".into()),
        destinations: Some(vec!["raw_recipient@example.com".into()]),
        raw_message: RawMessage { data: "Subject: Raw Email Test\r\n\r\nRaw email body message".into() },
        from_arn: None,
        source_arn: None,
        return_path_arn: None,
        tags: None,
        configuration_set_name: None,
    });
    assert!(raw.is_ok());
    assert_eq!(state.sent_count(), 2);
    state.delete_identity(DeleteIdentityRequest { identity: "bob@example.com".into() }).unwrap();
    assert_eq!(list(&state, None), vec!["alice@example.com".to_string()]);
    state.clear();
    assert_eq!(state.sent_count(), 0);
}

#[test]
fn ses_send_owed_on_valid_query_request() {
    let mut st = SesState::new("000000000000", "us-east-1");
    let r = ruststack::ses::handlers::handle_ses_request(
        &mut st,
        None,
        None,
        Some("Action=SendEmail&Source=a%40b.com&Destination.ToAddresses.member.1=c%40d.com&Message.Subject.Data=Hi&Message.Body.Text.Data=Yo"),
        b"",
        Err("eof".to_string()),
        ruststack::ses::handlers::SesJsonBody::Absent,
        "rid",
    );
    assert_eq!(r.status, 200);
    assert_eq!(st.get_sent_emails().len(), 1);
    let r = ruststack::ses::handlers::handle_ses_request(
        &mut st,
        None,
        None,
        Some("Action=SendEmail&Source=a%40b.com"),
        b"",
        Err("eof".to_string()),
        ruststack::ses::handlers::SesJsonBody::Absent,
        "rid",
    );
    assert_eq!(r.status, 400);
}
