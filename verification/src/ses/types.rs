//! The requests, responses and records of the SES emulator.
use vstd::prelude::*;
use crate::table::Table;

verus! {

/// The recipients of a message.
#[derive(Debug, Clone, Default)]
pub struct Destination {
    pub to_addresses: Vec<String>,
    pub cc_addresses: Vec<String>,
    pub bcc_addresses: Vec<String>,
}

/// A piece of text with its character set.
#[derive(Debug, Clone, Default)]
pub struct Content {
    pub data: String,
    pub charset: Option<String>,
}

/// The text and HTML bodies of a message.
#[derive(Debug, Clone, Default)]
pub struct BodyContent {
    pub text: Option<Content>,
    pub html: Option<Content>,
}

/// A message: its subject and bodies.
#[derive(Debug, Clone, Default)]
pub struct Message {
    pub subject: Content,
    pub body: BodyContent,
}

/// A name and value attached to a message.
#[derive(Debug, Clone)]
pub struct MessageTag {
    pub name: String,
    pub value: String,
}

/// A request to send a formatted message.
#[derive(Debug, Clone)]
pub struct SendEmailRequest {
    pub source: String,
    pub destination: Destination,
    pub message: Message,
    pub reply_to_addresses: Option<Vec<String>>,
    pub return_path: Option<String>,
    pub source_arn: Option<String>,
    pub return_path_arn: Option<String>,
    pub tags: Option<Vec<MessageTag>>,
    pub configuration_set_name: Option<String>,
}

/// The answer to a send: the id of the message.
#[derive(Debug, Clone)]
pub struct SendEmailResponse {
    pub message_id: String,
}

/// A raw MIME message, as sent (possibly base64-encoded).
#[derive(Debug, Clone, Default)]
pub struct RawMessage {
    pub data: String,
}

/// A request to send a raw message.
#[derive(Debug, Clone)]
pub struct SendRawEmailRequest {
    pub source: Option<String>,
    pub destinations: Option<Vec<String>>,
    pub raw_message: RawMessage,
    pub from_arn: Option<String>,
    pub source_arn: Option<String>,
    pub return_path_arn: Option<String>,
    pub tags: Option<Vec<MessageTag>>,
    pub configuration_set_name: Option<String>,
}

/// The answer to a raw send: the id of the message.
#[derive(Debug, Clone)]
pub struct SendRawEmailResponse {
    pub message_id: String,
}

/// A request to verify an email address.
#[derive(Debug, Clone)]
pub struct VerifyEmailIdentityRequest {
    pub email_address: String,
}

/// The (empty) answer to an email verification.
#[derive(Debug, Clone, Default)]
pub struct VerifyEmailIdentityResponse {}

/// A request to verify a domain.
#[derive(Debug, Clone)]
pub struct VerifyDomainIdentityRequest {
    pub domain: String,
}

/// The answer to a domain verification: its token.
#[derive(Debug, Clone)]
pub struct VerifyDomainIdentityResponse {
    pub verification_token: String,
}

/// A request to list identities, optionally of one type and up to a number.
#[derive(Debug, Clone, Default)]
pub struct ListIdentitiesRequest {
    pub identity_type: Option<String>,
    pub max_items: Option<usize>,
    pub next_token: Option<String>,
}

/// The identities listed.
#[derive(Debug, Clone, Default)]
pub struct ListIdentitiesResponse {
    pub identities: Vec<String>,
    pub next_token: Option<String>,
}

/// A request to remove an identity.
#[derive(Debug, Clone)]
pub struct DeleteIdentityRequest {
    pub identity: String,
}

/// The (empty) answer to an identity removal.
#[derive(Debug, Clone, Default)]
pub struct DeleteIdentityResponse {}

/// Sending statistics for one period.
#[derive(Debug, Clone)]
pub struct SendDataPoint {
    pub timestamp: String,
    pub delivery_attempts: i64,
    pub bounces: i64,
    pub complaints: i64,
    pub rejects: i64,
}

/// The sending statistics.
#[derive(Debug, Clone, Default)]
pub struct GetSendStatisticsResponse {
    pub send_data_points: Vec<SendDataPoint>,
}

/// A request for the verification state of identities.
#[derive(Debug, Clone, Default)]
pub struct GetIdentityVerificationAttributesRequest {
    pub identities: Vec<String>,
}

/// The verification state of one identity.
#[derive(Debug, Clone)]
pub struct IdentityVerificationAttributes {
    pub verification_status: String,
    pub verification_token: Option<String>,
}

/// The verification state of each known identity that was asked for.
pub struct GetIdentityVerificationAttributesResponse {
    pub verification_attributes: Table<IdentityVerificationAttributes>,
}

/// A message that the emulator accepted.
#[derive(Debug, Clone)]
pub struct SentEmail {
    pub timestamp: String,
    pub message_id: String,
    pub source: String,
    pub destinations: Vec<String>,
    pub subject: Option<String>,
    pub body_text: Option<String>,
    pub body_html: Option<String>,
    pub raw_data: Option<String>,
}

/// An email template.
#[derive(Debug, Clone, Default)]
pub struct Template {
    pub template_name: String,
    pub subject_part: Option<String>,
    pub text_part: Option<String>,
    pub html_part: Option<String>,
}

/// A request to create a template.
#[derive(Debug, Clone)]
pub struct CreateTemplateRequest {
    pub template: Template,
}

/// A request for a template by name.
#[derive(Debug, Clone)]
pub struct GetTemplateRequest {
    pub template_name: String,
}

/// A template.
#[derive(Debug, Clone)]
pub struct GetTemplateResponse {
    pub template: Template,
}

/// The name and creation time of a template.
#[derive(Debug, Clone)]
pub struct TemplateMetadata {
    pub name: String,
    pub created_timestamp: Option<String>,
}

/// The templates listed.
#[derive(Debug, Clone, Default)]
pub struct ListTemplatesResponse {
    pub templates_metadata: Vec<TemplateMetadata>,
    pub next_token: Option<String>,
}

/// A request to replace a template.
#[derive(Debug, Clone)]
pub struct UpdateTemplateRequest {
    pub template: Template,
}

/// A request to remove a template.
#[derive(Debug, Clone)]
pub struct DeleteTemplateRequest {
    pub template_name: String,
}

/// A request to send a message built from a template.
#[derive(Debug, Clone)]
pub struct SendTemplatedEmailRequest {
    pub source: String,
    pub destination: Destination,
    pub template: String,
    pub template_data: String,
}

/// Everything the SES emulator holds, for saving and restoring.
#[derive(Debug, Clone, Default)]
pub struct SesStateSnapshot {
    pub identities: Vec<String>,
    pub sent_emails: Vec<SentEmail>,
    pub templates: Vec<Template>,
}

} // verus!
