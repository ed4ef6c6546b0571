//! Secrets, their versions, and the request that creates one.
use vstd::prelude::*;
use crate::ses::state::{copy_opt, copy_strings, opt_text};
use crate::table::Table;
use crate::text::views;

verus! {

/// One version of a secret. `created_date` is in seconds since the Unix epoch.
#[derive(Debug)]
pub struct SecretVersion {
    pub version_id: String,
    pub secret_string: Option<String>,
    pub secret_binary: Option<String>,
    pub version_stages: Vec<String>,
    pub created_date: i64,
}

/// A version as text.
pub struct VersionView {
    pub version_id: Seq<char>,
    pub secret_string: Option<Seq<char>>,
    pub secret_binary: Option<Seq<char>>,
    pub version_stages: Seq<Seq<char>>,
    pub created_date: i64,
}

impl SecretVersion {
    pub open spec fn view(&self) -> VersionView {
        VersionView {
            version_id: self.version_id@,
            secret_string: opt_text(self.secret_string),
            secret_binary: opt_text(self.secret_binary),
            version_stages: views(self.version_stages@),
            created_date: self.created_date,
        }
    }

    /// A copy of the version.
    pub fn copy(&self) -> (r: Self)
        ensures
            r@ == self@,
    {
        SecretVersion {
            version_id: self.version_id.clone(),
            secret_string: copy_opt(&self.secret_string),
            secret_binary: copy_opt(&self.secret_binary),
            version_stages: copy_strings(&self.version_stages),
            created_date: self.created_date,
        }
    }
}

/// A secret. Dates are in seconds since the Unix epoch; its versions are kept
/// by version id.
pub struct Secret {
    pub arn: String,
    pub name: String,
    pub description: Option<String>,
    pub kms_key_id: Option<String>,
    pub deleted_date: Option<i64>,
    pub created_date: i64,
    pub last_accessed_date: Option<i64>,
    pub last_changed_date: Option<i64>,
    pub versions: Table<SecretVersion>,
    pub current_version_id: Option<String>,
}

/// A secret as text.
pub struct SecretView {
    pub arn: Seq<char>,
    pub name: Seq<char>,
    pub description: Option<Seq<char>>,
    pub kms_key_id: Option<Seq<char>>,
    pub deleted_date: Option<i64>,
    pub created_date: i64,
    pub last_accessed_date: Option<i64>,
    pub last_changed_date: Option<i64>,
    pub versions: Map<Seq<char>, VersionView>,
    pub current_version_id: Option<Seq<char>>,
}

impl Secret {
    pub open spec fn view(&self) -> SecretView {
        SecretView {
            arn: self.arn@,
            name: self.name@,
            description: opt_text(self.description),
            kms_key_id: opt_text(self.kms_key_id),
            deleted_date: self.deleted_date,
            created_date: self.created_date,
            last_accessed_date: self.last_accessed_date,
            last_changed_date: self.last_changed_date,
            versions: self.versions@.map_values(|v: SecretVersion| v@),
            current_version_id: opt_text(self.current_version_id),
        }
    }
}

/// A request to create a secret.
#[derive(Debug)]
pub struct CreateSecretRequest {
    pub name: String,
    pub description: Option<String>,
    pub kms_key_id: Option<String>,
    pub secret_string: Option<String>,
    pub secret_binary: Option<String>,
    pub client_request_token: Option<String>,
}

} // verus!
