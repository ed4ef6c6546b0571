//! An in-memory emulator of AWS services: S3, SQS, SNS, SES, SSM, Secrets
//! Manager, Route 53, RDS and Redshift, each held as verified state.
use vstd::prelude::*;

pub mod http;
pub mod json;
pub mod rds;
pub mod route53;
pub mod redshift;
pub mod runtime;
pub mod s3;
pub mod server;
pub mod secretsmanager;
pub mod sns;
pub mod ses;
pub mod sqs;
pub mod ssm;
pub mod table;
pub mod text;

verus! {
} // verus!
