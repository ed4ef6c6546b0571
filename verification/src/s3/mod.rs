//! Amazon S3: buckets, objects, multipart uploads and event notifications.
pub mod handlers;
pub mod storage;
pub mod types;
pub mod xml;
