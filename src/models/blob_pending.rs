use vstd::prelude::*;
use super::Timestamp;

verus! {

/// An upload that has been announced but not yet completed.
#[derive(Debug)]
pub struct Model {
    pub external_id: String,
    pub created_by: i64,
    pub created_at: Timestamp,
    pub expires_at: Timestamp,
    pub expected_length: i64,
    pub s3_path: String,
    pub s3_hash: Option<Vec<u8>>,
    pub presign_url: String,
}

/// The rows a pending blob refers to.
#[derive(Debug, Clone, Copy, PartialEq, Eq, Structural)]
pub enum Relation {
    User,
}

} // verus!
