//! Tags attached to a snapshot at registration time: an ordered sequence
//! of key/value records, convertible to the remote control-plane client's
//! native tag representation.

use vstd::prelude::*;

verus! {

/// One key/value pair of a snapshot tag.
#[derive(Debug, PartialEq, Eq)]
pub struct KeyValueRecord {
    pub key: String,
    pub value: String,
}

/// An ordered sequence of key/value records.
#[derive(Debug, PartialEq)]
pub struct TagVec(pub Vec<KeyValueRecord>);

#[verifier::external_type_specification]
#[verifier::external_body]
pub struct ExTag(aws_sdk_ebs::types::Tag);

/// Relies on aws_sdk_ebs's `Tag::builder`: `build` returns a tag carrying
/// exactly the key and value set on the builder. The tag is opaque here;
/// nothing downstream reads it back.
#[verifier::external_body]
fn to_ebs_tag(record: &KeyValueRecord) -> aws_sdk_ebs::types::Tag {
    aws_sdk_ebs::types::Tag::builder()
        .key(record.key.clone())
        .value(record.value.clone())
        .build()
}

impl TagVec {
    /// The records in the remote client's native tag representation: one
    /// tag per record, in order.
    pub fn to_ebs_tags(&self) -> (r: Vec<aws_sdk_ebs::types::Tag>)
        ensures
            r@.len() == self.0@.len(),
    {
        let mut out: Vec<aws_sdk_ebs::types::Tag> = Vec::new();
        let mut i: usize = 0;
        while i < self.0.len()
            invariant
                i <= self.0@.len(),
                out@.len() == i,
            decreases self.0@.len() - i,
        {
            out.push(to_ebs_tag(&self.0[i]));
            i += 1;
        }
        out
    }
}

} // verus!
