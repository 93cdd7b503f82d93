//! What the store keeps of a registered collection.

use vstd::prelude::*;
use crate::field_types::{Schema, SchemaView};

verus! {

/// What the store keeps of a collection: its schema, the name of its
/// primary-key field, and the names of the fields that refer to other
/// collections.
#[derive(Debug, PartialEq, Eq)]
pub struct CollectionMeta {
    pub schema: Box<Schema>,
    pub primary_key_field: String,
    pub nested_fields: Vec<String>,
}

/// The mathematical content of a `CollectionMeta`.
pub ghost struct CollectionMetaView {
    pub schema: SchemaView,
    pub primary_key_field: Seq<char>,
    pub nested_fields: Seq<Seq<char>>,
}

impl View for CollectionMeta {
    type V = CollectionMetaView;

    open spec fn view(&self) -> CollectionMetaView {
        CollectionMetaView {
            schema: self.schema@,
            primary_key_field: self.primary_key_field@,
            nested_fields: self.nested_fields.deep_view(),
        }
    }
}

/// A copy of the texts `texts`.
pub fn duplicate_texts(texts: &Vec<String>) -> (copy: Vec<String>)
    ensures
        copy.deep_view() == texts.deep_view(),
{
    let mut copy: Vec<String> = Vec::new();
    let mut i: usize = 0;
    while i < texts.len()
        invariant
            i <= texts.len(),
            copy.len() == i,
            forall|j: int| 0 <= j < i ==> (#[trigger] copy[j])@ == texts[j]@,
        decreases texts.len() - i,
    {
        copy.push(texts[i].clone());
        i += 1;
    }
    assert(copy.deep_view() == texts.deep_view());
    copy
}

impl CollectionMeta {
    /// What the store keeps of a collection with the given schema,
    /// primary-key field and referring fields.
    pub fn new(schema: Box<Schema>, primary_key_field: String, nested_fields: Vec<String>) -> (meta:
        CollectionMeta)
        ensures
            meta@ == (CollectionMetaView {
                schema: schema@,
                primary_key_field: primary_key_field@,
                nested_fields: nested_fields.deep_view(),
            }),
    {
        CollectionMeta { schema, primary_key_field, nested_fields }
    }

    /// A copy of this description.
    pub fn duplicate(&self) -> (copy: CollectionMeta)
        ensures
            copy@ == self@,
    {
        CollectionMeta {
            schema: Box::new(self.schema.duplicate()),
            primary_key_field: self.primary_key_field.clone(),
            nested_fields: duplicate_texts(&self.nested_fields),
        }
    }
}

} // verus!
