use vstd::prelude::*;

verus! {

/// A marker type that names one field of a document type.
pub trait FieldName {
    /// The field's name as it appears in stored documents.
    fn field_name() -> &'static str;
}

/// States that a document type has the field named by `F`.
pub trait HasField<F: FieldName> {
    /// The type of the field's value.
    type Value;
}

} // verus!
