use vstd::prelude::*;

verus! {

/// A dot-separated location inside a document of type `Root`, ending at the
/// field `F` of the type `T`.
pub struct Path<F, T, Root> {
    /// The path components that lead to the current position.
    pub prefix: Vec<String>,
    pub _marker: std::marker::PhantomData<(F, T, Root)>,
}

} // verus!
