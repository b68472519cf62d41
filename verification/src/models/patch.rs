use vstd::prelude::*;

verus! {

/// A field of a partial update: keep the stored value, clear it, or set it.
#[derive(Debug, Clone, PartialEq, Eq)]
pub enum PatchField<T> {
    Keep,
    Clear,
    Replace(T),
}

impl<T> PatchField<T> {
    pub fn is_keep(&self) -> (b: bool)
        ensures
            b <==> *self is Keep,
    {
        match self {
            PatchField::Keep => true,
            _ => false,
        }
    }
}

impl<T> Default for PatchField<T> {
    fn default() -> (r: Self)
        ensures
            r is Keep,
    {
        PatchField::Keep
    }
}

}
