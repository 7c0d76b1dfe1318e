//! Copies that keep the model.

use vstd::prelude::*;

verus! {

/// A value that can be copied without a change to what it stands for.
pub trait Replicate: DeepView + Sized {
    /// A copy with the same model.
    fn replicate(&self) -> (copy: Self)
        ensures
            copy.deep_view() == self.deep_view(),
    ;
}

/// A copy of a text.
pub(crate) fn copy_text(text: &String) -> (copy: String)
    ensures
        copy@ == text@,
{
    text.clone()
}

/// A copy of an optional text.
pub(crate) fn copy_optional_text(text: &Option<String>) -> (copy: Option<String>)
    ensures
        copy.deep_view() == text.deep_view(),
{
    match text {
        Some(t) => Some(t.clone()),
        None => None,
    }
}

/// A copy of a list of texts.
pub(crate) fn copy_texts(texts: &Vec<String>) -> (copy: Vec<String>)
    ensures
        copy.deep_view() == texts.deep_view(),
{
    let mut copy: Vec<String> = Vec::new();
    let mut i: usize = 0;
    while i < texts.len()
        invariant
            i <= texts.len(),
            copy.len() == i,
            forall|j: int| 0 <= j < i ==> copy@[j]@ == texts@[j]@,
        decreases texts.len() - i,
    {
        copy.push(texts[i].clone());
        i += 1;
    }
    copy
}

/// Copies of the values of a list, in its order.
pub fn replicate_all<T: Replicate>(items: &Vec<T>) -> (copy: Vec<T>)
    ensures
        copy.deep_view() == items.deep_view(),
{
    let mut copy: Vec<T> = Vec::new();
    let mut i: usize = 0;
    while i < items.len()
        invariant
            i <= items.len(),
            copy.len() == i,
            forall|j: int| 0 <= j < i ==> copy@[j].deep_view() == items@[j].deep_view(),
        decreases items.len() - i,
    {
        copy.push(items[i].replicate());
        i += 1;
    }
    copy
}

} // verus!
