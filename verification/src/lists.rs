//! Short lists with inline storage.
//!
//! The tag graph keeps its per-tag lists (attributes, children, parent links)
//! and the loader its warnings in `smallvec::SmallVec` with room for four
//! items before spilling to the heap. The vector itself is opaque to the
//! verifier: what a list holds is given by the `*_items` functions below, and
//! the only operations on it are the conversions from a `Vec` and to a slice.

use crate::model::{Attribute, Child};
use smallvec::SmallVec;
use vstd::prelude::*;

verus! {

/// A list stored in a `SmallVec` with an inline capacity of four items.
#[derive(Debug, Default)]
#[verifier::external_body]
#[verifier::reject_recursive_types(T)]
pub struct SmallList<T> {
    inner: SmallVec<[T; 4]>,
}

/// The identifiers held by a list, in order.
pub uninterp spec fn id_items(list: SmallList<usize>) -> Seq<usize>;

/// The texts held by a list, in order.
pub uninterp spec fn text_items(list: SmallList<String>) -> Seq<String>;

/// The attributes held by a list, in order.
pub uninterp spec fn attribute_items(list: SmallList<Attribute>) -> Seq<Attribute>;

/// The children held by a list, in order.
pub uninterp spec fn child_items(list: SmallList<Child>) -> Seq<Child>;

/// Calls `SmallVec::from_vec`: the list holds the items of `items`, in the
/// same order.
#[verifier::external_body]
pub(crate) fn ids_from_vec(items: Vec<usize>) -> (list: SmallList<usize>)
    ensures
        id_items(list) == items@,
{
    SmallList { inner: SmallVec::from_vec(items) }
}

/// Calls `SmallVec::as_slice`: the slice is the whole list.
#[verifier::external_body]
pub(crate) fn ids_as_slice(list: &SmallList<usize>) -> (items: &[usize])
    ensures
        items@ == id_items(*list),
{
    list.inner.as_slice()
}

/// Calls `SmallVec::from_vec`: the list holds the items of `items`, in the
/// same order.
#[verifier::external_body]
pub(crate) fn texts_from_vec(items: Vec<String>) -> (list: SmallList<String>)
    ensures
        text_items(list) == items@,
{
    SmallList { inner: SmallVec::from_vec(items) }
}

/// Calls `SmallVec::as_slice`: the slice is the whole list.
#[verifier::external_body]
pub(crate) fn texts_as_slice(list: &SmallList<String>) -> (items: &[String])
    ensures
        items@ == text_items(*list),
{
    list.inner.as_slice()
}

/// Calls `SmallVec::from_vec`: the list holds the items of `items`, in the
/// same order.
#[verifier::external_body]
pub(crate) fn attributes_from_vec(items: Vec<Attribute>) -> (list: SmallList<Attribute>)
    ensures
        attribute_items(list) == items@,
{
    SmallList { inner: SmallVec::from_vec(items) }
}

/// Calls `SmallVec::as_slice`: the slice is the whole list.
#[verifier::external_body]
pub(crate) fn attributes_as_slice(list: &SmallList<Attribute>) -> (items: &[Attribute])
    ensures
        items@ == attribute_items(*list),
{
    list.inner.as_slice()
}

/// Calls `SmallVec::from_vec`: the list holds the items of `items`, in the
/// same order.
#[verifier::external_body]
pub(crate) fn children_from_vec(items: Vec<Child>) -> (list: SmallList<Child>)
    ensures
        child_items(list) == items@,
{
    SmallList { inner: SmallVec::from_vec(items) }
}

/// Calls `SmallVec::as_slice`: the slice is the whole list.
#[verifier::external_body]
pub(crate) fn children_as_slice(list: &SmallList<Child>) -> (items: &[Child])
    ensures
        items@ == child_items(*list),
{
    list.inner.as_slice()
}

} // verus!
