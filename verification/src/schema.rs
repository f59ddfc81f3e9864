//! The declarative description of a vocabulary, as it is read from a tag
//! list file: a flat list of tag declarations in source order. Nothing here
//! is validated; that is the model builder's work.

use vstd::prelude::*;

verus! {

/// Root structure encompassing an entire tag list file.
#[derive(Debug)]
pub struct FileRoot {
    pub schema: Params,
    pub tags: Vec<Tag>,
}

/// The parameters of a tag list file.
#[derive(Debug)]
pub struct Params {
    /// The declared format version.
    pub version: String,
    /// The namespace prefix of every tag.
    pub namespace: String,
}

/// The declaration of a tag.
#[derive(Debug)]
pub struct Tag {
    /// The tag's name, unique within the file.
    pub id: String,
    pub description: String,
    pub attributes: Option<Vec<Attribute>>,
    pub children: Option<Vec<Child>>,
    pub value: Option<String>,
    pub example: Option<String>,
}

/// The declaration of an attribute of a tag.
#[derive(Debug)]
pub struct Attribute {
    pub id: String,
    pub brief: String,
    pub description: Option<String>,
    pub expected: Option<String>,
    pub default: Option<String>,
    pub optional: Option<bool>,
}

/// The declaration of a child of a tag: a reference by name.
#[derive(Debug)]
pub struct Child {
    /// The name of the tag that is referred to.
    pub reference: String,
    pub optional: Option<bool>,
    pub multiple: Option<bool>,
}

} // verus!
