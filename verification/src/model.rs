//! The tag graph: the resolved, read-only model of an XML vocabulary.

use crate::lists::{
    attribute_items, attributes_as_slice, child_items, children_as_slice, id_items, ids_as_slice,
    SmallList,
};
use crate::text::{ascii_lowercase, to_ascii_lowercase, trim, trimmed};
use std::collections::HashMap;
use vstd::hash_map::StringHashMap;
use vstd::prelude::*;

pub mod loader;

verus! {

broadcast use vstd::std_specs::hash::group_hash_axioms;

/// The schema version that this library understands.
pub const VERSION: &'static str = "r1";

/// The supported version token as a text.
pub open spec fn version_text() -> Seq<char> {
    seq!['r', '1']
}

/// Whether a declared schema version is the supported one: the token is
/// compared after ASCII lower-casing and trimming.
pub open spec fn supported(version: Seq<char>) -> bool {
    trimmed(ascii_lowercase(version)) == version_text()
}

/// Check if a schema version is supported.
pub fn is_supported(version: &str) -> (b: bool)
    ensures
        b == supported(version@),
{
    let lower = to_ascii_lowercase(version);
    let token = trim(lower.as_str());
    proof {
        reveal_strlit("r1");
        assert(VERSION@ =~= version_text());
    }
    token.to_owned() == VERSION.to_owned()
}

/// Description of an allowed (or expected) tag attribute.
#[derive(Debug, Default)]
pub struct Attribute {
    /// Attribute name.
    pub name: String,
    /// Mandatory brief description.
    pub short_description: String,
    /// Optional long description (may have paragraphs).
    pub long_description: Option<String>,
    /// Whether the attribute can be omitted.
    pub is_optional: bool,
    /// The kind of value that the attribute is expected to have.
    pub expected_value: Option<String>,
    /// The value that the attribute has when it is omitted.
    pub default_value: Option<String>,
}

/// The mathematical value of an [`Attribute`].
pub ghost struct AttributeView {
    pub name: Seq<char>,
    pub short_description: Seq<char>,
    pub long_description: Option<Seq<char>>,
    pub is_optional: bool,
    pub expected_value: Option<Seq<char>>,
    pub default_value: Option<Seq<char>>,
}

/// The text of an optional string.
pub open spec fn opt_text(o: Option<String>) -> Option<Seq<char>> {
    match o {
        Some(s) => Some(s@),
        None => None,
    }
}

impl View for Attribute {
    type V = AttributeView;

    open spec fn view(&self) -> AttributeView {
        AttributeView {
            name: self.name@,
            short_description: self.short_description@,
            long_description: opt_text(self.long_description),
            is_optional: self.is_optional,
            expected_value: opt_text(self.expected_value),
            default_value: opt_text(self.default_value),
        }
    }
}

/// A child reference: the identifier of the tag it names, or the name itself
/// when no tag of that name is declared.
#[derive(Debug)]
pub enum ChildInternal {
    Resolved { id: usize },
    Unresolved { name: String },
}

/// The mathematical value of a [`ChildInternal`].
pub ghost enum ChildRef {
    Resolved { id: usize },
    Unresolved { name: Seq<char> },
}

impl View for ChildInternal {
    type V = ChildRef;

    open spec fn view(&self) -> ChildRef {
        match *self {
            ChildInternal::Resolved { id } => ChildRef::Resolved { id },
            ChildInternal::Unresolved { name } => ChildRef::Unresolved { name: name@ },
        }
    }
}

impl Default for ChildInternal {
    /// A reference that names nothing.
    fn default() -> (r: Self)
        ensures
            r@ == (ChildRef::Unresolved { name: Seq::empty() }),
    {
        ChildInternal::Unresolved { name: String::new() }
    }
}

/// Description of a tag which may be used within another tag.
#[derive(Debug, Default)]
pub struct Child {
    /// The tag that is referred to.
    pub reference: ChildInternal,
    /// Can the parent tag have no instances of the subject tag?
    pub is_optional: bool,
    /// Can the parent tag have multiple instances of the subject tag?
    pub is_repeatable: bool,
}

/// The mathematical value of a [`Child`].
pub ghost struct ChildView {
    pub reference: ChildRef,
    pub is_optional: bool,
    pub is_repeatable: bool,
}

impl View for Child {
    type V = ChildView;

    open spec fn view(&self) -> ChildView {
        ChildView {
            reference: self.reference@,
            is_optional: self.is_optional,
            is_repeatable: self.is_repeatable,
        }
    }
}

/// Description of a tag.
#[derive(Debug, Default)]
pub struct Tag {
    /// Identifier of this tag: its position in [`TagList::tags`].
    pub id: usize,
    /// Public tag name.
    pub name: String,
    /// Mandatory description.
    pub description: String,
    /// The attributes this tag may have.
    pub attributes: SmallList<Attribute>,
    /// The child tags this tag may contain.
    pub children: SmallList<Child>,
    /// The scalar value this tag may contain.
    pub value: Option<String>,
    /// An abstract XML example demonstrating this tag.
    pub example: Option<String>,
    /// One-based position of the tag's declaration in its source.
    pub index_internal: usize,
}

/// The mathematical value of a [`Tag`].
pub ghost struct TagView {
    pub id: usize,
    pub name: Seq<char>,
    pub description: Seq<char>,
    pub attributes: Seq<AttributeView>,
    pub children: Seq<ChildView>,
    pub value: Option<Seq<char>>,
    pub example: Option<Seq<char>>,
    pub index: usize,
}

impl View for Tag {
    type V = TagView;

    open spec fn view(&self) -> TagView {
        TagView {
            id: self.id,
            name: self.name@,
            description: self.description@,
            attributes: attribute_items(self.attributes).map_values(|a: Attribute| a@),
            children: child_items(self.children).map_values(|c: Child| c@),
            value: opt_text(self.value),
            example: opt_text(self.example),
            index: self.index_internal,
        }
    }
}

impl Tag {
    /// One-based position of the tag's declaration in its source.
    pub fn index(&self) -> (r: usize)
        ensures
            r == self@.index,
    {
        self.index_internal
    }

    /// The attributes of the tag, in declaration order.
    pub fn attribute_list(&self) -> (r: &[Attribute])
        ensures
            r@ == attribute_items(self.attributes),
            r@.map_values(|a: Attribute| a@) == self@.attributes,
    {
        attributes_as_slice(&self.attributes)
    }

    /// The children of the tag, in declaration order.
    pub fn child_list(&self) -> (r: &[Child])
        ensures
            r@ == child_items(self.children),
            r@.map_values(|c: Child| c@) == self@.children,
    {
        children_as_slice(&self.children)
    }
}

/// The tags that refer to tag `target` among `children`, the children of tag
/// `source`: `source` once for each child that is resolved to `target`.
pub open spec fn links_from(children: Seq<ChildView>, source: usize, target: usize) -> Seq<usize>
    decreases children.len(),
{
    if children.len() == 0 {
        Seq::empty()
    } else {
        let rest = links_from(children.drop_last(), source, target);
        if children.last().reference == (ChildRef::Resolved { id: target }) {
            rest.push(source)
        } else {
            rest
        }
    }
}

/// The parent links of tag `target`: the position of each tag in `tags` that
/// has a child resolved to `target`, once per such child, in the order of the
/// tags.
pub open spec fn parent_links(tags: Seq<TagView>, target: usize) -> Seq<usize>
    decreases tags.len(),
{
    if tags.len() == 0 {
        Seq::empty()
    } else {
        parent_links(tags.drop_last(), target) + links_from(
            tags.last().children,
            (tags.len() - 1) as usize,
            target,
        )
    }
}

/// A resolved list of tags.
pub struct TagList {
    /// The XML namespace of all tags in this list.
    pub namespace: String,
    /// The tags, each at the position that is its identifier.
    pub tags: Vec<Tag>,
    /// Mapping from tag names to identifiers.
    pub names: StringHashMap<usize>,
    /// Mapping from a tag's identifier to the identifiers of the tags that
    /// refer to it as a child.
    pub parents: HashMap<usize, SmallList<usize>>,
}

/// The mathematical value of a [`TagList`].
pub ghost struct TagListView {
    pub namespace: Seq<char>,
    pub tags: Seq<TagView>,
    pub names: Map<Seq<char>, usize>,
    pub parents: Map<usize, Seq<usize>>,
}

impl View for TagList {
    type V = TagListView;

    open spec fn view(&self) -> TagListView {
        TagListView {
            namespace: self.namespace@,
            tags: self.tags@.map_values(|t: Tag| t@),
            names: self.names@,
            parents: Map::new(
                |id: usize| self.parents@.contains_key(id),
                |id: usize| id_items(self.parents@[id]),
            ),
        }
    }
}

impl TagListView {
    /// Every tag sits at the position that is its identifier, and
    /// declaration indices count from one without gaps.
    pub open spec fn ids_dense(self) -> bool {
        forall|i: int|
            0 <= i < self.tags.len() ==> (#[trigger] self.tags[i]).id == i && self.tags[i].index
                == i + 1
    }

    /// The name map is the inverse of the tags' names: every tag is found
    /// under its name, and every name in the map is that of the tag it gives.
    pub open spec fn names_exact(self) -> bool {
        &&& forall|i: int|
            0 <= i < self.tags.len() ==> self.names.contains_key((#[trigger] self.tags[i]).name)
                && self.names[self.tags[i].name] == i
        &&& forall|s: Seq<char>| #[trigger]
            self.names.contains_key(s) ==> self.names[s] < self.tags.len()
                && self.tags[self.names[s] as int].name == s
    }

    /// Every resolved child reference names a tag of the list.
    pub open spec fn children_resolved(self) -> bool {
        forall|i: int, k: int|
            0 <= i < self.tags.len() && 0 <= k < self.tags[i].children.len() ==> match (
            #[trigger] self.tags[i].children[k]).reference {
                ChildRef::Resolved { id } => id < self.tags.len(),
                ChildRef::Unresolved { .. } => true,
            }
    }

    /// The parent map holds exactly the parent links of the tags: an entry
    /// for each tag that some child reference is resolved to, and none for
    /// any other identifier.
    pub open spec fn parents_exact(self) -> bool {
        &&& forall|id: usize| #[trigger]
            self.parents.contains_key(id) <==> id < self.tags.len() && parent_links(
                self.tags,
                id,
            ).len() > 0
        &&& forall|id: usize| #[trigger]
            self.parents.contains_key(id) ==> self.parents[id] == parent_links(self.tags, id)
    }

    /// The invariant of a built tag graph.
    pub open spec fn wf(self) -> bool {
        &&& self.ids_dense()
        &&& self.names_exact()
        &&& self.children_resolved()
        &&& self.parents_exact()
    }

    /// Whether tag `id` is a root: no tag refers to it as a child.
    pub open spec fn is_root(self, id: usize) -> bool {
        !self.parents.contains_key(id)
    }

    /// The parents of tag `id`: the identifiers of the tags that refer to it
    /// as a child, one for each such reference; none if it is a root.
    pub open spec fn parents_of(self, id: usize) -> Seq<usize> {
        if self.parents.contains_key(id) {
            self.parents[id]
        } else {
            Seq::empty()
        }
    }
}

impl TagList {
    /// The number of tags in the list.
    pub fn len(&self) -> (n: usize)
        ensures
            n == self@.tags.len(),
    {
        self.tags.len()
    }

    /// Fetch a tag by its identifier.
    pub fn get(&self, id: usize) -> (r: Option<&Tag>)
        ensures
            r is Some <==> id < self@.tags.len(),
            r matches Some(tag) ==> *tag == self.tags@[id as int] && tag@ == self@.tags[id as int],
    {
        if id < self.tags.len() {
            Some(&self.tags[id])
        } else {
            None
        }
    }

    /// Fetch a tag by its name.
    pub fn get_by_name(&self, name: &str) -> (r: Option<&Tag>)
        ensures
            r is Some <==> self@.names.contains_key(name@) && self@.names[name@]
                < self@.tags.len(),
            r matches Some(tag) ==> *tag == self.tags@[self@.names[name@] as int] && tag@
                == self@.tags[self@.names[name@] as int],
            self@.wf() ==> (r is Some <==> exists|i: int|
                0 <= i < self@.tags.len() && (#[trigger] self@.tags[i]).name == name@),
            self@.wf() ==> (r matches Some(tag) ==> tag@.name == name@),
    {
        match self.names.get(name) {
            Some(id) => {
                if *id < self.tags.len() {
                    Some(&self.tags[*id])
                } else {
                    None
                }
            },
            None => None,
        }
    }

    /// The identifiers of the tags that refer to tag `id` as a child, one for
    /// each such reference; none if there is no such tag.
    pub fn parents_of(&self, id: usize) -> (r: Vec<usize>)
        ensures
            r@ == self@.parents_of(id),
    {
        let mut out: Vec<usize> = Vec::new();
        match self.parents.get(&id) {
            Some(list) => {
                let items = ids_as_slice(list);
                let mut i: usize = 0;
                while i < items.len()
                    invariant
                        i <= items@.len(),
                        out@ == items@.take(i as int),
                    decreases items@.len() - i,
                {
                    out.push(items[i]);
                    i += 1;
                }
                assert(items@.take(i as int) =~= items@);
            },
            None => {},
        }
        out
    }

    /// The tags in the order in which the list holds them, which in a well
    /// formed list is the order of their declaration.
    pub fn ordered(&self) -> (r: Vec<&Tag>)
        ensures
            r@.len() == self@.tags.len(),
            forall|i: int| 0 <= i < r@.len() ==> (#[trigger] r@[i])@ == self@.tags[i],
            self@.wf() ==> forall|i: int| 0 <= i < r@.len() ==> (#[trigger] r@[i])@.index == i + 1,
    {
        let mut out: Vec<&Tag> = Vec::new();
        let mut i: usize = 0;
        while i < self.tags.len()
            invariant
                i <= self.tags@.len(),
                out@.len() == i,
                forall|j: int| 0 <= j < i ==> *(#[trigger] out@[j]) == self.tags@[j],
            decreases self.tags@.len() - i,
        {
            out.push(&self.tags[i]);
            i += 1;
        }
        proof {
            if self@.wf() {
                assert forall|j: int| 0 <= j < out@.len() implies (#[trigger] out@[j])@.index
                    == j + 1 by {
                    assert(self@.tags[j] == out@[j]@);
                }
            }
        }
        out
    }
}

} // verus!
