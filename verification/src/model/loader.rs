//! The model builder: turns the flat list of tag declarations into the
//! resolved tag graph, and reports what it found amiss on the way.

use crate::lists::{
    attribute_items, attributes_from_vec, child_items, children_from_vec, id_items, ids_from_vec,
    text_items, texts_as_slice, texts_from_vec, SmallList,
};
use crate::model::{
    is_supported, links_from, opt_text, parent_links, supported, version_text, Attribute,
    AttributeView, Child, ChildInternal, ChildRef, ChildView, Tag, TagList, TagListView, TagView,
    VERSION,
};
use crate::schema;
use crate::text::{append_decimal, decimal, join, joined, trim, trimmed};
use std::collections::HashMap;
use vstd::hash_map::StringHashMap;
use vstd::prelude::*;
use vstd::string::StringExecFns;

verus! {

broadcast use vstd::std_specs::hash::group_hash_axioms;

/// Loaded [`TagList`] model with possible warnings.
pub struct LoadDigest {
    /// Valid tag list model.
    pub model: TagList,
    /// Non-fatal issues, in the order in which they were found.
    pub warnings: SmallList<String>,
}

impl LoadDigest {
    /// The texts of the warnings, in order.
    pub open spec fn warning_texts(&self) -> Seq<Seq<char>> {
        text_items(self.warnings).map_values(|w: String| w@)
    }

    /// Whether the load found anything to warn about.
    pub fn has_warnings(&self) -> (b: bool)
        ensures
            b == (self.warning_texts().len() > 0),
    {
        texts_as_slice(&self.warnings).len() > 0
    }

    /// The warnings, in the order in which they were found.
    pub fn warning_list(&self) -> (r: &[String])
        ensures
            r@ == text_items(self.warnings),
            r@.map_values(|w: String| w@) == self.warning_texts(),
    {
        texts_as_slice(&self.warnings)
    }
}

/// Possible fatal errors produced by [`load_from`].
#[derive(Debug)]
pub enum LoadError {
    /// Schema version wasn't supported.
    VersionUnsupported { found: String, expected: String },
    /// Two tag declarations share a name.
    DuplicateName { name: String },
}

/// The names of the declared tags, in declaration order.
pub open spec fn declared_names(decls: Seq<schema::Tag>) -> Seq<Seq<char>> {
    decls.map_values(|t: schema::Tag| t.id@)
}

/// No two positions of `names` hold the same name.
pub open spec fn names_distinct(names: Seq<Seq<char>>) -> bool {
    forall|i: int, j: int| 0 <= i < j < names.len() ==> names[i] != names[j]
}

/// Position `j` holds the first name of `names` that repeats an earlier one.
pub open spec fn first_repeat(names: Seq<Seq<char>>, j: int) -> bool {
    &&& 0 <= j < names.len()
    &&& names_distinct(names.take(j))
    &&& exists|i: int| 0 <= i < j && names[i] == names[j]
}

/// The text of an optional string, trimmed.
pub open spec fn opt_trimmed(o: Option<String>) -> Option<Seq<char>> {
    match o {
        Some(s) => Some(trimmed(s@)),
        None => None,
    }
}

/// A flag that is off unless it is given.
pub open spec fn flag(o: Option<bool>) -> bool {
    match o {
        Some(b) => b,
        None => false,
    }
}

/// The attribute that a declaration describes: texts trimmed, the name
/// kept as written.
pub open spec fn built_attribute(a: schema::Attribute) -> AttributeView {
    AttributeView {
        name: a.id@,
        short_description: trimmed(a.brief@),
        long_description: opt_trimmed(a.description),
        is_optional: flag(a.optional),
        expected_value: opt_trimmed(a.expected),
        default_value: opt_trimmed(a.default),
    }
}

/// The attributes that a tag declaration describes, in order.
pub open spec fn built_attributes(o: Option<Vec<schema::Attribute>>) -> Seq<AttributeView> {
    match o {
        Some(v) => v@.map_values(|a: schema::Attribute| built_attribute(a)),
        None => Seq::empty(),
    }
}

/// What a reference to `target` resolves to among the declared `names`: the
/// position of the tag of that name, or the name itself if there is none.
pub open spec fn resolved_reference(names: Seq<Seq<char>>, target: Seq<char>) -> ChildRef {
    if names.contains(target) {
        ChildRef::Resolved { id: names.index_of(target) as usize }
    } else {
        ChildRef::Unresolved { name: target }
    }
}

/// The child that a declaration describes, resolved among `names`.
pub open spec fn built_child(names: Seq<Seq<char>>, c: schema::Child) -> ChildView {
    ChildView {
        reference: resolved_reference(names, c.reference@),
        is_optional: flag(c.optional),
        is_repeatable: flag(c.multiple),
    }
}

/// The children that a tag declaration describes, in order.
pub open spec fn built_children(names: Seq<Seq<char>>, o: Option<Vec<schema::Child>>) -> Seq<
    ChildView,
> {
    match o {
        Some(v) => v@.map_values(|c: schema::Child| built_child(names, c)),
        None => Seq::empty(),
    }
}

/// The tag that the declaration at position `i` describes.
pub open spec fn built_tag(names: Seq<Seq<char>>, decl: schema::Tag, i: int) -> TagView {
    TagView {
        id: i as usize,
        name: decl.id@,
        description: trimmed(decl.description@),
        attributes: built_attributes(decl.attributes),
        children: built_children(names, decl.children),
        value: opt_trimmed(decl.value),
        example: opt_text(decl.example),
        index: (i + 1) as usize,
    }
}

/// The tags that the declarations describe, in declaration order.
pub open spec fn built_tags(decls: Seq<schema::Tag>) -> Seq<TagView> {
    Seq::new(decls.len(), |i: int| built_tag(declared_names(decls), decls[i], i))
}

/// `map` sends each of `names` to its position and holds nothing else.
pub open spec fn indexes(map: Map<Seq<char>, usize>, names: Seq<Seq<char>>) -> bool {
    &&& forall|i: int|
        0 <= i < names.len() ==> map.contains_key(#[trigger] names[i]) && map[names[i]] == i
    &&& forall|s: Seq<char>| #[trigger] map.contains_key(s) ==> names.contains(s)
}

/// Builds the name index of the declarations, or reports the first name that
/// is declared twice.
fn index_names(decls: &Vec<schema::Tag>) -> (r: Result<StringHashMap<usize>, LoadError>)
    ensures
        match r {
            Ok(map) => names_distinct(declared_names(decls@)) && indexes(
                map@,
                declared_names(decls@),
            ),
            Err(LoadError::DuplicateName { name }) => exists|j: int|
                first_repeat(declared_names(decls@), j) && name@ == declared_names(decls@)[j],
            Err(_) => false,
        },
{
    let ghost names = declared_names(decls@);
    let mut map: StringHashMap<usize> = StringHashMap::new();
    let mut i: usize = 0;
    while i < decls.len()
        invariant
            i <= decls@.len(),
            names == declared_names(decls@),
            names_distinct(names.take(i as int)),
            indexes(map@, names.take(i as int)),
        decreases decls@.len() - i,
    {
        let ghost seen = names.take(i as int);
        let ghost next = names.take(i + 1);
        if map.contains_key(decls[i].id.as_str()) {
            proof {
                let k = seen.index_of(names[i as int]);
                assert(seen[k] == names[k]);
                assert(first_repeat(names, i as int));
            }
            return Err(LoadError::DuplicateName { name: decls[i].id.clone() });
        }
        map.insert(decls[i].id.clone(), i);
        proof {
            assert(next.drop_last() =~= seen);
            assert forall|a: int, b: int| 0 <= a < b < next.len() implies next[a] != next[b] by {
                if b == i {
                    assert(seen[a] == next[a]);
                    assert(seen.contains(next[a]));
                } else {
                    assert(seen[a] == next[a] && seen[b] == next[b]);
                }
            }
            assert forall|a: int| 0 <= a < next.len() implies map@.contains_key(
                #[trigger] next[a],
            ) && map@[next[a]] == a by {
                if a < i {
                    assert(seen[a] == next[a]);
                    assert(seen.contains(next[a]));
                }
            }
            assert forall|s: Seq<char>| #[trigger] map@.contains_key(s) implies next.contains(
                s,
            ) by {
                if s == names[i as int] {
                    assert(next[i as int] == s);
                } else {
                    let k = seen.index_of(s);
                    assert(next[k] == s);
                }
            }
        }
        i += 1;
    }
    assert(names.take(i as int) =~= names);
    Ok(map)
}

/// A trimmed copy of an optional text.
fn trimmed_copy(o: &Option<String>) -> (r: Option<String>)
    ensures
        opt_text(r) == opt_trimmed(*o),
{
    match o {
        Some(s) => Some(trim(s.as_str()).to_owned()),
        None => None,
    }
}

/// A copy of an optional text.
fn optional_copy(o: &Option<String>) -> (r: Option<String>)
    ensures
        opt_text(r) == opt_text(*o),
{
    match o {
        Some(s) => Some(s.clone()),
        None => None,
    }
}

/// The value of a flag that is off unless it is given.
fn flag_value(o: &Option<bool>) -> (b: bool)
    ensures
        b == flag(*o),
{
    match o {
        Some(b) => *b,
        None => false,
    }
}

/// Materializes the attributes of a tag declaration.
fn build_attributes(src: &Option<Vec<schema::Attribute>>) -> (r: SmallList<Attribute>)
    ensures
        attribute_items(r).map_values(|a: Attribute| a@) == built_attributes(*src),
{
    let mut out: Vec<Attribute> = Vec::new();
    match src {
        Some(decls) => {
            let mut i: usize = 0;
            while i < decls.len()
                invariant
                    i <= decls@.len(),
                    out@.len() == i,
                    forall|k: int| 0 <= k < i ==> (#[trigger] out@[k])@ == built_attribute(decls@[k]),
                decreases decls@.len() - i,
            {
                let decl = &decls[i];
                out.push(
                    Attribute {
                        name: decl.id.clone(),
                        short_description: trim(decl.brief.as_str()).to_owned(),
                        long_description: trimmed_copy(&decl.description),
                        is_optional: flag_value(&decl.optional),
                        expected_value: trimmed_copy(&decl.expected),
                        default_value: trimmed_copy(&decl.default),
                    },
                );
                i += 1;
            }
            assert(out@.map_values(|a: Attribute| a@) =~= built_attributes(*src));
        },
        None => {
            assert(out@.map_values(|a: Attribute| a@) =~= built_attributes(*src));
        },
    }
    attributes_from_vec(out)
}

/// The texts of a list of strings.
pub open spec fn texts_of(v: Seq<String>) -> Seq<Seq<char>> {
    v.map_values(|s: String| s@)
}

/// The warning about a child reference of tag `parent` that names no
/// declared tag.
pub open spec fn unresolved_warning(parent: Seq<char>, missing: Seq<char>) -> Seq<char> {
    "unresolved child reference: "@ + parent + "->"@ + missing
}

/// The warnings about the unresolved ones among the children of tag
/// `parent`, in the order of the children.
pub open spec fn child_warnings(parent: Seq<char>, children: Seq<ChildView>) -> Seq<Seq<char>>
    decreases children.len(),
{
    if children.len() == 0 {
        Seq::empty()
    } else {
        let rest = child_warnings(parent, children.drop_last());
        match children.last().reference {
            ChildRef::Unresolved { name } => rest.push(unresolved_warning(parent, name)),
            ChildRef::Resolved { .. } => rest,
        }
    }
}

/// Resolves the child references of the tag at position `source`: each
/// reference is looked up in the name index, a parent link is recorded for
/// each one found, and a warning for each one missing.
fn resolve_children(
    source: usize,
    source_name: &str,
    src: &Option<Vec<schema::Child>>,
    index: &StringHashMap<usize>,
    Ghost(names): Ghost<Seq<Seq<char>>>,
    warnings: &mut Vec<String>,
    links: &mut Vec<Vec<usize>>,
) -> (r: SmallList<Child>)
    requires
        names_distinct(names),
        indexes(index@, names),
        old(links)@.len() == names.len(),
    ensures
        child_items(r).map_values(|c: Child| c@) == built_children(names, *src),
        texts_of(final(warnings)@) == texts_of(old(warnings)@) + child_warnings(
            source_name@,
            built_children(names, *src),
        ),
        final(links)@.len() == names.len(),
        forall|c: usize|
            c < names.len() ==> (#[trigger] final(links)@[c as int])@ == old(links)@[c as int]@
                + links_from(built_children(names, *src), source, c),
{
    let ghost all = built_children(names, *src);
    let mut out: Vec<Child> = Vec::new();
    match src {
        Some(decls) => {
            let mut k: usize = 0;
            while k < decls.len()
                invariant
                    k <= decls@.len(),
                    *src == Some(*decls),
                    all == built_children(names, *src),
                    names_distinct(names),
                    indexes(index@, names),
                    links@.len() == names.len(),
                    out@.len() == k,
                    forall|j: int| 0 <= j < k ==> (#[trigger] out@[j])@ == all[j],
                    texts_of(warnings@) == texts_of(old(warnings)@) + child_warnings(
                        source_name@,
                        all.take(k as int),
                    ),
                    old(links)@.len() == names.len(),
                    forall|c: usize|
                        c < names.len() ==> (#[trigger] links@[c as int])@ == old(
                            links,
                        )@[c as int]@ + links_from(all.take(k as int), source, c),
                decreases decls@.len() - k,
            {
                let decl = &decls[k];
                let ghost done = all.take(k as int);
                let ghost next = all.take(k + 1);
                let ghost before = links@;
                let ghost warned = warnings@;
                proof {
                    assert(next.drop_last() =~= done);
                    assert(next.last() == built_child(names, decls@[k as int]));
                }
                let reference = match index.get(decl.reference.as_str()) {
                    Some(id) => {
                        proof {
                            let j = names.index_of(decl.reference@);
                            assert(names[j] == decl.reference@);
                        }
                        links[*id].push(source);
                        ChildInternal::Resolved { id: *id }
                    },
                    None => {
                        let mut message = "unresolved child reference: ".to_owned();
                        message.append(source_name);
                        message.append("->");
                        message.append(decl.reference.as_str());
                        warnings.push(message);
                        assert(texts_of(warnings@) =~= texts_of(warned).push(
                            unresolved_warning(source_name@, decl.reference@),
                        ));
                        ChildInternal::Unresolved { name: decl.reference.clone() }
                    },
                };
                out.push(
                    Child {
                        reference,
                        is_optional: flag_value(&decl.optional),
                        is_repeatable: flag_value(&decl.multiple),
                    },
                );
                proof {
                    assert(texts_of(warnings@) =~= texts_of(old(warnings)@) + child_warnings(
                        source_name@,
                        next,
                    ));
                    assert forall|c: usize| c < names.len() implies (#[trigger] links@[c as int])@
                        == old(links)@[c as int]@ + links_from(next, source, c) by {
                        assert(before[c as int]@ == old(links)@[c as int]@ + links_from(
                            done,
                            source,
                            c,
                        ));
                        assert(links_from(next, source, c) == if next.last().reference == (
                        ChildRef::Resolved { id: c }) {
                            links_from(done, source, c).push(source)
                        } else {
                            links_from(done, source, c)
                        });
                        assert(links@[c as int]@ =~= old(links)@[c as int]@ + links_from(
                            next,
                            source,
                            c,
                        ));
                    }
                }
                k += 1;
            }
            assert(all.take(k as int) =~= all);
            assert(out@.map_values(|c: Child| c@) =~= all);
        },
        None => {
            assert(out@.map_values(|c: Child| c@) =~= all);
            assert(texts_of(warnings@) =~= texts_of(old(warnings)@) + child_warnings(
                source_name@,
                all,
            ));
            assert forall|c: usize| c < names.len() implies (#[trigger] links@[c as int])@
                == old(links)@[c as int]@ + links_from(all, source, c) by {
                assert(links@[c as int]@ =~= old(links)@[c as int]@ + links_from(all, source, c));
            }
        },
    }
    children_from_vec(out)
}

/// The warnings about unresolved child references of all `tags`, tag by tag
/// in declaration order.
pub open spec fn reference_warnings(tags: Seq<TagView>) -> Seq<Seq<char>>
    decreases tags.len(),
{
    if tags.len() == 0 {
        Seq::empty()
    } else {
        reference_warnings(tags.drop_last()) + child_warnings(
            tags.last().name,
            tags.last().children,
        )
    }
}

/// Materializes the declared tags in declaration order, resolving their
/// child references against the name index. Returns the tags and, for each
/// tag, its parent links.
fn materialize(
    decls: &Vec<schema::Tag>,
    index: &StringHashMap<usize>,
    warnings: &mut Vec<String>,
) -> (r: (Vec<Tag>, Vec<Vec<usize>>))
    requires
        names_distinct(declared_names(decls@)),
        indexes(index@, declared_names(decls@)),
    ensures
        r.0@.map_values(|t: Tag| t@) == built_tags(decls@),
        texts_of(final(warnings)@) == texts_of(old(warnings)@) + reference_warnings(
            built_tags(decls@),
        ),
        r.1@.len() == decls@.len(),
        forall|c: usize|
            c < decls@.len() ==> (#[trigger] r.1@[c as int])@ == parent_links(built_tags(decls@), c),
{
    let ghost names = declared_names(decls@);
    let ghost all = built_tags(decls@);
    let n = decls.len();
    let mut links: Vec<Vec<usize>> = Vec::new();
    let mut c: usize = 0;
    while c < n
        invariant
            c <= n,
            links@.len() == c,
            forall|j: int| 0 <= j < c ==> (#[trigger] links@[j])@ == Seq::<usize>::empty(),
        decreases n - c,
    {
        links.push(Vec::new());
        c += 1;
    }
    let mut tags: Vec<Tag> = Vec::new();
    let mut i: usize = 0;
    while i < n
        invariant
            i <= n,
            n == decls@.len(),
            names == declared_names(decls@),
            all == built_tags(decls@),
            names_distinct(names),
            indexes(index@, names),
            tags@.len() == i,
            forall|j: int| 0 <= j < i ==> (#[trigger] tags@[j])@ == all[j],
            texts_of(warnings@) == texts_of(old(warnings)@) + reference_warnings(
                all.take(i as int),
            ),
            links@.len() == n,
            forall|c: usize|
                c < n ==> (#[trigger] links@[c as int])@ == parent_links(all.take(i as int), c),
        decreases n - i,
    {
        let decl = &decls[i];
        let ghost done = all.take(i as int);
        let ghost next = all.take(i + 1);
        let ghost before = links@;
        proof {
            assert(next.drop_last() =~= done);
            assert(next.last() == all[i as int]);
        }
        let attributes = build_attributes(&decl.attributes);
        let children = resolve_children(
            i,
            decl.id.as_str(),
            &decl.children,
            index,
            Ghost(names),
            warnings,
            &mut links,
        );
        tags.push(
            Tag {
                id: i,
                name: decl.id.clone(),
                description: trim(decl.description.as_str()).to_owned(),
                attributes,
                children,
                value: trimmed_copy(&decl.value),
                example: optional_copy(&decl.example),
                index_internal: i + 1,
            },
        );
        proof {
            assert(tags@[i as int]@ == all[i as int]);
            assert(texts_of(warnings@) =~= texts_of(old(warnings)@) + reference_warnings(next));
            assert forall|c: usize| c < n implies (#[trigger] links@[c as int])@ == parent_links(
                next,
                c,
            ) by {
                assert(before[c as int]@ == parent_links(done, c));
                assert(links@[c as int]@ == before[c as int]@ + links_from(
                    all[i as int].children,
                    i,
                    c,
                ));
            }
        }
        i += 1;
    }
    proof {
        assert(all.take(i as int) =~= all);
        assert(tags@.map_values(|t: Tag| t@) =~= all);
    }
    (tags, links)
}

/// Builds the parent map from the parent links of each tag: an entry for
/// every tag that has a link, none for the others.
fn build_parent_map(links: Vec<Vec<usize>>) -> (map: HashMap<usize, SmallList<usize>>)
    ensures
        forall|id: usize| #[trigger]
            map@.contains_key(id) <==> id < links@.len() && links@[id as int]@.len() > 0,
        forall|id: usize| #[trigger]
            map@.contains_key(id) ==> id_items(map@[id]) == links@[id as int]@,
{
    let ghost all = links@;
    let mut rest = links;
    let mut map: HashMap<usize, SmallList<usize>> = HashMap::new();
    while rest.len() > 0
        invariant
            rest@.len() <= all.len(),
            rest@ == all.take(rest@.len() as int),
            forall|id: usize| #[trigger]
                map@.contains_key(id) <==> rest@.len() <= id < all.len() && all[id as int]@.len()
                    > 0,
            forall|id: usize| #[trigger]
                map@.contains_key(id) ==> id_items(map@[id]) == all[id as int]@,
        decreases rest@.len(),
    {
        let id = rest.len() - 1;
        let popped = rest.pop();
        assert(rest@ =~= all.take(id as int));
        match popped {
            Some(list) => {
                if list.len() > 0 {
                    map.insert(id, ids_from_vec(list));
                }
            },
            None => {},
        }
    }
    map
}

/// The identifiers below `k` of the tags that no tag refers to as a child,
/// in ascending order.
pub open spec fn roots_below(tags: Seq<TagView>, k: nat) -> Seq<usize>
    decreases k,
{
    if k == 0 {
        Seq::empty()
    } else {
        let rest = roots_below(tags, (k - 1) as nat);
        if parent_links(tags, (k - 1) as usize).len() == 0 {
            rest.push((k - 1) as usize)
        } else {
            rest
        }
    }
}

/// The root tags: the identifiers of the tags that no tag refers to as a
/// child, in declaration order.
pub open spec fn roots(tags: Seq<TagView>) -> Seq<usize> {
    roots_below(tags, tags.len())
}

/// The names of the tags with the given identifiers.
pub open spec fn names_of(tags: Seq<TagView>, ids: Seq<usize>) -> Seq<Seq<char>> {
    ids.map_values(|id: usize| tags[id as int].name)
}

/// The warning about a list without a root tag.
pub open spec fn no_roots_warning() -> Seq<char> {
    "schema has no root tags, likely self-referential?"@
}

/// The warning about a list with several root tags: their number and their
/// names, in declaration order.
pub open spec fn many_roots_warning(names: Seq<Seq<char>>) -> Seq<char> {
    "schema has more than one root tag ("@ + decimal(names.len()) + "): "@ + joined(
        names,
        ", "@,
    )
}

/// What the root analysis warns about: nothing if there is exactly one root.
pub open spec fn root_warnings(tags: Seq<TagView>) -> Seq<Seq<char>> {
    let found = roots(tags);
    if found.len() == 1 {
        Seq::empty()
    } else if found.len() == 0 {
        seq![no_roots_warning()]
    } else {
        seq![many_roots_warning(names_of(tags, found))]
    }
}

/// The warning about a namespace that is not a non-empty ASCII text.
pub open spec fn namespace_warning() -> Seq<char> {
    "schema namespace must be a non-empty ascii sequence"@
}

/// What the namespace check warns about.
pub open spec fn namespace_warnings(namespace: Seq<char>) -> Seq<Seq<char>> {
    if namespace.len() == 0 || !vstd::utf8::is_ascii_chars(namespace) {
        seq![namespace_warning()]
    } else {
        Seq::empty()
    }
}

/// The warnings of a load, in the order in which they are found: namespace,
/// unresolved references, roots.
pub open spec fn load_warnings(root: schema::FileRoot) -> Seq<Seq<char>> {
    let tags = built_tags(root.tags@);
    namespace_warnings(root.schema.namespace@) + reference_warnings(tags) + root_warnings(tags)
}

/// The tag graph that a schema with distinct tag names describes.
pub open spec fn built_model(root: schema::FileRoot) -> TagListView {
    let names = declared_names(root.tags@);
    let tags = built_tags(root.tags@);
    TagListView {
        namespace: root.schema.namespace@,
        tags,
        names: Map::new(|s: Seq<char>| names.contains(s), |s: Seq<char>| names.index_of(s) as usize),
        parents: Map::new(
            |id: usize| id < tags.len() && parent_links(tags, id).len() > 0,
            |id: usize| parent_links(tags, id),
        ),
    }
}

/// Finds the root tags and warns unless there is exactly one.
fn analyze_roots(
    tags: &Vec<Tag>,
    parents: &HashMap<usize, SmallList<usize>>,
    warnings: &mut Vec<String>,
)
    requires
        forall|id: usize| #[trigger]
            parents@.contains_key(id) <==> id < tags@.len() && parent_links(
                tags@.map_values(|t: Tag| t@),
                id,
            ).len() > 0,
    ensures
        texts_of(final(warnings)@) == texts_of(old(warnings)@) + root_warnings(
            tags@.map_values(|t: Tag| t@),
        ),
{
    let ghost views = tags@.map_values(|t: Tag| t@);
    let mut found: Vec<String> = Vec::new();
    let mut id: usize = 0;
    while id < tags.len()
        invariant
            id <= tags@.len(),
            views == tags@.map_values(|t: Tag| t@),
            forall|c: usize| #[trigger]
                parents@.contains_key(c) <==> c < tags@.len() && parent_links(views, c).len() > 0,
            texts_of(found@) == names_of(views, roots_below(views, id as nat)),
        decreases tags@.len() - id,
    {
        let ghost before = found@;
        if !parents.contains_key(&id) {
            found.push(tags[id].name.clone());
        }
        proof {
            let rest = roots_below(views, id as nat);
            let next = roots_below(views, (id + 1) as nat);
            if parent_links(views, id).len() == 0 {
                assert(next == rest.push(id));
                assert(texts_of(before).len() == names_of(views, rest).len());
                assert forall|j: int| 0 <= j < found@.len() implies texts_of(found@)[j]
                    == names_of(views, next)[j] by {
                    if j < before.len() {
                        assert(texts_of(before)[j] == names_of(views, rest)[j]);
                    }
                }
                assert(texts_of(found@) =~= names_of(views, next));
            }
        }
        id += 1;
    }
    let ghost old_texts = texts_of(warnings@);
    if found.len() == 0 {
        warnings.push("schema has no root tags, likely self-referential?".to_owned());
        assert(texts_of(warnings@) =~= old_texts + root_warnings(views));
    } else if found.len() > 1 {
        let mut message = "schema has more than one root tag (".to_owned();
        append_decimal(&mut message, found.len() as u64);
        message.append("): ");
        let list = join(&found, ", ");
        message.append(list.as_str());
        warnings.push(message);
        assert(texts_of(warnings@) =~= old_texts + root_warnings(views));
    } else {
        assert(texts_of(warnings@) =~= old_texts + root_warnings(views));
    }
}

/// Load a [`TagList`] model from a deserialized `schema` instance.
///
/// The version gate comes first: a schema whose version is not the supported
/// one is refused. Tag names must be distinct; the first name that repeats an
/// earlier one is reported otherwise. Every other finding is a warning that
/// accompanies the model.
pub fn load_from(schema: schema::FileRoot) -> (r: Result<LoadDigest, LoadError>)
    ensures
        match r {
            Ok(digest) => {
                &&& supported(schema.schema.version@)
                &&& names_distinct(declared_names(schema.tags@))
                &&& digest.model@ == built_model(schema)
                &&& digest.model@.wf()
                &&& digest.warning_texts() == load_warnings(schema)
            },
            Err(LoadError::VersionUnsupported { found, expected }) => {
                &&& !supported(schema.schema.version@)
                &&& found@ == schema.schema.version@
                &&& expected@ == version_text()
            },
            Err(LoadError::DuplicateName { name }) => {
                &&& supported(schema.schema.version@)
                &&& exists|j: int|
                    first_repeat(declared_names(schema.tags@), j) && name@ == declared_names(
                        schema.tags@,
                    )[j]
            },
        },
{
    if !is_supported(schema.schema.version.as_str()) {
        proof {
            reveal_strlit("r1");
            assert(VERSION@ =~= version_text());
        }
        return Err(
            LoadError::VersionUnsupported {
                found: schema.schema.version.clone(),
                expected: VERSION.to_owned(),
            },
        );
    }
    let mut warnings: Vec<String> = Vec::new();
    if schema.schema.namespace.as_str().is_empty() || !schema.schema.namespace.as_str().is_ascii() {
        warnings.push("schema namespace must be a non-empty ascii sequence".to_owned());
    }
    assert(texts_of(warnings@) =~= namespace_warnings(schema.schema.namespace@));
    let names = match index_names(&schema.tags) {
        Ok(names) => names,
        Err(e) => {
            return Err(e);
        },
    };
    let (tags, links) = materialize(&schema.tags, &names, &mut warnings);
    let parents = build_parent_map(links);
    analyze_roots(&tags, &parents, &mut warnings);
    let model = TagList { namespace: schema.schema.namespace.clone(), tags, names, parents };
    proof {
        let decl_names = declared_names(schema.tags@);
        assert(model@.names =~= built_model(schema).names) by {
            assert forall|s: Seq<char>| model@.names.contains_key(s) implies model@.names[s]
                == decl_names.index_of(s) as usize by {
                let j = decl_names.index_of(s);
                assert(decl_names[j] == s);
            }
            assert forall|s: Seq<char>| decl_names.contains(s) implies model@.names.contains_key(
                s,
            ) by {
                let j = decl_names.index_of(s);
                assert(decl_names[j] == s);
            }
        }
        assert(model@.parents =~= built_model(schema).parents);
        assert(model@ == built_model(schema));
        built_model_is_well_formed(schema);
    }
    let digest = LoadDigest { model, warnings: texts_from_vec(warnings) };
    assert(digest.warning_texts() =~= load_warnings(schema));
    Ok(digest)
}

/// The graph built from declarations with distinct names is well formed:
/// identifiers are dense, the name map is exact, resolved references name
/// tags of the graph, and the parent map holds exactly the parent links.
pub proof fn built_model_is_well_formed(root: schema::FileRoot)
    requires
        names_distinct(declared_names(root.tags@)),
    ensures
        built_model(root).wf(),
{
    let names = declared_names(root.tags@);
    let model = built_model(root);
    vstd::std_specs::vec::axiom_spec_len(&root.tags);
    assert(model.ids_dense());
    assert(model.names_exact()) by {
        assert forall|i: int| 0 <= i < model.tags.len() implies model.names.contains_key(
            (#[trigger] model.tags[i]).name,
        ) && model.names[model.tags[i].name] == i by {
            assert(names[i] == model.tags[i].name);
            let j = names.index_of(names[i]);
            assert(names[j] == names[i]);
        }
        assert forall|s: Seq<char>| #[trigger] model.names.contains_key(s) implies model.names[s]
            < model.tags.len() && model.tags[model.names[s] as int].name == s by {
            let j = names.index_of(s);
            assert(names[j] == s);
        }
    }
    assert(model.children_resolved()) by {
        assert forall|i: int, k: int|
            0 <= i < model.tags.len() && 0 <= k < model.tags[i].children.len() implies match (
            #[trigger] model.tags[i].children[k]).reference {
                ChildRef::Resolved { id } => id < model.tags.len(),
                ChildRef::Unresolved { .. } => true,
            } by {
            let target = root.tags@[i].children->0@[k].reference@;
            if names.contains(target) {
                let j = names.index_of(target);
                assert(names[j] == target);
            }
        }
    }
    assert(model.parents_exact());
}

} // verus!
