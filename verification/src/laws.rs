//! What holds of every tag graph that the model builder makes, and of every
//! document that the renderer writes.

use crate::generator::{document, sections, tag_section};
use crate::model::loader::{
    built_model, child_warnings, declared_names, names_distinct, reference_warnings, roots,
    roots_below, unresolved_warning,
};
use crate::model::{
    links_from, parent_links, ChildRef, ChildView, TagList, TagListView, TagView,
};
use crate::schema;
use vstd::prelude::*;

verus! {

/// How often `x` occurs in `s`.
pub open spec fn occurrences(s: Seq<usize>, x: usize) -> nat
    decreases s.len(),
{
    if s.len() == 0 {
        0
    } else {
        occurrences(s.drop_last(), x) + if s.last() == x {
            1nat
        } else {
            0nat
        }
    }
}

/// How many of `children` are resolved to tag `target`.
pub open spec fn references_to(children: Seq<ChildView>, target: usize) -> nat
    decreases children.len(),
{
    if children.len() == 0 {
        0
    } else {
        references_to(children.drop_last(), target) + if children.last().reference == (
        ChildRef::Resolved { id: target }) {
            1nat
        } else {
            0nat
        }
    }
}

proof fn lemma_occurrences_of_concat(a: Seq<usize>, b: Seq<usize>, x: usize)
    ensures
        occurrences(a + b, x) == occurrences(a, x) + occurrences(b, x),
    decreases b.len(),
{
    if b.len() == 0 {
        assert(a + b =~= a);
    } else {
        assert((a + b).drop_last() =~= a + b.drop_last());
        lemma_occurrences_of_concat(a, b.drop_last(), x);
    }
}

proof fn lemma_links_from(children: Seq<ChildView>, source: usize, target: usize, x: usize)
    ensures
        occurrences(links_from(children, source, target), x) == if x == source {
            references_to(children, target)
        } else {
            0
        },
        forall|j: int|
            0 <= j < links_from(children, source, target).len() ==> links_from(
                children,
                source,
                target,
            )[j] == source,
    decreases children.len(),
{
    if children.len() > 0 {
        lemma_links_from(children.drop_last(), source, target, x);
        let rest = links_from(children.drop_last(), source, target);
        if children.last().reference == (ChildRef::Resolved { id: target }) {
            assert(rest.push(source).drop_last() =~= rest);
        }
    }
}

proof fn lemma_parent_links(tags: Seq<TagView>, target: usize, parent: usize)
    requires
        tags.len() <= usize::MAX,
    ensures
        occurrences(parent_links(tags, target), parent) == if parent < tags.len() {
            references_to(tags[parent as int].children, target)
        } else {
            0
        },
        forall|j: int|
            0 <= j < parent_links(tags, target).len() ==> parent_links(tags, target)[j]
                < tags.len(),
        forall|j: int, k: int|
            0 <= j <= k < parent_links(tags, target).len() ==> parent_links(tags, target)[j]
                <= parent_links(tags, target)[k],
    decreases tags.len(),
{
    if tags.len() > 0 {
        let last = (tags.len() - 1) as usize;
        let head = parent_links(tags.drop_last(), target);
        let tail = links_from(tags.last().children, last, target);
        lemma_parent_links(tags.drop_last(), target, parent);
        lemma_links_from(tags.last().children, last, target, parent);
        lemma_occurrences_of_concat(head, tail, parent);
        assert(parent_links(tags, target) == head + tail);
        if parent < tags.len() - 1 {
            assert(tags.drop_last()[parent as int] == tags[parent as int]);
        }
    }
}

proof fn lemma_no_references(children: Seq<ChildView>, target: usize)
    requires
        forall|k: int|
            0 <= k < children.len() ==> (#[trigger] children[k]).reference != (
            ChildRef::Resolved { id: target }),
    ensures
        references_to(children, target) == 0,
    decreases children.len(),
{
    if children.len() > 0 {
        assert forall|k: int| 0 <= k < children.drop_last().len() implies (
        #[trigger] children.drop_last()[k]).reference != (ChildRef::Resolved { id: target }) by {
            assert(children.drop_last()[k] == children[k]);
        }
        lemma_no_references(children.drop_last(), target);
    }
}

/// A schema with the supported version and `N` tags of distinct names gives
/// a graph of exactly `N` tags and `N` names, in which each tag is found
/// both under its identifier, which is its position, and under its name.
pub proof fn law_every_tag_is_reachable(root: schema::FileRoot)
    requires
        names_distinct(declared_names(root.tags@)),
    ensures
        built_model(root).wf(),
        built_model(root).tags.len() == root.tags@.len(),
        built_model(root).names.dom().finite(),
        built_model(root).names.dom().len() == root.tags@.len(),
        forall|i: int|
            0 <= i < root.tags@.len() ==> {
                let tag = #[trigger] built_model(root).tags[i];
                &&& tag.id == i
                &&& tag.name == root.tags@[i].id@
                &&& built_model(root).names.contains_key(tag.name)
                &&& built_model(root).names[tag.name] == i
            },
{
    let names = declared_names(root.tags@);
    let model = built_model(root);
    crate::model::loader::built_model_is_well_formed(root);
    assert(names.no_duplicates());
    names.unique_seq_to_set();
    assert(model.names.dom() =~= names.to_set());
}

/// Edges correspond one to one: in a well formed graph, tag `parent` stands
/// among the parents of tag `child` exactly as often as a child reference of
/// `parent` is resolved to `child`. So every resolved child reference has
/// its parent link, and every parent link its child reference.
pub proof fn law_edges_correspond(model: TagListView, parent: usize, child: usize)
    requires
        model.wf(),
    ensures
        occurrences(model.parents_of(child), parent) == if parent < model.tags.len() {
            references_to(model.tags[parent as int].children, child)
        } else {
            0
        },
{
    assert(model.tags.len() <= usize::MAX) by {
        if model.tags.len() > 0 {
            let last = model.tags.len() - 1;
            assert(model.tags[last].index == last + 1);
        }
    }
    lemma_parent_links(model.tags, child, parent);
    if !model.parents.contains_key(child) {
        if child < model.tags.len() {
            assert(parent_links(model.tags, child) =~= Seq::<usize>::empty());
        } else if parent < model.tags.len() {
            let children = model.tags[parent as int].children;
            assert forall|k: int| 0 <= k < children.len() implies (
            #[trigger] children[k]).reference != (ChildRef::Resolved { id: child }) by {
                assert(model.tags[parent as int].children[k] == children[k]);
            }
            lemma_no_references(children, child);
        }
    }
}

/// The parents of a tag are tags of the graph, and they are listed in the
/// order of their declaration.
pub proof fn law_parents_are_ordered(model: TagListView, child: usize, j: int, k: int)
    requires
        model.wf(),
        0 <= j <= k < model.parents_of(child).len(),
    ensures
        model.parents_of(child)[k] < model.tags.len(),
        model.tags[model.parents_of(child)[j] as int].index <= model.tags[model.parents_of(
            child,
        )[k] as int].index,
{
    assert(model.tags.len() <= usize::MAX) by {
        if model.tags.len() > 0 {
            let last = model.tags.len() - 1;
            assert(model.tags[last].index == last + 1);
        }
    }
    lemma_parent_links(model.tags, child, 0);
    let parents = model.parents_of(child);
    assert(parents == parent_links(model.tags, child));
    assert(parents[j] < model.tags.len());
    assert(model.tags[parents[j] as int].index == parents[j] + 1);
    assert(model.tags[parents[k] as int].index == parents[k] + 1);
}

proof fn lemma_sections_grow(model: TagListView, i: nat, j: nat, level: int, crlf: bool)
    requires
        i <= j,
    ensures
        sections(model, i, level, crlf).is_prefix_of(sections(model, j, level, crlf)),
    decreases j - i,
{
    if i < j {
        lemma_sections_grow(model, i, (j - 1) as nat, level, crlf);
        let a = sections(model, i, level, crlf);
        let b = sections(model, (j - 1) as nat, level, crlf);
        let c = sections(model, j, level, crlf);
        assert(c == b + tag_section(model, j - 1, level, crlf));
        assert(a =~= b.subrange(0, a.len() as int));
        assert(a =~= c.subrange(0, a.len() as int));
    } else {
        let a = sections(model, i, level, crlf);
        assert(a =~= a.subrange(0, a.len() as int));
    }
}

/// Tags are rendered in strictly ascending order of their declaration
/// index: of two tags of a well formed graph, the one declared first has its
/// section first in the document, whole and before the other's begins.
pub proof fn law_sections_follow_declaration_order(
    model: TagListView,
    level: int,
    crlf: bool,
    i: int,
    j: int,
)
    requires
        model.wf(),
        0 <= i < j < model.tags.len(),
    ensures
        model.tags[i].index < model.tags[j].index,
        ({
            let start_i = sections(model, i as nat, level, crlf).len() as int;
            let end_i = sections(model, (i + 1) as nat, level, crlf).len() as int;
            let start_j = sections(model, j as nat, level, crlf).len() as int;
            let end_j = sections(model, (j + 1) as nat, level, crlf).len() as int;
            let text = document(model, level, crlf);
            &&& 0 <= start_i <= end_i <= start_j <= end_j <= text.len()
            &&& text.subrange(start_i, end_i) == tag_section(model, i, level, crlf)
            &&& text.subrange(start_j, end_j) == tag_section(model, j, level, crlf)
        }),
{
    let n = model.tags.len();
    let text = document(model, level, crlf);
    assert(model.tags[i].index == i + 1);
    assert(model.tags[j].index == j + 1);
    lemma_sections_grow(model, (i + 1) as nat, j as nat, level, crlf);
    lemma_sections_grow(model, (i + 1) as nat, n, level, crlf);
    lemma_sections_grow(model, (j + 1) as nat, n, level, crlf);
    lemma_part_of_text(
        text,
        sections(model, i as nat, level, crlf),
        tag_section(model, i, level, crlf),
    );
    lemma_part_of_text(
        text,
        sections(model, j as nat, level, crlf),
        tag_section(model, j, level, crlf),
    );
}

proof fn lemma_part_of_text(text: Seq<char>, before: Seq<char>, part: Seq<char>)
    requires
        (before + part).is_prefix_of(text),
    ensures
        (before + part).len() == before.len() + part.len(),
        text.subrange(before.len() as int, (before.len() + part.len()) as int) == part,
{
    let whole = before + part;
    assert(whole =~= text.subrange(0, whole.len() as int));
    assert(text.subrange(before.len() as int, (before.len() + part.len()) as int) =~= part) by {
        assert forall|k: int| 0 <= k < part.len() implies text[before.len() + k] == part[k] by {
            assert(whole[before.len() + k] == part[k]);
            assert(text.subrange(0, whole.len() as int)[before.len() + k] == text[before.len()
                + k]);
        }
    }
}

proof fn lemma_roots_below(tags: Seq<TagView>, k: nat, id: usize)
    requires
        k <= usize::MAX + 1,
    ensures
        roots_below(tags, k).contains(id) <==> id < k && parent_links(tags, id).len() == 0,
        forall|j: int| 0 <= j < roots_below(tags, k).len() ==> roots_below(tags, k)[j] < k,
        forall|i: int, j: int|
            0 <= i < j < roots_below(tags, k).len() ==> roots_below(tags, k)[i] < roots_below(
                tags,
                k,
            )[j],
    decreases k,
{
    if k > 0 {
        let rest = roots_below(tags, (k - 1) as nat);
        let last = (k - 1) as usize;
        lemma_roots_below(tags, (k - 1) as nat, id);
        if parent_links(tags, last).len() == 0 {
            let all = rest.push(last);
            assert(all[rest.len() as int] == last);
            if rest.contains(id) {
                let j = rest.index_of(id);
                assert(all[j] == id);
            }
            if all.contains(id) && id != last {
                let j = all.index_of(id);
                assert(rest[j] == id);
            }
        }
    }
}

/// The roots of a well formed graph are exactly its tags without a parent,
/// and they are listed in the order of their declaration.
pub proof fn law_roots_are_the_tags_without_parents(model: TagListView, id: usize)
    requires
        model.wf(),
    ensures
        roots(model.tags).contains(id) <==> id < model.tags.len() && model.is_root(id),
        forall|i: int, j: int|
            0 <= i < j < roots(model.tags).len() ==> roots(model.tags)[i] < roots(model.tags)[j]
                && model.tags[roots(model.tags)[i] as int].index < model.tags[roots(
                model.tags,
            )[j] as int].index,
{
    assert(model.tags.len() <= usize::MAX) by {
        if model.tags.len() > 0 {
            let last = model.tags.len() - 1;
            assert(model.tags[last].index == last + 1);
        }
    }
    lemma_roots_below(model.tags, model.tags.len(), id);
    let found = roots(model.tags);
    assert forall|i: int, j: int| 0 <= i < j < found.len() implies found[i] < found[j]
        && model.tags[found[i] as int].index < model.tags[found[j] as int].index by {
        assert(model.tags[found[i] as int].index == found[i] + 1);
        assert(model.tags[found[j] as int].index == found[j] + 1);
    }
}

/// How many of `children` are unresolved.
pub open spec fn unresolved_among(children: Seq<ChildView>) -> nat
    decreases children.len(),
{
    if children.len() == 0 {
        0
    } else {
        unresolved_among(children.drop_last()) + if children.last().reference is Unresolved {
            1nat
        } else {
            0nat
        }
    }
}

/// How many child references of `tags` are unresolved.
pub open spec fn unresolved_in(tags: Seq<TagView>) -> nat
    decreases tags.len(),
{
    if tags.len() == 0 {
        0
    } else {
        unresolved_in(tags.drop_last()) + unresolved_among(tags.last().children)
    }
}

/// Each unresolved child reference of a tag is warned about exactly once,
/// and a tag whose last child names a missing tag gets, as its last warning,
/// the one that names the tag and the missing name.
pub proof fn law_one_warning_per_unresolved_child(parent: Seq<char>, children: Seq<ChildView>)
    ensures
        child_warnings(parent, children).len() == unresolved_among(children),
        children.len() > 0 ==> match children.last().reference {
            ChildRef::Unresolved { name } => child_warnings(parent, children).last()
                == unresolved_warning(parent, name),
            ChildRef::Resolved { .. } => child_warnings(parent, children) == child_warnings(
                parent,
                children.drop_last(),
            ),
        },
    decreases children.len(),
{
    if children.len() > 0 {
        law_one_warning_per_unresolved_child(parent, children.drop_last());
    }
}

/// A graph has as many warnings about unresolved references as it has
/// unresolved references.
pub proof fn law_one_warning_per_unresolved_reference(tags: Seq<TagView>)
    ensures
        reference_warnings(tags).len() == unresolved_in(tags),
    decreases tags.len(),
{
    if tags.len() > 0 {
        law_one_warning_per_unresolved_reference(tags.drop_last());
        law_one_warning_per_unresolved_child(tags.last().name, tags.last().children);
    }
}

/// Rendering is deterministic: the document depends on nothing but the
/// value of the graph, the heading level and the newline style. Two graphs of
/// the same value, however their maps and lists are laid out in memory, give
/// the same text under the same options, character for character and so byte
/// for byte.
pub proof fn law_rendering_is_deterministic(
    first: TagList,
    second: TagList,
    level: int,
    crlf: bool,
)
    requires
        first@ == second@,
    ensures
        document(first@, level, crlf) == document(second@, level, crlf),
        vstd::utf8::encode_utf8(document(first@, level, crlf)) == vstd::utf8::encode_utf8(
            document(second@, level, crlf),
        ),
{
}

} // verus!
