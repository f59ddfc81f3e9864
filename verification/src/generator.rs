//! The renderer: projects a built tag graph into Markdown.
//!
//! What is written is defined by the specification functions in the first
//! half of this file, as texts over the mathematical value of the graph. The
//! executable code in the second half produces exactly those texts. Writing
//! the finished text to a file or a stream is the caller's business.

use crate::lists::ids_as_slice;
use crate::model::{
    Attribute, AttributeView, Child, ChildInternal, ChildRef, ChildView, Tag, TagList,
    TagListView, TagView,
};
use crate::text::{
    append_signed_decimal, lowercase, signed_decimal, to_lowercase, trim_end, trim_end_of,
};
use vstd::prelude::*;
use vstd::string::StringExecFns;

verus! {

broadcast use vstd::std_specs::hash::group_hash_axioms;

/// Specialization of [`Result`] over [`GeneratorError`].
pub type GeneratorResult<T> = Result<T, GeneratorError>;

/// Possible errors of generating a document.
#[derive(Debug)]
pub enum GeneratorError {
    /// Required header level was out of allowed bounds (`[1..=6]`).
    BadHeaderLevel { level: i32 },
    /// Formatting failed; `inner` is the text of the underlying cause.
    InternalFormatting { inner: String, description: Option<String> },
    /// Writing failed; `inner` is the text of the underlying cause.
    InternalInputOutput { inner: String, description: Option<String> },
}

/// The text that follows the cause of an internal error: its description, if
/// there is one.
pub open spec fn description_suffix(description: Option<String>) -> Seq<char> {
    match description {
        Some(text) => ", description: "@ + text@,
        None => Seq::empty(),
    }
}

impl GeneratorError {
    /// The message of the error.
    pub open spec fn message_text(&self) -> Seq<char> {
        match *self {
            GeneratorError::BadHeaderLevel { level } => "invalid header level '"@ + signed_decimal(
                level as int,
            ) + "'"@,
            GeneratorError::InternalFormatting { inner, description } => {
                "internal formatting error: "@ + inner@ + description_suffix(description)
            },
            GeneratorError::InternalInputOutput { inner, description } => {
                "internal input/output error: "@ + inner@ + description_suffix(description)
            },
        }
    }

    /// The message of the error, as it is shown to the user.
    pub fn message(&self) -> (r: String)
        ensures
            r@ == self.message_text(),
    {
        match self {
            GeneratorError::BadHeaderLevel { level } => {
                let mut out = "invalid header level '".to_owned();
                append_signed_decimal(&mut out, *level);
                out.append("'");
                out
            },
            GeneratorError::InternalFormatting { inner, description } => {
                let mut out = "internal formatting error: ".to_owned();
                out.append(inner.as_str());
                append_description(&mut out, description);
                assert(out@ =~= self.message_text());
                out
            },
            GeneratorError::InternalInputOutput { inner, description } => {
                let mut out = "internal input/output error: ".to_owned();
                out.append(inner.as_str());
                append_description(&mut out, description);
                assert(out@ =~= self.message_text());
                out
            },
        }
    }
}

/// Appends the description of an internal error, if there is one.
fn append_description(out: &mut String, description: &Option<String>)
    ensures
        final(out)@ == old(out)@ + description_suffix(*description),
{
    match description {
        Some(text) => {
            out.append(", description: ");
            out.append(text.as_str());
            assert(out@ =~= old(out)@ + description_suffix(*description));
        },
        None => {
            assert(out@ =~= old(out)@ + description_suffix(*description));
        },
    }
}

/// Checked Markdown / HTML heading level.
#[derive(Clone, Copy, Debug)]
pub struct HeaderLevel(i32);

/// The heading marker of a level: that many `#`.
pub open spec fn hashes(level: int) -> Seq<char> {
    Seq::new(level as nat, |i: int| '#')
}

impl HeaderLevel {
    /// The level as a number.
    pub closed spec fn value(self) -> int {
        self.0 as int
    }

    #[verifier::type_invariant]
    spec fn in_bounds(self) -> bool {
        1 <= self.0 <= 6
    }

    /// Create a new checked [`HeaderLevel`] instance: levels 1 to 6 are
    /// accepted, every other number is refused.
    pub fn new(level: i32) -> (r: GeneratorResult<HeaderLevel>)
        ensures
            match r {
                Ok(h) => 1 <= level <= 6 && h.value() == level,
                Err(GeneratorError::BadHeaderLevel { level: refused }) => !(1 <= level <= 6)
                    && refused == level,
                Err(_) => false,
            },
    {
        if 1 <= level && level <= 6 {
            Ok(HeaderLevel(level))
        } else {
            Err(GeneratorError::BadHeaderLevel { level })
        }
    }

    /// Get a new heading level that is one unit deeper than `self`; there is
    /// none below level 6.
    pub fn next(&self) -> (r: GeneratorResult<HeaderLevel>)
        ensures
            1 <= self.value() <= 6,
            match r {
                Ok(h) => self.value() < 6 && h.value() == self.value() + 1,
                Err(GeneratorError::BadHeaderLevel { level: refused }) => self.value() == 6
                    && refused == 7,
                Err(_) => false,
            },
    {
        proof {
            use_type_invariant(self);
        }
        Self::new(self.0 + 1)
    }

    /// Get the Markdown `#` prefix for this heading level.
    pub fn get_prefix(&self) -> (r: &'static str)
        ensures
            1 <= self.value() <= 6,
            r@ == hashes(self.value()),
    {
        proof {
            use_type_invariant(self);
            reveal_strlit("#");
            reveal_strlit("##");
            reveal_strlit("###");
            reveal_strlit("####");
            reveal_strlit("#####");
            reveal_strlit("######");
        }
        let r = if self.0 == 1 {
            "#"
        } else if self.0 == 2 {
            "##"
        } else if self.0 == 3 {
            "###"
        } else if self.0 == 4 {
            "####"
        } else if self.0 == 5 {
            "#####"
        } else {
            "######"
        };
        assert(r@ =~= hashes(self.value()));
        r
    }

    /// The level as a number.
    pub fn get(&self) -> (level: i32)
        ensures
            level == self.value(),
            1 <= level <= 6,
    {
        proof {
            use_type_invariant(self);
        }
        self.0
    }
}

/// Configuration struct passed to Markdown generator functions.
#[derive(Debug)]
pub struct GeneratorOptions {
    /// The heading level of a tag's header.
    pub level: HeaderLevel,
    /// Whether to use CRLF for new lines instead of LF.
    pub crlf: bool,
}

impl Default for GeneratorOptions {
    /// Top-level headings and line-feed newlines.
    fn default() -> (options: Self)
        ensures
            options.level.value() == 1,
            !options.crlf,
    {
        GeneratorOptions { level: HeaderLevel(1), crlf: false }
    }
}

/// The end of a line.
pub open spec fn newline(crlf: bool) -> Seq<char> {
    if crlf {
        "\r\n"@
    } else {
        "\n"@
    }
}

/// The separator between two blocks: an empty line.
pub open spec fn newblock(crlf: bool) -> Seq<char> {
    if crlf {
        "\r\n\r\n"@
    } else {
        "\n\n"@
    }
}

/// The text of an optional string slice.
pub open spec fn opt_str_text(o: Option<&str>) -> Option<Seq<char>> {
    match o {
        Some(s) => Some(s@),
        None => None,
    }
}

/// The header of a tag: the heading marker, then the qualified name as code.
pub open spec fn tag_header(level: int, namespace: Seq<char>, title: Seq<char>, crlf: bool) -> Seq<
    char,
> {
    hashes(level) + " `"@ + namespace + ":"@ + title + "`"@ + newblock(crlf)
}

/// The header of a block within a tag's section.
pub open spec fn subheader(text: Seq<char>, crlf: bool) -> Seq<char> {
    "_**"@ + text + ":**_"@ + newblock(crlf)
}

/// A paragraph.
pub open spec fn paragraph(text: Seq<char>, crlf: bool) -> Seq<char> {
    text + newblock(crlf)
}

/// A sub-bullet of an attribute, if the attribute has that detail.
pub open spec fn detail_item(label: Seq<char>, detail: Option<Seq<char>>, crlf: bool) -> Seq<
    char,
> {
    match detail {
        Some(text) => label + text + newline(crlf),
        None => Seq::empty(),
    }
}

/// The marker of an attribute that can be omitted.
pub open spec fn optional_marker(optional: bool) -> Seq<char> {
    if optional {
        " _(optional)_"@
    } else {
        Seq::empty()
    }
}

/// The bullet line of an attribute: name, brief and the optional marker.
pub open spec fn attribute_head(name: Seq<char>, brief: Seq<char>, optional: bool, crlf: bool) -> Seq<
    char,
> {
    "* `"@ + name + "` - "@ + brief + optional_marker(optional) + newline(crlf)
}

/// The bullet of an attribute: name, brief and the optional marker, then a
/// sub-bullet each for the long description, the expected value and the
/// default value, in this order, as far as they are given.
pub open spec fn attribute_text(
    name: Seq<char>,
    brief: Seq<char>,
    desc: Option<Seq<char>>,
    optional: bool,
    expected: Option<Seq<char>>,
    default_value: Option<Seq<char>>,
    crlf: bool,
) -> Seq<char> {
    attribute_head(name, brief, optional, crlf) + detail_item("  * "@, desc, crlf) + detail_item(
        "  * _Expected value:_ "@,
        expected,
        crlf,
    ) + detail_item("  * _Default value:_ "@, default_value, crlf)
}

/// The anchor of a tag: the lower-case namespace directly followed by the
/// lower-case name. Two tags may share an anchor.
pub open spec fn anchor(namespace: Seq<char>, name: Seq<char>) -> Seq<char> {
    lowercase(namespace) + lowercase(name)
}

/// A bullet that links to a tag.
pub open spec fn link_bullet(namespace: Seq<char>, name: Seq<char>) -> Seq<char> {
    "* [`"@ + namespace + ":"@ + name + "`](#"@ + anchor(namespace, name) + ")"@
}

/// A bullet that names a tag without linking to it.
pub open spec fn code_bullet(namespace: Seq<char>, name: Seq<char>) -> Seq<char> {
    "* `"@ + namespace + ":"@ + name + "`"@
}

/// The item of a parent tag.
pub open spec fn parent_item(namespace: Seq<char>, name: Seq<char>, crlf: bool) -> Seq<char> {
    link_bullet(namespace, name) + newline(crlf)
}

/// The flags of a child that are set, by name, with a comma between them.
pub open spec fn modifiers(optional: bool, repeated: bool) -> Seq<char> {
    if optional && repeated {
        "optional"@ + ", "@ + "repeated"@
    } else if optional {
        "optional"@
    } else if repeated {
        "repeated"@
    } else {
        Seq::empty()
    }
}

/// The qualifier of a child: the flags that are set, in parentheses; nothing
/// if none is set.
pub open spec fn qualifier(optional: bool, repeated: bool) -> Seq<char> {
    if optional || repeated {
        " _("@ + modifiers(optional, repeated) + ")_"@
    } else {
        Seq::empty()
    }
}

/// The item of a child tag: a link if the reference is resolved, the name as
/// code if it is not, then the qualifier.
pub open spec fn child_item(
    linked: bool,
    namespace: Seq<char>,
    name: Seq<char>,
    optional: bool,
    repeated: bool,
    crlf: bool,
) -> Seq<char> {
    (if linked {
        link_bullet(namespace, name)
    } else {
        code_bullet(namespace, name)
    }) + qualifier(optional, repeated) + newline(crlf)
}

/// A fenced block of XML; trailing white space of the code is dropped.
pub open spec fn xml_block(code: Seq<char>, crlf: bool) -> Seq<char> {
    "```xml"@ + newline(crlf) + trim_end_of(code) + newline(crlf) + "```"@ + newblock(crlf)
}

/// The bullet of an attribute of the graph.
pub open spec fn attribute_entry(a: AttributeView, crlf: bool) -> Seq<char> {
    attribute_text(
        a.name,
        a.short_description,
        a.long_description,
        a.is_optional,
        a.expected_value,
        a.default_value,
        crlf,
    )
}

/// The bullets of the given attributes, in order.
pub open spec fn attribute_entries(attributes: Seq<AttributeView>, crlf: bool) -> Seq<char>
    decreases attributes.len(),
{
    if attributes.len() == 0 {
        Seq::empty()
    } else {
        attribute_entries(attributes.drop_last(), crlf) + attribute_entry(attributes.last(), crlf)
    }
}

/// The attributes block of a tag; nothing if the tag has no attributes.
pub open spec fn attributes_block(attributes: Seq<AttributeView>, crlf: bool) -> Seq<char> {
    if attributes.len() == 0 {
        Seq::empty()
    } else {
        subheader("Attributes"@, crlf) + attribute_entries(attributes, crlf) + newblock(crlf)
    }
}

/// The value block of a tag; nothing if the tag has no scalar value.
pub open spec fn value_block(value: Option<Seq<char>>, crlf: bool) -> Seq<char> {
    match value {
        Some(text) => subheader("Value"@, crlf) + paragraph(text, crlf),
        None => Seq::empty(),
    }
}

/// The item of a child of the graph: a resolved reference links to the tag
/// it names, an unresolved one shows the missing name as code.
pub open spec fn child_entry(model: TagListView, child: ChildView, crlf: bool) -> Seq<char> {
    match child.reference {
        ChildRef::Resolved { id } => child_item(
            true,
            model.namespace,
            model.tags[id as int].name,
            child.is_optional,
            child.is_repeatable,
            crlf,
        ),
        ChildRef::Unresolved { name } => child_item(
            false,
            model.namespace,
            name,
            child.is_optional,
            child.is_repeatable,
            crlf,
        ),
    }
}

/// The items of the given children, in order.
pub open spec fn child_entries(model: TagListView, children: Seq<ChildView>, crlf: bool) -> Seq<
    char,
>
    decreases children.len(),
{
    if children.len() == 0 {
        Seq::empty()
    } else {
        child_entries(model, children.drop_last(), crlf) + child_entry(
            model,
            children.last(),
            crlf,
        )
    }
}

/// The children block of a tag; nothing if the tag has no children.
pub open spec fn children_block(model: TagListView, children: Seq<ChildView>, crlf: bool) -> Seq<
    char,
> {
    if children.len() == 0 {
        Seq::empty()
    } else {
        subheader("Children"@, crlf) + child_entries(model, children, crlf) + newblock(crlf)
    }
}

/// The item of the parent with identifier `parent`; nothing if the graph
/// holds no such tag.
pub open spec fn parent_entry(model: TagListView, parent: usize, crlf: bool) -> Seq<char> {
    if parent < model.tags.len() {
        parent_item(model.namespace, model.tags[parent as int].name, crlf)
    } else {
        Seq::empty()
    }
}

/// The items of the given parents, in order.
pub open spec fn parent_entries(model: TagListView, parents: Seq<usize>, crlf: bool) -> Seq<char>
    decreases parents.len(),
{
    if parents.len() == 0 {
        Seq::empty()
    } else {
        parent_entries(model, parents.drop_last(), crlf) + parent_entry(
            model,
            parents.last(),
            crlf,
        )
    }
}

/// The sentence that stands in for the parents of a root tag.
pub open spec fn no_parents_sentence() -> Seq<char> {
    "This tag has no possible parents!"@
}

/// The parents block of tag `id`, which every tag has: the list of its
/// parents, or the sentence that it has none.
pub open spec fn parents_block(model: TagListView, id: usize, crlf: bool) -> Seq<char> {
    subheader("Parents"@, crlf) + (if model.parents.contains_key(id) {
        parent_entries(model, model.parents[id], crlf) + newblock(crlf)
    } else {
        paragraph(no_parents_sentence(), crlf)
    })
}

/// The example block of a tag; nothing if the tag has no example.
pub open spec fn example_block(example: Option<Seq<char>>, crlf: bool) -> Seq<char> {
    match example {
        Some(code) => subheader("Example"@, crlf) + xml_block(code, crlf),
        None => Seq::empty(),
    }
}

/// The section of the tag at position `i`: header, description, then the
/// attributes, value, children, parents and example blocks, in this order.
pub open spec fn tag_section(model: TagListView, i: int, level: int, crlf: bool) -> Seq<char> {
    let tag = model.tags[i];
    tag_header(level, model.namespace, tag.name, crlf) + paragraph(tag.description, crlf)
        + attributes_block(tag.attributes, crlf) + value_block(tag.value, crlf) + children_block(
        model,
        tag.children,
        crlf,
    ) + parents_block(model, i as usize, crlf) + example_block(tag.example, crlf)
}

/// The sections of the first `k` tags, in the order of the tags.
pub open spec fn sections(model: TagListView, k: nat, level: int, crlf: bool) -> Seq<char>
    decreases k,
{
    if k == 0 {
        Seq::empty()
    } else {
        sections(model, (k - 1) as nat, level, crlf) + tag_section(model, k - 1, level, crlf)
    }
}

/// The document of a tag graph: the sections of all its tags. In a well
/// formed graph the order of the tags is that of their declaration.
pub open spec fn document(model: TagListView, level: int, crlf: bool) -> Seq<char> {
    sections(model, model.tags.len(), level, crlf)
}

/// Writes the parts of a document, one after the other, into a text.
pub struct Context<'a> {
    options: &'a GeneratorOptions,
    out: String,
}

impl<'a> Context<'a> {
    /// The options of the run.
    pub closed spec fn options(&self) -> GeneratorOptions {
        *self.options
    }

    /// The heading level of the run.
    pub open spec fn level(&self) -> int {
        self.options().level.value()
    }

    /// Whether lines end in CRLF.
    pub open spec fn crlf(&self) -> bool {
        self.options().crlf
    }

    /// What has been written so far.
    pub closed spec fn written(&self) -> Seq<char> {
        self.out@
    }

    /// A context in which nothing has been written yet.
    pub fn new(options: &'a GeneratorOptions) -> (context: Context<'a>)
        ensures
            context.options() == *options,
            context.written() == Seq::<char>::empty(),
    {
        Context { options, out: String::new() }
    }

    /// Ends the run and hands out what has been written.
    pub fn finish(self) -> (out: String)
        ensures
            out@ == self.written(),
    {
        self.out
    }

    fn line_end(&self) -> (r: &'static str)
        ensures
            r@ == newline(self.crlf()),
    {
        if self.options.crlf {
            "\r\n"
        } else {
            "\n"
        }
    }

    fn block_end(&self) -> (r: &'static str)
        ensures
            r@ == newblock(self.crlf()),
    {
        if self.options.crlf {
            "\r\n\r\n"
        } else {
            "\n\n"
        }
    }

    /// Writes the header of a tag.
    pub fn writer_tag_header(&mut self, namespace: &str, title: &str)
        ensures
            final(self).options() == old(self).options(),
            final(self).written() == old(self).written() + tag_header(
                old(self).level(),
                namespace@,
                title@,
                old(self).crlf(),
            ),
    {
        let end = self.block_end();
        self.out.append(self.options.level.get_prefix());
        self.out.append(" `");
        self.out.append(namespace);
        self.out.append(":");
        self.out.append(title);
        self.out.append("`");
        self.out.append(end);
        assert(self.out@ =~= old(self).out@ + tag_header(
            old(self).level(),
            namespace@,
            title@,
            old(self).crlf(),
        ));
    }

    /// Writes the header of a block.
    pub fn write_tag_subheader(&mut self, text: &str)
        ensures
            final(self).options() == old(self).options(),
            final(self).written() == old(self).written() + subheader(text@, old(self).crlf()),
    {
        let end = self.block_end();
        self.out.append("_**");
        self.out.append(text);
        self.out.append(":**_");
        self.out.append(end);
        assert(self.out@ =~= old(self).out@ + subheader(text@, old(self).crlf()));
    }

    /// Writes a paragraph.
    pub fn write_paragraph(&mut self, text: &str)
        ensures
            final(self).options() == old(self).options(),
            final(self).written() == old(self).written() + paragraph(text@, old(self).crlf()),
    {
        let end = self.block_end();
        self.out.append(text);
        self.out.append(end);
        assert(self.out@ =~= old(self).out@ + paragraph(text@, old(self).crlf()));
    }

    fn write_detail(&mut self, label: &str, detail: Option<&str>)
        ensures
            final(self).options() == old(self).options(),
            final(self).written() == old(self).written() + detail_item(
                label@,
                opt_str_text(detail),
                old(self).crlf(),
            ),
    {
        match detail {
            Some(text) => {
                let end = self.line_end();
                self.out.append(label);
                self.out.append(text);
                self.out.append(end);
            },
            None => {},
        }
        assert(self.out@ =~= old(self).out@ + detail_item(
            label@,
            opt_str_text(detail),
            old(self).crlf(),
        ));
    }

    /// Writes the bullet of an attribute with its sub-bullets.
    pub fn write_attribute(
        &mut self,
        name: &str,
        brief: &str,
        desc: Option<&str>,
        optional: bool,
        expected: Option<&str>,
        default_value: Option<&str>,
    )
        ensures
            final(self).options() == old(self).options(),
            final(self).written() == old(self).written() + attribute_text(
                name@,
                brief@,
                opt_str_text(desc),
                optional,
                opt_str_text(expected),
                opt_str_text(default_value),
                old(self).crlf(),
            ),
    {
        self.write_attribute_head(name, brief, optional);
        self.write_detail("  * ", desc);
        self.write_detail("  * _Expected value:_ ", expected);
        self.write_detail("  * _Default value:_ ", default_value);
    }

    fn write_attribute_head(&mut self, name: &str, brief: &str, optional: bool)
        ensures
            final(self).options() == old(self).options(),
            final(self).written() == old(self).written() + attribute_head(
                name@,
                brief@,
                optional,
                old(self).crlf(),
            ),
    {
        let end = self.line_end();
        self.out.append("* `");
        self.out.append(name);
        self.out.append("` - ");
        self.out.append(brief);
        if optional {
            self.out.append(" _(optional)_");
        }
        self.out.append(end);
        assert(self.out@ =~= old(self).out@ + attribute_head(
            name@,
            brief@,
            optional,
            old(self).crlf(),
        ));
    }

    fn write_link(&mut self, namespace: &str, name: &str)
        ensures
            final(self).options() == old(self).options(),
            final(self).written() == old(self).written() + link_bullet(namespace@, name@),
    {
        let lower_namespace = to_lowercase(namespace);
        let lower_name = to_lowercase(name);
        self.out.append("* [`");
        self.out.append(namespace);
        self.out.append(":");
        self.out.append(name);
        self.out.append("`](#");
        self.out.append(lower_namespace.as_str());
        self.out.append(lower_name.as_str());
        self.out.append(")");
        assert(self.out@ =~= old(self).out@ + link_bullet(namespace@, name@));
    }

    /// Writes the item of a parent tag: a link to it.
    pub fn write_parent_item(&mut self, namespace: &str, name: &str)
        ensures
            final(self).options() == old(self).options(),
            final(self).written() == old(self).written() + parent_item(
                namespace@,
                name@,
                old(self).crlf(),
            ),
    {
        let end = self.line_end();
        self.write_link(namespace, name);
        self.out.append(end);
        assert(self.out@ =~= old(self).out@ + parent_item(namespace@, name@, old(self).crlf()));
    }

    /// Writes the item of a child tag: a link if `linked`, else the name as
    /// code; then the qualifier.
    pub fn write_child_item(
        &mut self,
        linked: bool,
        namespace: &str,
        name: &str,
        optional: bool,
        repeated: bool,
    )
        ensures
            final(self).options() == old(self).options(),
            final(self).written() == old(self).written() + child_item(
                linked,
                namespace@,
                name@,
                optional,
                repeated,
                old(self).crlf(),
            ),
    {
        let end = self.line_end();
        if linked {
            self.write_link(namespace, name);
        } else {
            self.write_code(namespace, name);
        }
        self.write_qualifier(optional, repeated);
        self.out.append(end);
        assert(self.out@ =~= old(self).out@ + child_item(
            linked,
            namespace@,
            name@,
            optional,
            repeated,
            old(self).crlf(),
        ));
    }

    fn write_code(&mut self, namespace: &str, name: &str)
        ensures
            final(self).options() == old(self).options(),
            final(self).written() == old(self).written() + code_bullet(namespace@, name@),
    {
        self.out.append("* `");
        self.out.append(namespace);
        self.out.append(":");
        self.out.append(name);
        self.out.append("`");
        assert(self.out@ =~= old(self).out@ + code_bullet(namespace@, name@));
    }

    fn write_qualifier(&mut self, optional: bool, repeated: bool)
        ensures
            final(self).options() == old(self).options(),
            final(self).written() == old(self).written() + qualifier(optional, repeated),
    {
        if optional || repeated {
            self.out.append(" _(");
            if optional {
                self.out.append("optional");
            }
            if optional && repeated {
                self.out.append(", ");
            }
            if repeated {
                self.out.append("repeated");
            }
            self.out.append(")_");
        }
        assert(self.out@ =~= old(self).out@ + qualifier(optional, repeated));
    }

    /// Writes a fenced block of XML.
    pub fn write_xml(&mut self, code: &str)
        ensures
            final(self).options() == old(self).options(),
            final(self).written() == old(self).written() + xml_block(code@, old(self).crlf()),
    {
        let line = self.line_end();
        let block = self.block_end();
        self.out.append("```xml");
        self.out.append(line);
        self.out.append(trim_end(code));
        self.out.append(line);
        self.out.append("```");
        self.out.append(block);
        assert(self.out@ =~= old(self).out@ + xml_block(code@, old(self).crlf()));
    }

    /// Writes the separator between two blocks.
    pub fn write_newblock(&mut self)
        ensures
            final(self).options() == old(self).options(),
            final(self).written() == old(self).written() + newblock(old(self).crlf()),
    {
        let end = self.block_end();
        self.out.append(end);
    }
}

/// The string slice of an optional string.
fn opt_str(o: &Option<String>) -> (r: Option<&str>)
    ensures
        opt_str_text(r) == crate::model::opt_text(*o),
{
    match o {
        Some(s) => Some(s.as_str()),
        None => None,
    }
}

/// Writes the attributes block of `tag`.
fn render_attributes(context: &mut Context, tag: &Tag)
    ensures
        final(context).options() == old(context).options(),
        final(context).written() == old(context).written() + attributes_block(
            tag@.attributes,
            old(context).crlf(),
        ),
{
    let ghost crlf = context.crlf();
    let ghost start = context.written();
    let attributes = tag.attribute_list();
    if attributes.len() > 0 {
        context.write_tag_subheader("Attributes");
        let ghost base = context.written();
        let mut k: usize = 0;
        while k < attributes.len()
            invariant
                k <= attributes@.len(),
                attributes@.map_values(|a: Attribute| a@) == tag@.attributes,
                context.options() == old(context).options(),
                crlf == old(context).crlf(),
                context.written() == base + attribute_entries(tag@.attributes.take(k as int), crlf),
            decreases attributes@.len() - k,
        {
            let attribute = &attributes[k];
            proof {
                let next = tag@.attributes.take(k + 1);
                assert(next.drop_last() =~= tag@.attributes.take(k as int));
                assert(next.last() == attribute@);
            }
            context.write_attribute(
                attribute.name.as_str(),
                attribute.short_description.as_str(),
                opt_str(&attribute.long_description),
                attribute.is_optional,
                opt_str(&attribute.expected_value),
                opt_str(&attribute.default_value),
            );
            assert(context.written() =~= base + attribute_entries(
                tag@.attributes.take(k + 1),
                crlf,
            ));
            k += 1;
        }
        assert(tag@.attributes.take(k as int) =~= tag@.attributes);
        context.write_newblock();
        assert(context.written() =~= start + attributes_block(tag@.attributes, crlf));
    } else {
        assert(context.written() =~= start + attributes_block(tag@.attributes, crlf));
    }
}

/// Writes the value block of `tag`.
fn render_value(context: &mut Context, tag: &Tag)
    ensures
        final(context).options() == old(context).options(),
        final(context).written() == old(context).written() + value_block(
            tag@.value,
            old(context).crlf(),
        ),
{
    match &tag.value {
        Some(value) => {
            context.write_tag_subheader("Value");
            context.write_paragraph(value.as_str());
        },
        None => {},
    }
    assert(context.written() =~= old(context).written() + value_block(
        tag@.value,
        old(context).crlf(),
    ));
}

/// Writes the children block of the tag at position `i`.
fn render_children(context: &mut Context, root: &TagList, i: usize)
    requires
        root@.children_resolved(),
        i < root@.tags.len(),
    ensures
        final(context).options() == old(context).options(),
        final(context).written() == old(context).written() + children_block(
            root@,
            root@.tags[i as int].children,
            old(context).crlf(),
        ),
{
    let ghost crlf = context.crlf();
    let ghost start = context.written();
    let ghost all = root@.tags[i as int].children;
    let tag = &root.tags[i];
    let children = tag.child_list();
    if children.len() > 0 {
        context.write_tag_subheader("Children");
        let ghost base = context.written();
        let mut k: usize = 0;
        while k < children.len()
            invariant
                k <= children@.len(),
                root@.children_resolved(),
                i < root@.tags.len(),
                all == root@.tags[i as int].children,
                children@.map_values(|c: Child| c@) == all,
                context.options() == old(context).options(),
                crlf == old(context).crlf(),
                context.written() == base + child_entries(root@, all.take(k as int), crlf),
            decreases children@.len() - k,
        {
            let child = &children[k];
            proof {
                let next = all.take(k + 1);
                assert(next.drop_last() =~= all.take(k as int));
                assert(next.last() == child@);
                assert(all[k as int] == child@);
            }
            match &child.reference {
                ChildInternal::Resolved { id } => {
                    assert(root@.tags[*id as int].name == root.tags@[*id as int].name@);
                    context.write_child_item(
                        true,
                        root.namespace.as_str(),
                        root.tags[*id].name.as_str(),
                        child.is_optional,
                        child.is_repeatable,
                    );
                },
                ChildInternal::Unresolved { name } => {
                    context.write_child_item(
                        false,
                        root.namespace.as_str(),
                        name.as_str(),
                        child.is_optional,
                        child.is_repeatable,
                    );
                },
            }
            assert(context.written() =~= base + child_entries(root@, all.take(k + 1), crlf));
            k += 1;
        }
        assert(all.take(k as int) =~= all);
        context.write_newblock();
        assert(context.written() =~= start + children_block(root@, all, crlf));
    } else {
        assert(context.written() =~= start + children_block(root@, all, crlf));
    }
}

/// Writes the parents block of the tag with identifier `id`. A parent that
/// the graph does not hold is passed over.
fn render_parents(context: &mut Context, root: &TagList, id: usize)
    ensures
        final(context).options() == old(context).options(),
        final(context).written() == old(context).written() + parents_block(
            root@,
            id,
            old(context).crlf(),
        ),
{
    let ghost crlf = context.crlf();
    let ghost start = context.written();
    context.write_tag_subheader("Parents");
    let ghost base = context.written();
    match root.parents.get(&id) {
        Some(list) => {
            let parents = ids_as_slice(list);
            assert(root@.parents.contains_key(id));
            assert(root@.parents[id] == parents@);
            let mut k: usize = 0;
            while k < parents.len()
                invariant
                    k <= parents@.len(),
                    context.options() == old(context).options(),
                    crlf == old(context).crlf(),
                    context.written() == base + parent_entries(root@, parents@.take(k as int), crlf),
                decreases parents@.len() - k,
            {
                let parent = parents[k];
                proof {
                    let next = parents@.take(k + 1);
                    assert(next.drop_last() =~= parents@.take(k as int));
                    assert(next.last() == parent);
                }
                if parent < root.tags.len() {
                    assert(root@.tags[parent as int].name == root.tags@[parent as int].name@);
                    context.write_parent_item(
                        root.namespace.as_str(),
                        root.tags[parent].name.as_str(),
                    );
                }
                assert(context.written() =~= base + parent_entries(
                    root@,
                    parents@.take(k + 1),
                    crlf,
                ));
                k += 1;
            }
            assert(parents@.take(k as int) =~= parents@);
            context.write_newblock();
            assert(context.written() =~= start + parents_block(root@, id, crlf));
        },
        None => {
            assert(!root@.parents.contains_key(id));
            context.write_paragraph("This tag has no possible parents!");
            assert(context.written() =~= start + parents_block(root@, id, crlf));
        },
    }
}

/// Writes the example block of `tag`.
fn render_example(context: &mut Context, tag: &Tag)
    ensures
        final(context).options() == old(context).options(),
        final(context).written() == old(context).written() + example_block(
            tag@.example,
            old(context).crlf(),
        ),
{
    match &tag.example {
        Some(example) => {
            context.write_tag_subheader("Example");
            context.write_xml(example.as_str());
        },
        None => {},
    }
    assert(context.written() =~= old(context).written() + example_block(
        tag@.example,
        old(context).crlf(),
    ));
}

/// Writes the section of the tag at position `i`.
fn render_tag(context: &mut Context, root: &TagList, i: usize)
    requires
        root@.children_resolved(),
        i < root@.tags.len(),
    ensures
        final(context).options() == old(context).options(),
        final(context).written() == old(context).written() + tag_section(
            root@,
            i as int,
            old(context).level(),
            old(context).crlf(),
        ),
{
    let tag = &root.tags[i];
    assert(tag@ == root@.tags[i as int]);
    context.writer_tag_header(root.namespace.as_str(), tag.name.as_str());
    context.write_paragraph(tag.description.as_str());
    render_attributes(context, tag);
    render_value(context, tag);
    render_children(context, root, i);
    render_parents(context, root, i);
    render_example(context, tag);
    proof {
        let level = old(context).level();
        let crlf = old(context).crlf();
        lemma_seven_parts(
            old(context).written(),
            tag_header(level, root@.namespace, tag@.name, crlf),
            paragraph(tag@.description, crlf),
            attributes_block(tag@.attributes, crlf),
            value_block(tag@.value, crlf),
            children_block(root@, tag@.children, crlf),
            parents_block(root@, i, crlf),
            example_block(tag@.example, crlf),
        );
    }
}

/// Seven texts appended one by one are the seven appended at once.
proof fn lemma_seven_parts(
    s: Seq<char>,
    a: Seq<char>,
    b: Seq<char>,
    c: Seq<char>,
    d: Seq<char>,
    e: Seq<char>,
    f: Seq<char>,
    g: Seq<char>,
)
    ensures
        s + a + b + c + d + e + f + g == s + (a + b + c + d + e + f + g),
{
    assert(s + a + b + c + d + e + f + g =~= s + (a + b + c + d + e + f + g));
}

/// Generate the Markdown document of the `root` tag list using the given
/// `options`: the sections of all tags, in the order of their declaration.
///
/// Every resolved child reference must name a tag of the list, as it does in
/// a list that the model builder made.
pub fn generate(root: &TagList, options: &GeneratorOptions) -> (out: String)
    requires
        root@.children_resolved(),
    ensures
        out@ == document(root@, options.level.value(), options.crlf),
{
    let mut context = Context::new(options);
    let mut i: usize = 0;
    while i < root.tags.len()
        invariant
            i <= root@.tags.len(),
            root@.children_resolved(),
            context.options() == *options,
            context.written() == sections(root@, i as nat, options.level.value(), options.crlf),
        decreases root@.tags.len() - i,
    {
        render_tag(&mut context, root, i);
        i += 1;
    }
    context.finish()
}

} // verus!
