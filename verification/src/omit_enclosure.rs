//! Omission of the enclosures of chosen tags: the start and end tags go, the
//! content stays in place.

use crate::parser::{parse, parsed_tree};
use crate::serializer::{
    end_tag, lemma_render_all_concat, render, render_all, scan, start_tag, Policy, Rules,
};
use crate::text::{contains, is_substring, list_contains, same_text, texts};
use crate::tree::{AttrModel, HtmlNode, Tree};
use vstd::prelude::*;

verus! {

/// Whether `tag` names a void element, one that never has an end tag.
pub open spec fn is_void(tag: Seq<char>) -> bool {
    ||| tag == "area"@
    ||| tag == "base"@
    ||| tag == "br"@
    ||| tag == "col"@
    ||| tag == "embed"@
    ||| tag == "hr"@
    ||| tag == "img"@
    ||| tag == "input"@
    ||| tag == "link"@
    ||| tag == "meta"@
    ||| tag == "source"@
    ||| tag == "track"@
    ||| tag == "wbr"@
}

/// Whether `tag` names a void element.
pub fn is_self_closing(tag: &str) -> (void: bool)
    ensures
        void == is_void(tag@),
{
    same_text(tag, "area") || same_text(tag, "base") || same_text(tag, "br") || same_text(
        tag,
        "col",
    ) || same_text(tag, "embed") || same_text(tag, "hr") || same_text(tag, "img") || same_text(
        tag,
        "input",
    ) || same_text(tag, "link") || same_text(tag, "meta") || same_text(tag, "source")
        || same_text(tag, "track") || same_text(tag, "wbr")
}

/// Whether the start tag of an element named `tag` is written when the
/// enclosures of `omit_tags` are omitted.
pub open spec fn start_tag_shown(omit_tags: Seq<Seq<char>>, tag: Seq<char>) -> bool {
    !omit_tags.contains(tag)
}

/// Whether the end tag of an element named `tag` is written when the
/// enclosures of `omit_tags` are omitted. A void element has none to write.
pub open spec fn end_tag_shown(omit_tags: Seq<Seq<char>>, tag: Seq<char>) -> bool {
    !is_void(tag) && !omit_tags.contains(tag)
}

/// Decides whether the start tag of `tag` is written.
pub fn shows_start_tag(omit_tags: &[&str], tag: &str) -> (shown: bool)
    ensures
        shown == start_tag_shown(texts(omit_tags@), tag@),
{
    !list_contains(omit_tags, tag)
}

/// Decides whether the end tag of `tag` is written.
pub fn shows_end_tag(omit_tags: &[&str], tag: &str) -> (shown: bool)
    ensures
        shown == end_tag_shown(texts(omit_tags@), tag@),
{
    !is_self_closing(tag) && !list_contains(omit_tags, tag)
}

/// The document outline tags that `html` does not hold in so many letters.
/// The parser adds an element for each of them to every tree; those that the
/// source did not write are not to come back.
pub open spec fn outline_tags(html: Seq<char>) -> Seq<Seq<char>> {
    (if is_substring(html, "<html>"@) {
        Seq::<Seq<char>>::empty()
    } else {
        seq!["html"@]
    }) + (if is_substring(html, "<head>"@) {
        Seq::<Seq<char>>::empty()
    } else {
        seq!["head"@]
    }) + (if is_substring(html, "<body>"@) {
        Seq::<Seq<char>>::empty()
    } else {
        seq!["body"@]
    })
}

/// The tags whose enclosures are omitted from a document with the source
/// `html`: those asked for, then the outline tags that `html` lacks.
pub open spec fn omission_set(html: Seq<char>, omit_tags: Seq<Seq<char>>) -> Seq<Seq<char>> {
    omit_tags + outline_tags(html)
}

/// The markup of `tree`, the tree of the source `html`, without the
/// enclosures of `omit_tags` and of the outline tags that `html` lacks.
pub open spec fn enclosures_omitted(tree: Tree, html: Seq<char>, omit_tags: Seq<Seq<char>>) -> Seq<
    char,
> {
    render(tree, Rules::OmitEnclosures(omission_set(html, omit_tags)))
}

/// Collects the tags to omit for a document with the source `html`.
pub fn tags_to_omit<'a>(html: &str, omit_tags: &[&'a str]) -> (all: Vec<&'a str>)
    ensures
        texts(all@) == omission_set(html@, texts(omit_tags@)),
{
    let mut all: Vec<&'a str> = Vec::new();
    let mut i: usize = 0;
    while i < omit_tags.len()
        invariant
            i <= omit_tags@.len(),
            all@ == omit_tags@.take(i as int),
        decreases omit_tags@.len() - i,
    {
        all.push(omit_tags[i]);
        assert(all@ =~= omit_tags@.take(i + 1));
        i += 1;
    }
    assert(all@ =~= omit_tags@);
    if !contains(html, "<html>") {
        all.push("html");
    }
    if !contains(html, "<head>") {
        all.push("head");
    }
    if !contains(html, "<body>") {
        all.push("body");
    }
    assert(texts(all@) =~= texts(omit_tags@) + outline_tags(html@));
    all
}

/// Writes `node`, the tree of the source `html`, without the enclosures of
/// `omit_tags` and of the outline tags that `html` lacks.
pub fn omit_enclosures(node: &HtmlNode, html: &str, omit_tags: &[&str]) -> (out: String)
    ensures
        out@ == enclosures_omitted(node@, html@, texts(omit_tags@)),
{
    let all = tags_to_omit(html, omit_tags);
    let mut output = String::new();
    scan(node, &Policy::OmitEnclosures(all.as_slice()), &mut output);
    assert(output@ =~= render(node@, Rules::OmitEnclosures(texts(all@))));
    output
}

/// Omits the enclosures of `omit_tags` from `html`: parses it, and writes the
/// tree back without the start and end tags of those elements, their content
/// left in place. The outline tags that the parser adds and `html` does not
/// hold are omitted with them.
pub fn manipulate(html: &str, omit_tags: &[&str]) -> (out: String)
    ensures
        out@ == enclosures_omitted(parsed_tree(html@), html@, texts(omit_tags@)),
{
    let node = parse(html);
    omit_enclosures(&node, html, omit_tags)
}

/// An element whose enclosure is omitted is written as its content alone:
/// nothing for its start, nothing for its end, and its children as they are
/// written anywhere else.
pub proof fn lemma_omitted_element_is_its_content(
    omit_tags: Seq<Seq<char>>,
    name: Seq<char>,
    attrs: Seq<AttrModel>,
    children: Seq<Tree>,
)
    requires
        omit_tags.contains(name),
    ensures
        start_tag(Rules::OmitEnclosures(omit_tags), name, attrs) == Seq::<char>::empty(),
        end_tag(Rules::OmitEnclosures(omit_tags), name) == Seq::<char>::empty(),
        render(Tree::Element { name, attrs, children }, Rules::OmitEnclosures(omit_tags))
            == render_all(children, Rules::OmitEnclosures(omit_tags)),
{
    let rules = Rules::OmitEnclosures(omit_tags);
    assert(render(Tree::Element { name, attrs, children }, rules) =~= render_all(children, rules));
}

/// Among its siblings, an element whose enclosure is omitted leaves its
/// content where it stood: what is written is what comes before it, then its
/// children, then what comes behind it, with nothing in between.
pub proof fn lemma_content_stays_in_place(
    omit_tags: Seq<Seq<char>>,
    siblings: Seq<Tree>,
    at: int,
)
    requires
        0 <= at < siblings.len(),
        siblings[at] is Element,
        omit_tags.contains(siblings[at]->Element_name),
    ensures
        render_all(siblings, Rules::OmitEnclosures(omit_tags)) == render_all(
            siblings.take(at),
            Rules::OmitEnclosures(omit_tags),
        ) + render_all(siblings[at]->Element_children, Rules::OmitEnclosures(omit_tags))
            + render_all(siblings.skip(at + 1), Rules::OmitEnclosures(omit_tags)),
{
    let rules = Rules::OmitEnclosures(omit_tags);
    let before = siblings.take(at);
    let behind = siblings.skip(at + 1);
    let element = siblings[at];
    assert(siblings =~= before.push(element) + behind);
    assert(before.push(element).drop_last() =~= before);
    lemma_render_all_concat(before.push(element), behind, rules);
    lemma_omitted_element_is_its_content(
        omit_tags,
        element->Element_name,
        element->Element_attrs,
        element->Element_children,
    );
}

/// For a source without the letters `<body>`, `body` is among the tags
/// whose enclosures are omitted, whatever else is asked for, so nothing is
/// written for the start or the end of the `body` element that the parser
/// adds. The same holds of `html` and `head`.
pub proof fn lemma_missing_outline_is_omitted(
    html: Seq<char>,
    omit_tags: Seq<Seq<char>>,
    outline: Seq<char>,
    attrs: Seq<AttrModel>,
)
    requires
        (outline == "html"@ && !is_substring(html, "<html>"@)) || (outline == "head"@
            && !is_substring(html, "<head>"@)) || (outline == "body"@ && !is_substring(
            html,
            "<body>"@,
        )),
    ensures
        outline_tags(html).contains(outline),
        omission_set(html, omit_tags).contains(outline),
        start_tag(Rules::OmitEnclosures(omission_set(html, omit_tags)), outline, attrs)
            == Seq::<char>::empty(),
        end_tag(Rules::OmitEnclosures(omission_set(html, omit_tags)), outline) == Seq::<
            char,
        >::empty(),
{
    let html_part = if is_substring(html, "<html>"@) {
        Seq::<Seq<char>>::empty()
    } else {
        seq!["html"@]
    };
    let head_part = if is_substring(html, "<head>"@) {
        Seq::<Seq<char>>::empty()
    } else {
        seq!["head"@]
    };
    let body_part = if is_substring(html, "<body>"@) {
        Seq::<Seq<char>>::empty()
    } else {
        seq!["body"@]
    };
    let tags = outline_tags(html);
    assert(tags == html_part + head_part + body_part);
    if outline == "html"@ && !is_substring(html, "<html>"@) {
        assert(tags[0] == outline);
    } else if outline == "head"@ && !is_substring(html, "<head>"@) {
        assert(tags[html_part.len() as int] == outline);
    } else {
        assert(tags[(html_part.len() + head_part.len()) as int] == outline);
    }
    let all = omission_set(html, omit_tags);
    let at = choose|at: int| 0 <= at < tags.len() && tags[at] == outline;
    assert(all[omit_tags.len() + at] == outline);
}

} // verus!
