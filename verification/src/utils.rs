//! The step that takes the parser's added outline back out.

use crate::omit_enclosure::{
    enclosures_omitted, lemma_missing_outline_is_omitted, manipulate, omission_set, outline_tags,
    tags_to_omit,
};
use crate::parser::parsed_tree;
use crate::serializer::{end_tag, start_tag, Rules};
use crate::text::{is_substring, texts};
use crate::tree::AttrModel;
use vstd::prelude::*;

verus! {

/// What is left of `output`, markup written for the source `html`, once the
/// outline tags that `html` lacks are omitted from it: `output` is read as a
/// document of its own, and the outline tags that it lacks itself go as well.
pub open spec fn outline_reset(output: Seq<char>, html: Seq<char>) -> Seq<char> {
    enclosures_omitted(parsed_tree(output), output, outline_tags(html))
}

/// Omits from `output` the enclosures of the outline tags (`html`, `head`,
/// `body`) that the source `html` does not hold in so many letters.
pub fn reset_document_outline(output: &str, html: &str) -> (out: String)
    ensures
        out@ == outline_reset(output@, html@),
{
    let none: Vec<&str> = Vec::new();
    let omit_tags = tags_to_omit(html, none.as_slice());
    assert(texts(omit_tags@) =~= outline_tags(html@));
    manipulate(output, omit_tags.as_slice())
}

/// Resetting the outline writes nothing for the start or the end of an
/// outline element that the source `html` does not hold in so many letters,
/// whatever `output` holds.
pub proof fn lemma_reset_omits_missing_outline(
    output: Seq<char>,
    html: Seq<char>,
    outline: Seq<char>,
    attrs: Seq<AttrModel>,
)
    requires
        (outline == "html"@ && !is_substring(html, "<html>"@)) || (outline == "head"@
            && !is_substring(html, "<head>"@)) || (outline == "body"@ && !is_substring(
            html,
            "<body>"@,
        )),
    ensures
        omission_set(output, outline_tags(html)).contains(outline),
        start_tag(Rules::OmitEnclosures(omission_set(output, outline_tags(html))), outline, attrs)
            == Seq::<char>::empty(),
        end_tag(Rules::OmitEnclosures(omission_set(output, outline_tags(html))), outline) == Seq::<
            char,
        >::empty(),
{
    lemma_missing_outline_is_omitted(html, Seq::empty(), outline, attrs);
    let tags = outline_tags(html);
    let at = choose|at: int| 0 <= at < tags.len() && tags[at] == outline;
    assert(omission_set(output, tags)[at] == outline);
}

} // verus!
