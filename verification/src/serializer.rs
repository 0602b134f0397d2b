//! The walk that writes a document tree back as markup, under one of the
//! three policies.

use crate::omit_attr::{omitted, OmitOptions, OmitRules};
use crate::omit_enclosure::{
    end_tag_shown, is_self_closing, is_void, shows_end_tag, shows_start_tag, start_tag_shown,
};
use crate::path_to_url::{
    convert_value, converted_value, is_target, ActualConvertOptions, ConvertRules,
};
use crate::text::texts;
use crate::tree::{attr_models, node_model, tree_models, AttrModel, Attribute, HtmlNode, Tree};
use vstd::prelude::*;
use vstd::string::*;

verus! {

/// What a walk does besides copying the tree out.
pub enum Policy<'a> {
    /// Leaves out the attributes that the options name.
    OmitAttrs(&'a OmitOptions),
    /// Leaves out the start and end tags of the elements with these names.
    OmitEnclosures(&'a [&'a str]),
    /// Turns the paths in link-like attributes into absolute URLs.
    PathToUrl(&'a ActualConvertOptions<'a>),
}

/// The model of a [`Policy`].
pub enum Rules {
    OmitAttrs(OmitRules),
    OmitEnclosures(Seq<Seq<char>>),
    PathToUrl(ConvertRules),
}

impl<'a> View for Policy<'a> {
    type V = Rules;

    open spec fn view(&self) -> Rules {
        match self {
            Policy::OmitAttrs(options) => Rules::OmitAttrs(options@),
            Policy::OmitEnclosures(omit_tags) => Rules::OmitEnclosures(texts(omit_tags@)),
            Policy::PathToUrl(options) => Rules::PathToUrl(options@),
        }
    }
}

/// Whether the start tag of an element named `tag` is written.
pub open spec fn shows_start(rules: Rules, tag: Seq<char>) -> bool {
    match rules {
        Rules::OmitEnclosures(omit_tags) => start_tag_shown(omit_tags, tag),
        _ => true,
    }
}

/// Whether the end tag of an element named `tag` is written. A void element
/// has none under any policy.
pub open spec fn shows_end(rules: Rules, tag: Seq<char>) -> bool {
    match rules {
        Rules::OmitEnclosures(omit_tags) => end_tag_shown(omit_tags, tag),
        _ => !is_void(tag),
    }
}

/// Whether the attribute `name` of an element named `tag` is written.
pub open spec fn shows_attr(rules: Rules, tag: Seq<char>, name: Seq<char>) -> bool {
    match rules {
        Rules::OmitAttrs(omit) => !omitted(omit, tag, name),
        _ => true,
    }
}

/// The value written for the attribute `attr` of an element named `tag`.
pub open spec fn written_value(rules: Rules, tag: Seq<char>, attr: AttrModel) -> Seq<char> {
    match rules {
        Rules::PathToUrl(convert) => converted_value(convert, tag, attr.0, attr.1),
        _ => attr.1,
    }
}

/// One attribute as markup: a space, the name, and the value in double
/// quotes, as it is.
pub open spec fn attr_text(name: Seq<char>, value: Seq<char>) -> Seq<char> {
    " "@ + name + "=\""@ + value + "\""@
}

/// What is written for one attribute of an element named `tag`.
pub open spec fn attr_output(rules: Rules, tag: Seq<char>, attr: AttrModel) -> Seq<char> {
    if shows_attr(rules, tag, attr.0) {
        attr_text(attr.0, written_value(rules, tag, attr))
    } else {
        Seq::empty()
    }
}

/// What is written for the attributes of an element named `tag`, in their order.
pub open spec fn attrs_output(rules: Rules, tag: Seq<char>, attrs: Seq<AttrModel>) -> Seq<char>
    decreases attrs.len(),
{
    if attrs.len() == 0 {
        Seq::empty()
    } else {
        attrs_output(rules, tag, attrs.drop_last()) + attr_output(rules, tag, attrs.last())
    }
}

/// What is written where an element named `tag` starts.
pub open spec fn start_tag(rules: Rules, tag: Seq<char>, attrs: Seq<AttrModel>) -> Seq<char> {
    if shows_start(rules, tag) {
        "<"@ + tag + attrs_output(rules, tag, attrs) + ">"@
    } else {
        Seq::empty()
    }
}

/// What is written where an element named `tag` ends.
pub open spec fn end_tag(rules: Rules, tag: Seq<char>) -> Seq<char> {
    if shows_end(rules, tag) {
        "</"@ + tag + ">"@
    } else {
        Seq::empty()
    }
}

/// The markup written for `tree`: a document is its children, an element its
/// start tag, its children and its end tag (a void element has no end tag),
/// text is itself, and nodes of any other kind leave nothing.
pub open spec fn render(tree: Tree, rules: Rules) -> Seq<char>
    decreases tree,
{
    match tree {
        Tree::Document { children } => render_all(children, rules),
        Tree::Element { name, attrs, children } => start_tag(rules, name, attrs) + render_all(
            children,
            rules,
        ) + end_tag(rules, name),
        Tree::Text { contents } => contents,
        Tree::Other => Seq::empty(),
    }
}

/// The markup written for `trees`, one after the other.
pub open spec fn render_all(trees: Seq<Tree>, rules: Rules) -> Seq<char>
    decreases trees,
{
    if trees.len() == 0 {
        Seq::empty()
    } else {
        render_all(trees.drop_last(), rules) + render(trees.last(), rules)
    }
}

/// Writes one attribute of an element named `tag`.
fn push_attr(tag: &String, attr: &Attribute, policy: &Policy, output: &mut String)
    ensures
        final(output)@ == old(output)@ + attr_output(policy@, tag@, attr@),
{
    let shown = match policy {
        Policy::OmitAttrs(options) => !options.omits(tag, &attr.name),
        _ => true,
    };
    if shown {
        output.append(" ");
        output.append(attr.name.as_str());
        output.append("=\"");
        match policy {
            Policy::PathToUrl(options) => {
                let value = convert_value(
                    options,
                    tag.as_str(),
                    attr.name.as_str(),
                    attr.value.as_str(),
                );
                output.append(value.as_str());
            },
            _ => {
                output.append(attr.value.as_str());
            },
        }
        output.append("\"");
        assert(output@ =~= old(output)@ + attr_output(policy@, tag@, attr@));
    } else {
        assert(output@ =~= old(output)@ + attr_output(policy@, tag@, attr@));
    }
}

/// Writes the start tag of an element, if the policy shows it.
fn push_start_tag(tag: &String, attrs: &Vec<Attribute>, policy: &Policy, output: &mut String)
    ensures
        final(output)@ == old(output)@ + start_tag(policy@, tag@, attr_models(attrs@)),
{
    let shown = match policy {
        Policy::OmitEnclosures(omit_tags) => shows_start_tag(omit_tags, tag.as_str()),
        _ => true,
    };
    if shown {
        output.append("<");
        output.append(tag.as_str());
        let ghost before = output@;
        let mut i: usize = 0;
        while i < attrs.len()
            invariant
                i <= attrs@.len(),
                output@ == before + attrs_output(policy@, tag@, attr_models(attrs@).take(i as int)),
            decreases attrs@.len() - i,
        {
            push_attr(tag, &attrs[i], policy, output);
            proof {
                let done = attr_models(attrs@).take(i + 1);
                assert(done.drop_last() =~= attr_models(attrs@).take(i as int));
                assert(done.last() == attrs@[i as int]@);
            }
            i += 1;
        }
        output.append(">");
        proof {
            assert(attr_models(attrs@).take(attrs@.len() as int) =~= attr_models(attrs@));
            assert(output@ =~= old(output)@ + start_tag(policy@, tag@, attr_models(attrs@)));
        }
    } else {
        assert(output@ =~= old(output)@ + start_tag(policy@, tag@, attr_models(attrs@)));
    }
}

/// Writes the end tag of an element, if the policy shows it.
fn push_end_tag(tag: &String, policy: &Policy, output: &mut String)
    ensures
        final(output)@ == old(output)@ + end_tag(policy@, tag@),
{
    let shown = match policy {
        Policy::OmitEnclosures(omit_tags) => shows_end_tag(omit_tags, tag.as_str()),
        _ => !is_self_closing(tag.as_str()),
    };
    if shown {
        output.append("</");
        output.append(tag.as_str());
        output.append(">");
    }
    assert(output@ =~= old(output)@ + end_tag(policy@, tag@));
}

/// Writes `node` and everything below it to the end of `output`, in document
/// order.
pub fn scan(node: &HtmlNode, policy: &Policy, output: &mut String)
    ensures
        final(output)@ == old(output)@ + render(node@, policy@),
    decreases node,
{
    match node {
        HtmlNode::Document { children } => {
            scan_children(children, policy, output);
        },
        HtmlNode::Element { name, attrs, children } => {
            push_start_tag(name, attrs, policy, output);
            scan_children(children, policy, output);
            push_end_tag(name, policy, output);
            assert(output@ =~= old(output)@ + render(node@, policy@));
        },
        HtmlNode::Text { contents } => {
            output.append(contents.as_str());
        },
        HtmlNode::Other => {
            assert(output@ =~= old(output)@ + render(node@, policy@));
        },
    }
}

/// Writes each of `children`, with everything below it, to the end of `output`.
pub fn scan_children(children: &Vec<HtmlNode>, policy: &Policy, output: &mut String)
    ensures
        final(output)@ == old(output)@ + render_all(tree_models(children@), policy@),
    decreases children,
{
    let mut i: usize = 0;
    while i < children.len()
        invariant
            i <= children@.len(),
            output@ == old(output)@ + render_all(tree_models(children@).take(i as int), policy@),
        decreases children@.len() - i,
    {
        scan(&children[i], policy, output);
        proof {
            let done = tree_models(children@).take(i + 1);
            assert(done.drop_last() =~= tree_models(children@).take(i as int));
            assert(done.last() == children@[i as int]@);
        }
        i += 1;
    }
    proof {
        assert(tree_models(children@).take(children@.len() as int) =~= tree_models(children@));
    }
}

/// Writing a list of trees that is made of two lists is writing the first
/// list and then the second.
pub proof fn lemma_render_all_concat(first: Seq<Tree>, second: Seq<Tree>, rules: Rules)
    ensures
        render_all(first + second, rules) == render_all(first, rules) + render_all(second, rules),
    decreases second.len(),
{
    if second.len() == 0 {
        assert(first + second =~= first);
        assert(render_all(first, rules) + render_all(second, rules) =~= render_all(first, rules));
    } else {
        lemma_render_all_concat(first, second.drop_last(), rules);
        assert((first + second).drop_last() =~= first + second.drop_last());
        assert((first + second).last() == second.last());
        assert(render_all(first + second, rules) =~= render_all(first, rules) + render_all(
            second,
            rules,
        ));
    }
}

/// Whether no rule applies to an element named `tag` with the attributes
/// `attrs`: none of its attributes is omitted, its enclosure is not omitted,
/// or none of its attributes is a target of the conversion.
pub open spec fn element_untargeted(rules: Rules, tag: Seq<char>, attrs: Seq<AttrModel>) -> bool {
    match rules {
        Rules::OmitAttrs(omit) => forall|i: int|
            0 <= i < attrs.len() ==> !omitted(omit, tag, (#[trigger] attrs[i]).0),
        Rules::OmitEnclosures(omit_tags) => !omit_tags.contains(tag),
        Rules::PathToUrl(convert) => forall|i: int|
            0 <= i < attrs.len() ==> !is_target(convert, tag, (#[trigger] attrs[i]).0),
    }
}

/// Whether no rule applies to any element of `tree`.
pub open spec fn untargeted(rules: Rules, tree: Tree) -> bool
    decreases tree,
{
    match tree {
        Tree::Document { children } => all_untargeted(rules, children),
        Tree::Element { name, attrs, children } => element_untargeted(rules, name, attrs)
            && all_untargeted(rules, children),
        _ => true,
    }
}

/// Whether no rule applies to any element of `trees`.
pub open spec fn all_untargeted(rules: Rules, trees: Seq<Tree>) -> bool
    decreases trees,
{
    trees.len() == 0 || (all_untargeted(rules, trees.drop_last()) && untargeted(
        rules,
        trees.last(),
    ))
}

/// The policy of the same kind that names nothing: no attribute to omit, no
/// enclosure to omit, no tag to convert.
pub open spec fn neutral(rules: Rules) -> Rules {
    match rules {
        Rules::OmitAttrs(_) => Rules::OmitAttrs(
            OmitRules { attrs: Seq::empty(), tag_attrs: Seq::empty() },
        ),
        Rules::OmitEnclosures(_) => Rules::OmitEnclosures(Seq::empty()),
        Rules::PathToUrl(convert) => Rules::PathToUrl(
            ConvertRules { tags: Seq::empty(), ..convert },
        ),
    }
}

/// The attributes of an element that no rule applies to are written as
/// under the policy that names nothing.
proof fn lemma_untargeted_attrs(rules: Rules, tag: Seq<char>, attrs: Seq<AttrModel>)
    requires
        rules is OmitEnclosures || element_untargeted(rules, tag, attrs),
    ensures
        attrs_output(rules, tag, attrs) == attrs_output(neutral(rules), tag, attrs),
    decreases attrs.len(),
{
    if attrs.len() > 0 {
        assert forall|i: int| 0 <= i < attrs.drop_last().len() implies attrs.drop_last()[i]
            == attrs[i] by {}
        lemma_untargeted_attrs(rules, tag, attrs.drop_last());
        let last = attrs[attrs.len() - 1];
        assert(attr_output(rules, tag, last) == attr_output(neutral(rules), tag, last));
    }
}

/// A tree that no rule applies to is written as under the policy that names
/// nothing: rules that match nothing change nothing.
pub proof fn lemma_untargeted_unchanged(rules: Rules, tree: Tree)
    requires
        untargeted(rules, tree),
    ensures
        render(tree, rules) == render(tree, neutral(rules)),
    decreases tree,
{
    match tree {
        Tree::Document { children } => {
            lemma_all_untargeted_unchanged(rules, children);
        },
        Tree::Element { name, attrs, children } => {
            lemma_untargeted_attrs(rules, name, attrs);
            lemma_all_untargeted_unchanged(rules, children);
        },
        _ => {},
    }
}

/// Trees that no rule applies to are written as under the policy that names
/// nothing.
pub proof fn lemma_all_untargeted_unchanged(rules: Rules, trees: Seq<Tree>)
    requires
        all_untargeted(rules, trees),
    ensures
        render_all(trees, rules) == render_all(trees, neutral(rules)),
    decreases trees,
{
    if trees.len() > 0 {
        lemma_all_untargeted_unchanged(rules, trees.drop_last());
        lemma_untargeted_unchanged(rules, trees.last());
    }
}

/// The markup of `tree` as it stands: every element with its start tag, all
/// of its attributes with their own values, its content, and its end tag
/// unless it is a void element.
pub open spec fn markup(tree: Tree) -> Seq<char> {
    render(tree, Rules::OmitEnclosures(Seq::empty()))
}

/// The markup of `trees` as they stand, one after the other.
pub open spec fn markup_all(trees: Seq<Tree>) -> Seq<char> {
    render_all(trees, Rules::OmitEnclosures(Seq::empty()))
}

/// Nothing is written where a void element ends, under any policy.
pub proof fn lemma_void_element_has_no_end_tag(rules: Rules, tag: Seq<char>)
    requires
        is_void(tag),
    ensures
        !shows_end(rules, tag),
        end_tag(rules, tag) == Seq::<char>::empty(),
{
}

/// Under a policy that names nothing, attributes are written as they stand.
proof fn lemma_neutral_attrs(rules: Rules, tag: Seq<char>, attrs: Seq<AttrModel>)
    ensures
        attrs_output(neutral(rules), tag, attrs) == attrs_output(
            Rules::OmitEnclosures(Seq::empty()),
            tag,
            attrs,
        ),
    decreases attrs.len(),
{
    if attrs.len() > 0 {
        lemma_neutral_attrs(rules, tag, attrs.drop_last());
        let last = attrs.last();
        assert(attr_output(neutral(rules), tag, last) == attr_output(
            Rules::OmitEnclosures(Seq::empty()),
            tag,
            last,
        ));
    }
}

/// A policy that names nothing writes a tree as it stands, whatever its kind.
pub proof fn lemma_neutral_is_markup(rules: Rules, tree: Tree)
    ensures
        render(tree, neutral(rules)) == markup(tree),
    decreases tree,
{
    match tree {
        Tree::Document { children } => {
            lemma_all_neutral_is_markup(rules, children);
        },
        Tree::Element { name, attrs, children } => {
            lemma_neutral_attrs(rules, name, attrs);
            lemma_all_neutral_is_markup(rules, children);
        },
        _ => {},
    }
}

/// A policy that names nothing writes trees as they stand, whatever its kind.
pub proof fn lemma_all_neutral_is_markup(rules: Rules, trees: Seq<Tree>)
    ensures
        render_all(trees, neutral(rules)) == markup_all(trees),
    decreases trees,
{
    if trees.len() > 0 {
        lemma_all_neutral_is_markup(rules, trees.drop_last());
        lemma_neutral_is_markup(rules, trees.last());
    }
}

/// A tree that no rule applies to is written as it stands, under every
/// policy: what a policy does not target, it leaves alone.
pub proof fn lemma_untargeted_is_markup(rules: Rules, tree: Tree)
    requires
        untargeted(rules, tree),
    ensures
        render(tree, rules) == markup(tree),
{
    lemma_untargeted_unchanged(rules, tree);
    lemma_neutral_is_markup(rules, tree);
}

} // verus!
