//! Omission of chosen attributes, everywhere or on chosen tags only.

use crate::parser::{parse, parsed_tree};
use crate::serializer::{attr_text, attrs_output, render, scan, start_tag, Policy, Rules};
use crate::text::{chars_of, count_of, string_texts, texts};
use crate::tree::{AttrModel, HtmlNode, Tree};
use crate::utils::{outline_reset, reset_document_outline};
use vstd::prelude::*;
use vstd::string::*;

verus! {

/// The attributes to omit: names that go on every tag, and pairs of a tag
/// and a name that goes on that tag only.
#[derive(Debug, PartialEq, Eq)]
pub struct OmitOptions {
    pub attrs: Vec<String>,
    pub tag_attrs: Vec<(String, String)>,
}

/// The model of [`OmitOptions`].
pub struct OmitRules {
    pub attrs: Seq<Seq<char>>,
    pub tag_attrs: Seq<(Seq<char>, Seq<char>)>,
}

/// The models of a list of pairs of strings, in order.
pub open spec fn pair_texts(pairs: Seq<(String, String)>) -> Seq<(Seq<char>, Seq<char>)> {
    Seq::new(pairs.len(), |i: int| (pairs[i].0@, pairs[i].1@))
}

impl View for OmitOptions {
    type V = OmitRules;

    open spec fn view(&self) -> OmitRules {
        OmitRules { attrs: string_texts(self.attrs@), tag_attrs: pair_texts(self.tag_attrs@) }
    }
}

/// Whether the attribute `name` of an element named `tag` is omitted: its
/// name is omitted everywhere, or the pair of tag and name is.
pub open spec fn omitted(rules: OmitRules, tag: Seq<char>, name: Seq<char>) -> bool {
    rules.attrs.contains(name) || rules.tag_attrs.contains((tag, name))
}

impl OmitOptions {
    /// Decides whether the attribute `name` of an element named `tag` is omitted.
    pub fn omits(&self, tag: &String, name: &String) -> (omit: bool)
        ensures
            omit == omitted(self@, tag@, name@),
    {
        let mut i: usize = 0;
        while i < self.attrs.len()
            invariant
                i <= self.attrs@.len(),
                forall|j: int| 0 <= j < i ==> string_texts(self.attrs@)[j] != name@,
            decreases self.attrs@.len() - i,
        {
            if self.attrs[i] == *name {
                assert(string_texts(self.attrs@)[i as int] == name@);
                return true;
            }
            i += 1;
        }
        let mut k: usize = 0;
        while k < self.tag_attrs.len()
            invariant
                k <= self.tag_attrs@.len(),
                !string_texts(self.attrs@).contains(name@),
                forall|j: int| 0 <= j < k ==> pair_texts(self.tag_attrs@)[j] != (tag@, name@),
            decreases self.tag_attrs@.len() - k,
        {
            if self.tag_attrs[k].0 == *tag && self.tag_attrs[k].1 == *name {
                assert(pair_texts(self.tag_attrs@)[k as int] == (tag@, name@));
                return true;
            }
            k += 1;
        }
        false
    }
}

/// What is wrong with a list of rules.
#[derive(Debug, PartialEq, Eq)]
pub enum ConfigError {
    /// A rule holds more than one `.`.
    TooManyDots,
    /// A rule of the form `tag.attr` has nothing before or after the `.`:
    /// the two sides of the first such rule.
    EmptyTagOrAttr { tag: String, attr: String },
}

/// The model of [`ConfigError`].
pub enum RuleFault {
    TooManyDots,
    EmptyTagOrAttr { tag: Seq<char>, attr: Seq<char> },
}

impl View for ConfigError {
    type V = RuleFault;

    open spec fn view(&self) -> RuleFault {
        match self {
            ConfigError::TooManyDots => RuleFault::TooManyDots,
            ConfigError::EmptyTagOrAttr { tag, attr } => RuleFault::EmptyTagOrAttr {
                tag: tag@,
                attr: attr@,
            },
        }
    }
}

/// What is wrong, in words.
pub open spec fn fault_text(fault: RuleFault) -> Seq<char> {
    match fault {
        RuleFault::TooManyDots =>
            "Invalid omit_attrs: each item should have single or none of \".\""@,
        RuleFault::EmptyTagOrAttr { tag, attr } => "Invalid tag-attr pair found: "@ + tag
            + " - "@ + attr,
    }
}

impl ConfigError {
    /// What is wrong, in words.
    pub fn message(&self) -> (text: String)
        ensures
            text@ == fault_text(self@),
    {
        match self {
            ConfigError::TooManyDots => String::from_str(
                "Invalid omit_attrs: each item should have single or none of \".\"",
            ),
            ConfigError::EmptyTagOrAttr { tag, attr } => {
                let mut text = String::from_str("Invalid tag-attr pair found: ");
                text.append(tag.as_str());
                text.append(" - ");
                text.append(attr.as_str());
                text
            },
        }
    }
}

/// Whether `rule` begins with `*.`: a name that goes on every tag.
pub open spec fn is_wildcard(rule: Seq<char>) -> bool {
    rule.len() >= 2 && rule[0] == '*' && rule[1] == '.'
}

/// Whether `rule` names an attribute that goes on every tag: a bare name, or
/// one behind `*.`.
pub open spec fn is_global(rule: Seq<char>) -> bool {
    !rule.contains('.') || is_wildcard(rule)
}

/// The attribute that a global rule names.
pub open spec fn bare_name(rule: Seq<char>) -> Seq<char> {
    if is_wildcard(rule) {
        rule.skip(2)
    } else {
        rule
    }
}

/// Whether the first `.` of `rule` stands at `at`.
pub open spec fn is_first_dot(rule: Seq<char>, at: int) -> bool {
    &&& 0 <= at < rule.len()
    &&& rule[at] == '.'
    &&& forall|j: int| 0 <= j < at ==> rule[j] != '.'
}

/// Where the first `.` of `rule` stands.
pub open spec fn first_dot(rule: Seq<char>) -> int {
    choose|at: int| is_first_dot(rule, at)
}

/// What stands before the first `.` of `rule`: the tag of a rule `tag.attr`.
pub open spec fn tag_side(rule: Seq<char>) -> Seq<char> {
    rule.take(first_dot(rule))
}

/// What stands behind the first `.` of `rule`: the attribute of a rule `tag.attr`.
pub open spec fn attr_side(rule: Seq<char>) -> Seq<char> {
    rule.skip(first_dot(rule) + 1)
}

/// Whether `rule` holds more than one `.`.
pub open spec fn has_many_dots(rule: Seq<char>) -> bool {
    count_of(rule, '.') > 1
}

/// Whether `rule` has the form `tag.attr` with one of the two empty.
pub open spec fn has_empty_side(rule: Seq<char>) -> bool {
    !is_global(rule) && (tag_side(rule).len() == 0 || attr_side(rule).len() == 0)
}

/// Whether the first rule of `rules` with an empty side stands at `at`.
pub open spec fn is_first_empty_side(rules: Seq<Seq<char>>, at: int) -> bool {
    &&& 0 <= at < rules.len()
    &&& has_empty_side(rules[at])
    &&& forall|j: int| 0 <= j < at ==> !has_empty_side(#[trigger] rules[j])
}

/// The first rule of `rules` with an empty side.
pub open spec fn first_empty_side(rules: Seq<Seq<char>>) -> Seq<char> {
    rules[choose|at: int| is_first_empty_side(rules, at)]
}

/// What is wrong with `rules`, if anything: a rule with too many dots
/// anywhere in the list comes before an empty side, and of the rules with an
/// empty side the first is reported, with its two sides.
pub open spec fn first_error(rules: Seq<Seq<char>>) -> Option<RuleFault> {
    if exists|i: int| 0 <= i < rules.len() && has_many_dots(#[trigger] rules[i]) {
        Some(RuleFault::TooManyDots)
    } else if exists|i: int| 0 <= i < rules.len() && has_empty_side(#[trigger] rules[i]) {
        Some(
            RuleFault::EmptyTagOrAttr {
                tag: tag_side(first_empty_side(rules)),
                attr: attr_side(first_empty_side(rules)),
            },
        )
    } else {
        None
    }
}

/// The names that `rules` omit on every tag, in the order of the rules.
pub open spec fn global_names(rules: Seq<Seq<char>>) -> Seq<Seq<char>> {
    rules.filter(|rule: Seq<char>| is_global(rule)).map_values(|rule: Seq<char>| bare_name(rule))
}

/// The pairs of tag and name that `rules` omit, in the order of the rules.
pub open spec fn tag_pairs(rules: Seq<Seq<char>>) -> Seq<(Seq<char>, Seq<char>)> {
    rules.filter(|rule: Seq<char>| !is_global(rule)).map_values(
        |rule: Seq<char>| (tag_side(rule), attr_side(rule)),
    )
}

/// What `rules` ask to omit.
pub open spec fn omit_rules(rules: Seq<Seq<char>>) -> OmitRules {
    OmitRules { attrs: global_names(rules), tag_attrs: tag_pairs(rules) }
}

/// Counts the dots in `rule`.
fn count_dots(rule: &Vec<char>) -> (count: usize)
    ensures
        count == count_of(rule@, '.'),
{
    let mut count: usize = 0;
    let mut i: usize = 0;
    while i < rule.len()
        invariant
            i <= rule@.len(),
            count <= i,
            count == count_of(rule@.take(i as int), '.'),
        decreases rule@.len() - i,
    {
        proof {
            assert(rule@.take(i + 1).drop_last() =~= rule@.take(i as int));
        }
        if rule[i] == '.' {
            count += 1;
        }
        i += 1;
    }
    proof {
        assert(rule@.take(rule@.len() as int) =~= rule@);
    }
    count
}

/// Finds the first `.` of `rule`.
fn find_dot(rule: &Vec<char>) -> (found: Option<usize>)
    ensures
        match found {
            Some(at) => is_first_dot(rule@, at as int),
            None => !rule@.contains('.'),
        },
{
    let mut i: usize = 0;
    while i < rule.len()
        invariant
            i <= rule@.len(),
            forall|j: int| 0 <= j < i ==> rule@[j] != '.',
        decreases rule@.len() - i,
    {
        if rule[i] == '.' {
            return Some(i);
        }
        i += 1;
    }
    None
}

/// The first `.` of a rule stands in one place only.
proof fn lemma_first_dot(rule: Seq<char>, at: int)
    requires
        is_first_dot(rule, at),
    ensures
        first_dot(rule) == at,
{
    let chosen = first_dot(rule);
    assert(is_first_dot(rule, chosen));
    if chosen < at {
        assert(rule[chosen] != '.');
    }
    if at < chosen {
        assert(rule[at] != '.');
    }
}

/// What the last rule of a list adds to what the list omits.
proof fn lemma_last_rule(rules: Seq<Seq<char>>)
    requires
        rules.len() > 0,
    ensures
        is_global(rules.last()) ==> global_names(rules) == global_names(rules.drop_last()).push(
            bare_name(rules.last()),
        ) && tag_pairs(rules) == tag_pairs(rules.drop_last()),
        !is_global(rules.last()) ==> global_names(rules) == global_names(rules.drop_last())
            && tag_pairs(rules) == tag_pairs(rules.drop_last()).push(
            (tag_side(rules.last()), attr_side(rules.last())),
        ),
{
    reveal(Seq::filter);
    let global = |rule: Seq<char>| is_global(rule);
    let qualified = |rule: Seq<char>| !is_global(rule);
    let name = |rule: Seq<char>| bare_name(rule);
    let pair = |rule: Seq<char>| (tag_side(rule), attr_side(rule));
    let rest = rules.drop_last();
    let last = rules.last();
    if is_global(last) {
        assert(rules.filter(global) == rest.filter(global).push(last));
        assert(rules.filter(qualified) == rest.filter(qualified));
        assert(rules.filter(global).map_values(name) =~= rest.filter(global).map_values(name).push(
            bare_name(last),
        ));
    } else {
        assert(rules.filter(global) == rest.filter(global));
        assert(rules.filter(qualified) == rest.filter(qualified).push(last));
        assert(rules.filter(qualified).map_values(pair) =~= rest.filter(qualified).map_values(
            pair,
        ).push((tag_side(last), attr_side(last))));
    }
}

/// The first rule with an empty side stands in one place only.
proof fn lemma_first_empty_side(rules: Seq<Seq<char>>, at: int)
    requires
        is_first_empty_side(rules, at),
    ensures
        first_empty_side(rules) == rules[at],
{
    let chosen = choose|at: int| is_first_empty_side(rules, at);
    assert(is_first_empty_side(rules, chosen));
    if chosen < at {
        assert(!has_empty_side(rules[chosen]));
    }
    if at < chosen {
        assert(!has_empty_side(rules[at]));
    }
}

/// Reads the rules: a bare name or `*.name` omits the attribute on every tag,
/// `tag.name` on that tag only. A rule with more than one `.` anywhere in
/// the list is an error, and so is a rule `tag.name` with an empty side; the
/// error names the two sides of the first such rule.
pub fn options(omit_attrs: &[&str]) -> (result: Result<OmitOptions, ConfigError>)
    ensures
        match result {
            Ok(options) => first_error(texts(omit_attrs@)) is None && options@ == omit_rules(
                texts(omit_attrs@),
            ),
            Err(error) => first_error(texts(omit_attrs@)) == Some(error@),
        },
{
    let ghost rules = texts(omit_attrs@);
    let mut i: usize = 0;
    while i < omit_attrs.len()
        invariant
            i <= omit_attrs@.len(),
            rules == texts(omit_attrs@),
            forall|j: int| 0 <= j < i ==> !has_many_dots(#[trigger] rules[j]),
        decreases omit_attrs@.len() - i,
    {
        let rule = chars_of(omit_attrs[i]);
        if count_dots(&rule) > 1 {
            assert(has_many_dots(rules[i as int]));
            return Err(ConfigError::TooManyDots);
        }
        i += 1;
    }
    let mut attrs: Vec<String> = Vec::new();
    let mut tag_attrs: Vec<(String, String)> = Vec::new();
    let mut k: usize = 0;
    while k < omit_attrs.len()
        invariant
            k <= omit_attrs@.len(),
            rules == texts(omit_attrs@),
            forall|j: int| 0 <= j < rules.len() ==> !has_many_dots(#[trigger] rules[j]),
            forall|j: int| 0 <= j < k ==> !has_empty_side(#[trigger] rules[j]),
            string_texts(attrs@) == global_names(rules.take(k as int)),
            pair_texts(tag_attrs@) == tag_pairs(rules.take(k as int)),
        decreases omit_attrs@.len() - k,
    {
        let source = omit_attrs[k];
        let rule = chars_of(source);
        let ghost done = rules.take(k as int);
        let ghost next = rules.take(k + 1);
        proof {
            assert(next.drop_last() =~= done);
            assert(next.last() == rule@);
            lemma_last_rule(next);
        }
        let dot = find_dot(&rule);
        let wildcard = rule.len() >= 2 && rule[0] == '*' && rule[1] == '.';
        match dot {
            Some(at) if !wildcard => {
                proof {
                    lemma_first_dot(rule@, at as int);
                }
                let tag = source.substring_char(0, at);
                let name = source.substring_char(at + 1, rule.len());
                proof {
                    assert(rule@.take(at as int) =~= rule@.subrange(0, at as int));
                    assert(rule@.skip(at + 1) =~= rule@.subrange(at + 1, rule@.len() as int));
                }
                if at == 0 || at + 1 == rule.len() {
                    proof {
                        assert(!is_global(rule@));
                        assert(has_empty_side(rules[k as int]));
                        lemma_first_empty_side(rules, k as int);
                    }
                    return Err(
                        ConfigError::EmptyTagOrAttr {
                            tag: String::from_str(tag),
                            attr: String::from_str(name),
                        },
                    );
                }
                tag_attrs.push((String::from_str(tag), String::from_str(name)));
                proof {
                    assert(!is_global(rule@));
                    assert(pair_texts(tag_attrs@) =~= tag_pairs(next));
                    assert(string_texts(attrs@) =~= global_names(next));
                }
            },
            _ => {
                let name = if wildcard {
                    source.substring_char(2, rule.len())
                } else {
                    source
                };
                attrs.push(String::from_str(name));
                proof {
                    assert(is_global(rule@));
                    if wildcard {
                        assert(rule@.skip(2) =~= rule@.subrange(2, rule@.len() as int));
                    }
                    assert(string_texts(attrs@) =~= global_names(next));
                    assert(pair_texts(tag_attrs@) =~= tag_pairs(next));
                }
            },
        }
        k += 1;
    }
    proof {
        assert(rules.take(rules.len() as int) =~= rules);
    }
    Ok(OmitOptions { attrs, tag_attrs })
}

/// The markup of `tree` without the attributes that `rules` omit.
pub open spec fn attrs_omitted(tree: Tree, rules: OmitRules) -> Seq<char> {
    render(tree, Rules::OmitAttrs(rules))
}

/// Writes `node` without the attributes that `options` omit.
pub fn omit_attributes(node: &HtmlNode, options: &OmitOptions) -> (out: String)
    ensures
        out@ == attrs_omitted(node@, options@),
{
    let mut output = String::new();
    scan(node, &Policy::OmitAttrs(options), &mut output);
    assert(output@ =~= render(node@, Rules::OmitAttrs(options@)));
    output
}

/// Omits attributes from `html`: parses it, and writes the tree back without
/// the attributes that `omit_attrs` name. Tags are never omitted, but for the
/// outline tags that the parser adds and `html` does not hold. Rules that
/// cannot be read are reported before anything is parsed.
pub fn manipulate(html: &str, omit_attrs: &[&str]) -> (result: Result<String, ConfigError>)
    ensures
        match result {
            Ok(out) => first_error(texts(omit_attrs@)) is None && out@ == outline_reset(
                attrs_omitted(parsed_tree(html@), omit_rules(texts(omit_attrs@))),
                html@,
            ),
            Err(error) => first_error(texts(omit_attrs@)) == Some(error@),
        },
{
    match options(omit_attrs) {
        Ok(options) => {
            let node = parse(html);
            let output = omit_attributes(&node, &options);
            Ok(reset_document_outline(output.as_str(), html))
        },
        Err(error) => Err(error),
    }
}

/// The attributes of an element named `tag` that `rules` leave, in order.
pub open spec fn kept_attrs(rules: OmitRules, tag: Seq<char>, attrs: Seq<AttrModel>) -> Seq<
    AttrModel,
> {
    attrs.filter(|attr: AttrModel| !omitted(rules, tag, attr.0))
}

/// A list of attributes as markup, each with its own value.
pub open spec fn attrs_text(attrs: Seq<AttrModel>) -> Seq<char>
    decreases attrs.len(),
{
    if attrs.len() == 0 {
        Seq::empty()
    } else {
        attrs_text(attrs.drop_last()) + attr_text(attrs.last().0, attrs.last().1)
    }
}

/// What is written for the attributes of an element is the markup of those
/// that the rules leave, in their order and with their values: an attribute
/// of the element is among them if and only if its name is not omitted on
/// every tag and not omitted on this element's tag.
pub proof fn lemma_attrs_written(rules: OmitRules, tag: Seq<char>, attrs: Seq<AttrModel>)
    ensures
        attrs_output(Rules::OmitAttrs(rules), tag, attrs) == attrs_text(
            kept_attrs(rules, tag, attrs),
        ),
        start_tag(Rules::OmitAttrs(rules), tag, attrs) == "<"@ + tag + attrs_text(
            kept_attrs(rules, tag, attrs),
        ) + ">"@,
        forall|attr: AttrModel| #[trigger]
            kept_attrs(rules, tag, attrs).contains(attr) <==> attrs.contains(attr)
                && !rules.attrs.contains(attr.0) && !rules.tag_attrs.contains((tag, attr.0)),
    decreases attrs.len(),
{
    reveal(Seq::filter);
    let keep = |attr: AttrModel| !omitted(rules, tag, attr.0);
    if attrs.len() > 0 {
        let rest = attrs.drop_last();
        let last = attrs.last();
        lemma_attrs_written(rules, tag, rest);
        if keep(last) {
            assert(attrs.filter(keep) == rest.filter(keep).push(last));
            assert(attrs.filter(keep).drop_last() =~= rest.filter(keep));
        } else {
            assert(attrs.filter(keep) == rest.filter(keep));
        }
    }
    assert forall|attr: AttrModel| #[trigger]
        kept_attrs(rules, tag, attrs).contains(attr) <==> attrs.contains(attr)
            && !rules.attrs.contains(attr.0) && !rules.tag_attrs.contains((tag, attr.0)) by {
        if kept_attrs(rules, tag, attrs).contains(attr) {
            let at = choose|at: int|
                0 <= at < attrs.filter(keep).len() && attrs.filter(keep)[at] == attr;
            attrs.lemma_filter_pred(keep, at);
            attrs.lemma_filter_contains_rev(keep, attr);
        }
        if attrs.contains(attr) && keep(attr) {
            let at = choose|at: int| 0 <= at < attrs.len() && attrs[at] == attr;
            attrs.lemma_filter_contains(keep, at);
        }
    }
}

} // verus!
