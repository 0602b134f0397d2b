//! Conversion of site-relative paths in link-like attributes to absolute URLs.

use crate::parser::{parse, parsed_tree};
use crate::serializer::{render, scan, written_value, Policy, Rules};
use crate::text::{
    chars_of, contains, is_substring, list_contains, occurs_at, same_text, starts_with, texts,
};
use crate::tree::{HtmlNode, Tree};
use crate::utils::{outline_reset, reset_document_outline};
use vstd::prelude::*;
use vstd::string::*;

verus! {

/// URL HTTP protocol
#[derive(Clone, Copy, Debug)]
pub enum HttpProtocol {
    Http,
    Https,
}

/// conversion target tag
#[derive(Clone, Copy, Debug)]
pub enum ConvertTag {
    A,
    Img,
    Audio,
    Video,
    Source,
    Link,
    Script,
}

/// conversion options
#[derive(Debug)]
pub struct ConvertOptions {
    /// HTTP protocol
    http_protocol: HttpProtocol,
    /// FQDN (host name, domain)
    fqdn: String,
    /// port number, if one was set. Default: 443 on HTTPS, 80 on HTTP
    port: Option<u16>,
    /// path base. Default: /
    current_path: String,
    /// target tags
    tags: Vec<ConvertTag>,
}

/// The model of [`ConvertOptions`].
pub struct ConvertSettings {
    pub http_protocol: HttpProtocol,
    pub fqdn: Seq<char>,
    pub port: Option<u16>,
    pub current_path: Seq<char>,
    pub tags: Seq<ConvertTag>,
}

impl View for ConvertOptions {
    type V = ConvertSettings;

    closed spec fn view(&self) -> ConvertSettings {
        ConvertSettings {
            http_protocol: self.http_protocol,
            fqdn: self.fqdn@,
            port: self.port,
            current_path: self.current_path@,
            tags: self.tags@,
        }
    }
}

impl ConvertOptions {
    /// Options for the host `fqdn`: HTTPS on the protocol's own port, paths
    /// relative to `/`, and anchors as the only target.
    pub fn new(fqdn: &str) -> (options: Self)
        ensures
            options@ == (ConvertSettings {
                http_protocol: HttpProtocol::Https,
                fqdn: fqdn@,
                port: None,
                current_path: "/"@,
                tags: seq![ConvertTag::A],
            }),
    {
        let mut tags: Vec<ConvertTag> = Vec::new();
        tags.push(ConvertTag::A);
        assert(tags@ =~= seq![ConvertTag::A]);
        ConvertOptions {
            http_protocol: HttpProtocol::Https,
            fqdn: String::from_str(fqdn),
            port: None,
            current_path: String::from_str("/"),
            tags,
        }
    }

    /// The same options with another protocol.
    pub fn set_http_protocol(self, http_protocol: HttpProtocol) -> (options: Self)
        ensures
            options@ == (ConvertSettings { http_protocol, ..self@ }),
    {
        let mut options = self;
        options.http_protocol = http_protocol;
        options
    }

    /// The same options for another host.
    pub fn set_fqdn(self, fqdn: &str) -> (options: Self)
        ensures
            options@ == (ConvertSettings { fqdn: fqdn@, ..self@ }),
    {
        let mut options = self;
        options.fqdn = String::from_str(fqdn);
        options
    }

    /// The same options with this port, whatever the protocol.
    pub fn set_port(self, port: u16) -> (options: Self)
        ensures
            options@ == (ConvertSettings { port: Some(port), ..self@ }),
    {
        let mut options = self;
        options.port = Some(port);
        options
    }

    /// The same options with another path for relative paths to start from.
    pub fn set_current_path(self, current_path: &str) -> (options: Self)
        ensures
            options@ == (ConvertSettings { current_path: current_path@, ..self@ }),
    {
        let mut options = self;
        options.current_path = String::from_str(current_path);
        options
    }

    /// The same options with other targets.
    pub fn set_tags(self, tags: Vec<ConvertTag>) -> (options: Self)
        ensures
            options@ == (ConvertSettings { tags: tags@, ..self@ }),
    {
        let mut options = self;
        options.tags = tags;
        options
    }
}

/// The options that a conversion works with: the origin that goes in front of
/// every path, the path that relative paths start from, and the names of the
/// tags whose paths are converted.
pub struct ActualConvertOptions<'a> {
    pub url_prefix: &'a str,
    pub current_path: &'a str,
    pub tags: &'a Vec<&'a str>,
}

/// The model of [`ActualConvertOptions`].
pub struct ConvertRules {
    pub url_prefix: Seq<char>,
    pub current_path: Seq<char>,
    pub tags: Seq<Seq<char>>,
}

impl<'a> View for ActualConvertOptions<'a> {
    type V = ConvertRules;

    open spec fn view(&self) -> ConvertRules {
        ConvertRules {
            url_prefix: self.url_prefix@,
            current_path: self.current_path@,
            tags: texts(self.tags@),
        }
    }
}

/// Whether `name` is the attribute of `tag` that holds a path.
pub open spec fn holds_path(tag: Seq<char>, name: Seq<char>) -> bool {
    ||| tag == "a"@ && name == "href"@
    ||| tag == "img"@ && name == "src"@
    ||| tag == "audio"@ && name == "src"@
    ||| tag == "video"@ && name == "src"@
    ||| tag == "source"@ && name == "src"@
    ||| tag == "link"@ && name == "href"@
    ||| tag == "script"@ && name == "src"@
}

/// Whether `value` begins with a slash: a path from the site's root.
pub open spec fn is_rooted(value: Seq<char>) -> bool {
    value.len() > 0 && value[0] == '/'
}

/// Whether `value` holds two slashes in a row: a URL that already names its host.
pub open spec fn names_host(value: Seq<char>) -> bool {
    is_substring(value, seq!['/', '/'])
}

/// `rel` appended to the directory `base`: a slash goes between the two
/// unless `base` is empty or already ends in one. Segments such as `..` stay
/// as they are written.
pub open spec fn joined_path(base: Seq<char>, rel: Seq<char>) -> Seq<char> {
    if base.len() > 0 && base.last() != '/' {
        base + seq!['/'] + rel
    } else {
        base + rel
    }
}

/// Whether the attribute `name` of an element named `tag` is converted.
pub open spec fn is_target(rules: ConvertRules, tag: Seq<char>, name: Seq<char>) -> bool {
    rules.tags.contains(tag) && holds_path(tag, name)
}

/// The value written for the attribute `name` of an element named `tag`.
pub open spec fn converted_value(
    rules: ConvertRules,
    tag: Seq<char>,
    name: Seq<char>,
    value: Seq<char>,
) -> Seq<char> {
    if is_target(rules, tag, name) && !names_host(value) {
        if is_rooted(value) {
            rules.url_prefix + value
        } else {
            rules.url_prefix + joined_path(rules.current_path, value)
        }
    } else {
        value
    }
}

/// Decides whether `name` is the attribute of `tag` that holds a path.
pub fn is_convert_tag_attr(tag: &str, name: &str) -> (holds: bool)
    ensures
        holds == holds_path(tag@, name@),
{
    (same_text(tag, "a") && same_text(name, "href")) || (same_text(tag, "img") && same_text(
        name,
        "src",
    )) || (same_text(tag, "audio") && same_text(name, "src")) || (same_text(tag, "video")
        && same_text(name, "src")) || (same_text(tag, "source") && same_text(name, "src")) || (
    same_text(tag, "link") && same_text(name, "href")) || (same_text(tag, "script") && same_text(
        name,
        "src",
    ))
}

/// Appends `rel` to the directory `base`.
pub fn join_path(base: &str, rel: &str) -> (joined: String)
    ensures
        joined@ == joined_path(base@, rel@),
{
    let head = chars_of(base);
    let mut joined = String::from_str(base);
    if head.len() > 0 && head[head.len() - 1] != '/' {
        proof {
            reveal_strlit("/");
            assert("/"@ =~= seq!['/']);
        }
        joined.append("/");
    }
    joined.append(rel);
    joined
}

/// The value to write for the attribute `name` of an element named `tag`.
pub fn convert_value(options: &ActualConvertOptions, tag: &str, name: &str, value: &str) -> (out:
    String)
    ensures
        out@ == converted_value(options@, tag@, name@, value@),
{
    proof {
        reveal_strlit("/");
        reveal_strlit("//");
        assert("//"@ =~= seq!['/', '/']);
        assert(occurs_at(value@, "/"@, 0) == is_rooted(value@)) by {
            if is_rooted(value@) {
                assert(value@.subrange(0, 1) =~= "/"@);
            }
            if occurs_at(value@, "/"@, 0) {
                assert(value@.subrange(0, 1)[0] == '/');
            }
        }
    }
    if list_contains(options.tags.as_slice(), tag) && is_convert_tag_attr(tag, name) && !contains(
        value,
        "//",
    ) {
        if starts_with(value, "/") {
            String::from_str(options.url_prefix).concat(value)
        } else {
            let joined = join_path(options.current_path, value);
            String::from_str(options.url_prefix).concat(joined.as_str())
        }
    } else {
        String::from_str(value)
    }
}

/// The scheme of a protocol, as a URL begins with it.
pub open spec fn scheme(protocol: HttpProtocol) -> Seq<char> {
    match protocol {
        HttpProtocol::Http => "http"@,
        HttpProtocol::Https => "https"@,
    }
}

/// The port that `protocol` uses when a URL names none.
pub open spec fn default_port(protocol: HttpProtocol) -> u16 {
    match protocol {
        HttpProtocol::Http => 80,
        HttpProtocol::Https => 443,
    }
}

/// The port that the settings stand for: the one that was set, or else the
/// protocol's own.
pub open spec fn effective_port(settings: ConvertSettings) -> u16 {
    match settings.port {
        Some(port) => port,
        None => default_port(settings.http_protocol),
    }
}

/// The decimal digit for `d`, which is below ten.
pub open spec fn digit(d: nat) -> char {
    if d == 0 {
        '0'
    } else if d == 1 {
        '1'
    } else if d == 2 {
        '2'
    } else if d == 3 {
        '3'
    } else if d == 4 {
        '4'
    } else if d == 5 {
        '5'
    } else if d == 6 {
        '6'
    } else if d == 7 {
        '7'
    } else if d == 8 {
        '8'
    } else {
        '9'
    }
}

/// `n` in decimal digits, without leading zeros.
pub open spec fn decimal(n: nat) -> Seq<char>
    decreases n,
{
    if n < 10 {
        seq![digit(n)]
    } else {
        decimal(n / 10) + seq![digit(n % 10)]
    }
}

/// The origin that goes in front of every converted path: scheme and host,
/// and the port where it is not the scheme's own.
pub open spec fn origin_prefix(settings: ConvertSettings) -> Seq<char> {
    if effective_port(settings) == default_port(settings.http_protocol) {
        scheme(settings.http_protocol) + "://"@ + settings.fqdn
    } else {
        scheme(settings.http_protocol) + "://"@ + settings.fqdn + ":"@ + decimal(
            effective_port(settings) as nat,
        )
    }
}

/// The name of the element that a target stands for.
pub open spec fn tag_name(tag: ConvertTag) -> Seq<char> {
    match tag {
        ConvertTag::A => "a"@,
        ConvertTag::Img => "img"@,
        ConvertTag::Audio => "audio"@,
        ConvertTag::Video => "video"@,
        ConvertTag::Source => "source"@,
        ConvertTag::Link => "link"@,
        ConvertTag::Script => "script"@,
    }
}

/// The names of the elements that a list of targets stands for, in order.
pub open spec fn tag_names(tags: Seq<ConvertTag>) -> Seq<Seq<char>> {
    Seq::new(tags.len(), |i: int| tag_name(tags[i]))
}

/// What a conversion with these settings works with.
pub open spec fn convert_rules(settings: ConvertSettings) -> ConvertRules {
    ConvertRules {
        url_prefix: origin_prefix(settings),
        current_path: settings.current_path,
        tags: tag_names(settings.tags),
    }
}

/// The markup of `tree` with the paths of the target attributes converted.
pub open spec fn paths_converted(tree: Tree, settings: ConvertSettings) -> Seq<char> {
    render(tree, Rules::PathToUrl(convert_rules(settings)))
}

/// The text of one decimal digit.
fn digit_text(d: u16) -> (text: &'static str)
    requires
        d < 10,
    ensures
        text@ == seq![digit(d as nat)],
{
    proof {
        reveal_strlit("0");
        reveal_strlit("1");
        reveal_strlit("2");
        reveal_strlit("3");
        reveal_strlit("4");
        reveal_strlit("5");
        reveal_strlit("6");
        reveal_strlit("7");
        reveal_strlit("8");
        reveal_strlit("9");
    }
    let text = match d {
        0 => "0",
        1 => "1",
        2 => "2",
        3 => "3",
        4 => "4",
        5 => "5",
        6 => "6",
        7 => "7",
        8 => "8",
        _ => "9",
    };
    assert(text@ =~= seq![digit(d as nat)]);
    text
}

/// Writes `port` in decimal digits.
pub fn port_text(port: u16) -> (text: String)
    ensures
        text@ == decimal(port as nat),
    decreases port,
{
    if port < 10 {
        String::from_str(digit_text(port))
    } else {
        let mut text = port_text(port / 10);
        text.append(digit_text(port % 10));
        text
    }
}

/// The name of the element that `tag` stands for.
pub fn name_of(tag: &ConvertTag) -> (name: &'static str)
    ensures
        name@ == tag_name(*tag),
{
    match tag {
        ConvertTag::A => "a",
        ConvertTag::Img => "img",
        ConvertTag::Audio => "audio",
        ConvertTag::Video => "video",
        ConvertTag::Source => "source",
        ConvertTag::Link => "link",
        ConvertTag::Script => "script",
    }
}

impl ConvertOptions {
    /// Builds the origin that goes in front of every converted path.
    pub fn url_prefix(&self) -> (prefix: String)
        ensures
            prefix@ == origin_prefix(self@),
    {
        let mut prefix = match self.http_protocol {
            HttpProtocol::Http => String::from_str("http"),
            HttpProtocol::Https => String::from_str("https"),
        };
        prefix.append("://");
        prefix.append(self.fqdn.as_str());
        let own_port: u16 = match self.http_protocol {
            HttpProtocol::Http => 80,
            HttpProtocol::Https => 443,
        };
        let port: u16 = match self.port {
            Some(port) => port,
            None => own_port,
        };
        if port != own_port {
            prefix.append(":");
            let digits = port_text(port);
            prefix.append(digits.as_str());
        }
        prefix
    }

    /// Lists the names of the target elements.
    pub fn tag_list(&self) -> (names: Vec<&'static str>)
        ensures
            texts(names@) == tag_names(self@.tags),
    {
        let mut names: Vec<&'static str> = Vec::new();
        let mut i: usize = 0;
        while i < self.tags.len()
            invariant
                i <= self.tags@.len(),
                names@.len() == i,
                forall|j: int| 0 <= j < i ==> (#[trigger] names@[j])@ == tag_name(self.tags@[j]),
            decreases self.tags@.len() - i,
        {
            names.push(name_of(&self.tags[i]));
            i += 1;
        }
        assert(texts(names@) =~= tag_names(self.tags@));
        names
    }
}

/// Writes `node` with the paths of the target attributes converted to URLs.
pub fn convert_paths(node: &HtmlNode, options: &ConvertOptions) -> (out: String)
    ensures
        out@ == paths_converted(node@, options@),
{
    let url_prefix = options.url_prefix();
    let tags = options.tag_list();
    let actual_option = ActualConvertOptions {
        url_prefix: url_prefix.as_str(),
        current_path: options.current_path.as_str(),
        tags: &tags,
    };
    let mut output = String::new();
    scan(node, &Policy::PathToUrl(&actual_option), &mut output);
    assert(actual_option@ == convert_rules(options@));
    assert(output@ =~= render(node@, Rules::PathToUrl(actual_option@)));
    output
}

/// Converts the paths in `html` to URLs: in each element that the options
/// target, the attribute that holds its path gets the origin in front,
/// unless the value already names a host. A path that does not start from
/// the root is first appended to the current path. The outline tags that the
/// parser adds and `html` does not hold are omitted from the result.
pub fn convert(html: &str, options: &ConvertOptions) -> (out: String)
    ensures
        out@ == outline_reset(paths_converted(parsed_tree(html@), options@), html@),
{
    let node = parse(html);
    let output = convert_paths(&node, options);
    reset_document_outline(output.as_str(), html)
}

/// A target attribute whose value starts from the root, and names no host,
/// is written as the origin followed by the value as it is.
pub proof fn lemma_rooted_path_gets_origin(
    settings: ConvertSettings,
    tag: Seq<char>,
    name: Seq<char>,
    value: Seq<char>,
)
    requires
        is_target(convert_rules(settings), tag, name),
        is_rooted(value),
        !names_host(value),
    ensures
        converted_value(convert_rules(settings), tag, name, value) == origin_prefix(settings)
            + value,
        written_value(Rules::PathToUrl(convert_rules(settings)), tag, (name, value))
            == origin_prefix(settings) + value,
{
}

/// A value that already names a host is written as it is, on any element
/// and under any settings.
pub proof fn lemma_url_is_kept(
    settings: ConvertSettings,
    tag: Seq<char>,
    name: Seq<char>,
    value: Seq<char>,
)
    requires
        names_host(value),
    ensures
        converted_value(convert_rules(settings), tag, name, value) == value,
        written_value(Rules::PathToUrl(convert_rules(settings)), tag, (name, value)) == value,
{
}

/// A value on an attribute that is no target is written as it is.
pub proof fn lemma_other_attr_is_kept(
    settings: ConvertSettings,
    tag: Seq<char>,
    name: Seq<char>,
    value: Seq<char>,
)
    requires
        !is_target(convert_rules(settings), tag, name),
    ensures
        written_value(Rules::PathToUrl(convert_rules(settings)), tag, (name, value)) == value,
{
}

} // verus!
