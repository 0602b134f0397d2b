use htmlproc::omit_attr::{omit_attributes, OmitOptions};
use htmlproc::omit_enclosure::{
    is_self_closing, omit_enclosures, shows_end_tag, shows_start_tag, tags_to_omit,
};
use htmlproc::path_to_url::{convert_paths, ConvertOptions, ConvertTag};
use htmlproc::serializer::{scan, scan_children, Policy};
use htmlproc::tree::{Attribute, HtmlNode};

fn text(contents: &str) -> HtmlNode {
    HtmlNode::Text { contents: contents.to_string() }
}

fn element(name: &str, attrs: &[(&str, &str)], children: Vec<HtmlNode>) -> HtmlNode {
    let attrs = attrs
        .iter()
        .map(|(name, value)| Attribute { name: name.to_string(), value: value.to_string() })
        .collect();
    HtmlNode::Element { name: name.to_string(), attrs, children }
}

fn document(children: Vec<HtmlNode>) -> HtmlNode {
    HtmlNode::Document { children }
}

fn sample() -> HtmlNode {
    document(vec![
        HtmlNode::Other,
        element(
            "div",
            &[("id", "main"), ("class", "box")],
            vec![
                element("span", &[("style", "color: red;")], vec![text("Remove me")]),
                element("br", &[], vec![]),
                element("a", &[("href", "/here"), ("class", "link")], vec![text("link")]),
            ],
        ),
    ])
}

#[test]
fn scan_appends_to_what_is_there() {
    let mut output = String::from("before:");
    let tags: [&str; 0] = [];
    scan(&element("p", &[("id", "x")], vec![text("t")]), &Policy::OmitEnclosures(&tags), &mut output);
    assert_eq!(output, "before:<p id=\"x\">t</p>");
}

#[test]
fn scan_children_writes_them_in_order() {
    let mut output = String::new();
    let tags = ["b"];
    let children = vec![text("1"), element("b", &[], vec![text("2")]), element("i", &[], vec![text("3")])];
    scan_children(&children, &Policy::OmitEnclosures(&tags), &mut output);
    assert_eq!(output, "12<i>3</i>");
}

#[test]
fn scan_drops_nodes_of_other_kinds() {
    let mut output = String::new();
    let tags: [&str; 0] = [];
    scan(&document(vec![HtmlNode::Other, text("a"), HtmlNode::Other]), &Policy::OmitEnclosures(&tags), &mut output);
    assert_eq!(output, "a");
}

#[test]
fn text_is_written_as_it_is() {
    let mut output = String::new();
    let tags: [&str; 0] = [];
    scan(&text("a < b & \"c\""), &Policy::OmitEnclosures(&tags), &mut output);
    assert_eq!(output, "a < b & \"c\"");
}

#[test]
fn attribute_values_are_not_escaped() {
    let options = OmitOptions { attrs: vec![], tag_attrs: vec![] };
    let node = element("p", &[("title", "a\"b<c")], vec![]);
    assert_eq!(omit_attributes(&node, &options), "<p title=\"a\"b<c\"></p>");
}

#[test]
fn omit_enclosures_on_a_tree() {
    let out = omit_enclosures(&sample(), "<html><head><body>", &["span"]);
    assert_eq!(
        out,
        "<div id=\"main\" class=\"box\">Remove me<br><a href=\"/here\" class=\"link\">link</a></div>"
    );
}

#[test]
fn omit_enclosures_keeps_content_of_nested_omitted_elements() {
    let tree = element("div", &[], vec![element("div", &[("id", "in")], vec![text("x"), element("p", &[], vec![text("y")])])]);
    assert_eq!(omit_enclosures(&tree, "<html><head><body>", &["div"]), "x<p>y</p>");
}

#[test]
fn a_void_element_never_gets_an_end_tag() {
    let tree = element("p", &[], vec![element("img", &[("src", "x.png")], vec![]), element("hr", &[], vec![])]);
    assert_eq!(omit_enclosures(&tree, "<html><head><body>", &[]), "<p><img src=\"x.png\"><hr></p>");
    assert_eq!(omit_enclosures(&tree, "<html><head><body>", &["img"]), "<p><hr></p>");
}

#[test]
fn void_elements_are_the_known_ones() {
    for tag in [
        "area", "base", "br", "col", "embed", "hr", "img", "input", "link", "meta", "source",
        "track", "wbr",
    ] {
        assert!(is_self_closing(tag), "{}", tag);
    }
    for tag in ["div", "span", "a", "p", "script", "", "BR", "brr"] {
        assert!(!is_self_closing(tag), "{}", tag);
    }
}

#[test]
fn start_and_end_tags_follow_the_omission_set() {
    assert!(shows_start_tag(&["span"], "div"));
    assert!(!shows_start_tag(&["span"], "span"));
    assert!(shows_end_tag(&["span"], "div"));
    assert!(!shows_end_tag(&["span"], "span"));
    assert!(shows_start_tag(&["span"], "br"));
    assert!(!shows_end_tag(&["span"], "br"));
    assert!(!shows_end_tag(&["br"], "br"));
}

#[test]
fn tags_to_omit_adds_the_missing_outline_tags() {
    assert_eq!(tags_to_omit("<p>x</p>", &["span"]), vec!["span", "html", "head", "body"]);
    assert_eq!(tags_to_omit("<body><p>x</p></body>", &["span"]), vec!["span", "html", "head"]);
    assert_eq!(tags_to_omit("<html><body></body></html>", &[]), vec!["head"]);
    assert_eq!(tags_to_omit("<html><head></head><body></body></html>", &["a", "b"]), vec!["a", "b"]);
    assert_eq!(tags_to_omit("<html lang=\"en\"><head></head>", &[]), vec!["html", "body"]);
}

#[test]
fn the_outline_of_a_tree_goes_when_the_source_lacks_it() {
    let tree = document(vec![element(
        "html",
        &[],
        vec![element("head", &[], vec![]), element("body", &[], vec![element("p", &[], vec![text("x")])])],
    )]);
    assert_eq!(omit_enclosures(&tree, "<p>x</p>", &[]), "<p>x</p>");
    assert_eq!(omit_enclosures(&tree, "<body><p>x</p></body>", &[]), "<body><p>x</p></body>");
    assert_eq!(
        omit_enclosures(&tree, "<html><head></head><body><p>x</p></body></html>", &[]),
        "<html><head></head><body><p>x</p></body></html>"
    );
}

#[test]
fn omit_attributes_on_a_tree() {
    let options = OmitOptions {
        attrs: vec!["class".to_string()],
        tag_attrs: vec![("span".to_string(), "style".to_string()), ("a".to_string(), "id".to_string())],
    };
    assert_eq!(
        omit_attributes(&sample(), &options),
        "<div id=\"main\"><span>Remove me</span><br><a href=\"/here\">link</a></div>"
    );
}

#[test]
fn omits_decides_by_name_and_by_tag() {
    let options = OmitOptions {
        attrs: vec!["style".to_string()],
        tag_attrs: vec![("span".to_string(), "class".to_string())],
    };
    let s = |x: &str| x.to_string();
    assert!(options.omits(&s("div"), &s("style")));
    assert!(options.omits(&s("span"), &s("style")));
    assert!(options.omits(&s("span"), &s("class")));
    assert!(!options.omits(&s("div"), &s("class")));
    assert!(!options.omits(&s("class"), &s("span")));
    assert!(!options.omits(&s("span"), &s("id")));
}

#[test]
fn attributes_with_the_same_name_are_all_judged() {
    let options = OmitOptions { attrs: vec!["x".to_string()], tag_attrs: vec![] };
    let node = element("p", &[("x", "1"), ("y", "2"), ("x", "3")], vec![]);
    assert_eq!(omit_attributes(&node, &options), "<p y=\"2\"></p>");
}

#[test]
fn rules_that_match_nothing_change_nothing() {
    let none = OmitOptions { attrs: vec![], tag_attrs: vec![] };
    let unrelated = OmitOptions {
        attrs: vec!["title".to_string()],
        tag_attrs: vec![("p".to_string(), "class".to_string())],
    };
    assert_eq!(omit_attributes(&sample(), &unrelated), omit_attributes(&sample(), &none));
    assert_eq!(
        omit_enclosures(&sample(), "<html><head><body>", &["p", "i"]),
        omit_enclosures(&sample(), "<html><head><body>", &[])
    );
    let images = ConvertOptions::new("some.domain").set_tags(vec![ConvertTag::Img]);
    let nothing = ConvertOptions::new("some.domain").set_tags(vec![]);
    assert_eq!(convert_paths(&sample(), &images), convert_paths(&sample(), &nothing));
}

#[test]
fn convert_paths_on_a_tree() {
    let options = ConvertOptions::new("some.domain");
    assert_eq!(
        convert_paths(&sample(), &options),
        "<div id=\"main\" class=\"box\"><span style=\"color: red;\">Remove me</span><br><a href=\"https://some.domain/here\" class=\"link\">link</a></div>"
    );
}

#[test]
fn convert_paths_touches_only_the_attribute_that_holds_the_path() {
    let options = ConvertOptions::new("h").set_tags(vec![ConvertTag::A, ConvertTag::Img]);
    let tree = document(vec![
        element("a", &[("src", "/x"), ("href", "/y"), ("title", "/z")], vec![]),
        element("img", &[("href", "/x"), ("src", "/y")], vec![]),
        element("link", &[("href", "/x")], vec![]),
    ]);
    assert_eq!(
        convert_paths(&tree, &options),
        "<a src=\"/x\" href=\"https://h/y\" title=\"/z\"></a><img href=\"/x\" src=\"https://h/y\"><link href=\"/x\">"
    );
}

#[test]
fn no_policy_writes_an_end_tag_for_a_void_element() {
    let tree = element(
        "p",
        &[],
        vec![text("a"), element("br", &[], vec![]), text("b"), element("img", &[("src", "/x")], vec![])],
    );
    let none = OmitOptions { attrs: vec![], tag_attrs: vec![] };
    assert_eq!(omit_attributes(&tree, &none), "<p>a<br>b<img src=\"/x\"></p>");
    let anchors = ConvertOptions::new("some.domain");
    assert_eq!(convert_paths(&tree, &anchors), "<p>a<br>b<img src=\"/x\"></p>");
    let images = ConvertOptions::new("some.domain").set_tags(vec![ConvertTag::Img]);
    assert_eq!(
        convert_paths(&tree, &images),
        "<p>a<br>b<img src=\"https://some.domain/x\"></p>"
    );
    assert_eq!(omit_enclosures(&tree, "<html><head><body>", &[]), "<p>a<br>b<img src=\"/x\"></p>");
}

#[test]
fn every_policy_writes_an_untargeted_tree_alike() {
    let none = OmitOptions { attrs: vec!["title".to_string()], tag_attrs: vec![] };
    let images = ConvertOptions::new("some.domain").set_tags(vec![ConvertTag::Img]);
    let plain = omit_enclosures(&sample(), "<html><head><body>", &[]);
    assert_eq!(omit_attributes(&sample(), &none), plain);
    assert_eq!(convert_paths(&sample(), &images), plain);
    assert_eq!(
        plain,
        "<div id=\"main\" class=\"box\"><span style=\"color: red;\">Remove me</span><br><a href=\"/here\" class=\"link\">link</a></div>"
    );
}
