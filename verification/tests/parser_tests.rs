use core_engine::parser::{
    count_nodes_within, is_hidden_style, ParserConfig, RawElement, SemanticNode, SemanticParser,
};

fn raw(tag: &str) -> RawElement {
    RawElement {
        tag: tag.to_string(),
        id: None,
        class: None,
        name: None,
        role: None,
        text: String::new(),
        value: None,
        placeholder: None,
        href: None,
        style: None,
        attributes: Vec::new(),
        children: Vec::new(),
    }
}

fn collect_ids(nodes: &[SemanticNode], out: &mut Vec<u32>) {
    for n in nodes {
        out.push(n.id);
        collect_ids(&n.children, out);
    }
}

#[test]
fn test_parser_creation() {
    let parser = SemanticParser::default_parser();
    assert_eq!(parser.config.max_depth, 20);
}

#[test]
fn test_interactive_detection() {
    let parser = SemanticParser::default_parser();

    // Button should be interactive
    assert!(parser.is_interactive("button", None, &Vec::new()));

    // Input should be interactive
    assert!(parser.is_interactive("input", None, &Vec::new()));

    // Div should not be interactive
    assert!(!parser.is_interactive("div", None, &Vec::new()));

    // Link should be interactive (has href)
    let mut attrs = Vec::new();
    attrs.push("href".to_string());
    assert!(parser.is_interactive("div", None, &attrs));
}

#[test]
fn test_hidden_detection() {
    let parser = SemanticParser::default_parser();

    // Visible element
    assert!(!parser.is_hidden_element(&None));

    // Hidden element
    assert!(parser.is_hidden_element(&Some("display: none".to_string())));

    // Hidden via opacity
    assert!(parser.is_hidden_element(&Some("opacity: 0".to_string())));
}

#[test]
fn test_skip_tags() {
    let parser = SemanticParser::default_parser();

    assert!(parser.should_skip_tag("script"));
    assert!(parser.should_skip_tag("style"));
    assert!(!parser.should_skip_tag("div"));
}

#[test]
fn default_config_contents() {
    let c = ParserConfig::default();
    assert_eq!(c.min_text_length, 1);
    assert_eq!(c.interactive_tags.len(), 11);
    assert_eq!(c.interactive_roles.len(), 16);
    assert_eq!(c.skip_tags, vec!["script", "style", "noscript", "meta", "link", "head", "template"]);
    assert_eq!(c.hidden_selectors.len(), 8);
    assert_eq!(c.hidden_selectors[7], "[aria-hidden='true']");
}

#[test]
fn hidden_is_case_insensitive_and_spacing_tolerant() {
    let parser = SemanticParser::default_parser();
    assert!(parser.is_hidden_element(&Some("DISPLAY:NONE".to_string())));
    assert!(parser.is_hidden_element(&Some("color: red; Visibility: Hidden".to_string())));
    assert!(parser.is_hidden_element(&Some("Opacity:0".to_string())));
    assert!(!parser.is_hidden_element(&Some("display: block".to_string())));
    assert!(is_hidden_style("visibility:hidden"));
    assert!(!is_hidden_style("VISIBILITY:HIDDEN"));
}

#[test]
fn interactive_by_role_and_attribute() {
    let parser = SemanticParser::default_parser();
    assert!(parser.is_interactive("div", Some("checkbox"), &Vec::new()));
    assert!(!parser.is_interactive("div", Some("banner"), &Vec::new()));
    assert!(parser.is_interactive("span", None, &vec!["onblur".to_string()]));
    assert!(!parser.is_interactive("span", None, &vec!["role".to_string(), "title".to_string()]));
}

#[test]
fn selector_generation() {
    let parser = SemanticParser::default_parser();
    let mut e = raw("input");
    e.id = Some("q".to_string());
    e.class = Some("big".to_string());
    assert_eq!(parser.generate_selector(&e, 0), "#q");
    e.id = None;
    e.class = Some("  primary wide ".to_string());
    e.name = Some("user".to_string());
    e.value = Some("text".to_string());
    assert_eq!(parser.generate_selector(&e, 3), "input.primary[name=\"user\"][type=\"text\"]");
    let mut d = raw("div");
    d.class = Some("   ".to_string());
    d.value = Some("ignored".to_string());
    assert_eq!(parser.generate_selector(&d, 0), "div");
}

#[test]
fn parse_html_extracts_interactive_elements() {
    let mut parser = SemanticParser::default_parser();
    let r = parser.parse_html("<button>OK</button>");
    assert_eq!(r.len(), 1);
    assert_eq!(r[0].tag, "button");
    assert_eq!(r[0].text, "OK");
    assert!(r[0].is_interactive);
    assert_eq!(r[0].id, 1);
    assert_eq!(r[0].path, "button");
    assert_eq!(parser.next_id, 2);
}

#[test]
fn parse_html_orders_by_tag_then_document() {
    let mut parser = SemanticParser::default_parser();
    let html = "<div><label for=q> Search <b>all</b> </label><input id=q name=q/>\
                <a href=\"/x\">X</a><abbr>no</abbr><button type=submit>\n Go \n</button>\
                <button>Two</button><textarea>t</textarea><select><option>o</option></select></div>";
    let r = parser.parse_html(html);
    let tags: Vec<&str> = r.iter().map(|n| n.tag.as_str()).collect();
    assert_eq!(tags, vec!["button", "button", "input", "a", "select", "textarea", "label"]);
    let texts: Vec<&str> = r.iter().map(|n| n.text.as_str()).collect();
    assert_eq!(texts, vec!["Go", "Two", "", "X", "o", "t", "Search all"]);
    let ids: Vec<u32> = r.iter().map(|n| n.id).collect();
    assert_eq!(ids, vec![1, 2, 3, 4, 5, 6, 7]);
    assert!(r.iter().all(|n| n.is_interactive && n.children.is_empty()));
    assert_eq!(parser.next_id, 8);
    assert!(parser.parse_html("plain text, <p>no controls</p>").is_empty());
    assert_eq!(parser.next_id, 8);
    let unclosed = parser.parse_html("<a>rest of page");
    assert_eq!(unclosed[0].text, "rest of page");
}

#[test]
fn parse_html_checked_respects_id_budget() {
    let mut parser = SemanticParser::default_parser();
    parser.next_id = u32::MAX - 1;
    assert!(parser.parse_html_checked("<a>x</a><a>y</a>").is_none());
    assert_eq!(parser.next_id, u32::MAX - 1);
    let r = parser.parse_html_checked("<a>x</a>").unwrap();
    assert_eq!(r[0].id, u32::MAX - 1);
    assert_eq!(parser.next_id, u32::MAX);
}

#[test]
fn parse_elements_filters_and_numbers() {
    let mut parser = SemanticParser::default_parser();
    let mut button = raw("button");
    button.text = "  Submit \n".to_string();
    let script = raw("script");
    let mut hidden = raw("a");
    hidden.style = Some("display:none".to_string());
    let empty_div = raw("div");
    let mut container = raw("div");
    let mut link = raw("span");
    link.attributes = vec!["href".to_string()];
    link.href = Some("/next".to_string());
    let mut label = raw("p");
    label.text = "hello".to_string();
    container.children = vec![link, label];
    let nodes = parser.parse_elements(vec![button, script, hidden, empty_div, container]);
    assert_eq!(nodes.len(), 2);
    assert_eq!(nodes[0].id, 1);
    assert_eq!(nodes[0].text, "Submit");
    assert!(nodes[0].is_interactive);
    assert_eq!(nodes[0].path, "button");
    assert_eq!(nodes[1].id, 2);
    assert!(!nodes[1].is_interactive);
    assert_eq!(nodes[1].children.len(), 2);
    assert_eq!(nodes[1].children[0].id, 3);
    assert!(nodes[1].children[0].is_interactive);
    assert_eq!(nodes[1].children[0].href, Some("/next".to_string()));
    assert_eq!(nodes[1].children[1].id, 4);
    assert_eq!(parser.next_id, 5);
}

#[test]
fn ids_are_unique_and_consecutive_across_calls() {
    let mut parser = SemanticParser::default_parser();
    let mut outer = raw("form");
    let mut inner = raw("fieldset");
    inner.children = vec![raw("input"), raw("select")];
    outer.children = vec![inner, raw("textarea")];
    let first = parser.parse_elements(vec![outer, raw("a")]);
    let second = parser.parse_elements(vec![raw("button")]);
    let mut ids = Vec::new();
    collect_ids(&first, &mut ids);
    collect_ids(&second, &mut ids);
    assert_eq!(ids, vec![1, 2, 3, 4, 5, 6, 7]);
}

#[test]
fn checked_parse_respects_id_budget() {
    let mut parser = SemanticParser::default_parser();
    parser.next_id = u32::MAX - 1;
    assert!(parser.parse_elements_checked(vec![raw("a"), raw("button")]).is_none());
    assert_eq!(parser.next_id, u32::MAX - 1);
    // A dropped element needs no id.
    let nodes = parser.parse_elements_checked(vec![raw("a"), raw("b")]).unwrap();
    assert_eq!(nodes.len(), 1);
    assert_eq!(nodes[0].id, u32::MAX - 1);
    assert_eq!(parser.next_id, u32::MAX);
}

#[test]
fn counting_nodes() {
    let mut parser = SemanticParser::default_parser();
    let mut outer = raw("form");
    outer.children = vec![raw("a"), raw("button")];
    let forest = parser.parse_elements(vec![outer, raw("input")]);
    assert_eq!(count_nodes_within(&forest, 4), Some(4));
    assert_eq!(count_nodes_within(&forest, 10), Some(4));
    assert_eq!(count_nodes_within(&forest, 3), None);
    assert_eq!(count_nodes_within(&Vec::new(), 0), Some(0));
}

#[test]
fn node_clone_is_deep() {
    let mut parser = SemanticParser::default_parser();
    let mut form = raw("form");
    form.children = vec![raw("input"), raw("button")];
    let nodes = parser.parse_elements(vec![form]);
    let copy = nodes[0].clone();
    assert_eq!(copy.id, nodes[0].id);
    assert_eq!(copy.path, nodes[0].path);
    assert_eq!(copy.children.len(), 2);
    assert_eq!(copy.children[1].tag, "button");
    assert_eq!(copy.children[1].id, nodes[0].children[1].id);
}

#[test]
fn raw_clone_is_deep() {
    let mut outer = raw("ul");
    let mut item = raw("li");
    item.attributes = vec!["onclick".to_string()];
    item.text = "One".to_string();
    outer.children = vec![item];
    outer.style = Some("color: red".to_string());
    let copy = outer.clone();
    assert_eq!(copy.style, outer.style);
    assert_eq!(copy.children.len(), 1);
    assert_eq!(copy.children[0].attributes, vec!["onclick".to_string()]);
    assert_eq!(copy.children[0].text, "One");
}

#[test]
fn opacity_is_compared_with_zero() {
    let parser = SemanticParser::default_parser();
    assert!(parser.is_hidden_element(&Some("opacity:0".to_string())));
    assert!(parser.is_hidden_element(&Some("opacity: 0".to_string())));
    assert!(parser.is_hidden_element(&Some("color: red; opacity:  0.0;".to_string())));
    assert!(parser.is_hidden_element(&Some("opacity:.0 !important".to_string())));
    assert!(!parser.is_hidden_element(&Some("opacity: 0.5".to_string())));
    assert!(!parser.is_hidden_element(&Some("opacity:0.9".to_string())));
    assert!(!parser.is_hidden_element(&Some("opacity: 1".to_string())));
    assert!(!parser.is_hidden_element(&Some("opacity:".to_string())));
    assert!(!parser.is_hidden_element(&Some("opacity: 0..0".to_string())));
    assert!(!is_hidden_style("opacity: 05"));
}

#[test]
fn hidden_selectors_drop_elements() {
    let mut parser = SemanticParser::default_parser();
    assert!(parser.is_hidden_by_selector(&vec!["hidden".to_string()]));
    assert!(parser.is_hidden_by_selector(&vec!["id".to_string(), "aria-hidden='true'".to_string()]));
    assert!(!parser.is_hidden_by_selector(&vec!["aria-hidden='false'".to_string()]));
    assert!(!parser.is_hidden_by_selector(&Vec::new()));
    let mut b = raw("button");
    b.attributes = vec!["hidden".to_string()];
    let nodes = parser.parse_elements(vec![b, raw("a")]);
    assert_eq!(nodes.len(), 1);
    assert_eq!(nodes[0].tag, "a");
    assert_eq!(nodes[0].id, 1);
    assert_eq!(parser.next_id, 2);
}

#[test]
fn depth_limit_cuts_nested_elements() {
    let mut config = ParserConfig::default();
    config.max_depth = 1;
    let mut parser = SemanticParser::new(config);
    let mut outer = raw("form");
    outer.children = vec![raw("button")];
    let nodes = parser.parse_elements(vec![outer]);
    assert_eq!(nodes.len(), 1);
    assert!(nodes[0].children.is_empty());
    assert_eq!(parser.next_id, 2);

    let mut config = ParserConfig::default();
    config.max_depth = 2;
    let mut parser = SemanticParser::new(config);
    let mut outer = raw("form");
    let mut middle = raw("fieldset");
    middle.children = vec![raw("input")];
    outer.children = vec![middle];
    let nodes = parser.parse_elements(vec![outer]);
    assert_eq!(nodes[0].children.len(), 1);
    assert!(nodes[0].children[0].children.is_empty());

    let mut config = ParserConfig::default();
    config.max_depth = 0;
    let mut parser = SemanticParser::new(config);
    assert!(parser.parse_elements(vec![raw("button")]).is_empty());
    assert_eq!(parser.next_id, 1);
}

#[test]
fn consecutive_static_text_is_merged() {
    let mut parser = SemanticParser::default_parser();
    let mut a = raw("p");
    a.text = " Hello ".to_string();
    let mut b = raw("span");
    b.text = "world".to_string();
    let mut c = raw("p");
    c.text = "again".to_string();
    let mut d = raw("p");
    d.text = "after".to_string();
    let nodes = parser.parse_elements(vec![a, b, c, raw("button"), d]);
    assert_eq!(nodes.len(), 3);
    assert_eq!(nodes[0].tag, "p");
    assert_eq!(nodes[0].text, "Hello world again");
    assert_eq!(nodes[0].id, 1);
    assert_eq!(nodes[1].tag, "button");
    assert_eq!(nodes[1].id, 2);
    assert_eq!(nodes[2].text, "after");
    assert_eq!(nodes[2].id, 3);
    assert_eq!(parser.next_id, 4);
}

#[test]
fn minimum_text_length_filters_static_text() {
    let mut config = ParserConfig::default();
    config.min_text_length = 4;
    let mut parser = SemanticParser::new(config);
    let mut short = raw("p");
    short.text = " abc ".to_string();
    let mut long = raw("p");
    long.text = "abcd".to_string();
    let nodes = parser.parse_elements(vec![short, raw("a"), long]);
    assert_eq!(nodes.len(), 2);
    assert_eq!(nodes[0].tag, "a");
    assert_eq!(nodes[1].text, "abcd");
}

#[test]
fn ids_stay_consecutive_after_merging_across_calls() {
    let mut parser = SemanticParser::default_parser();
    let mut form = raw("form");
    let mut t1 = raw("p");
    t1.text = "one".to_string();
    let mut t2 = raw("p");
    t2.text = "two".to_string();
    form.children = vec![t1, t2, raw("input")];
    let first = parser.parse_elements(vec![form, raw("a")]);
    assert_eq!(first[0].children[0].text, "one two");
    let second = parser.parse_elements(vec![raw("button")]);
    let mut ids = Vec::new();
    collect_ids(&first, &mut ids);
    collect_ids(&second, &mut ids);
    assert_eq!(ids, vec![1, 2, 3, 4, 5]);
    assert_eq!(parser.next_id, 6);
}
