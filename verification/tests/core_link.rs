use coap_server::app::core_link::{
    core_payload, filter_by_query, parse_query, request_queries, CoreLink, DiscoverableResource,
    LinkAttributeValue,
};

fn format_links(links: Vec<CoreLink>) -> String {
    let resources: Vec<DiscoverableResource> = links.into_iter().map(DiscoverableResource::from_link).collect();
    core_payload(&resources, &vec![])
}

#[test]
fn test_multiple() {
    let mut a = CoreLink::new("/a");
    a.attr("rt", LinkAttributeValue::Text("a".to_string()));
    // ContentFormat::ApplicationJSON has code 50.
    a.attr("ct", LinkAttributeValue::ContentFormat(50));

    let mut b = CoreLink::new("/b/whatever");
    b.attr("obs", LinkAttributeValue::Empty);

    let out = format_links(vec![a, b]);

    assert_eq!(out, r#"</a>;rt="a";ct=50,</b/whatever>;obs="#);
}

#[test]
fn test_clone() {
    let mut a = CoreLink::new("/a");
    a.attr("rt", LinkAttributeValue::Text("a".to_string()));

    let b = a.clone();

    assert_eq!(format_links(vec![a]), format_links(vec![b]));
}

#[test]
fn quoted_values_are_escaped() {
    let mut a = CoreLink::new("/q");
    a.attr("title", LinkAttributeValue::Text("say \"hi\" \\o/".to_string()));
    a.attr("sz", LinkAttributeValue::U32(1024));
    assert_eq!(a.format_single_link(), r#"</q>;title="say \"hi\" \\o/";sz=1024"#);
}

#[test]
fn comparison_text_of_values() {
    assert_eq!(LinkAttributeValue::Text("x y".to_string()).format_for_comparison(), "x y");
    assert_eq!(LinkAttributeValue::U32(0).format_for_comparison(), "0");
    assert_eq!(LinkAttributeValue::ContentFormat(40).format_for_comparison(), "40");
    assert_eq!(LinkAttributeValue::Empty.format_for_comparison(), "");
}

fn sample() -> Vec<DiscoverableResource> {
    let mut a = CoreLink::new("/a");
    a.attr("rt", LinkAttributeValue::Text("temp".to_string()));
    a.attr("ct", LinkAttributeValue::ContentFormat(0));
    let mut b = CoreLink::new("/b");
    b.attr("rt", LinkAttributeValue::Text("light".to_string()));
    let c = CoreLink::new("/c");
    vec![DiscoverableResource::from_link(a), DiscoverableResource::from_link(b), DiscoverableResource::from_link(c)]
}

#[test]
fn filter_by_query_needs_every_pair() {
    let rs = sample();
    let q = vec![("rt".to_string(), "temp".to_string())];
    assert!(filter_by_query(&rs[0], &q));
    assert!(!filter_by_query(&rs[1], &q));
    assert!(!filter_by_query(&rs[2], &q));
    let q2 = vec![("rt".to_string(), "temp".to_string()), ("ct".to_string(), "0".to_string())];
    assert!(filter_by_query(&rs[0], &q2));
    let q3 = vec![("rt".to_string(), "temp".to_string()), ("ct".to_string(), "1".to_string())];
    assert!(!filter_by_query(&rs[0], &q3));
    assert!(filter_by_query(&rs[2], &vec![]));
}

#[test]
fn later_query_pair_with_same_key_wins() {
    let rs = sample();
    let q = vec![("rt".to_string(), "light".to_string()), ("rt".to_string(), "temp".to_string())];
    assert!(filter_by_query(&rs[0], &q));
    assert!(!filter_by_query(&rs[1], &q));
}

#[test]
fn core_payload_filters_and_joins() {
    let rs = sample();
    assert_eq!(core_payload(&rs, &vec![]), r#"</a>;rt="temp";ct=0,</b>;rt="light",</c>"#);
    assert_eq!(core_payload(&rs, &vec![("rt".to_string(), "light".to_string())]), r#"</b>;rt="light""#);
    assert_eq!(core_payload(&rs, &vec![("rt".to_string(), "none".to_string())]), "");
}

#[test]
fn parse_query_splits_at_first_equals() {
    assert_eq!(parse_query("rt=a=b"), Some(("rt".to_string(), "a=b".to_string())));
    assert_eq!(parse_query("rt="), Some(("rt".to_string(), "".to_string())));
    assert_eq!(parse_query("flag"), None);
}

#[test]
fn request_queries_skips_undecodable_and_bare_options() {
    let options = vec![b"rt=temp".to_vec(), vec![0xff, 0xfe], b"bare".to_vec(), b"ct=0".to_vec()];
    let q = request_queries(&options);
    assert_eq!(q, vec![("rt".to_string(), "temp".to_string()), ("ct".to_string(), "0".to_string())]);
}
