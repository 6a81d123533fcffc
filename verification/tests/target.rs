use story_zone::target::{build_target_zone, query_value, TargetError};

fn target(page: &str) -> (String, String) {
    match build_target_zone(page) {
        Ok(found) => found,
        Err(TargetError::Document(e)) => panic!("the page is no URL: {:?}", e),
        Err(TargetError::Zone(e)) => panic!("the script has no URL: {:?}", e),
    }
}

#[test]
fn the_query_names_script_and_session() {
    assert_eq!(
        target("https://example.com/game/index.html?zone=caves.zone&session=abc#top"),
        ("https://example.com/game/caves.zone".to_string(), "abc".to_string())
    );
}

#[test]
fn defaults_without_a_query() {
    assert_eq!(
        target("https://example.com/game/"),
        ("https://example.com/game/static/index.zone".to_string(), "session".to_string())
    );
    assert_eq!(
        target("https://example.com/game/?other=1"),
        ("https://example.com/game/static/index.zone".to_string(), "session".to_string())
    );
}

#[test]
fn the_last_of_two_values_counts() {
    assert_eq!(
        target("https://example.com/?zone=a.zone&session=s1&zone=b.zone&session=s2"),
        ("https://example.com/b.zone".to_string(), "s2".to_string())
    );
}

#[test]
fn values_are_decoded() {
    assert_eq!(
        target("https://example.com/x/?zone=my%20caves.zone&session=a+b"),
        ("https://example.com/x/my%20caves.zone".to_string(), "a b".to_string())
    );
}

#[test]
fn query_and_fragment_of_the_page_are_dropped() {
    assert_eq!(
        target("https://example.com/a/b?zone=&x=1#frag"),
        ("https://example.com/a/b".to_string(), "session".to_string())
    );
}

#[test]
fn a_page_that_is_no_url() {
    match build_target_zone("not a url") {
        Err(TargetError::Document(e)) => assert_eq!(e, url::ParseError::RelativeUrlWithoutBase),
        _ => panic!("the page should not be a URL"),
    }
}

#[test]
fn a_script_that_has_no_url() {
    match build_target_zone("https://example.com/?zone=http%3A%2F%2F%5B") {
        Err(TargetError::Zone(_)) => {}
        _ => panic!("the script should have no URL"),
    }
}

#[test]
fn query_value_takes_the_last_pair_of_the_key() {
    let pairs = vec![
        ("a".to_string(), "1".to_string()),
        ("b".to_string(), "2".to_string()),
        ("a".to_string(), "3".to_string()),
    ];
    assert_eq!(query_value(&pairs, "a", "none"), "3");
    assert_eq!(query_value(&pairs, "b", "none"), "2");
    assert_eq!(query_value(&pairs, "c", "none"), "none");
    assert_eq!(query_value(&Vec::new(), "a", "none"), "none");
}

#[test]
fn the_address_is_read_as_a_url() {
    assert_eq!(
        target("HTTPS://Example.COM:443/game/../play/?zone=A.zone"),
        ("https://example.com/play/A.zone".to_string(), "session".to_string())
    );
}
