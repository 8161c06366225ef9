use slack_log::form::request_build;

fn pair(name: &str, value: &str) -> (String, String) {
    (name.to_string(), value.to_string())
}

#[test]
fn a_form_is_encoded_byte_by_byte() {
    let pairs = vec![pair("user", "U 1&2=\u{e9}*-._~"), pair("token", "xoxp-1")];
    let post = request_build("https://slack.com/api/users.info", &pairs);
    assert_eq!(post.body, "user=U+1%262%3D%C3%A9*-._%7E&token=xoxp-1");
    assert_eq!(post.content_length, 41);
    assert_eq!(post.content_type, "application/x-www-form-urlencoded");
    assert_eq!(post.uri, "https://slack.com/api/users.info");
}

#[test]
fn a_form_without_fields_is_empty() {
    let post = request_build("u", &vec![]);
    assert_eq!(post.body, "");
    assert_eq!(post.content_length, 0);
}

#[test]
fn names_and_values_may_be_empty() {
    let post = request_build("u", &vec![pair("", ""), pair("a", "")]);
    assert_eq!(post.body, "=&a=");
    assert_eq!(post.content_length, 4);
}

#[test]
fn the_length_counts_the_characters_of_the_body() {
    let post = request_build("u", &vec![pair("\u{20ac}", "\u{1f600}")]);
    assert_eq!(post.body, "%E2%82%AC=%F0%9F%98%80");
    assert_eq!(post.content_length, post.body.chars().count() as u64);
}

#[test]
fn forms_with_other_fields_have_other_bodies() {
    let one = request_build("u", &vec![pair("a", "b&c=d")]);
    let two = request_build("u", &vec![pair("a", "b"), pair("c", "d")]);
    assert_eq!(one.body, "a=b%26c%3Dd");
    assert_eq!(two.body, "a=b&c=d");
    assert_ne!(one.body, two.body);
}
