use otlp_exporter::headers::parse_header_pairs;

fn pairs(s: &str) -> Vec<(String, String)> {
    parse_header_pairs(s).into_iter().map(|l| (l.key, l.value)).collect()
}

#[test]
fn pairs_split_on_commas_and_first_equals() {
    assert_eq!(
        pairs("a=1,b=2"),
        vec![("a".to_string(), "1".to_string()), ("b".to_string(), "2".to_string())]
    );
}

#[test]
fn keys_and_values_are_trimmed() {
    assert_eq!(
        pairs(" a = 1 ,  b =\t2  "),
        vec![("a".to_string(), "1".to_string()), ("b".to_string(), "2".to_string())]
    );
}

#[test]
fn pieces_without_equals_are_ignored() {
    assert_eq!(pairs("a=1,c,b=2"), vec![
        ("a".to_string(), "1".to_string()),
        ("b".to_string(), "2".to_string()),
    ]);
    assert_eq!(pairs(""), Vec::<(String, String)>::new());
    assert_eq!(pairs("just-a-token"), Vec::<(String, String)>::new());
}

#[test]
fn only_the_first_equals_splits() {
    assert_eq!(
        pairs("authorization=Basic dXNlcg==,x=y"),
        vec![
            ("authorization".to_string(), "Basic dXNlcg==".to_string()),
            ("x".to_string(), "y".to_string()),
        ]
    );
}
