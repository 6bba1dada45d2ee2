use asc_core::dump::queries::query_names;

#[test]
fn query_names_trims_and_skips_blank_lines() {
    let content = "  Lcom/example/Main;\r\n\n\t\nLa/B;  \r\n\u{3000}Lc/D;\u{a0}\nLast;";
    assert_eq!(
        query_names(content),
        vec![
            "Lcom/example/Main;".to_string(),
            "La/B;".to_string(),
            "Lc/D;".to_string(),
            "Last;".to_string(),
        ]
    );
}

#[test]
fn query_names_of_empty_and_blank_files() {
    assert!(query_names("").is_empty());
    assert!(query_names("\n \r\n\t").is_empty());
    assert_eq!(query_names("x\n"), vec!["x".to_string()]);
}
