use minero::query::query_generator;

#[test]
fn query_generator_keeps_empty_input() {
    let query = query_generator("");
    assert_eq!(query.raw, "");
}

#[test]
fn query_generator_preserves_raw_expression() {
    let input = "ar: red hot chili peppers & al: californication, ca: scar tissue";
    let query = query_generator(input);

    assert_eq!(query.raw, input);
}
