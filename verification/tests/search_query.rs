use minero::interpreter::{
    album_query_sql_from_input, parse_search, FilterField, ALBUM_CONDITION, ALBUM_QUERY_BASE,
    ALBUM_QUERY_TAIL, ARTIST_CONDITION, TITLE_CONDITION,
};

fn unfiltered() -> String {
    format!("{ALBUM_QUERY_BASE}{ALBUM_QUERY_TAIL}")
}

#[test]
fn empty_search_gives_unfiltered_query() {
    let (sql, params) = album_query_sql_from_input("");
    assert_eq!(sql, unfiltered());
    assert!(params.is_empty());
}

#[test]
fn blank_and_unknown_tokens_give_unfiltered_query() {
    for input in ["   ", "&&,,", "nirvana", "ar:   , al:\t", "xx: yy & zz"] {
        let (sql, params) = album_query_sql_from_input(input);
        assert_eq!(sql, unfiltered(), "input {input:?}");
        assert!(params.is_empty(), "input {input:?}");
    }
}

#[test]
fn single_artist_filter() {
    let (sql, params) = album_query_sql_from_input("ar: Nirvana");
    assert_eq!(sql, format!("{ALBUM_QUERY_BASE} WHERE ({ARTIST_CONDITION}){ALBUM_QUERY_TAIL}"));
    assert_eq!(params, vec!["Nirvana".to_string()]);
}

#[test]
fn commas_are_or_and_ampersands_are_and() {
    let (sql, params) = album_query_sql_from_input("ar: Red Hot, al: Nevermind & ca: Lithium");
    assert_eq!(
        sql,
        format!(
            "{ALBUM_QUERY_BASE} WHERE ({ARTIST_CONDITION} OR {ALBUM_CONDITION}) AND ({TITLE_CONDITION}){ALBUM_QUERY_TAIL}"
        )
    );
    assert_eq!(params, vec!["Red Hot".to_string(), "Nevermind".to_string(), "Lithium".to_string()]);
}

#[test]
fn prefixes_ignore_case_and_values_are_trimmed() {
    let (sql, params) = album_query_sql_from_input("  AR:   Radiohead \t, Al:OK Computer ,cA: x");
    assert_eq!(
        sql,
        format!(
            "{ALBUM_QUERY_BASE} WHERE ({ARTIST_CONDITION} OR {ALBUM_CONDITION} OR {TITLE_CONDITION}){ALBUM_QUERY_TAIL}"
        )
    );
    assert_eq!(params, vec!["Radiohead".to_string(), "OK Computer".to_string(), "x".to_string()]);
}

#[test]
fn groups_without_filters_are_dropped() {
    let (sql, params) = album_query_sql_from_input("& foo & al: Nevermind & ar: &");
    assert_eq!(sql, format!("{ALBUM_QUERY_BASE} WHERE ({ALBUM_CONDITION}){ALBUM_QUERY_TAIL}"));
    assert_eq!(params, vec!["Nevermind".to_string()]);
}

#[test]
fn value_keeps_inner_colons_and_spaces() {
    let (_, params) = album_query_sql_from_input("ca: Re: Stacks  (live)");
    assert_eq!(params, vec!["Re: Stacks  (live)".to_string()]);
}

#[test]
fn placeholders_match_parameters() {
    for input in ["", "ar: a", "ar: a, al: b & ca: c", "al: x & al: y & al: z, ar: w", "ca: ? & ar: ?"] {
        let (sql, params) = album_query_sql_from_input(input);
        let user_marks: usize = params.iter().map(|p| p.matches('?').count()).sum();
        assert_eq!(sql.matches('?').count(), params.len(), "input {input:?}");
        assert_eq!(user_marks, params.iter().filter(|p| p.as_str() == "?").count());
    }
}

#[test]
fn parse_search_reads_groups_and_fields() {
    let groups = parse_search("ar: Nirvana, ca: Lithium & al: Nevermind");
    assert_eq!(groups.len(), 2);
    assert_eq!(groups[0].len(), 2);
    assert_eq!(groups[0][0].field, FilterField::Artist);
    assert_eq!(groups[0][0].value, "Nirvana");
    assert_eq!(groups[0][1].field, FilterField::Title);
    assert_eq!(groups[0][1].value, "Lithium");
    assert_eq!(groups[1].len(), 1);
    assert_eq!(groups[1][0].field, FilterField::Album);
    assert_eq!(groups[1][0].value, "Nevermind");
}

#[test]
fn unicode_whitespace_is_trimmed_like_str_trim() {
    let groups = parse_search("\u{3000}ar:\u{00A0}Björk\u{2003}");
    assert_eq!(groups.len(), 1);
    assert_eq!(groups[0][0].value, "Björk");
    assert_eq!(groups[0][0].value, "\u{3000}ar:\u{00A0}Björk\u{2003}".trim()[3..].trim());
}

#[test]
fn every_parsed_group_is_nonempty_with_clean_values() {
    for input in ["ar:  x  , al:\ty\t& & ca: z", " al: a,al: b,, & ar: c & xx", "ca:\u{3000}q\u{2029}"] {
        for group in parse_search(input) {
            assert!(!group.is_empty(), "input {input:?}");
            for filter in group {
                assert!(!filter.value.is_empty());
                assert_eq!(filter.value.trim(), filter.value);
            }
        }
    }
}

#[test]
fn and_part_without_filters_changes_nothing() {
    for s in ["ar: Nirvana", "al: Post, ca: Army of Me & ar: Björk", ""] {
        for u in ["", "foo", "xx: 1", "ar:", " ar:  , zz"] {
            assert_eq!(album_query_sql_from_input(&format!("{s} & {u}")), album_query_sql_from_input(s));
            assert_eq!(album_query_sql_from_input(&format!("{s}&{u}")), album_query_sql_from_input(s));
        }
    }
}

#[test]
fn and_joins_the_groups_of_both_parts() {
    let joined = parse_search("ar: A, al: B & ca: C");
    let left = parse_search("ar: A, al: B");
    let right = parse_search("ca: C");
    assert_eq!(joined.len(), left.len() + right.len());
    assert_eq!(joined[0].len(), 2);
    assert_eq!(joined[1][0].field, FilterField::Title);
    assert_eq!(joined[1][0].value, "C");
}

#[test]
fn comma_part_without_filters_changes_nothing() {
    for s in ["ar: Nirvana", "al: Post & ca: Army of Me", "ar: x, al: y", ""] {
        for u in ["", "foo", "xx: 1", "al:", "zz & ca:  "] {
            assert_eq!(album_query_sql_from_input(&format!("{s}, {u}")), album_query_sql_from_input(s));
        }
    }
}

#[test]
fn case_of_prefix_letters_is_ignored() {
    for (a, b) in [("AR: x", "ar: x"), ("Al: Post", "aL: Post"), ("  CA: Lithium", "  ca: Lithium")] {
        assert_eq!(album_query_sql_from_input(a), album_query_sql_from_input(b));
    }
    assert_eq!(
        album_query_sql_from_input("al: Post & AR: Björk, cA: Army"),
        album_query_sql_from_input("al: Post & ar: Björk, ca: Army"),
    );
    // The value itself keeps its case.
    assert_ne!(album_query_sql_from_input("ar: X"), album_query_sql_from_input("ar: x"));
}
