use mstodo::ops::StoreError;
use mstodo::search::{match_expression, search_query, tidy_snippet};

fn expression(query: &str) -> String {
    match match_expression(query) {
        Ok(expression) => expression,
        Err(_) => panic!("{query:?} should be valid"),
    }
}

fn invalid(query: &str) -> bool {
    matches!(match_expression(query), Err(StoreError::InvalidQuery(_)))
}

#[test]
fn plain_words_are_quoted_and_anded() {
    assert_eq!(expression("car insurance"), r#""car" AND "insurance""#);
    assert_eq!(
        expression("e-mail don't v1.2"),
        r#""e-mail" AND "don't" AND "v1.2""#
    );
    assert_eq!(
        expression("milk (eggs OR bread)"),
        r#""milk" AND ( "eggs" OR "bread" )"#
    );
}

#[test]
fn operators_phrases_prefixes_and_parentheses_pass_through() {
    assert_eq!(
        expression(r#"(insur* OR "car tax") NOT renew"#),
        r#"( "insur"* OR "car tax" ) NOT "renew""#
    );
    assert_eq!(expression(r#""car ta"*"#), r#""car ta"*"#);
    assert_eq!(expression(r#""say ""hi""""#), r#""say ""hi""""#);
    // Lowercase operators are words, as in FTS5.
    assert_eq!(expression("rock or roll"), r#""rock" AND "or" AND "roll""#);
}

#[test]
fn punctuation_alone_is_skipped_and_nothing_left_is_an_error() {
    assert_eq!(expression("milk - eggs"), r#""milk" AND "eggs""#);
    assert!(invalid("  -- * "));
    assert!(invalid(r#""unclosed"#));
}

#[test]
fn snippets_are_one_line() {
    assert_eq!(
        tidy_snippet("renew\n the **car**  insurance…"),
        "renew the **car** insurance…"
    );
}

#[test]
fn the_filter_matches_the_word_being_typed_as_a_prefix() {
    assert_eq!(search_query("mil"), "mil*");
    assert_eq!(search_query("milk "), "milk");
    assert_eq!(search_query("milk OR"), "milk OR");
    assert_eq!(search_query("insur*"), "insur*");
    assert_eq!(search_query("\"car tax\""), "\"car tax\"");
}

#[test]
fn the_error_names_why_a_query_has_no_expression() {
    match match_expression("  -- * ") {
        Err(StoreError::InvalidQuery(message)) => {
            assert_eq!(message, "\"  -- * \" has no words to search for")
        }
        _ => panic!("no words"),
    }
    match match_expression("milk \"eggs") {
        Err(StoreError::InvalidQuery(message)) => {
            assert_eq!(message, "a quoted phrase isn't closed: add the closing \"")
        }
        _ => panic!("unclosed"),
    }
}

#[test]
fn a_phrase_after_a_parenthesis_is_anded() {
    assert_eq!(expression("(milk) \"oat\""), r#"( "milk" ) AND "oat""#);
    assert_eq!(expression("NOT milk"), r#"NOT "milk""#);
    assert_eq!(expression("***milk**"), r#""***milk"*"#);
}

#[test]
fn a_snippet_of_only_spaces_is_empty() {
    assert_eq!(tidy_snippet("  \n\t "), "");
    assert_eq!(tidy_snippet("one"), "one");
}

#[test]
fn a_closed_phrase_is_never_refused_and_a_doubled_quote_stays_inside_it() {
    assert_eq!(expression(r#"say """hi""#), r#""say" AND """hi""#);
    assert_eq!(expression(r#""""#), r#""""#);
    assert!(invalid(r#"say """hi"#));
}

#[test]
fn a_kept_word_is_quoted_with_one_star_after_it() {
    assert_eq!(expression("insur**"), r#""insur"*"#);
    assert_eq!(expression("milk OR eggs"), r#""milk" OR "eggs""#);
    assert!(invalid("OR"), "an operator alone has no word to search for");
    assert!(invalid("**"));
}

#[test]
fn only_operators_and_punctuation_are_refused_a_kept_word_never_is() {
    assert!(invalid("AND OR NOT"));
    assert!(invalid("( -- ** )"));
    assert_eq!(expression("x1*"), r#""x1"*"#);
    assert_eq!(expression("OR -- tea"), r#"OR "tea""#);
}
