use minigrep::search;
use minigrep::search_case_insensitive;

#[test]
fn case_insensitive_search() {
    let query = "duct";
    let contents = "\
Duct:
safe, fast, productive.
Pick three.";

    assert_eq!(vec!["safe, fast, productive."], search(query, contents));
}

#[test]
fn case_sensitive_search() {
    let query = "duct";
    let contents = "\
Duct:
safe, fast, productive.
Pick three.";

    assert_eq!(
        vec!["Duct:", "safe, fast, productive."],
        search_case_insensitive(query, contents)
    );
}

#[test]
fn empty_query_returns_every_line() {
    assert_eq!(vec!["a", "b", "c"], search("", "a\nb\nc"));
}

#[test]
fn empty_contents_yield_no_lines() {
    assert_eq!(Vec::<&str>::new(), search("anything", ""));
    assert_eq!(Vec::<&str>::new(), search("", ""));
    assert_eq!(Vec::<&str>::new(), search_case_insensitive("anything", ""));
    assert_eq!(Vec::<&str>::new(), search_case_insensitive("", ""));
}

#[test]
fn query_longer_than_line_never_matches() {
    assert_eq!(Vec::<&str>::new(), search("abcd", "ab\ncd"));
}

#[test]
fn duplicate_lines_are_each_reported() {
    assert_eq!(vec!["echo", "echo"], search("ech", "echo\nother\necho"));
}

#[test]
fn trailing_terminator_adds_no_line() {
    assert_eq!(vec!["a", "b"], search("", "a\nb\n"));
    assert_eq!(vec![""], search("", "\n"));
}

#[test]
fn carriage_return_of_terminator_is_stripped() {
    assert_eq!(vec!["safe"], search("safe", "safe\r\nfast"));
    assert_eq!(vec!["a"], search("a", "a\r\nb\r\n"));
}

#[test]
fn lone_carriage_return_stays_in_the_line() {
    assert_eq!(vec!["a\rb"], search("a\rb", "a\rb\nc"));
}

#[test]
fn lowercasing_crosses_case_both_ways() {
    assert_eq!(vec!["duct tape"], search_case_insensitive("DUCT", "duct tape\nnothing"));
    assert_eq!(vec!["Trust me."], search_case_insensitive("rUsT", "Trust me.\nno deal"));
}

#[test]
fn searches_are_idempotent() {
    let query = "duct";
    let contents = "Duct:\nsafe, fast, productive.\nPick three.";
    assert_eq!(search(query, contents), search(query, contents));
    assert_eq!(
        search_case_insensitive(query, contents),
        search_case_insensitive(query, contents)
    );
}

#[test]
fn case_insensitive_result_contains_case_sensitive_result() {
    let query = "duct";
    let contents = "Duct:\nsafe, fast, productive.\nPick three.";
    let sensitive = search(query, contents);
    let insensitive = search_case_insensitive(query, contents);
    let mut from = 0;
    for line in &sensitive {
        let position = insensitive[from..]
            .iter()
            .position(|candidate| candidate == line)
            .expect("case-sensitive match missing from case-insensitive results");
        from += position + 1;
    }
}
