use minigrep::{line_contains, matching_lines, search, search_case_insensitive, Config};

#[test]
fn case_sensitive() {
    let query = "duct";
    let contents = "\
Rust:
safe, fast, productive.
Pick three.
Duct tape.";
    assert_eq!(vec!["safe, fast, productive."], search(query, contents));
}

#[test]
fn case_insensitive() {
    let query = "rUsT";
    let contents = "\
Rust:
safe, fast, productive.
Pick three.
Trust me.";
    assert_eq!(
        vec!["Rust:", "Trust me."],
        search_case_insensitive(query, contents)
    );
}

#[test]
fn one_result_among_three_lines() {
    let contents = "Rust:\nsafe, fast, productive.\nPick three.";
    assert_eq!(vec!["safe, fast, productive."], search("duct", contents));
}

#[test]
fn every_matching_line_in_body_order_with_duplicates() {
    let contents = "ab\nxx\nab\ncab\nb";
    assert_eq!(vec!["ab", "ab", "cab"], search("ab", contents));
}

#[test]
fn ignoring_case_keeps_exact_matches() {
    let contents = "Rust:\nrust\nTrust me.\nnothing";
    let exact = search("rust", contents);
    let folded = search_case_insensitive("rust", contents);
    assert_eq!(vec!["rust", "Trust me."], exact);
    assert_eq!(vec!["Rust:", "rust", "Trust me."], folded);
    for line in &exact {
        assert!(folded.contains(line));
    }
}

#[test]
fn searching_twice_gives_the_same_lines() {
    let contents = "one\ntwo\nthree\none more";
    assert_eq!(search("one", contents), search("one", contents));
    assert_eq!(
        search_case_insensitive("ONE", contents),
        search_case_insensitive("ONE", contents)
    );
}

#[test]
fn empty_query_returns_every_line() {
    let contents = "first\n\nthird\r\nfourth";
    assert_eq!(vec!["first", "", "third", "fourth"], search("", contents));
}

#[test]
fn empty_body_returns_nothing() {
    let none: Vec<&str> = Vec::new();
    assert_eq!(none, search("x", ""));
    assert_eq!(none, search("", ""));
    assert_eq!(none, search_case_insensitive("x", ""));
}

#[test]
fn query_longer_than_every_line() {
    let none: Vec<&str> = Vec::new();
    assert_eq!(none, search("a long query", "short\nlines"));
}

#[test]
fn line_terminators_are_removed() {
    assert_eq!(vec!["a", "b", "c"], search("", "a\r\nb\nc\n"));
    assert_eq!(vec!["x\r"], search("x", "x\r"));
    assert_eq!(vec!["", ""], search("", "\n\n"));
}

#[test]
fn lines_with_wide_characters() {
    let contents = "héllo\nwörld ✓\n日本語\r\nend";
    assert_eq!(vec!["wörld ✓"], search("ö", contents));
    assert_eq!(vec!["日本語"], search("本", contents));
    assert_eq!(vec!["héllo", "wörld ✓", "日本語", "end"], search("", contents));
}

#[test]
fn ignoring_case_lowercases_both_sides() {
    assert_eq!(vec!["rust"], search_case_insensitive("RUST", "rust\nnone"));
    assert_eq!(vec!["RUST"], search_case_insensitive("rust", "RUST\nnone"));
    assert_eq!(vec!["ÉCOLE"], search_case_insensitive("école", "ÉCOLE\nnone"));
}

#[test]
fn line_contains_checks_substrings() {
    assert!(line_contains("productive", "duct"));
    assert!(line_contains("abc", ""));
    assert!(line_contains("", ""));
    assert!(line_contains("abc", "abc"));
    assert!(!line_contains("abc", "abcd"));
    assert!(!line_contains("Duct tape.", "duct"));
    assert!(!line_contains("", "a"));
}

#[test]
fn configured_search_follows_case_mode() {
    let args = vec![
        String::from("minigrep"),
        String::from("rUsT"),
        String::from("poem.txt"),
    ];
    let contents = "Rust:\nTrust me.\nrust";
    let sensitive = Config::new(&args, false).unwrap();
    assert_eq!(Vec::<&str>::new(), matching_lines(&sensitive, contents));
    let insensitive = Config::new(&args, true).unwrap();
    assert_eq!(
        vec!["Rust:", "Trust me.", "rust"],
        matching_lines(&insensitive, contents)
    );
}
