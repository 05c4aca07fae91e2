use minigrep::{contains_query, matching_lines, search, search_case_insensitive, Config};

#[test]
fn one_result() {
    let query = "duct";
    let contents = "\
Rust:
safe, fast, productive.
Pick three.";

    assert_eq!(vec!["safe, fast, productive."], search(query, contents));
}

#[test]
fn case_insensitive() {
    let query = "rUsT";
    let contents = "\
Rust:
safe, fast, produtive.
Pick three.
Trust me.";

    assert_eq!(
        vec!["Rust:", "Trust me."],
        search_case_insensitive(query, contents)
    );
}

#[test]
fn case_insensitive_keeps_original_lines() {
    let contents = "Rust:\nsafe, fast, productive.\nPick three.\nTrust me.";
    assert_eq!(vec!["Rust:", "Trust me."], search_case_insensitive("rUsT", contents));
}

#[test]
fn exact_search_respects_case() {
    let contents = "Rust:\nsafe, fast, productive.\nPick three.\nTrust me.";
    assert_eq!(Vec::<&str>::new(), search("rUsT", contents));
    assert_eq!(vec!["Trust me."], search("rust", contents));
}

#[test]
fn only_and_all_containing_lines_in_order() {
    let contents = "abc\nxyz\nzabz\nab\nb";
    assert_eq!(vec!["abc", "zabz", "ab"], search("ab", contents));
}

#[test]
fn search_is_repeatable() {
    let contents = "one\ntwo\nthree\ntwenty";
    let first = search("tw", contents);
    let second = search("tw", contents);
    assert_eq!(first, second);
    assert_eq!(vec!["two", "twenty"], first);
}

#[test]
fn empty_query_returns_every_line() {
    let contents = "first\n\n  \nlast";
    assert_eq!(vec!["first", "", "  ", "last"], search("", contents));
}

#[test]
fn empty_text_has_no_matches() {
    assert_eq!(Vec::<&str>::new(), search("", ""));
    assert_eq!(Vec::<&str>::new(), search("a", ""));
    assert_eq!(Vec::<&str>::new(), search_case_insensitive("a", ""));
}

#[test]
fn no_match_is_empty() {
    assert_eq!(Vec::<&str>::new(), search("zzz", "abc\ndef"));
}

#[test]
fn line_with_repeated_query_appears_once() {
    assert_eq!(vec!["aa aa aa"], search("aa", "aa aa aa\nb"));
}

#[test]
fn whitespace_lines_are_matched_like_others() {
    assert_eq!(vec!["   ", " \t "], search(" ", "x\n   \ny\n \t "));
}

#[test]
fn carriage_return_line_endings() {
    let contents = "alpha\r\nbeta\r\ngamma";
    assert_eq!(vec!["alpha", "beta", "gamma"], search("", contents));
    assert_eq!(vec!["alpha"], search("ha", contents));
    assert_eq!(Vec::<&str>::new(), search("\r", contents));
}

#[test]
fn final_newline_starts_no_line() {
    assert_eq!(vec!["a", "b"], search("", "a\nb\n"));
    assert_eq!(vec![""], search("", "\n"));
    assert_eq!(vec!["a", ""], search("", "a\n\n"));
}

#[test]
fn lone_carriage_return_stays_in_last_line() {
    assert_eq!(vec!["a", "b\r"], search("", "a\r\nb\r"));
}

#[test]
fn folded_search_finds_at_least_the_exact_matches() {
    let contents = "Rust:\nrust\nTrust me.\nnothing";
    let exact = search("rust", contents);
    let folded = search_case_insensitive("rust", contents);
    assert_eq!(vec!["rust", "Trust me."], exact);
    assert_eq!(vec!["Rust:", "rust", "Trust me."], folded);
    assert!(folded.len() >= exact.len());
    for line in exact {
        assert!(folded.contains(&line));
    }
}

#[test]
fn non_ascii_text() {
    assert_eq!(vec!["grüße", "GRÜSSE grüße"], search("grüße", "grüße\nGRÜSSE grüße\nx"));
    assert_eq!(vec!["ÄBC"], search_case_insensitive("äb", "ÄBC\nabc"));
}

#[test]
fn contains_query_exact() {
    assert!(contains_query("productive", "duct"));
    assert!(contains_query("abc", ""));
    assert!(contains_query("", ""));
    assert!(!contains_query("", "a"));
    assert!(!contains_query("ab", "abc"));
    assert!(!contains_query("Rust", "rust"));
    assert!(contains_query("aab", "ab"));
}

#[test]
fn matching_lines_follows_case_setting() {
    let contents = "Rust:\nTrust me.";
    let args: Vec<String> = vec!["prog".to_string(), "rUsT".to_string(), "f.txt".to_string()];
    let exact = Config::new(&args, false).unwrap();
    assert_eq!(Vec::<&str>::new(), matching_lines(&exact, contents));
    let folded = Config::new(&args, true).unwrap();
    assert_eq!(vec!["Rust:", "Trust me."], matching_lines(&folded, contents));
}
