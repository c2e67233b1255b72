use minishell::text::join;
use minishell::tokenizer::parse_args;

fn words(line: &str) -> Vec<String> {
    parse_args(line)
}

fn no_words() -> Vec<String> {
    Vec::new()
}

#[test]
fn plain_words_split_on_spaces() {
    assert_eq!(words("echo hello world"), vec!["echo", "hello", "world"]);
}

#[test]
fn empty_line_has_no_words() {
    assert_eq!(words(""), no_words());
}

#[test]
fn spaces_alone_have_no_words() {
    assert_eq!(words("     "), no_words());
}

#[test]
fn runs_of_spaces_give_no_empty_words() {
    assert_eq!(words("  a   b    c  "), vec!["a", "b", "c"]);
}

#[test]
fn single_quotes_keep_spaces() {
    assert_eq!(words("echo 'a  b'"), vec!["echo", "a  b"]);
}

#[test]
fn double_quotes_keep_spaces() {
    assert_eq!(words("echo \"c  d\""), vec!["echo", "c  d"]);
}

#[test]
fn quoted_words_are_separated_by_unquoted_spaces_only() {
    assert_eq!(words("echo 'a  b'  \"c  d\""), vec!["echo", "a  b", "c  d"]);
}

#[test]
fn touching_fragments_are_one_word() {
    assert_eq!(words("a'b c'\"d e\"f"), vec!["ab cd ef"]);
}

#[test]
fn single_quote_is_literal_inside_double_quotes() {
    assert_eq!(words("\"it's\""), vec!["it's"]);
}

#[test]
fn double_quote_is_literal_inside_single_quotes() {
    assert_eq!(words("'say \"hi\"'"), vec!["say \"hi\""]);
}

#[test]
fn backslash_takes_a_space_literally() {
    assert_eq!(words("echo a\\ b"), vec!["echo", "a b"]);
}

#[test]
fn backslash_takes_a_quote_literally() {
    assert_eq!(words("a\\'b \\\"c"), vec!["a'b", "\"c"]);
}

#[test]
fn backslash_takes_a_backslash_literally() {
    assert_eq!(words("a\\\\b"), vec!["a\\b"]);
}

#[test]
fn backslash_before_an_ordinary_character_vanishes() {
    assert_eq!(words("a\\bc"), vec!["abc"]);
}

#[test]
fn trailing_backslash_stands_for_itself() {
    assert_eq!(words("abc\\"), vec!["abc\\"]);
}

#[test]
fn lone_backslash_is_a_word() {
    assert_eq!(words("\\"), vec!["\\"]);
}

#[test]
fn trailing_backslash_after_a_space_starts_a_word() {
    assert_eq!(words("a \\"), vec!["a", "\\"]);
}

#[test]
fn backslash_is_literal_inside_single_quotes() {
    assert_eq!(words("'a\\ b'"), vec!["a\\ b"]);
}

#[test]
fn backslash_is_literal_inside_double_quotes() {
    assert_eq!(words("\"a\\\"b"), vec!["a\\b"]);
}

#[test]
fn empty_double_quotes_alone_are_one_empty_word() {
    assert_eq!(words("\"\""), vec![""]);
}

#[test]
fn empty_single_quotes_alone_are_one_empty_word() {
    assert_eq!(words("''"), vec![""]);
}

#[test]
fn empty_quotes_between_words_are_an_empty_word() {
    assert_eq!(words("a \"\" b"), vec!["a", "", "b"]);
}

#[test]
fn empty_quotes_inside_a_word_add_nothing() {
    assert_eq!(words("a\"\"b ''c d''"), vec!["ab", "c", "d"]);
}

#[test]
fn several_empty_quotes_in_a_row_are_one_empty_word() {
    assert_eq!(words("''\"\"''"), vec![""]);
}

#[test]
fn unterminated_quote_gives_up_what_it_gathered() {
    assert_eq!(words("echo 'a b"), vec!["echo", "a b"]);
    assert_eq!(words("echo \"a b"), vec!["echo", "a b"]);
}

#[test]
fn unterminated_quote_with_nothing_in_it_is_no_word() {
    assert_eq!(words("'"), no_words());
    assert_eq!(words("echo \""), vec!["echo"]);
}

#[test]
fn unterminated_quote_after_empty_quotes_keeps_the_empty_word() {
    assert_eq!(words("''\""), vec![""]);
    assert_eq!(words("\"\" '"), vec![""]);
}

#[test]
fn tab_is_an_ordinary_character() {
    assert_eq!(words("a\tb c"), vec!["a\tb", "c"]);
}

#[test]
fn newline_is_an_ordinary_character() {
    assert_eq!(words("a\nb"), vec!["a\nb"]);
}

#[test]
fn words_outside_ascii_are_kept_whole() {
    assert_eq!(words("héllo 'wörld ünï' 日本\\ 語"), vec!["héllo", "wörld ünï", "日本 語"]);
}

#[test]
fn no_word_is_empty_without_empty_quotes() {
    let lines = [
        "echo hello world",
        "  lots   of    space  ",
        "a\\ b 'c d' \"e f\" g\\",
        "'open",
        "x'y'z \"",
        "\\  \\ ",
    ];
    for line in lines {
        for word in words(line) {
            assert!(!word.is_empty(), "empty word in {:?}", line);
        }
    }
}

#[test]
fn plain_words_joined_by_spaces_tokenize_to_themselves() {
    let lists: [&[&str]; 5] = [&[], &["a"], &["echo", "hello", "world"], &["x=1", "--flag", "日本語"], &["a\tb", "~", "/usr/bin/ls"]];
    for list in lists {
        let given: Vec<String> = list.iter().map(|word| word.to_string()).collect();
        assert_eq!(words(&join(&given, " ")), given);
    }
}
