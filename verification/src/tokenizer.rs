//! The tokenizer: one input line in, an ordered vector of words out.
//!
//! The grammar is a four-state machine driven one character at a time. An
//! unquoted space ends a word. Single and double quotes group characters,
//! spaces included, into the word they stand in; a backslash outside quotes
//! takes the next character literally. Fragments that touch belong to one
//! word. A word is reported when it has at least one character or when a
//! pair of quotes closed inside it, so `""` standing alone is one empty word.
//! Nothing is rejected: a quote left open gives up what it gathered, and a
//! backslash with nothing after it stands for itself.

use vstd::prelude::*;
use crate::text::joined;

verus! {

/// Where the tokenizer stands between two characters.
#[derive(Clone, Copy, Debug, PartialEq, Eq, Structural)]
pub enum Mode {
    /// Outside any quote.
    Normal,
    /// Inside `'...'`: everything up to the next `'` is literal.
    InSingleQuote,
    /// Inside `"..."`: everything up to the next `"` is literal.
    InDoubleQuote,
    /// Just after an unquoted backslash: the next character is literal.
    Backslash,
}

/// The tokenizer's whole state between two characters.
pub struct Scan {
    /// The words completed so far, in input order.
    pub tokens: Seq<Seq<char>>,
    /// The characters gathered for the word in progress.
    pub current: Seq<char>,
    /// Whether a pair of quotes has closed inside the word in progress.
    pub quoted: bool,
    /// The state of the quoting machine.
    pub mode: Mode,
}

/// The state before the first character.
pub open spec fn start() -> Scan {
    Scan { tokens: Seq::empty(), current: Seq::empty(), quoted: false, mode: Mode::Normal }
}

/// Whether a word is in progress: it has a character, or quotes closed in it.
pub open spec fn pending(s: Scan) -> bool {
    s.current.len() > 0 || s.quoted
}

/// `s` with the word in progress, if there is one, moved to the finished
/// words.
pub open spec fn flushed(s: Scan) -> Scan {
    if pending(s) {
        Scan {
            tokens: s.tokens.push(s.current),
            current: Seq::empty(),
            quoted: false,
            mode: s.mode,
        }
    } else {
        s
    }
}

/// `s` with `c` added to the word in progress.
pub open spec fn appended(s: Scan, c: char) -> Scan {
    Scan { current: s.current.push(c), ..s }
}

/// The state after reading the character `c` in state `s`.
pub open spec fn step(s: Scan, c: char) -> Scan {
    match s.mode {
        Mode::Normal => {
            if c == ' ' {
                flushed(s)
            } else if c == '\'' {
                Scan { mode: Mode::InSingleQuote, ..s }
            } else if c == '"' {
                Scan { mode: Mode::InDoubleQuote, ..s }
            } else if c == '\\' {
                Scan { mode: Mode::Backslash, ..s }
            } else {
                appended(s, c)
            }
        },
        Mode::InSingleQuote => {
            if c == '\'' {
                Scan { mode: Mode::Normal, quoted: true, ..s }
            } else {
                appended(s, c)
            }
        },
        Mode::InDoubleQuote => {
            if c == '"' {
                Scan { mode: Mode::Normal, quoted: true, ..s }
            } else {
                appended(s, c)
            }
        },
        Mode::Backslash => Scan { mode: Mode::Normal, ..appended(s, c) },
    }
}

/// The state after reading all of `line`, from the start state.
pub open spec fn scan(line: Seq<char>) -> Scan
    decreases line.len(),
{
    if line.len() == 0 {
        start()
    } else {
        step(scan(line.drop_last()), line.last())
    }
}

/// The words of a line that ended in state `s`: a backslash still waiting for
/// its character stands for itself, and the word in progress is closed.
pub open spec fn finish(s: Scan) -> Seq<Seq<char>> {
    if s.mode == Mode::Backslash {
        flushed(appended(s, '\\')).tokens
    } else {
        flushed(s).tokens
    }
}

/// The words of `line`.
pub open spec fn tokenize(line: Seq<char>) -> Seq<Seq<char>> {
    finish(scan(line))
}

/// Splits `input` into its words under the quoting grammar.
pub fn parse_args(input: &str) -> (args: Vec<String>)
    ensures
        args.deep_view() == tokenize(input@),
{
    let mut args: Vec<String> = Vec::new();
    let mut current = String::new();
    let mut quoted = false;
    let mut mode = Mode::Normal;
    assert(args.deep_view() =~= Seq::<Seq<char>>::empty());
    for c in it: input.chars()
        invariant
            it.seq() == input@,
            scan(input@.take(it.index() as int)) == (Scan {
                tokens: args.deep_view(),
                current: current@,
                quoted,
                mode,
            }),
    {
        proof {
            let seen = input@.take(it.index() + 1);
            assert(seen.drop_last() =~= input@.take(it.index() as int));
            assert(seen.last() == c);
        }
        match mode {
            Mode::Normal => {
                if c == ' ' {
                    if !current.as_str().is_empty() || quoted {
                        let ghost before = args.deep_view();
                        args.push(current);
                        assert(args.deep_view() =~= before.push(current@));
                        current = String::new();
                        quoted = false;
                    }
                } else if c == '\'' {
                    mode = Mode::InSingleQuote;
                } else if c == '"' {
                    mode = Mode::InDoubleQuote;
                } else if c == '\\' {
                    mode = Mode::Backslash;
                } else {
                    current.push(c);
                }
            },
            Mode::InSingleQuote => {
                if c == '\'' {
                    mode = Mode::Normal;
                    quoted = true;
                } else {
                    current.push(c);
                }
            },
            Mode::InDoubleQuote => {
                if c == '"' {
                    mode = Mode::Normal;
                    quoted = true;
                } else {
                    current.push(c);
                }
            },
            Mode::Backslash => {
                current.push(c);
                mode = Mode::Normal;
            },
        }
    }
    assert(input@.take(input@.len() as int) =~= input@);
    if mode == Mode::Backslash {
        current.push('\\');
    }
    if !current.as_str().is_empty() || quoted {
        let ghost before = args.deep_view();
        args.push(current);
        assert(args.deep_view() =~= before.push(current@));
    }
    args
}

/// Whether `c` is one of the two quote characters.
pub open spec fn is_quote(c: char) -> bool {
    c == '\'' || c == '"'
}

/// Whether `line[from..to)` is a stretch that stands between spaces or the
/// ends of the line, holds quote characters only, and begins with a pair of
/// quotes that closes at once: a word that says nothing but `''` or `""`.
pub open spec fn empty_quotes_word(line: Seq<char>, from: int, to: int) -> bool {
    &&& 0 <= from
    &&& from + 2 <= to <= line.len()
    &&& (from == 0 || line[from - 1] == ' ')
    &&& (to == line.len() || line[to] == ' ')
    &&& forall|i: int| from <= i < to ==> is_quote(#[trigger] line[i])
    &&& line[from] == line[from + 1]
}

/// Whether a word begins at `from`: after the first `from` characters of
/// `line` the words `done` are complete and no word is in progress.
pub open spec fn word_begins(line: Seq<char>, from: int, done: Seq<Seq<char>>) -> bool {
    &&& 0 <= from <= line.len()
    &&& scan(line.take(from)) == (Scan {
        tokens: done,
        current: Seq::empty(),
        quoted: false,
        mode: Mode::Normal,
    })
}

/// Whether word number `i` of `tokens` is spelled by a word of empty quotes
/// in `line`: a stretch of that kind begins where exactly the `i` words
/// before it are complete.
pub open spec fn spelled_by_empty_quotes(line: Seq<char>, tokens: Seq<Seq<char>>, i: int) -> bool {
    exists|from: int, to: int|
        empty_quotes_word(line, from, to) && word_begins(line, from, tokens.take(i))
}

/// Whether every empty word of `tokens` is spelled by a word of empty
/// quotes in `line`.
spec fn empties_accounted_for(line: Seq<char>, tokens: Seq<Seq<char>>) -> bool {
    forall|i: int|
        0 <= i < tokens.len() && (#[trigger] tokens[i]).len() == 0 ==> spelled_by_empty_quotes(
            line,
            tokens,
            i,
        )
}

/// What is known of a word in progress that has no character yet, after the
/// first `n` characters of `line`: it began at `from`, and all that was read
/// of it since are quotes.
spec fn bare_word(line: Seq<char>, s: Scan, from: int, n: int) -> bool {
    &&& 0 <= from <= n
    &&& (from == 0 || line[from - 1] == ' ')
    &&& word_begins(line, from, s.tokens)
    &&& forall|i: int| from <= i < n ==> is_quote(#[trigger] line[i])
    &&& s.quoted ==> from + 2 <= n && line[from] == line[from + 1]
    &&& !s.quoted ==> match s.mode {
        Mode::Normal => n == from,
        Mode::InSingleQuote => n == from + 1 && line[from] == '\'',
        Mode::InDoubleQuote => n == from + 1 && line[from] == '"',
        Mode::Backslash => true,
    }
}

/// Words that were accounted for stay so when one more word is complete.
proof fn lemma_accounted_for_after_push(line: Seq<char>, tokens: Seq<Seq<char>>, word: Seq<char>)
    requires
        empties_accounted_for(line, tokens),
        word.len() == 0 ==> spelled_by_empty_quotes(line, tokens.push(word), tokens.len() as int),
    ensures
        empties_accounted_for(line, tokens.push(word)),
{
    let longer = tokens.push(word);
    assert forall|i: int| 0 <= i < longer.len() && (#[trigger] longer[i]).len() == 0 implies
        spelled_by_empty_quotes(line, longer, i) by {
        if i < tokens.len() {
            assert(tokens[i] == longer[i]);
            assert(longer.take(i) =~= tokens.take(i));
            let (from, to) = choose|from: int, to: int|
                empty_quotes_word(line, from, to) && word_begins(line, from, tokens.take(i));
            assert(empty_quotes_word(line, from, to) && word_begins(line, from, longer.take(i)));
        }
    }
}

/// After any prefix of a line, every empty word among those completed is
/// spelled by a word of empty quotes, and a word in progress without a
/// character has read nothing but quotes since the place returned.
proof fn lemma_scan_accounts_for_empties(line: Seq<char>, n: int) -> (from: int)
    requires
        0 <= n <= line.len(),
    ensures
        empties_accounted_for(line, scan(line.take(n)).tokens),
        scan(line.take(n)).current.len() == 0 && scan(line.take(n)).mode != Mode::Backslash
            ==> bare_word(line, scan(line.take(n)), from, n),
    decreases n,
{
    if n == 0 {
        assert(line.take(0) =~= Seq::<char>::empty());
        0
    } else {
        let before = lemma_scan_accounts_for_empties(line, n - 1);
        let prev = scan(line.take(n - 1));
        let c = line[n - 1];
        assert(line.take(n).drop_last() =~= line.take(n - 1));
        assert(line.take(n).last() == c);
        let next = scan(line.take(n));
        assert(next == step(prev, c));
        if prev.mode == Mode::Normal && c == ' ' {
            if pending(prev) {
                if prev.current.len() == 0 {
                    assert(empty_quotes_word(line, before, n - 1));
                    assert(next.tokens.take(prev.tokens.len() as int) =~= prev.tokens);
                }
                lemma_accounted_for_after_push(line, prev.tokens, prev.current);
            }
            n
        } else {
            assert(next.tokens == prev.tokens);
            before
        }
    }
}

/// No word of a line is empty unless a word of empty quotes spells it:
/// `''` or `""` standing between spaces or the ends of the line, with at
/// most further quotes beside it, at the place where the words before it
/// are complete.
pub proof fn lemma_empty_token_needs_empty_quotes(line: Seq<char>, i: int)
    requires
        0 <= i < tokenize(line).len(),
        tokenize(line)[i].len() == 0,
    ensures
        spelled_by_empty_quotes(line, tokenize(line), i),
{
    let n = line.len() as int;
    let from = lemma_scan_accounts_for_empties(line, n);
    assert(line.take(n) =~= line);
    let last = scan(line);
    let tokens = tokenize(line);
    let closing = if last.mode == Mode::Backslash {
        appended(last, '\\')
    } else {
        last
    };
    assert(tokens == flushed(closing).tokens);
    if pending(closing) {
        if closing.current.len() == 0 {
            assert(empty_quotes_word(line, from, n));
            assert(tokens.take(last.tokens.len() as int) =~= last.tokens);
        }
        lemma_accounted_for_after_push(line, last.tokens, closing.current);
    }
}

/// Whether `c` means nothing to the grammar: no space, quote or backslash.
pub open spec fn is_plain(c: char) -> bool {
    c != ' ' && !is_quote(c) && c != '\\'
}

/// Whether `word` is a word that needs no quoting: it has a character, and
/// every one of its characters is plain.
pub open spec fn is_plain_word(word: Seq<char>) -> bool {
    word.len() > 0 && forall|i: int| 0 <= i < word.len() ==> is_plain(#[trigger] word[i])
}

/// Plain characters read outside quotes all go to the word in progress.
proof fn lemma_scan_plain_run(line: Seq<char>, run: Seq<char>)
    requires
        scan(line).mode == Mode::Normal,
        forall|i: int| 0 <= i < run.len() ==> is_plain(#[trigger] run[i]),
    ensures
        scan(line + run) == (Scan { current: scan(line).current + run, ..scan(line) }),
    decreases run.len(),
{
    if run.len() == 0 {
        assert(line + run =~= line);
        assert(scan(line).current + run =~= scan(line).current);
    } else {
        let shorter = run.drop_last();
        lemma_scan_plain_run(line, shorter);
        assert((line + run).drop_last() =~= line + shorter);
        assert((line + run).last() == run.last());
        assert(is_plain(run[run.len() - 1]));
        assert((scan(line).current + shorter).push(run.last()) =~= scan(line).current + run);
    }
}

/// After plain words written with single spaces between them, the last word
/// is in progress and the others are complete.
proof fn lemma_scan_plain_words(words: Seq<Seq<char>>)
    requires
        words.len() > 0,
        forall|i: int| 0 <= i < words.len() ==> is_plain_word(#[trigger] words[i]),
    ensures
        scan(joined(words, seq![' '])) == (Scan {
            tokens: words.drop_last(),
            current: words.last(),
            quoted: false,
            mode: Mode::Normal,
        }),
    decreases words.len(),
{
    let space = seq![' '];
    let last = words.last();
    assert(is_plain_word(words[words.len() - 1]));
    if words.len() == 1 {
        let nothing = Seq::<char>::empty();
        lemma_scan_plain_run(nothing, last);
        assert(nothing + last =~= last);
        assert(words.drop_last() =~= Seq::<Seq<char>>::empty());
    } else {
        let before = words.drop_last();
        assert forall|i: int| 0 <= i < before.len() implies is_plain_word(#[trigger] before[i]) by {
            assert(before[i] == words[i]);
        }
        lemma_scan_plain_words(before);
        let head = joined(before, space) + space;
        assert(head.drop_last() =~= joined(before, space));
        assert(head.last() == ' ');
        assert(before.drop_last().push(before.last()) =~= before);
        lemma_scan_plain_run(head, last);
        assert(Seq::<char>::empty() + last =~= last);
    }
}

/// Writing plain words with single spaces between them and tokenizing the
/// line gives the same words back.
pub proof fn lemma_tokenize_joined_plain_words(words: Seq<Seq<char>>)
    requires
        forall|i: int| 0 <= i < words.len() ==> is_plain_word(#[trigger] words[i]),
    ensures
        tokenize(joined(words, " "@)) == words,
{
    reveal_strlit(" ");
    assert(" "@ =~= seq![' ']);
    if words.len() == 0 {
        assert(tokenize(joined(words, seq![' '])) =~= words);
    } else {
        lemma_scan_plain_words(words);
        assert(is_plain_word(words[words.len() - 1]));
        assert(words.drop_last().push(words.last()) =~= words);
    }
}

} // verus!
