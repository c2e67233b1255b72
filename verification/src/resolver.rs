//! The path resolver: from a command word to the executable file to run.
//!
//! A word that is an absolute path, or that holds a `/`, is taken as the
//! path itself. Any other word is looked for under each directory of the
//! search path in turn, and the first candidate that passes the
//! executability test wins. The resolver never looks at a file: it names
//! the next path to probe, the host probes it and reports what it found,
//! and the resolver decides. A probe that failed counts as a file that is
//! not executable.

use vstd::prelude::*;
use crate::platform::Platform;
use crate::text::{contains_char, joined, last_char};

verus! {

/// The environment variable that holds the search path.
pub const SEARCH_PATH_VARIABLE: &'static str = "PATH";

/// What a probe reports of a path that exists.
#[derive(Clone, Copy, Debug, PartialEq, Eq, Structural)]
pub struct FileStat {
    /// Whether the path leads to a regular file.
    pub regular: bool,
    /// The permission bits of the file; ignored where the platform has none.
    pub mode: u32,
}

/// The executability test: the probe succeeded, found a regular file and,
/// on POSIX, found at least one of the three execute bits set.
pub open spec fn executable(platform: Platform, stat: Option<FileStat>) -> bool {
    match stat {
        None => false,
        Some(found) => found.regular && (platform == Platform::Windows || found.mode & 0o111 != 0),
    }
}

/// Applies the executability test to the outcome of a probe; `None` stands
/// for a probe that failed.
pub fn is_executable(platform: Platform, stat: Option<FileStat>) -> (r: bool)
    ensures
        r == executable(platform, stat),
{
    match stat {
        None => false,
        Some(found) => found.regular && (platform == Platform::Windows || found.mode & 0o111 != 0),
    }
}

/// The entries of a list written with `sep` between them. A list with `n`
/// separators has `n + 1` entries, empty ones included.
pub open spec fn split(list: Seq<char>, sep: char) -> Seq<Seq<char>>
    decreases list.len(),
{
    if list.len() == 0 {
        seq![Seq::empty()]
    } else {
        let before = split(list.drop_last(), sep);
        if list.last() == sep {
            before.push(Seq::empty())
        } else {
            before.drop_last().push(before.last().push(list.last()))
        }
    }
}

/// The path of `word` under the directory `dir`. The empty directory stands
/// for the working directory, so the word is the path.
pub open spec fn under(platform: Platform, dir: Seq<char>, word: Seq<char>) -> Seq<char> {
    if dir.len() == 0 || platform.is_separator(dir.last()) {
        dir + word
    } else {
        dir.push(platform.separator()) + word
    }
}

/// Whether `word` is run as the path it spells, without a search.
/// `absolute` says whether the platform takes `word` for an absolute path.
pub open spec fn explicit_path(word: Seq<char>, absolute: bool) -> bool {
    absolute || word.contains('/')
}

/// The paths to probe for `word`, in the order in which they are probed.
/// `search_path` is the search path, if the environment has one.
pub open spec fn candidates(
    platform: Platform,
    word: Seq<char>,
    absolute: bool,
    search_path: Option<Seq<char>>,
) -> Seq<Seq<char>> {
    if explicit_path(word, absolute) {
        seq![word]
    } else {
        match search_path {
            None => Seq::empty(),
            Some(list) => {
                let dirs = split(list, platform.list_separator());
                Seq::new(dirs.len(), |i: int| under(platform, dirs[i], word))
            },
        }
    }
}

/// One step of a search over the paths `remaining`, whose first has just
/// been probed with the outcome `stat`: the path found, if any, and the paths
/// left to probe. A first path that passes the executability test is the
/// result and ends the search; any other is dropped.
pub open spec fn decide(platform: Platform, remaining: Seq<Seq<char>>, stat: Option<FileStat>) -> (
    Option<Seq<char>>,
    Seq<Seq<char>>,
) {
    if remaining.len() == 0 {
        (None, remaining)
    } else if executable(platform, stat) {
        (Some(remaining[0]), Seq::empty())
    } else {
        (None, remaining.skip(1))
    }
}

/// What a probe of `path` reports when `files` are the files that exist.
pub open spec fn probe(files: Map<Seq<char>, FileStat>, path: Seq<char>) -> Option<FileStat> {
    if files.contains_key(path) {
        Some(files[path])
    } else {
        None
    }
}

/// The result of a search over `paths` in which every probe is answered
/// from `files`.
pub open spec fn search(
    platform: Platform,
    paths: Seq<Seq<char>>,
    files: Map<Seq<char>, FileStat>,
) -> Option<Seq<char>>
    decreases paths.len(),
{
    if paths.len() == 0 {
        None
    } else {
        let (found, rest) = decide(platform, paths, probe(files, paths[0]));
        if found is Some {
            found
        } else {
            search(platform, rest, files)
        }
    }
}

/// The file that `word` resolves to when `files` are the files that exist.
pub open spec fn resolve(
    platform: Platform,
    word: Seq<char>,
    absolute: bool,
    search_path: Option<Seq<char>>,
    files: Map<Seq<char>, FileStat>,
) -> Option<Seq<char>> {
    search(platform, candidates(platform, word, absolute, search_path), files)
}

/// Splits a list at every `sep`.
pub fn split_list(list: &str, sep: char) -> (entries: Vec<String>)
    ensures
        entries.deep_view() == split(list@, sep),
{
    let mut entries: Vec<String> = Vec::new();
    let mut current = String::new();
    assert(entries.deep_view().push(current@) =~= split(list@.take(0), sep));
    for c in it: list.chars()
        invariant
            it.seq() == list@,
            entries.deep_view().push(current@) == split(list@.take(it.index() as int), sep),
    {
        proof {
            let seen = list@.take(it.index() + 1);
            assert(seen.drop_last() =~= list@.take(it.index() as int));
            assert(seen.last() == c);
        }
        let ghost before = entries.deep_view();
        let ghost word = current@;
        if c == sep {
            entries.push(current);
            current = String::new();
            assert(entries.deep_view() =~= before.push(word));
        } else {
            current.push(c);
            assert(before.push(word).drop_last() =~= before);
        }
    }
    assert(list@.take(list@.len() as int) =~= list@);
    let ghost before = entries.deep_view();
    entries.push(current);
    assert(entries.deep_view() =~= before.push(current@));
    entries
}

/// Writes the path of `word` under the directory `dir`.
pub fn join_path(platform: Platform, dir: &str, word: &str) -> (path: String)
    ensures
        path@ == under(platform, dir@, word@),
{
    let mut path = dir.to_owned();
    match last_char(dir) {
        None => {},
        Some(c) => {
            if !platform.is_separator(c) {
                path.push(platform.separator());
            }
        },
    }
    path.append(word);
    path
}

/// Lists the paths to probe for `word`, in order.
pub fn search_candidates(
    platform: Platform,
    word: &str,
    absolute: bool,
    search_path: Option<&str>,
) -> (paths: Vec<String>)
    ensures
        paths.deep_view() == candidates(platform, word@, absolute, search_path.deep_view()),
{
    let mut paths: Vec<String> = Vec::new();
    if absolute || contains_char(word, '/') {
        paths.push(word.to_owned());
        assert(paths.deep_view() =~= seq![word@]);
        return paths;
    }
    match search_path {
        None => {
            assert(paths.deep_view() =~= Seq::<Seq<char>>::empty());
        },
        Some(list) => {
            let dirs = split_list(list, platform.list_separator());
            let mut i: usize = 0;
            while i < dirs.len()
                invariant
                    i <= dirs.len(),
                    paths.len() == i,
                    forall|k: int|
                        0 <= k < i ==> (#[trigger] paths[k])@ == under(platform, dirs[k]@, word@),
                decreases dirs.len() - i,
            {
                paths.push(join_path(platform, dirs[i].as_str(), word));
                i = i + 1;
            }
            assert(paths.deep_view() =~= Seq::new(
                dirs.deep_view().len(),
                |k: int| under(platform, dirs.deep_view()[k], word@),
            ));
        },
    }
    paths
}

/// Trusted: `std::path::Path::is_absolute` says whether the platform that
/// the program was built for takes the path for one that does not depend on
/// the working directory. What counts as absolute differs between
/// platforms, so nothing is claimed of the answer.
#[verifier::external_body]
fn is_absolute(word: &str) -> bool {
    std::path::Path::new(word).is_absolute()
}

/// A search in progress: the paths still to probe, first things first.
pub struct PathSearch {
    platform: Platform,
    paths: Vec<String>,
    cursor: usize,
}

impl PathSearch {
    /// The platform whose executability test the search applies.
    pub closed spec fn platform(&self) -> Platform {
        self.platform
    }

    /// The paths not yet probed, in the order in which they will be.
    pub closed spec fn remaining(&self) -> Seq<Seq<char>> {
        if self.cursor <= self.paths.len() {
            self.paths.deep_view().skip(self.cursor as int)
        } else {
            Seq::empty()
        }
    }

    /// Starts the search for `word`, given whether the platform takes it
    /// for an absolute path.
    pub fn with_absolute(
        platform: Platform,
        word: &str,
        absolute: bool,
        search_path: Option<&str>,
    ) -> (search: PathSearch)
        ensures
            search.platform() == platform,
            search.remaining() == candidates(
                platform,
                word@,
                absolute,
                search_path.deep_view(),
            ),
    {
        let paths = search_candidates(platform, word, absolute, search_path);
        assert(paths.deep_view().skip(0) =~= paths.deep_view());
        PathSearch { platform, paths, cursor: 0 }
    }

    /// Starts the search for `word`. On POSIX an absolute path begins with
    /// `/`, so a word is taken as a path exactly when it holds a `/`.
    /// Elsewhere the rule of the platform that the program was built for
    /// says whether a word without a `/` is an absolute path all the same.
    pub fn new(platform: Platform, word: &str, search_path: Option<&str>) -> (search: PathSearch)
        ensures
            search.platform() == platform,
            platform == Platform::Posix ==> search.remaining() == candidates(
                platform,
                word@,
                false,
                search_path.deep_view(),
            ),
            exists|absolute: bool|
                search.remaining() == #[trigger] candidates(
                    platform,
                    word@,
                    absolute,
                    search_path.deep_view(),
                ),
            word@.contains('/') ==> search.remaining() == seq![word@],
    {
        let absolute = match platform {
            Platform::Posix => false,
            Platform::Windows => is_absolute(word),
        };
        PathSearch::with_absolute(platform, word, absolute, search_path)
    }

    /// The path to probe next, or `None` when the search is over.
    pub fn candidate(&self) -> (path: Option<&str>)
        ensures
            path is Some <==> self.remaining().len() > 0,
            path is Some ==> path->0@ == self.remaining()[0],
    {
        if self.cursor < self.paths.len() {
            Some(self.paths[self.cursor].as_str())
        } else {
            None
        }
    }

    /// Takes the outcome of the probe of the current candidate; `None` stands
    /// for a probe that failed. A candidate that passes the executability
    /// test is returned, and the search is over. Any other is dropped and
    /// the next one becomes current. Once the search is over every answer
    /// is ignored.
    pub fn answer(&mut self, stat: Option<FileStat>) -> (found: Option<String>)
        ensures
            final(self).platform() == old(self).platform(),
            (found.deep_view(), final(self).remaining()) == decide(
                old(self).platform(),
                old(self).remaining(),
                stat,
            ),
            found is Some ==> executable(old(self).platform(), stat),
    {
        if self.cursor >= self.paths.len() {
            return None;
        }
        if is_executable(self.platform, stat) {
            let path = self.paths[self.cursor].clone();
            self.cursor = self.paths.len();
            assert(self.remaining() =~= Seq::<Seq<char>>::empty());
            Some(path)
        } else {
            assert(self.paths.deep_view().skip(self.cursor + 1) =~= self.paths.deep_view().skip(
                self.cursor as int,
            ).skip(1));
            self.cursor = self.cursor + 1;
            None
        }
    }
}

/// Splitting loses nothing and cuts everywhere: the entries of a list,
/// written with the separator between them, are the list again, and no
/// entry holds the separator.
pub proof fn lemma_split_joins_back(list: Seq<char>, sep: char)
    ensures
        split(list, sep).len() > 0,
        joined(split(list, sep), seq![sep]) == list,
        forall|i: int| 0 <= i < split(list, sep).len() ==> !(#[trigger] split(list, sep)[i]).contains(sep),
    decreases list.len(),
{
    let glue = seq![sep];
    let entries = split(list, sep);
    if list.len() == 0 {
        assert(joined(entries, glue) =~= list);
    } else {
        let shorter = list.drop_last();
        let before = split(shorter, sep);
        lemma_split_joins_back(shorter, sep);
        let c = list.last();
        assert(shorter.push(c) =~= list);
        if c == sep {
            assert(entries.drop_last() =~= before);
            assert(joined(entries, glue) =~= list);
        } else {
            let grown = before.last().push(c);
            assert(entries.last() == grown);
            assert(!before[before.len() - 1].contains(sep));
            if before.len() == 1 {
                assert(joined(entries, glue) =~= list);
            } else {
                assert(entries.drop_last() =~= before.drop_last());
                assert(joined(entries, glue) =~= joined(before, glue).push(c));
            }
        }
    }
}

/// Earlier candidates win: a search returns the first of its paths that
/// passes the executability test, and returns nothing only when none does.
pub proof fn lemma_search_finds_earliest(
    platform: Platform,
    paths: Seq<Seq<char>>,
    files: Map<Seq<char>, FileStat>,
)
    ensures
        match search(platform, paths, files) {
            Some(path) => exists|i: int|
                {
                    &&& 0 <= i < paths.len()
                    &&& #[trigger] paths[i] == path
                    &&& executable(platform, probe(files, path))
                    &&& forall|j: int|
                        0 <= j < i ==> !executable(platform, probe(files, #[trigger] paths[j]))
                },
            None => forall|i: int|
                0 <= i < paths.len() ==> !executable(platform, probe(files, #[trigger] paths[i])),
        },
    decreases paths.len(),
{
    if paths.len() > 0 && !executable(platform, probe(files, paths[0])) {
        let rest = paths.skip(1);
        lemma_search_finds_earliest(platform, rest, files);
        match search(platform, rest, files) {
            Some(path) => {
                let i = choose|i: int|
                    {
                        &&& 0 <= i < rest.len()
                        &&& #[trigger] rest[i] == path
                        &&& forall|j: int|
                            0 <= j < i ==> !executable(platform, probe(files, #[trigger] rest[j]))
                    };
                assert(paths[i + 1] == path);
                assert forall|j: int| 0 <= j < i + 1 implies !executable(
                    platform,
                    probe(files, #[trigger] paths[j]),
                ) by {
                    if j > 0 {
                        assert(rest[j - 1] == paths[j]);
                    }
                }
            },
            None => {
                assert forall|i: int| 0 <= i < paths.len() implies !executable(
                    platform,
                    probe(files, #[trigger] paths[i]),
                ) by {
                    if i > 0 {
                        assert(rest[i - 1] == paths[i]);
                    }
                }
            },
        }
    } else if paths.len() > 0 {
        assert(paths[0] == paths[0]);
    }
}

/// Whatever a word resolves to is one of its candidates, exists, is a
/// regular file and, on POSIX, has an execute bit set.
pub proof fn lemma_resolved_path_is_executable(
    platform: Platform,
    word: Seq<char>,
    absolute: bool,
    search_path: Option<Seq<char>>,
    files: Map<Seq<char>, FileStat>,
)
    requires
        resolve(platform, word, absolute, search_path, files) is Some,
    ensures
        ({
            let path = resolve(platform, word, absolute, search_path, files)->0;
            &&& candidates(platform, word, absolute, search_path).contains(path)
            &&& files.contains_key(path)
            &&& files[path].regular
            &&& platform == Platform::Posix ==> files[path].mode & 0o111 != 0
        }),
{
    lemma_search_finds_earliest(
        platform,
        candidates(platform, word, absolute, search_path),
        files,
    );
}

/// A word that is an absolute path, or that holds a `/`, resolves without
/// regard to the search path: to itself where it passes the executability
/// test, and to nothing where it does not.
pub proof fn lemma_explicit_path_ignores_search_path(
    platform: Platform,
    word: Seq<char>,
    absolute: bool,
    search_path: Option<Seq<char>>,
    files: Map<Seq<char>, FileStat>,
)
    requires
        absolute || word.contains('/'),
    ensures
        resolve(platform, word, absolute, search_path, files) == if executable(
            platform,
            probe(files, word),
        ) {
            Some(word)
        } else {
            None::<Seq<char>>
        },
{
    reveal_with_fuel(search, 2);
    let paths = seq![word];
    assert(paths[0] == word);
    assert(paths.skip(1).len() == 0);
}

} // verus!
