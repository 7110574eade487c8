//! File discovery: which of the entries found under the backup roots are
//! backed up, where each lands in the working copy, and which ignore pattern
//! stands for each file that is left out.

use vstd::prelude::*;
use crate::path::{
    destination, destination_base, destination_of, file_name, joined, lemma_relative_injective,
    lemma_destination_shape, lemma_relative_round_trip, lemma_under_parent, parent_of,
    proper_root, relative_to, str_eq, strip_root, trim_trailing_sep,
};
use crate::text::{
    chars_of, ends_with, free_of, has_suffix, join_lines, joined_lines, last_segment_start,
    lemma_segment_start, lemma_split_joined, pieces, texts,
};

verus! {

/// Largest file that is still backed up: 100 MiB.
pub const MAX_FILE_SIZE: u64 = 104857600;

/// What kind of filesystem entry a walk came upon.
#[derive(Clone, Copy, Debug, PartialEq, Eq, Structural)]
pub enum EntryKind {
    File,
    Directory,
    Other,
}

/// An entry found under a backup root.
#[derive(Clone, Debug)]
pub struct CandidateEntry {
    /// Absolute path of the entry.
    pub path: String,
    pub kind: EntryKind,
    /// Size in bytes.
    pub size: u64,
    /// The file's bytes, or `None` where it could not be read.
    pub content: Option<Vec<u8>>,
}

/// A backup root together with the entries a walk found under it, in walk
/// order.
#[derive(Clone, Debug)]
pub struct WalkedRoot {
    pub path: String,
    pub is_dir: bool,
    pub entries: Vec<CandidateEntry>,
}

/// A file that passed every filter.
#[derive(Clone, Debug)]
pub struct EligibleFile {
    /// Absolute path of the file.
    pub source: String,
    /// Path inside the working copy.
    pub destination: String,
}

impl View for EligibleFile {
    type V = (Seq<char>, Seq<char>);

    open spec fn view(&self) -> (Seq<char>, Seq<char>) {
        (self.source@, self.destination@)
    }
}

/// Two eligible files that would land on the same destination.
#[derive(Clone, Debug)]
pub struct Collision {
    pub first_source: String,
    pub second_source: String,
    pub destination: String,
}

/// Number of bytes below 128.
pub open spec fn ascii_count(bytes: Seq<u8>) -> nat
    decreases bytes.len(),
{
    if bytes.len() == 0 {
        0
    } else {
        ascii_count(bytes.drop_last()) + if bytes.last() < 128 {
            1nat
        } else {
            0nat
        }
    }
}

/// Content counts as binary where it holds a zero byte or where fewer than
/// four bytes in five are below 128.
pub open spec fn binary(bytes: Seq<u8>) -> bool {
    bytes.contains(0u8) || ascii_count(bytes) * 5 < bytes.len() * 4
}

/// A file name that is never backed up.
pub open spec fn junk_name(name: Seq<char>) -> bool {
    name == ".DS_Store"@ || name == "Thumbs.db"@ || has_suffix(name, ".log"@)
}

/// Content of an entry counts as binary; an unreadable entry does not.
pub open spec fn binary_content(content: Option<Vec<u8>>) -> bool {
    match content {
        Some(bytes) => binary(bytes@),
        None => false,
    }
}

/// The entry is a regular file that passes every filter.
pub open spec fn eligible(e: CandidateEntry) -> bool {
    e.kind == EntryKind::File && e.size <= MAX_FILE_SIZE && !binary_content(e.content)
        && !junk_name(file_name(e.path@))
}

/// The entry is a regular file that some filter rejects.
pub open spec fn excluded(e: CandidateEntry) -> bool {
    e.kind == EntryKind::File && !eligible(e)
}

/// `text` with a `/` at its start: put there where it does not start with
/// one already.
pub open spec fn anchored(text: Seq<char>) -> Seq<char> {
    if text.len() > 0 && text[0] == '/' {
        text
    } else {
        seq!['/'] + text
    }
}

/// The ignore pattern for a file found under `root`: its path relative to
/// the root, anchored, where the file lies under the root; else its whole
/// path, anchored, which for an absolute path is the path itself.
pub open spec fn ignore_pattern(path: Seq<char>, root: Seq<char>) -> Seq<char> {
    match relative_to(path, root) {
        Some(rel) => anchored(rel),
        None => anchored(path),
    }
}

/// Eligible files among the first `n` entries of a root, in walk order.
pub open spec fn root_files(root: WalkedRoot, single_root_mode: bool, n: int) -> Seq<
    (Seq<char>, Seq<char>),
>
    decreases n,
{
    if n <= 0 {
        Seq::empty()
    } else {
        let e = root.entries@[n - 1];
        let before = root_files(root, single_root_mode, n - 1);
        if eligible(e) {
            before.push((e.path@, destination(e.path@, root.path@, single_root_mode)))
        } else {
            before
        }
    }
}

/// Ignore patterns for the excluded files among the first `n` entries of a
/// root, in walk order.
pub open spec fn root_patterns(root: WalkedRoot, n: int) -> Seq<Seq<char>>
    decreases n,
{
    if n <= 0 {
        Seq::empty()
    } else {
        let e = root.entries@[n - 1];
        let before = root_patterns(root, n - 1);
        if excluded(e) {
            before.push(ignore_pattern(e.path@, root.path@))
        } else {
            before
        }
    }
}

/// Eligible files of the first `n` roots.
pub open spec fn all_files(roots: Seq<WalkedRoot>, single_root_mode: bool, n: int) -> Seq<
    (Seq<char>, Seq<char>),
>
    decreases n,
{
    if n <= 0 {
        Seq::empty()
    } else {
        all_files(roots, single_root_mode, n - 1) + root_files(
            roots[n - 1],
            single_root_mode,
            roots[n - 1].entries@.len() as int,
        )
    }
}

/// Ignore patterns of the first `n` roots.
pub open spec fn all_patterns(roots: Seq<WalkedRoot>, n: int) -> Seq<Seq<char>>
    decreases n,
{
    if n <= 0 {
        Seq::empty()
    } else {
        all_patterns(roots, n - 1) + root_patterns(roots[n - 1], roots[n - 1].entries@.len() as int)
    }
}

/// Exactly one root is configured and it is a directory.
pub open spec fn single_root(roots: Seq<WalkedRoot>) -> bool {
    roots.len() == 1 && roots[0].is_dir
}

/// The files at `i` and `j` would land on the same destination.
pub open spec fn collide(files: Seq<(Seq<char>, Seq<char>)>, i: int, j: int) -> bool {
    0 <= i < j < files.len() && files[i].1 == files[j].1
}

/// No two files share a destination.
pub open spec fn distinct_destinations(files: Seq<(Seq<char>, Seq<char>)>) -> bool {
    forall|i: int, j: int| !collide(files, i, j)
}

/// Whether content counts as binary.
pub fn is_binary(content: &[u8]) -> (b: bool)
    ensures
        b == binary(content@),
{
    let n: usize = content.len();
    let mut ascii: usize = 0;
    let mut zero: bool = false;
    let mut i: usize = 0;
    while i < n
        invariant
            n == content@.len(),
            i <= n,
            ascii <= i,
            ascii == ascii_count(content@.subrange(0, i as int)),
            zero == content@.subrange(0, i as int).contains(0u8),
        decreases n - i,
    {
        let ghost before = content@.subrange(0, i as int);
        let ghost after = content@.subrange(0, i + 1);
        proof {
            assert(after.drop_last() =~= before);
            assert(after.last() == content@[i as int]);
            if before.contains(0u8) {
                let k = choose|k: int| 0 <= k < before.len() && before[k] == 0u8;
                assert(after[k] == 0u8);
            }
            if content@[i as int] == 0u8 {
                assert(after[i as int] == 0u8);
            }
            if after.contains(0u8) && content@[i as int] != 0u8 {
                let k = choose|k: int| 0 <= k < after.len() && after[k] == 0u8;
                assert(before[k] == 0u8);
            }
        }
        if content[i] == 0 {
            zero = true;
        }
        if content[i] < 128 {
            ascii = ascii + 1;
        }
        i = i + 1;
    }
    assert(content@.subrange(0, n as int) =~= content@);
    let five_ascii: u128 = (ascii as u128) * 5;
    let four_len: u128 = (n as u128) * 4;
    zero || five_ascii < four_len
}

/// Whether the file's name puts it on the junk list.
pub fn is_junk(path: &str) -> (b: bool)
    ensures
        b == junk_name(file_name(path@)),
{
    let whole: &str = trim_trailing_sep(path);
    let pv = chars_of(whole);
    let n: usize = pv.len();
    let k: usize = last_segment_start(pv.as_slice(), '/');
    proof {
        lemma_segment_start(whole@, '/');
    }
    let name: &str = whole.substring_char(k, n);
    if str_eq(name, ".DS_Store") || str_eq(name, "Thumbs.db") {
        return true;
    }
    ends_with(name, ".log")
}

/// Whether the entry is backed up.
pub fn should_backup(entry: &CandidateEntry) -> (b: bool)
    ensures
        b == eligible(*entry),
{
    match entry.kind {
        EntryKind::File => {},
        _ => {
            return false;
        },
    }
    if entry.size > MAX_FILE_SIZE {
        return false;
    }
    let bin: bool = match &entry.content {
        Some(bytes) => is_binary(bytes.as_slice()),
        None => false,
    };
    if bin {
        return false;
    }
    !is_junk(entry.path.as_str())
}

/// The ignore pattern that stands for the file at `full_path`, found under
/// `base_path`.
pub fn path_to_gitignore_pattern(full_path: &str, base_path: &str) -> (r: Option<String>)
    ensures
        r.is_some(),
        r.unwrap()@ == ignore_pattern(full_path@, base_path@),
{
    let text: &str = match strip_root(full_path, base_path) {
        Some(rel) => rel,
        None => full_path,
    };
    if text.unicode_len() > 0 && text.get_char(0) == '/' {
        Some(String::from_str(text))
    } else {
        proof {
            reveal_strlit("/");
            assert("/"@ =~= seq!['/']);
        }
        let mut out = String::from_str("/");
        out.append(text);
        Some(out)
    }
}

/// What each file of a list stands for: its source and its destination.
pub open spec fn file_views(files: Seq<EligibleFile>) -> Seq<(Seq<char>, Seq<char>)> {
    Seq::new(files.len(), |i: int| files[i]@)
}

/// `(i, j)` is the first collision of `files`: no file before `j` shares a
/// destination with an earlier one, and `i` is the earliest file that `j`
/// collides with.
pub open spec fn first_collision(files: Seq<(Seq<char>, Seq<char>)>, i: int, j: int) -> bool {
    &&& collide(files, i, j)
    &&& forall|a: int, b: int| b < j ==> !collide(files, a, b)
    &&& forall|a: int| a < i ==> !collide(files, a, j)
}

/// Adds the eligible files of one root to `files` and the ignore patterns of
/// its excluded files to `patterns`.
fn scan_root(
    root: &WalkedRoot,
    single_root_mode: bool,
    files: &mut Vec<EligibleFile>,
    patterns: &mut Vec<String>,
)
    ensures
        file_views(final(files)@) == file_views(old(files)@) + root_files(
            *root,
            single_root_mode,
            root.entries@.len() as int,
        ),
        texts(final(patterns)@) == texts(old(patterns)@) + root_patterns(
            *root,
            root.entries@.len() as int,
        ),
{
    let n: usize = root.entries.len();
    let mut k: usize = 0;
    assert(file_views(files@) =~= file_views(old(files)@) + root_files(
        *root,
        single_root_mode,
        0,
    ));
    assert(texts(patterns@) =~= texts(old(patterns)@) + root_patterns(*root, 0));
    while k < n
        invariant
            n == root.entries@.len(),
            k <= n,
            file_views(files@) == file_views(old(files)@) + root_files(
                *root,
                single_root_mode,
                k as int,
            ),
            texts(patterns@) == texts(old(patterns)@) + root_patterns(*root, k as int),
        decreases n - k,
    {
        let entry = &root.entries[k];
        let ghost files_before = files@;
        let ghost patterns_before = patterns@;
        if should_backup(entry) {
            let file = EligibleFile {
                source: entry.path.clone(),
                destination: destination_of(
                    entry.path.as_str(),
                    root.path.as_str(),
                    single_root_mode,
                ),
            };
            files.push(file);
            assert(file_views(files@) =~= file_views(files_before).push(file@));
            assert(file_views(files@) =~= file_views(old(files)@) + root_files(
                *root,
                single_root_mode,
                k + 1,
            ));
        } else {
            match entry.kind {
                EntryKind::File => {
                    let pattern = path_to_gitignore_pattern(
                        entry.path.as_str(),
                        root.path.as_str(),
                    );
                    match pattern {
                        Some(line) => {
                            patterns.push(line);
                            assert(texts(patterns@) =~= texts(patterns_before).push(line@));
                            assert(texts(patterns@) =~= texts(old(patterns)@) + root_patterns(
                                *root,
                                k + 1,
                            ));
                        },
                        None => {},
                    }
                },
                _ => {},
            }
        }
        k = k + 1;
    }
}

/// The first two files that share a destination, if any do.
pub fn find_collision(files: &Vec<EligibleFile>) -> (r: Option<(usize, usize)>)
    ensures
        match r {
            Some((i, j)) => first_collision(file_views(files@), i as int, j as int),
            None => distinct_destinations(file_views(files@)),
        },
{
    let n: usize = files.len();
    let mut j: usize = 0;
    while j < n
        invariant
            n == files@.len(),
            j <= n,
            forall|a: int, b: int| b < j ==> !collide(file_views(files@), a, b),
        decreases n - j,
    {
        let mut i: usize = 0;
        while i < j
            invariant
                n == files@.len(),
                i <= j < n,
                forall|a: int, b: int| b < j ==> !collide(file_views(files@), a, b),
                forall|a: int| a < i ==> !collide(file_views(files@), a, j as int),
            decreases j - i,
        {
            if str_eq(files[i].destination.as_str(), files[j].destination.as_str()) {
                return Some((i, j));
            }
            i = i + 1;
        }
        j = j + 1;
    }
    None
}

/// Discovery over the walked roots: the eligible files in walk order, each
/// with its destination, and the content of the ignore file, one pattern per
/// excluded file. Fails where two eligible files would land on the same
/// destination, and names the first such pair.
pub fn scan(roots: &[WalkedRoot]) -> (r: Result<(Vec<EligibleFile>, String), Collision>)
    ensures
        match r {
            Ok((files, ignore)) => {
                &&& file_views(files@) == all_files(roots@, single_root(roots@), roots@.len() as int)
                &&& distinct_destinations(file_views(files@))
                &&& ignore@ == join_lines(all_patterns(roots@, roots@.len() as int))
            },
            Err(c) => {
                let found = all_files(roots@, single_root(roots@), roots@.len() as int);
                exists|i: int, j: int|
                    first_collision(found, i, j) && found[i] == (c.first_source@, c.destination@)
                        && found[j] == (c.second_source@, c.destination@)
            },
        },
{
    let n: usize = roots.len();
    let single_root_mode: bool = n == 1 && roots[0].is_dir;
    let mut files: Vec<EligibleFile> = Vec::new();
    let mut patterns: Vec<String> = Vec::new();
    let mut r: usize = 0;
    assert(single_root_mode == single_root(roots@));
    assert(file_views(files@) =~= all_files(roots@, single_root_mode, 0));
    assert(texts(patterns@) =~= all_patterns(roots@, 0));
    while r < n
        invariant
            n == roots@.len(),
            r <= n,
            single_root_mode == single_root(roots@),
            file_views(files@) == all_files(roots@, single_root_mode, r as int),
            texts(patterns@) == all_patterns(roots@, r as int),
        decreases n - r,
    {
        scan_root(&roots[r], single_root_mode, &mut files, &mut patterns);
        r = r + 1;
    }
    match find_collision(&files) {
        Some((i, j)) => {
            let c = Collision {
                first_source: files[i].source.clone(),
                second_source: files[j].source.clone(),
                destination: files[i].destination.clone(),
            };
            assert(first_collision(file_views(files@), i as int, j as int));
            assert(file_views(files@)[i as int] == (c.first_source@, c.destination@));
            assert(file_views(files@)[j as int] == (c.second_source@, c.destination@));
            Err(c)
        },
        None => {
            let ignore = joined_lines(&patterns);
            Ok((files, ignore))
        },
    }
}

/// Every filter excludes: a regular file over the size ceiling, one whose
/// content holds a zero byte, one with more than a fifth of its bytes at 128
/// or above, and one with a junk name are all excluded.
pub proof fn lemma_filters_exclude(e: CandidateEntry)
    requires
        e.kind == EntryKind::File,
    ensures
        e.size > MAX_FILE_SIZE ==> excluded(e),
        e.content is Some && e.content.unwrap()@.contains(0u8) ==> excluded(e),
        e.content is Some && (e.content.unwrap()@.len() - ascii_count(e.content.unwrap()@)) * 5
            > e.content.unwrap()@.len() ==> excluded(e),
        file_name(e.path@) == ".DS_Store"@ || file_name(e.path@) == "Thumbs.db"@ || has_suffix(
            file_name(e.path@),
            ".log"@,
        ) ==> excluded(e),
        e.content is None && e.size <= MAX_FILE_SIZE && !junk_name(file_name(e.path@))
            ==> eligible(e),
{
}

/// An entry that is no regular file is neither backed up nor listed.
pub proof fn lemma_only_files_count(e: CandidateEntry)
    requires
        e.kind != EntryKind::File,
    ensures
        !eligible(e),
        !excluded(e),
{
}

/// Every ignore pattern starts with `/`.
pub proof fn lemma_pattern_anchored(path: Seq<char>, root: Seq<char>)
    ensures
        ignore_pattern(path, root).len() > 0,
        ignore_pattern(path, root)[0] == '/',
{
}

/// The patterns of a shorter run of entries open the patterns of a longer
/// run.
pub proof fn lemma_patterns_grow(root: WalkedRoot, i: int, n: int)
    requires
        0 <= i <= n,
    ensures
        root_patterns(root, i).len() <= root_patterns(root, n).len(),
        root_patterns(root, n).subrange(0, root_patterns(root, i).len() as int) == root_patterns(
            root,
            i,
        ),
    decreases n - i,
{
    if i == n {
        assert(root_patterns(root, n).subrange(0, root_patterns(root, n).len() as int)
            =~= root_patterns(root, n));
    } else {
        lemma_patterns_grow(root, i, n - 1);
        let short = root_patterns(root, i);
        let before = root_patterns(root, n - 1);
        let all = root_patterns(root, n);
        assert(all.subrange(0, short.len() as int) =~= before.subrange(0, short.len() as int));
    }
}

/// Each excluded file has a place of its own in the pattern list: the entry
/// at `i` stands at the position that counts the excluded files before it,
/// and a later excluded file stands further back.
pub proof fn lemma_excluded_listed(root: WalkedRoot, i: int, j: int, n: int)
    requires
        0 <= i < j <= n <= root.entries@.len(),
        excluded(root.entries@[i]),
    ensures
        root_patterns(root, i).len() < root_patterns(root, n).len(),
        root_patterns(root, n)[root_patterns(root, i).len() as int] == ignore_pattern(
            root.entries@[i].path@,
            root.path@,
        ),
        root_patterns(root, i).len() < root_patterns(root, j).len(),
{
    lemma_patterns_grow(root, i + 1, n);
    lemma_patterns_grow(root, i + 1, j);
    let upto = root_patterns(root, i + 1);
    assert(upto == root_patterns(root, i).push(
        ignore_pattern(root.entries@[i].path@, root.path@),
    ));
    let k = root_patterns(root, i).len() as int;
    assert(root_patterns(root, n).subrange(0, upto.len() as int)[k] == upto[k]);
}

/// Each pattern stands for an excluded file: the position `k` of the list
/// belongs to some excluded entry, counted as in `lemma_excluded_listed`.
pub proof fn lemma_pattern_has_file(root: WalkedRoot, k: int, n: int)
    requires
        0 <= n <= root.entries@.len(),
        0 <= k < root_patterns(root, n).len(),
    ensures
        exists|i: int|
            0 <= i < n && excluded(#[trigger] root.entries@[i]) && root_patterns(root, i).len()
                == k,
    decreases n,
{
    if n > 0 {
        let e = root.entries@[n - 1];
        if excluded(e) && root_patterns(root, n - 1).len() == k {
            assert(0 <= n - 1 < n && excluded(root.entries@[n - 1]) && root_patterns(
                root,
                n - 1,
            ).len() == k);
        } else {
            lemma_pattern_has_file(root, k, n - 1);
            let i = choose|i: int|
                0 <= i < n - 1 && excluded(#[trigger] root.entries@[i]) && root_patterns(
                    root,
                    i,
                ).len() == k;
            assert(0 <= i < n && excluded(root.entries@[i]) && root_patterns(root, i).len() == k);
        }
    }
}

/// The pattern list of all roots holds the patterns of each root in turn: an
/// excluded file of root `r` stands behind all patterns of the roots before
/// it, at its place among the patterns of its own root.
pub proof fn lemma_excluded_listed_overall(roots: Seq<WalkedRoot>, r: int, i: int)
    requires
        0 <= r < roots.len(),
        0 <= i < roots[r].entries@.len(),
        excluded(roots[r].entries@[i]),
    ensures
        all_patterns(roots, r).len() + root_patterns(roots[r], i).len() < all_patterns(
            roots,
            roots.len() as int,
        ).len(),
        all_patterns(roots, roots.len() as int)[(all_patterns(roots, r).len() + root_patterns(
            roots[r],
            i,
        ).len()) as int] == ignore_pattern(roots[r].entries@[i].path@, roots[r].path@),
{
    let full = roots[r].entries@.len() as int;
    lemma_excluded_listed(roots[r], i, full, full);
    lemma_all_patterns_grow(roots, r + 1, roots.len() as int);
    let pos = (all_patterns(roots, r).len() + root_patterns(roots[r], i).len()) as int;
    let upto = all_patterns(roots, r + 1);
    assert(upto[pos] == root_patterns(roots[r], full)[root_patterns(roots[r], i).len() as int]);
    assert(all_patterns(roots, roots.len() as int).subrange(0, upto.len() as int)[pos]
        == upto[pos]);
}

/// The patterns of the first roots open the patterns of more roots.
pub proof fn lemma_all_patterns_grow(roots: Seq<WalkedRoot>, r: int, n: int)
    requires
        0 <= r <= n,
    ensures
        all_patterns(roots, r).len() <= all_patterns(roots, n).len(),
        all_patterns(roots, n).subrange(0, all_patterns(roots, r).len() as int) == all_patterns(
            roots,
            r,
        ),
    decreases n - r,
{
    if r == n {
        assert(all_patterns(roots, n).subrange(0, all_patterns(roots, n).len() as int)
            =~= all_patterns(roots, n));
    } else {
        lemma_all_patterns_grow(roots, r, n - 1);
        let short = all_patterns(roots, r);
        let before = all_patterns(roots, n - 1);
        let all = all_patterns(roots, n);
        assert(all.subrange(0, short.len() as int) =~= before.subrange(0, short.len() as int));
    }
}

/// The eligible files of a shorter run of entries open those of a longer
/// run.
pub proof fn lemma_files_grow(root: WalkedRoot, single_root_mode: bool, i: int, n: int)
    requires
        0 <= i <= n,
    ensures
        root_files(root, single_root_mode, i).len() <= root_files(root, single_root_mode, n).len(),
        root_files(root, single_root_mode, n).subrange(
            0,
            root_files(root, single_root_mode, i).len() as int,
        ) == root_files(root, single_root_mode, i),
    decreases n - i,
{
    if i == n {
        assert(root_files(root, single_root_mode, n).subrange(
            0,
            root_files(root, single_root_mode, n).len() as int,
        ) =~= root_files(root, single_root_mode, n));
    } else {
        lemma_files_grow(root, single_root_mode, i, n - 1);
        let short = root_files(root, single_root_mode, i);
        let before = root_files(root, single_root_mode, n - 1);
        let all = root_files(root, single_root_mode, n);
        assert(all.subrange(0, short.len() as int) =~= before.subrange(0, short.len() as int));
    }
}

/// Each eligible file has a place of its own in the list of files: the
/// entry at `i` stands at the position that counts the eligible files before
/// it, with its own path as source and its destination beside it.
pub proof fn lemma_eligible_listed(root: WalkedRoot, single_root_mode: bool, i: int, n: int)
    requires
        0 <= i < n <= root.entries@.len(),
        eligible(root.entries@[i]),
    ensures
        root_files(root, single_root_mode, i).len() < root_files(root, single_root_mode, n).len(),
        root_files(root, single_root_mode, n)[root_files(root, single_root_mode, i).len() as int]
            == (
            root.entries@[i].path@,
            destination(root.entries@[i].path@, root.path@, single_root_mode),
        ),
{
    lemma_files_grow(root, single_root_mode, i + 1, n);
    let upto = root_files(root, single_root_mode, i + 1);
    let k = root_files(root, single_root_mode, i).len() as int;
    assert(root_files(root, single_root_mode, n).subrange(0, upto.len() as int)[k] == upto[k]);
}

/// Each listed file of a root stands for an eligible entry: the position `k`
/// of the list belongs to some eligible entry, counted as in
/// `lemma_eligible_listed`, and holds that entry's path and destination.
pub proof fn lemma_file_has_entry(root: WalkedRoot, single_root_mode: bool, k: int, n: int)
    requires
        0 <= n <= root.entries@.len(),
        0 <= k < root_files(root, single_root_mode, n).len(),
    ensures
        exists|i: int|
            0 <= i < n && eligible(#[trigger] root.entries@[i]) && root_files(
                root,
                single_root_mode,
                i,
            ).len() == k && root_files(root, single_root_mode, n)[k] == (
                root.entries@[i].path@,
                destination(root.entries@[i].path@, root.path@, single_root_mode),
            ),
    decreases n,
{
    if n > 0 {
        let e = root.entries@[n - 1];
        if eligible(e) && root_files(root, single_root_mode, n - 1).len() == k {
            assert(0 <= n - 1 < n && eligible(root.entries@[n - 1]));
        } else {
            lemma_file_has_entry(root, single_root_mode, k, n - 1);
            let i = choose|i: int|
                0 <= i < n - 1 && eligible(#[trigger] root.entries@[i]) && root_files(
                    root,
                    single_root_mode,
                    i,
                ).len() == k && root_files(root, single_root_mode, n - 1)[k] == (
                    root.entries@[i].path@,
                    destination(root.entries@[i].path@, root.path@, single_root_mode),
                );
            assert(0 <= i < n && eligible(root.entries@[i]));
        }
    }
}

/// Each file that discovery lists stands for an eligible entry of some
/// root, with that entry's path as source and its destination beside it.
pub proof fn lemma_listed_file_has_entry(
    roots: Seq<WalkedRoot>,
    single_root_mode: bool,
    k: int,
    n: int,
)
    requires
        0 <= n <= roots.len(),
        0 <= k < all_files(roots, single_root_mode, n).len(),
    ensures
        exists|r: int, i: int|
            0 <= r < n && 0 <= i < roots[r].entries@.len() && eligible(
                #[trigger] roots[r].entries@[i],
            ) && all_files(roots, single_root_mode, n)[k] == (
                roots[r].entries@[i].path@,
                destination(roots[r].entries@[i].path@, roots[r].path@, single_root_mode),
            ),
    decreases n,
{
    if n > 0 {
        let before = all_files(roots, single_root_mode, n - 1);
        let last = roots[n - 1];
        let full = last.entries@.len() as int;
        if k < before.len() {
            lemma_listed_file_has_entry(roots, single_root_mode, k, n - 1);
            let (r, i) = choose|r: int, i: int|
                0 <= r < n - 1 && 0 <= i < roots[r].entries@.len() && eligible(
                    #[trigger] roots[r].entries@[i],
                ) && before[k] == (
                    roots[r].entries@[i].path@,
                    destination(roots[r].entries@[i].path@, roots[r].path@, single_root_mode),
                );
            assert(0 <= r < n && 0 <= i < roots[r].entries@.len() && eligible(
                roots[r].entries@[i],
            ));
        } else {
            lemma_file_has_entry(last, single_root_mode, k - before.len(), full);
            let i = choose|i: int|
                0 <= i < full && eligible(#[trigger] last.entries@[i]) && root_files(
                    last,
                    single_root_mode,
                    full,
                )[k - before.len()] == (
                    last.entries@[i].path@,
                    destination(last.entries@[i].path@, last.path@, single_root_mode),
                );
            assert(0 <= n - 1 < n && 0 <= i < roots[n - 1].entries@.len() && eligible(
                roots[n - 1].entries@[i],
            ));
        }
    }
}

/// Each pattern that discovery emits stands for an excluded entry of some
/// root.
pub proof fn lemma_listed_pattern_has_entry(roots: Seq<WalkedRoot>, k: int, n: int)
    requires
        0 <= n <= roots.len(),
        0 <= k < all_patterns(roots, n).len(),
    ensures
        exists|r: int, i: int|
            0 <= r < n && 0 <= i < roots[r].entries@.len() && excluded(
                #[trigger] roots[r].entries@[i],
            ) && all_patterns(roots, n)[k] == ignore_pattern(
                roots[r].entries@[i].path@,
                roots[r].path@,
            ),
    decreases n,
{
    if n > 0 {
        let before = all_patterns(roots, n - 1);
        let last = roots[n - 1];
        let full = last.entries@.len() as int;
        if k < before.len() {
            lemma_listed_pattern_has_entry(roots, k, n - 1);
            let (r, i) = choose|r: int, i: int|
                0 <= r < n - 1 && 0 <= i < roots[r].entries@.len() && excluded(
                    #[trigger] roots[r].entries@[i],
                ) && before[k] == ignore_pattern(roots[r].entries@[i].path@, roots[r].path@);
            assert(0 <= r < n && 0 <= i < roots[r].entries@.len() && excluded(
                roots[r].entries@[i],
            ));
        } else {
            let j = k - before.len();
            lemma_pattern_has_file(last, j, full);
            let i = choose|i: int|
                0 <= i < full && excluded(#[trigger] last.entries@[i]) && root_patterns(
                    last,
                    i,
                ).len() == j;
            lemma_excluded_listed(last, i, full, full);
            assert(0 <= n - 1 < n && 0 <= i < roots[n - 1].entries@.len() && excluded(
                roots[n - 1].entries@[i],
            ));
        }
    }
}

/// Where discovery emits a pattern at all and no pattern holds a line feed,
/// the lines of the ignore text are the patterns: as many as there are
/// patterns, none of them empty, each starting with `/`.
pub proof fn lemma_ignore_lines(roots: Seq<WalkedRoot>)
    requires
        all_patterns(roots, roots.len() as int).len() > 0,
        forall|k: int|
            0 <= k < all_patterns(roots, roots.len() as int).len() ==> free_of(
                #[trigger] all_patterns(roots, roots.len() as int)[k],
                '\n',
            ),
    ensures
        pieces(join_lines(all_patterns(roots, roots.len() as int)), '\n', 0) == all_patterns(
            roots,
            roots.len() as int,
        ),
        forall|k: int|
            0 <= k < all_patterns(roots, roots.len() as int).len() ==> (#[trigger] all_patterns(
                roots,
                roots.len() as int,
            )[k]).len() > 0 && all_patterns(roots, roots.len() as int)[k][0] == '/',
{
    let patterns = all_patterns(roots, roots.len() as int);
    lemma_split_joined(patterns);
    assert forall|k: int| 0 <= k < patterns.len() implies (#[trigger] patterns[k]).len() > 0
        && patterns[k][0] == '/' by {
        lemma_listed_pattern_has_entry(roots, k, roots.len() as int);
        let (r, i) = choose|r: int, i: int|
            0 <= r < roots.len() && 0 <= i < roots[r].entries@.len() && excluded(
                #[trigger] roots[r].entries@[i],
            ) && patterns[k] == ignore_pattern(roots[r].entries@[i].path@, roots[r].path@);
        lemma_pattern_anchored(roots[r].entries@[i].path@, roots[r].path@);
    }
}

/// No two entries that the walks found bear the same path.
pub open spec fn distinct_paths(roots: Seq<WalkedRoot>) -> bool {
    forall|r: int, i: int, q: int, j: int|
        0 <= r < roots.len() && 0 <= i < roots[r].entries@.len() && 0 <= q < roots.len() && 0 <= j
            < roots[q].entries@.len() && (r != q || i != j) ==> (
        #[trigger] roots[r].entries@[i]).path@ != (#[trigger] roots[q].entries@[j]).path@
}

/// Where no path was found twice, an excluded file is the source of no
/// listed file.
pub proof fn lemma_excluded_not_listed(roots: Seq<WalkedRoot>, r: int, i: int, k: int)
    requires
        distinct_paths(roots),
        0 <= r < roots.len(),
        0 <= i < roots[r].entries@.len(),
        excluded(roots[r].entries@[i]),
        0 <= k < all_files(roots, single_root(roots), roots.len() as int).len(),
    ensures
        all_files(roots, single_root(roots), roots.len() as int)[k].0 != roots[r].entries@[i].path@,
{
    let single = single_root(roots);
    lemma_listed_file_has_entry(roots, single, k, roots.len() as int);
    let (q, j) = choose|q: int, j: int|
        0 <= q < roots.len() && 0 <= j < roots[q].entries@.len() && eligible(
            #[trigger] roots[q].entries@[j],
        ) && all_files(roots, single, roots.len() as int)[k] == (
            roots[q].entries@[j].path@,
            destination(roots[q].entries@[j].path@, roots[q].path@, single),
        );
    if q == r && j == i {
    } else {
        assert(roots[q].entries@[j].path@ != roots[r].entries@[i].path@);
    }
}

/// Every entry that the walk of a root found lies under that root, or is
/// the root.
pub open spec fn walked_under(root: WalkedRoot) -> bool {
    forall|i: int|
        0 <= i < root.entries@.len() ==> relative_to(
            (#[trigger] root.entries@[i]).path@,
            root.path@,
        ).is_some()
}

/// With a single directory root whose entries all lie under it, every file
/// that discovery lists has its path relative to the root as destination,
/// and joining root and destination gives its source back. The destination
/// is not empty unless the file is the root itself.
pub proof fn lemma_single_root_files(roots: Seq<WalkedRoot>, k: int)
    requires
        single_root(roots),
        walked_under(roots[0]),
        0 <= k < all_files(roots, true, 1).len(),
    ensures
        relative_to(all_files(roots, true, 1)[k].0, roots[0].path@) == Some(
            all_files(roots, true, 1)[k].1,
        ),
        joined(roots[0].path@, all_files(roots, true, 1)[k].1) == all_files(roots, true, 1)[k].0,
        all_files(roots, true, 1)[k].0 != roots[0].path@ ==> all_files(roots, true, 1)[k].1.len()
            > 0,
{
    lemma_listed_file_has_entry(roots, true, k, 1);
    let (r, i) = choose|r: int, i: int|
        0 <= r < 1 && 0 <= i < roots[r].entries@.len() && eligible(
            #[trigger] roots[r].entries@[i],
        ) && all_files(roots, true, 1)[k] == (
            roots[r].entries@[i].path@,
            destination(roots[r].entries@[i].path@, roots[r].path@, true),
        );
    lemma_single_root_round_trip(roots[0].entries@[i].path@, roots[0].path@);
}

/// With a single directory root, the destination of a file under the root is
/// its path relative to the root, and joining root and destination gives the
/// source path back.
pub proof fn lemma_single_root_round_trip(path: Seq<char>, root: Seq<char>)
    requires
        relative_to(path, root).is_some(),
    ensures
        destination(path, root, true) == relative_to(path, root).unwrap(),
        joined(root, destination(path, root, true)) == path,
{
    lemma_relative_round_trip(path, root);
}

/// With several roots, two different files, each under its own root, never
/// get the same destination where the two roots lie in the same directory
/// or bear different names.
pub proof fn lemma_multi_root_distinct(
    a: Seq<char>,
    root_a: Seq<char>,
    b: Seq<char>,
    root_b: Seq<char>,
)
    requires
        a != b,
        proper_root(root_a),
        proper_root(root_b),
        relative_to(a, root_a).is_some(),
        relative_to(b, root_b).is_some(),
        parent_of(root_a) == parent_of(root_b) || file_name(root_a) != file_name(root_b),
    ensures
        destination(a, root_a, false) != destination(b, root_b, false),
{
    lemma_under_parent(a, root_a);
    lemma_under_parent(b, root_b);
    let da = destination(a, root_a, false);
    let db = destination(b, root_b, false);
    if da == db {
        if parent_of(root_a) == parent_of(root_b) {
            lemma_relative_injective(a, b, destination_base(root_a, false));
        } else {
            lemma_destination_shape(a, root_a);
            lemma_destination_shape(b, root_b);
            let na = file_name(root_a);
            let nb = file_name(root_b);
            if na.len() == nb.len() {
                assert(na =~= nb) by {
                    assert forall|i: int| 0 <= i < na.len() implies na[i] == nb[i] by {
                        assert(da[i] == na[i]);
                        assert(db[i] == nb[i]);
                    }
                }
            } else if na.len() < nb.len() {
                assert(db[na.len() as int] == nb[na.len() as int]);
                assert(da[na.len() as int] == '/');
            } else {
                assert(da[nb.len() as int] == na[nb.len() as int]);
                assert(db[nb.len() as int] == '/');
            }
        }
    }
}

} // verus!
