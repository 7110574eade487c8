//! The configuration record that a run consumes.

use vstd::prelude::*;
use crate::text::{chars_of, find_from, pieces, texts, trim, trimmed};

verus! {

/// How the agent authenticates against the remote.
#[derive(Clone, Debug)]
pub enum AuthMethod {
    Ssh,
    Pat(String),
}

/// What a run needs to know: the remote, the roots to back up, the schedule
/// and where records go. Paths are held as text.
#[derive(Clone, Debug)]
pub struct Config {
    pub repo_url: String,
    pub auth: AuthMethod,
    pub files_to_backup: Vec<String>,
    pub backup_schedule: String,
    pub commit_message_template: String,
    pub log_file: String,
}

/// Each text without the white space at either end.
pub open spec fn all_trimmed(items: Seq<Seq<char>>) -> Seq<Seq<char>> {
    Seq::new(items.len(), |i: int| trimmed(items[i]))
}

/// The roots that a comma-separated list names: what stands between the
/// commas, each without the white space around it.
pub open spec fn root_list(input: Seq<char>) -> Seq<Seq<char>> {
    all_trimmed(pieces(input, ',', 0))
}

/// Reads a comma-separated list of roots.
pub fn parse_roots(input: &str) -> (r: Vec<String>)
    ensures
        texts(r@) == root_list(input@),
{
    let cv = chars_of(input);
    let n: usize = cv.len();
    let mut out: Vec<String> = Vec::new();
    let mut start: usize = 0;
    assert(texts(out@) + all_trimmed(pieces(input@, ',', 0)) =~= root_list(input@));
    loop
        invariant
            cv@ == input@,
            n == cv@.len(),
            start <= n,
            texts(out@) + all_trimmed(pieces(input@, ',', start as int)) == root_list(input@),
        decreases n - start,
    {
        let end: usize = find_from(cv.as_slice(), ',', start);
        let piece: &str = trim(input.substring_char(start, end));
        let ghost before = out@;
        out.push(String::from_str(piece));
        assert(texts(out@) =~= texts(before).push(piece@));
        if end < n {
            proof {
                let rest = pieces(input@, ',', end + 1);
                assert(all_trimmed(seq![input@.subrange(start as int, end as int)] + rest)
                    =~= seq![piece@] + all_trimmed(rest));
                assert(texts(before).push(piece@) + all_trimmed(rest) =~= texts(before) + (
                seq![piece@] + all_trimmed(rest)));
            }
            start = end + 1;
        } else {
            proof {
                assert(all_trimmed(seq![input@.subrange(start as int, n as int)]) =~= seq![
                    piece@,
                ]);
                assert(texts(before).push(piece@) =~= texts(before) + seq![piece@]);
            }
            return out;
        }
    }
}

} // verus!
