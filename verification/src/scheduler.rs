//! The schedule table: how the table reads once this tool's job has been
//! put in. Reading and installing the table is the caller's part.

use vstd::prelude::*;
use crate::text::{
    chars_of, find_from, join_lines, joined_lines, next_index, occurs, slice_contains, texts,
};

verus! {

/// Index of the first line feed at or behind `i`; the length where there is
/// none.
pub open spec fn line_end(s: Seq<char>, i: int) -> int {
    next_index(s, '\n', i)
}

/// The line that starts at `start` and is ended at `end`: a carriage return
/// just before a line feed belongs to the line ending.
pub open spec fn line_text(s: Seq<char>, start: int, end: int) -> Seq<char> {
    if end < s.len() && start < end && s[end - 1] == '\r' {
        s.subrange(start, end - 1)
    } else {
        s.subrange(start, end)
    }
}

/// The line belongs to this tool.
pub open spec fn tagged(line: Seq<char>) -> bool {
    occurs(line, "giterdone"@)
}

/// The lines of `s` from `start` on that do not belong to this tool, in
/// order. A line ending at the very end opens no further line.
pub open spec fn kept_lines(s: Seq<char>, start: int) -> Seq<Seq<char>>
    decreases s.len() - start,
{
    if start < 0 || start >= s.len() {
        Seq::empty()
    } else {
        let end = line_end(s, start);
        let next = if start <= end < s.len() {
            end + 1
        } else {
            s.len() as int
        };
        let line = line_text(s, start, end);
        if tagged(line) {
            kept_lines(s, next)
        } else {
            seq![line] + kept_lines(s, next)
        }
    }
}

/// The table with every line of this tool taken out and the new job put at
/// its end.
pub open spec fn updated_crontab(current: Seq<char>, schedule: Seq<char>, command: Seq<char>) -> Seq<
    char,
> {
    join_lines(kept_lines(current, 0)) + seq!['\n'] + schedule + seq![' '] + command + seq!['\n']
}

/// The command line that the schedule runs.
pub fn job_command(executable: &str) -> (r: String)
    ensures
        r@ == executable@ + " --run-now"@,
{
    let mut out = String::from_str(executable);
    out.append(" --run-now");
    out
}

/// The schedule table as it is to be installed: what `current` holds
/// besides this tool's earlier jobs, then the new job.
pub fn setup_cron_job(current: &str, schedule: &str, command: &str) -> (r: String)
    ensures
        r@ == updated_crontab(current@, schedule@, command@),
{
    let cv = chars_of(current);
    let tag = chars_of("giterdone");
    let n: usize = cv.len();
    let mut kept: Vec<String> = Vec::new();
    let mut start: usize = 0;
    assert(texts(kept@) + kept_lines(current@, 0) =~= kept_lines(current@, 0));
    while start < n
        invariant
            cv@ == current@,
            n == cv@.len(),
            tag@ == "giterdone"@,
            start <= n,
            texts(kept@) + kept_lines(current@, start as int) == kept_lines(current@, 0),
        decreases n - start,
    {
        let end: usize = find_from(cv.as_slice(), '\n', start);
        let stop: usize = if end < n && start < end && cv[end - 1] == '\r' {
            end - 1
        } else {
            end
        };
        let line: &str = current.substring_char(start, stop);
        let lv = chars_of(line);
        let ghost before = kept@;
        let ghost rest = kept_lines(current@, if end < n { end + 1 } else { n as int });
        if !slice_contains(lv.as_slice(), tag.as_slice()) {
            kept.push(String::from_str(line));
            proof {
                assert(texts(kept@) =~= texts(before).push(line@));
                assert(texts(before).push(line@) + rest =~= texts(before) + (seq![line@] + rest));
            }
        }
        if end < n {
            start = end + 1;
        } else {
            start = n;
        }
    }
    assert(texts(kept@) + Seq::<Seq<char>>::empty() =~= texts(kept@));
    proof {
        reveal_strlit("\n");
        reveal_strlit(" ");
        assert("\n"@ =~= seq!['\n']);
        assert(" "@ =~= seq![' ']);
    }
    let mut out = joined_lines(&kept);
    out.append("\n");
    out.append(schedule);
    out.append(" ");
    out.append(command);
    out.append("\n");
    out
}

/// No line that belongs to this tool is kept, and every kept line is a line
/// of the table.
pub proof fn lemma_kept_lines_untagged(s: Seq<char>, start: int, k: int)
    requires
        0 <= k < kept_lines(s, start).len(),
    ensures
        !tagged(kept_lines(s, start)[k]),
        exists|a: int|
            start <= a < s.len() && #[trigger] line_text(s, a, line_end(s, a)) == kept_lines(
                s,
                start,
            )[k],
    decreases s.len() - start,
{
    let end = line_end(s, start);
    let next = if start <= end < s.len() {
        end + 1
    } else {
        s.len() as int
    };
    let line = line_text(s, start, end);
    if tagged(line) {
        lemma_kept_lines_untagged(s, next, k);
        let a = choose|a: int|
            next <= a < s.len() && #[trigger] line_text(s, a, line_end(s, a)) == kept_lines(
                s,
                next,
            )[k];
        assert(start <= a < s.len() && line_text(s, a, line_end(s, a)) == kept_lines(s, start)[k]);
    } else if k == 0 {
        assert(start <= start < s.len() && line_text(s, start, line_end(s, start)) == kept_lines(
            s,
            start,
        )[k]);
    } else {
        lemma_kept_lines_untagged(s, next, k - 1);
        let a = choose|a: int|
            next <= a < s.len() && #[trigger] line_text(s, a, line_end(s, a)) == kept_lines(
                s,
                next,
            )[k - 1];
        assert(start <= a < s.len() && line_text(s, a, line_end(s, a)) == kept_lines(s, start)[k]);
    }
}

} // verus!
