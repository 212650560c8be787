//! Persistence planning: kernel tagging of the persisted text and the
//! date-rotated file name each record is appended to.

use vstd::prelude::*;
use vstd::string::StrSliceExecFns;
use vstd::string::StringExecFns;
use crate::query::{is_kernel_spec, is_kernel_message};

verus! {

/// The text persisted for one ingested line: a line containing `"kernel"`
/// carries the literal prefix `"KERNEL: "` exactly once; any other line is
/// persisted unchanged.
pub open spec fn tagged_spec(line: Seq<char>) -> Seq<char> {
    if is_kernel_spec(line) {
        "KERNEL: "@ + line
    } else {
        line
    }
}

/// Tags one (already trimmed) line for persistence.
pub fn tag_kernel(line: &str) -> (r: String)
    ensures
        r@ == tagged_spec(line@),
{
    if is_kernel_message(line) {
        let mut s = String::from_str("KERNEL: ");
        s.append(line);
        s
    } else {
        line.to_owned()
    }
}

/// The file one record is persisted to: the configured base prefix, a dash,
/// the day in `YYYY-MM-DD` form, and the `.txt` suffix.
pub open spec fn file_name_spec(prefix: Seq<char>, day: Seq<char>) -> Seq<char> {
    prefix + "-"@ + day + ".txt"@
}

/// Builds the name of the day's log file from the configured prefix.
pub fn log_file_name(prefix: &str, day: &str) -> (r: String)
    ensures
        r@ == file_name_spec(prefix@, day@),
{
    let mut s = prefix.to_owned();
    s.append("-");
    s.append(day);
    s.append(".txt");
    proof {
        assert(s@ =~= file_name_spec(prefix@, day@));
    }
    s
}

/// What the retention policy removes after a successful write: of the daily
/// files in creation order (oldest first), everything but the
/// `rotation_count` most recent.
pub open spec fn prune_spec(files: Seq<Seq<char>>, rotation_count: int) -> Seq<Seq<char>> {
    if files.len() <= rotation_count {
        Seq::empty()
    } else {
        files.subrange(0, files.len() - rotation_count)
    }
}

/// The daily files to delete so that at most `rotation_count` of the most
/// recent ones are retained; `files` lists them in creation order.
pub fn retention_plan(files: &Vec<String>, rotation_count: usize) -> (r: Vec<String>)
    ensures
        r@.map_values(|s: String| s@) == prune_spec(
            files@.map_values(|s: String| s@),
            rotation_count as int,
        ),
{
    let mut r: Vec<String> = Vec::new();
    if files.len() <= rotation_count {
        proof {
            assert(r@.map_values(|s: String| s@)
                =~= prune_spec(files@.map_values(|s: String| s@), rotation_count as int));
        }
        return r;
    }
    let cut = files.len() - rotation_count;
    let mut i: usize = 0;
    while i < cut
        invariant
            cut == files@.len() - rotation_count,
            cut <= files@.len(),
            i <= cut,
            r@.map_values(|s: String| s@)
                =~= files@.map_values(|s: String| s@).subrange(0, i as int),
        decreases cut - i,
    {
        let ghost prev = r@;
        r.push(files[i].clone());
        proof {
            assert(r@.map_values(|s: String| s@)
                =~= prev.map_values(|s: String| s@).push(files@[i as int]@));
        }
        i += 1;
    }
    proof {
        assert(r@.map_values(|s: String| s@)
            =~= prune_spec(files@.map_values(|s: String| s@), rotation_count as int));
    }
    r
}

/// Whether appending `incoming_len` more bytes would push the current file
/// segment over the configured byte threshold, triggering rollover to a new
/// segment within the same day.
pub fn needs_size_rollover(current_size: u64, incoming_len: u64, max_log_size: u64) -> (b: bool)
    ensures
        b == (current_size + incoming_len > max_log_size),
{
    if incoming_len > max_log_size {
        true
    } else {
        current_size > max_log_size - incoming_len
    }
}

/// Law (kernel tagging): the persisted text of a line containing `"kernel"`
/// anywhere is the line with `"KERNEL: "` prepended exactly once — the eight
/// prefix characters, then the original line, nothing else; the persisted
/// text of any other line is the line unchanged.
pub proof fn lemma_kernel_tagging(line: Seq<char>)
    ensures
        is_kernel_spec(line) ==> tagged_spec(line).len() == line.len() + 8
            && tagged_spec(line).subrange(0, 8) =~= "KERNEL: "@
            && tagged_spec(line).subrange(8, tagged_spec(line).len() as int) =~= line,
        !is_kernel_spec(line) ==> tagged_spec(line) == line,
{
    reveal_strlit("KERNEL: ");
}

/// Law (day rotation): two appends on different days — the day strings share
/// the fixed `YYYY-MM-DD` width but differ — are persisted to two distinct
/// files; no line lands in the other day's file.
pub proof fn lemma_day_rotation(prefix: Seq<char>, day1: Seq<char>, day2: Seq<char>)
    requires
        day1.len() == day2.len(),
        day1 != day2,
    ensures
        file_name_spec(prefix, day1) != file_name_spec(prefix, day2),
{
    reveal_strlit("-");
    reveal_strlit(".txt");
    let n1 = file_name_spec(prefix, day1);
    let n2 = file_name_spec(prefix, day2);
    assert("-"@.len() == 1);
    assert(".txt"@.len() == 4);
    if n1 == n2 {
        assert forall|i: int| 0 <= i < day1.len() implies day1[i] == day2[i] by {
            assert(n1[prefix.len() + 1 + i] == day1[i]);
            assert(n2[prefix.len() + 1 + i] == day2[i]);
        }
        assert(day1 =~= day2);
    }
}

} // verus!
