//! Read-only queries over a store snapshot: level/kernel filtering and
//! case-sensitive substring search.

use vstd::prelude::*;
use vstd::string::StrSliceExecFns;
use crate::components::{Log, LogLevel, World};

verus! {

/// `needle` occurs in `hay` as a contiguous run starting at position `k`.
pub open spec fn match_at(hay: Seq<char>, needle: Seq<char>, k: int) -> bool {
    &&& 0 <= k
    &&& k + needle.len() <= hay.len()
    &&& hay.subrange(k, k + needle.len() as int) =~= needle
}

/// `needle` occurs somewhere in `hay` as a literal, case-sensitive substring
/// (the empty needle occurs in every text).
pub open spec fn contains_seq(hay: Seq<char>, needle: Seq<char>) -> bool {
    exists|k: int| match_at(hay, needle, k)
}

/// Whether `needle` occurs at position `k` of `hay`.
fn matches_at(hay: &str, needle: &str, k: usize, hay_len: usize, needle_len: usize) -> (b: bool)
    requires
        hay_len == hay@.len(),
        needle_len == needle@.len(),
        k + needle_len <= hay_len,
    ensures
        b == match_at(hay@, needle@, k as int),
{
    let mut j: usize = 0;
    while j < needle_len
        invariant
            hay_len == hay@.len(),
            needle_len == needle@.len(),
            k + needle_len <= hay_len,
            j <= needle_len,
            forall|jj: int| 0 <= jj < j ==> hay@[k + jj] == needle@[jj],
        decreases needle_len - j,
    {
        if hay.get_char(k + j) != needle.get_char(j) {
            proof {
                if match_at(hay@, needle@, k as int) {
                    assert(hay@.subrange(k as int, k + needle@.len() as int)[j as int]
                        == needle@[j as int]);
                }
            }
            return false;
        }
        j += 1;
    }
    proof {
        assert(hay@.subrange(k as int, k + needle@.len() as int) =~= needle@);
    }
    true
}

/// Whether `hay` contains `needle` as a literal, case-sensitive substring.
pub fn contains_substring(hay: &str, needle: &str) -> (b: bool)
    ensures
        b == contains_seq(hay@, needle@),
{
    let hay_len = hay.unicode_len();
    let needle_len = needle.unicode_len();
    if needle_len > hay_len {
        return false;
    }
    let mut k: usize = 0;
    while k <= hay_len - needle_len
        invariant
            hay_len == hay@.len(),
            needle_len == needle@.len(),
            needle_len <= hay_len,
            k <= hay_len - needle_len + 1,
            forall|kk: int| 0 <= kk < k ==> !match_at(hay@, needle@, kk),
        decreases hay_len - needle_len + 1 - k,
    {
        if matches_at(hay, needle, k, hay_len, needle_len) {
            return true;
        }
        k += 1;
    }
    false
}

/// A kernel log: its message contains the substring `"kernel"`.
pub open spec fn is_kernel_spec(msg: Seq<char>) -> bool {
    contains_seq(msg, "kernel"@)
}

/// Whether a message classifies its record as a kernel log.
pub fn is_kernel_message(msg: &str) -> (b: bool)
    ensures
        b == is_kernel_spec(msg@),
{
    contains_substring(msg, "kernel")
}

/// Whether `filter_by_level(level, include_kernel_logs)` surfaces record `id`:
/// kernel logs are all surfaced when kernel logs are included and are never
/// matched by level alone; other records match on their stored level.
pub open spec fn level_matches(w: World, id: Log, level: LogLevel, include_kernel_logs: bool) -> bool {
    let kernel = is_kernel_spec(w.message_at(id));
    (include_kernel_logs && kernel) || (!kernel && w.level_at(id) == level)
}

/// Appending one element to a sequence extends its filtered view by that
/// element exactly when the element satisfies the predicate.
proof fn lemma_filter_push<A>(s: Seq<A>, pred: spec_fn(A) -> bool, x: A)
    ensures
        s.push(x).filter(pred) == if pred(x) {
            s.filter(pred).push(x)
        } else {
            s.filter(pred)
        },
{
    reveal(Seq::filter);
    assert(s.push(x).drop_last() =~= s);
    assert(s.push(x).last() == x);
}

/// The ids of the records `filterByLevel` selects, in insertion order:
/// exactly those whose stored triple satisfies `level_matches`.
pub fn filter_by_level(w: &World, level: LogLevel, include_kernel_logs: bool) -> (r: Vec<Log>)
    requires
        w.wf(),
    ensures
        r@ == w.ids().filter(|id: Log| level_matches(*w, id, level, include_kernel_logs)),
        forall|j: int|
            0 <= j < r@.len() ==> w.ids().contains(#[trigger] r@[j])
                && level_matches(*w, r@[j], level, include_kernel_logs),
        forall|id: Log|
            w.ids().contains(id) && level_matches(*w, id, level, include_kernel_logs)
                ==> r@.contains(id),
{
    let ids = w.snapshot_ids();
    let n = ids.len();
    let mut r: Vec<Log> = Vec::new();
    let mut i: usize = 0;
    while i < n
        invariant
            w.wf(),
            ids@ == w.ids(),
            n == ids@.len(),
            i <= n,
            r@ == w.ids().subrange(0, i as int).filter(
                |id: Log| level_matches(*w, id, level, include_kernel_logs)
            ),
            forall|j: int|
                0 <= j < r@.len() ==> w.ids().contains(#[trigger] r@[j])
                    && level_matches(*w, r@[j], level, include_kernel_logs),
            forall|jj: int|
                0 <= jj < i && level_matches(*w, ids@[jj], level, include_kernel_logs)
                    ==> r@.contains(ids@[jj]),
        decreases n - i,
    {
        let id = ids[i];
        proof {
            assert(w.ids()[i as int] == i);
        }
        let record = w.get(id);
        let kernel = is_kernel_message(record.2.0.as_str());
        let keep = (include_kernel_logs && kernel) || (!kernel && record.1.0 == level);
        proof {
            assert(keep == level_matches(*w, id, level, include_kernel_logs));
            lemma_filter_push(
                w.ids().subrange(0, i as int),
                |id2: Log| level_matches(*w, id2, level, include_kernel_logs),
                id,
            );
            assert(w.ids().subrange(0, i + 1 as int)
                =~= w.ids().subrange(0, i as int).push(id));
        }
        let ghost prev = r@;
        if keep {
            r.push(id);
        }
        proof {
            assert(w.ids().contains(id)) by {
                assert(w.ids()[i as int] == id);
            }
            if keep {
                assert(r@ == prev.push(id));
                assert forall|x: Log| prev.contains(x) implies r@.contains(x) by {
                    let idx = choose|idx: int| 0 <= idx < prev.len() && prev[idx] == x;
                    assert(r@[idx] == x);
                }
                assert(r@[prev.len() as int] == id);
                assert(r@.contains(id));
            }
        }
        i += 1;
    }
    proof {
        assert(w.ids().subrange(0, n as int) =~= w.ids());
        assert forall|id: Log|
            w.ids().contains(id) && level_matches(*w, id, level, include_kernel_logs)
            implies r@.contains(id) by {
            let jj = choose|jj: int| 0 <= jj < w.ids().len() && w.ids()[jj] == id;
            assert(ids@[jj] == id);
        }
    }
    r
}

/// The stored messages, in insertion order.
pub open(crate) spec fn messages_in_order(w: World) -> Seq<Seq<char>> {
    w.ids().map_values(|id: Log| w.message_at(id))
}

/// The stored messages containing `query` as a literal, case-sensitive
/// substring, in insertion order: exactly that subset, no more, no fewer.
pub fn search(w: &World, query: &str) -> (r: Vec<String>)
    requires
        w.wf(),
    ensures
        r@.map_values(|m: String| m@) == messages_in_order(*w).filter(
            |m: Seq<char>| contains_seq(m, query@)
        ),
        forall|j: int|
            0 <= j < r@.len() ==> contains_seq(#[trigger] r@[j]@, query@)
                && (exists|id: Log| #[trigger] w.ids().contains(id) && w.message_at(id) == r@[j]@),
        forall|id: Log|
            w.ids().contains(id) && contains_seq(w.message_at(id), query@)
                ==> exists|j: int| 0 <= j < r@.len() && #[trigger] r@[j]@ == w.message_at(id),
{
    let ids = w.snapshot_ids();
    let n = ids.len();
    let mut r: Vec<String> = Vec::new();
    let mut i: usize = 0;
    while i < n
        invariant
            w.wf(),
            ids@ == w.ids(),
            n == ids@.len(),
            i <= n,
            r@.map_values(|m: String| m@) == messages_in_order(*w).subrange(0, i as int).filter(
                |m: Seq<char>| contains_seq(m, query@)
            ),
            forall|j: int|
                0 <= j < r@.len() ==> contains_seq(#[trigger] r@[j]@, query@)
                    && (exists|id: Log| #[trigger] w.ids().contains(id)
                        && w.message_at(id) == r@[j]@),
            forall|jj: int|
                0 <= jj < i && contains_seq(w.message_at(ids@[jj]), query@)
                    ==> exists|j: int| 0 <= j < r@.len()
                        && #[trigger] r@[j]@ == w.message_at(ids@[jj]),
        decreases n - i,
    {
        let id = ids[i];
        proof {
            assert(w.ids()[i as int] == i);
        }
        let record = w.get(id);
        let found = contains_substring(record.2.0.as_str(), query);
        let ghost prev = r@;
        if found {
            r.push(record.2.0.clone());
            proof {
                assert(r@.map_values(|m: String| m@)
                    =~= prev.map_values(|m: String| m@).push(w.message_at(id)));
                assert(w.ids().contains(id)) by {
                    assert(w.ids()[i as int] == id);
                }
                assert(r@ == prev.push(record.2.0));
                assert forall|j: int| 0 <= j < prev.len()
                    implies r@[j]@ == prev[j]@ by {
                    assert(r@[j] == prev[j]);
                }
                assert(r@[prev.len() as int]@ == w.message_at(id));
            }
        }
        proof {
            lemma_filter_push(
                messages_in_order(*w).subrange(0, i as int),
                |m: Seq<char>| contains_seq(m, query@),
                w.message_at(id),
            );
            assert(messages_in_order(*w).subrange(0, i + 1 as int)
                =~= messages_in_order(*w).subrange(0, i as int).push(w.message_at(id)));
        }
        i += 1;
    }
    proof {
        assert(messages_in_order(*w).subrange(0, n as int) =~= messages_in_order(*w));
        assert forall|id: Log|
            w.ids().contains(id) && contains_seq(w.message_at(id), query@)
            implies exists|j: int| 0 <= j < r@.len() && #[trigger] r@[j]@ == w.message_at(id) by {
            let jj = choose|jj: int| 0 <= jj < w.ids().len() && w.ids()[jj] == id;
            assert(ids@[jj] == id);
        }
    }
    r
}

} // verus!
