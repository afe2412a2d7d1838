//! Staged file changes, how the user classified them, and the selection of
//! those that need a per-file summary.

use vstd::prelude::*;

verus! {

/// How a changed file relates to the purpose of the commit.
#[derive(Clone, Copy, Debug, PartialEq, Eq, Structural)]
pub enum FileCategory {
    Main,
    Supporting,
    Consequence,
    Ignored,
}

pub open spec fn category_name(c: FileCategory) -> Seq<char> {
    match c {
        FileCategory::Main => "main"@,
        FileCategory::Supporting => "supporting"@,
        FileCategory::Consequence => "consequence"@,
        FileCategory::Ignored => "ignored"@,
    }
}

impl FileCategory {
    /// The category's name as it appears in prompts.
    pub fn as_str(&self) -> (r: &'static str)
        ensures
            r@ == category_name(*self),
    {
        match self {
            FileCategory::Main => "main",
            FileCategory::Supporting => "supporting",
            FileCategory::Consequence => "consequence",
            FileCategory::Ignored => "ignored",
        }
    }
}

/// One staged file's change, with its category and, once summarised, the
/// model's summary of it.
#[derive(Clone, Debug)]
pub struct FileChange {
    pub path: String,
    pub category: FileCategory,
    pub diff: String,
    pub summary: Option<String>,
}

/// The positions of the files that need a summary (all but the ignored ones),
/// in order.
pub open spec fn pending_positions(files: Seq<FileChange>) -> Seq<usize>
    decreases files.len(),
{
    if files.len() == 0 {
        Seq::empty()
    } else if files.last().category == FileCategory::Ignored {
        pending_positions(files.drop_last())
    } else {
        pending_positions(files.drop_last()).push((files.len() - 1) as usize)
    }
}

/// The positions of the files that need a summary, in order. The ignored ones
/// count as done at once: there are `files.len() - r.len()` of them.
pub fn pending_summaries(files: &Vec<FileChange>) -> (r: Vec<usize>)
    ensures
        r@ == pending_positions(files@),
        forall|k: int|
            0 <= k < r@.len() ==> #[trigger] r@[k] < files@.len() && files@[r@[k] as int].category
                != FileCategory::Ignored,
{
    let mut r: Vec<usize> = Vec::new();
    let mut i: usize = 0;
    while i < files.len()
        invariant
            i <= files@.len(),
            r@ == pending_positions(files@.take(i as int)),
            forall|k: int|
                0 <= k < r@.len() ==> #[trigger] r@[k] < i && files@[r@[k] as int].category
                    != FileCategory::Ignored,
        decreases files@.len() - i,
    {
        assert(files@.take(i + 1).drop_last() == files@.take(i as int));
        if files[i].category != FileCategory::Ignored {
            r.push(i);
        }
        i = i + 1;
    }
    assert(files@.take(files@.len() as int) == files@);
    r
}

/// Whether `p` stands among `ps[k..]`.
pub open spec fn in_tail(ps: Seq<usize>, k: int, p: int) -> bool {
    exists|q: int| k <= q < ps.len() && #[trigger] ps[q] == p
}

/// Whether the positions are strictly increasing.
pub open spec fn increasing(ps: Seq<usize>) -> bool {
    forall|a: int, b: int| 0 <= a < b < ps.len() ==> ps[a] < ps[b]
}

/// Stores `summaries[k]` as the summary of the file at `positions[k]`, for
/// every `k`, and leaves every other file as it was. Returns `false`,
/// changing nothing, unless the two lists have the same length and the
/// positions are strictly increasing and within range.
pub fn apply_summaries(files: &mut Vec<FileChange>, positions: &Vec<usize>, summaries: Vec<String>) -> (ok:
    bool)
    ensures
        ok == (positions@.len() == summaries@.len() && increasing(positions@) && forall|k: int|
            0 <= k < positions@.len() ==> #[trigger] positions@[k] < old(files)@.len()),
        !ok ==> final(files)@ == old(files)@,
        final(files)@.len() == old(files)@.len(),
        ok ==> forall|k: int|
            0 <= k < positions@.len() ==> #[trigger] final(files)@[positions@[k] as int] == (
            FileChange { summary: Some(summaries@[k]), ..old(files)@[positions@[k] as int] }),
        forall|p: int|
            0 <= p < old(files)@.len() && !positions@.contains(p as usize)
                ==> #[trigger] final(files)@[p] == old(files)@[p],
{
    if positions.len() != summaries.len() {
        return false;
    }
    let mut j: usize = 0;
    while j < positions.len()
        invariant
            j <= positions@.len(),
            forall|k: int| 0 <= k < j ==> #[trigger] positions@[k] < files@.len(),
            forall|a: int, b: int| 0 <= a < b < j ==> positions@[a] < positions@[b],
        decreases positions@.len() - j,
    {
        if positions[j] >= files.len() {
            return false;
        }
        if j > 0 && positions[j - 1] >= positions[j] {
            return false;
        }
        j = j + 1;
    }
    let ghost before = files@;
    let ghost all = summaries@;
    let mut rest = summaries;
    let mut k = positions.len();
    while k > 0
        invariant
            k <= positions@.len() == all.len(),
            rest@ == all.take(k as int),
            increasing(positions@),
            forall|q: int| 0 <= q < positions@.len() ==> #[trigger] positions@[q] < before.len(),
            files@.len() == before.len(),
            forall|q: int|
                k <= q < positions@.len() ==> #[trigger] files@[positions@[q] as int] == (FileChange {
                    summary: Some(all[q]),
                    ..before[positions@[q] as int]
                }),
            forall|p: int|
                0 <= p < before.len() && !in_tail(positions@, k as int, p) ==> #[trigger] files@[p]
                    == before[p],
        decreases k,
    {
        let s = rest.pop().unwrap();
        assert(s == all[k - 1]);
        let p = positions[k - 1];
        let f = FileChange {
            path: files[p].path.clone(),
            category: files[p].category,
            diff: files[p].diff.clone(),
            summary: Some(s),
        };
        assert(in_tail(positions@, (k - 1) as int, p as int));
        files.set(p, f);
        k = k - 1;
        proof {
            assert forall|p2: int|
                0 <= p2 < before.len() && !in_tail(positions@, k as int, p2) implies #[trigger] files@[p2]
                == before[p2] by {
                if in_tail(positions@, k + 1, p2) {
                    let q = choose|q: int| k + 1 <= q < positions@.len() && #[trigger] positions@[q] == p2;
                    assert(positions@[q] == p2);
                }
                assert(positions@[k as int] == p);
            }
            assert forall|q: int|
                k <= q < positions@.len() implies #[trigger] files@[positions@[q] as int] == (
            FileChange { summary: Some(all[q]), ..before[positions@[q] as int] }) by {
                if q > k {
                    assert(positions@[k as int] < positions@[q]);
                }
            }
        }
    }
    proof {
        assert forall|p2: int|
            0 <= p2 < before.len() && !positions@.contains(p2 as usize) implies #[trigger] files@[p2]
            == before[p2] by {
            if in_tail(positions@, 0, p2) {
                let q = choose|q: int| 0 <= q < positions@.len() && #[trigger] positions@[q] == p2;
                assert(positions@.contains(positions@[q]));
            }
        }
    }
    true
}

} // verus!
