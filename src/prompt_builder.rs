//! The system and user prompts of each request: a per-file summary, a commit
//! message from the summaries or from the whole diff, and a pull-request
//! description from a range of commits.

use vstd::prelude::*;
use vstd::string::StringExecFns;
use crate::change::{category_name, FileCategory, FileChange};
use crate::git::{mode_name, PrItem, PrSummaryMode};
use crate::prompts;
use crate::text::{chars_of, decimal, push_char, push_decimal, push_str, string_of, trim, trimmed};

verus! {

/// The system prompt and the user prompt of one request.
#[derive(Clone, Debug)]
pub struct PromptPair {
    pub system: String,
    pub user: String,
}

pub open spec fn opt_view(o: Option<&str>) -> Option<Seq<char>> {
    match o {
        Some(s) => Some(s@),
        None => None,
    }
}

/// Instructions followed, when a ticket summary is given, by the ticket's goal.
pub open spec fn with_ticket(base: Seq<char>, ticket: Option<Seq<char>>) -> Seq<char> {
    match ticket {
        Some(t) => base + "\nOverall ticket goal: "@ + t,
        None => base,
    }
}

fn system_prompt(base: &str, ticket: Option<&str>) -> (r: String)
    ensures
        r@ == with_ticket(base@, opt_view(ticket)),
{
    let mut s = String::from_str(base);
    if let Some(t) = ticket {
        push_str(&mut s, "\nOverall ticket goal: ");
        push_str(&mut s, t);
    }
    s
}

pub open spec fn file_summary_user(branch: Seq<char>, file: FileChange) -> Seq<char> {
    "Branch: "@ + branch + "\nFile: "@ + file.path@ + "\nCategory: "@ + category_name(file.category)
        + "\n\nDiff:\n```diff\n"@ + file.diff@ + "\n```"@
}

/// The prompts asking for a summary of one file's change.
pub fn file_summary_prompt(branch: &str, file: &FileChange, ticket_summary: Option<&str>) -> (r:
    PromptPair)
    ensures
        r.system@ == with_ticket(prompts::FILE_SUMMARY@, opt_view(ticket_summary)),
        r.user@ == file_summary_user(branch@, *file),
{
    let system = system_prompt(prompts::FILE_SUMMARY, ticket_summary);
    let mut user = String::from_str("Branch: ");
    push_str(&mut user, branch);
    push_str(&mut user, "\nFile: ");
    push_str(&mut user, file.path.as_str());
    push_str(&mut user, "\nCategory: ");
    push_str(&mut user, file.category.as_str());
    push_str(&mut user, "\n\nDiff:\n```diff\n");
    push_str(&mut user, file.diff.as_str());
    push_str(&mut user, "\n```");
    PromptPair { system, user }
}

/// One file's entry among the per-file summaries.
pub open spec fn summary_entry(f: FileChange) -> Seq<char> {
    "File: "@ + f.path@ + "\nCategory: "@ + category_name(f.category) + "\nSummary:\n"@ + match f.summary {
        Some(s) => s@,
        None => "[missing per-file summary]"@,
    } + "\n\n"@
}

/// The entries of all files but the ignored ones, in order.
pub open spec fn summaries_text(files: Seq<FileChange>) -> Seq<char>
    decreases files.len(),
{
    if files.len() == 0 {
        Seq::empty()
    } else if files.last().category == FileCategory::Ignored {
        summaries_text(files.drop_last())
    } else {
        summaries_text(files.drop_last()) + summary_entry(files.last())
    }
}

/// The per-file summaries, one entry per file that is not ignored.
pub fn render_per_file_summaries(files: &[FileChange]) -> (r: String)
    ensures
        r@ == summaries_text(files@),
{
    let mut out = String::new();
    let mut i: usize = 0;
    while i < files.len()
        invariant
            i <= files@.len(),
            out@ == summaries_text(files@.take(i as int)),
        decreases files@.len() - i,
    {
        assert(files@.take(i + 1).drop_last() == files@.take(i as int));
        let f = &files[i];
        if f.category != FileCategory::Ignored {
            push_str(&mut out, "File: ");
            push_str(&mut out, f.path.as_str());
            push_str(&mut out, "\nCategory: ");
            push_str(&mut out, f.category.as_str());
            push_str(&mut out, "\nSummary:\n");
            match &f.summary {
                Some(s) => push_str(&mut out, s.as_str()),
                None => push_str(&mut out, "[missing per-file summary]"),
            }
            push_str(&mut out, "\n\n");
        }
        i = i + 1;
    }
    assert(files@.take(files@.len() as int) == files@);
    out
}

/// The prompts asking for a commit message from the per-file summaries.
pub fn commit_message_prompt(branch: &str, files: &[FileChange], ticket_summary: Option<&str>) -> (r:
    PromptPair)
    ensures
        r.system@ == with_ticket(prompts::SYSTEM_INSTRUCTIONS@, opt_view(ticket_summary)),
        r.user@ == "Branch: "@ + branch@ + "\n\nPer-file summaries:\n\n"@ + summaries_text(files@),
{
    let system = system_prompt(prompts::SYSTEM_INSTRUCTIONS, ticket_summary);
    let mut user = String::from_str("Branch: ");
    push_str(&mut user, branch);
    push_str(&mut user, "\n\nPer-file summaries:\n\n");
    let per_file = render_per_file_summaries(files);
    push_str(&mut user, per_file.as_str());
    PromptPair { system, user }
}

/// The prompts asking for a commit message from the whole staged diff.
pub fn commit_message_simple_prompt(branch: &str, diff: &str, ticket_summary: Option<&str>) -> (r:
    PromptPair)
    ensures
        r.system@ == with_ticket(prompts::SYSTEM_INSTRUCTIONS@, opt_view(ticket_summary)),
        r.user@ == "Branch: "@ + branch@ + "\n\nDiff:\n```diff\n"@ + diff@ + "\n```"@,
{
    let system = system_prompt(prompts::SYSTEM_INSTRUCTIONS, ticket_summary);
    let mut user = String::from_str("Branch: ");
    push_str(&mut user, branch);
    push_str(&mut user, "\n\nDiff:\n```diff\n");
    push_str(&mut user, diff);
    push_str(&mut user, "\n```");
    PromptPair { system, user }
}

/// The first seven characters of a commit hash.
pub open spec fn short_hash(h: Seq<char>) -> Seq<char> {
    if h.len() <= 7 {
        h
    } else {
        h.take(7)
    }
}

pub open spec fn pr_tag(pr: Option<u32>) -> Seq<char> {
    match pr {
        Some(n) => " (PR #"@ + decimal(n as nat) + ")"@,
        None => Seq::empty(),
    }
}

/// `s` with two spaces after each line break.
pub open spec fn indented(s: Seq<char>) -> Seq<char>
    decreases s.len(),
{
    if s.len() == 0 {
        Seq::empty()
    } else if s.last() == '\n' {
        indented(s.drop_last()) + seq!['\n', ' ', ' ']
    } else {
        indented(s.drop_last()).push(s.last())
    }
}

/// A commit's entry in the commit history: short hash, pull-request tag,
/// title, and the body, indented, if it is not blank.
pub open spec fn commit_entry(item: PrItem) -> Seq<char> {
    "- "@ + short_hash(item.commit_hash@) + pr_tag(item.pr_number) + ": "@ + trimmed(item.title@)
        + "\n"@ + if trimmed(item.body@).len() == 0 {
        Seq::empty()
    } else {
        "  Body:\n"@ + "  "@ + indented(item.body@) + "\n"@
    }
}

pub open spec fn commits_text(items: Seq<PrItem>) -> Seq<char>
    decreases items.len(),
{
    if items.len() == 0 {
        Seq::empty()
    } else {
        commits_text(items.drop_last()) + commit_entry(items.last())
    }
}

/// A commit's line within a group: short hash and title.
pub open spec fn short_line(item: PrItem) -> Seq<char> {
    "- "@ + short_hash(item.commit_hash@) + ": "@ + trimmed(item.title@) + "\n"@
}

/// The smallest pull-request number of at least `lo`.
pub open spec fn min_pr_at_least(items: Seq<PrItem>, lo: nat) -> Option<u32>
    decreases items.len(),
{
    if items.len() == 0 {
        None
    } else {
        let r = min_pr_at_least(items.drop_last(), lo);
        match items.last().pr_number {
            Some(p) => if p >= lo {
                match r {
                    Some(q) => if q <= p {
                        Some(q)
                    } else {
                        Some(p)
                    },
                    None => Some(p),
                }
            } else {
                r
            },
            None => r,
        }
    }
}

/// How many commits carry the pull-request number `n`.
pub open spec fn count_with(items: Seq<PrItem>, n: Option<u32>) -> nat
    decreases items.len(),
{
    if items.len() == 0 {
        0
    } else {
        count_with(items.drop_last(), n) + if items.last().pr_number == n {
            1nat
        } else {
            0nat
        }
    }
}

/// The position of the first commit that carries `n` (`-1` if none does).
pub open spec fn first_with(items: Seq<PrItem>, n: Option<u32>) -> int
    decreases items.len(),
{
    if items.len() == 0 {
        -1
    } else {
        let r = first_with(items.drop_last(), n);
        if r >= 0 {
            r
        } else if items.last().pr_number == n {
            items.len() - 1
        } else {
            -1
        }
    }
}

/// The lines of the commits that carry `n`, all but the first, in order.
pub open spec fn later_lines(items: Seq<PrItem>, n: Option<u32>) -> Seq<char>
    decreases items.len(),
{
    if items.len() == 0 {
        Seq::empty()
    } else if items.last().pr_number == n && count_with(items.drop_last(), n) > 0 {
        later_lines(items.drop_last(), n) + short_line(items.last())
    } else {
        later_lines(items.drop_last(), n)
    }
}

/// The lines of all commits that carry `n`, in order.
pub open spec fn lines_with(items: Seq<PrItem>, n: Option<u32>) -> Seq<char>
    decreases items.len(),
{
    if items.len() == 0 {
        Seq::empty()
    } else if items.last().pr_number == n {
        lines_with(items.drop_last(), n) + short_line(items.last())
    } else {
        lines_with(items.drop_last(), n)
    }
}

/// The section of pull request `n`: its first commit's title and hash, then
/// the other commits, if any.
pub open spec fn group_text(items: Seq<PrItem>, n: u32) -> Seq<char> {
    let first = items[first_with(items, Some(n))];
    "\nPR #"@ + decimal(n as nat) + ": "@ + trimmed(first.title@) + " ["@ + short_hash(
        first.commit_hash@,
    ) + "]\n"@ + if count_with(items, Some(n)) > 1 {
        "Additional commits in this PR:\n"@ + later_lines(items, Some(n))
    } else {
        Seq::empty()
    }
}

/// The sections of the pull requests numbered `lo` or more, by number.
pub open spec fn groups_from(items: Seq<PrItem>, lo: nat) -> Seq<char>
    decreases u32::MAX + 1 - lo,
{
    if lo > u32::MAX {
        Seq::empty()
    } else {
        match min_pr_at_least(items, lo) {
            Some(n) => if n >= lo {
                group_text(items, n) + groups_from(items, n as nat + 1)
            } else {
                Seq::empty()
            },
            None => Seq::empty(),
        }
    }
}

/// The commits without a pull-request number, if any.
pub open spec fn unnumbered_text(items: Seq<PrItem>) -> Seq<char> {
    if count_with(items, None) > 0 {
        "\nCommits without associated PR numbers (may be small fixes or direct pushes):\n"@
            + lines_with(items, None)
    } else {
        Seq::empty()
    }
}

pub open spec fn pr_user_text(
    base: Seq<char>,
    from: Seq<char>,
    mode: PrSummaryMode,
    items: Seq<PrItem>,
) -> Seq<char> {
    "Base branch: "@ + base + "\nFeature branch: "@ + from + "\nSummary mode: "@ + mode_name(mode)
        + "\n\n"@ + match mode {
        PrSummaryMode::ByCommits => "Commit history (oldest first):\n"@ + commits_text(items),
        PrSummaryMode::ByPrs => "Pull requests contributing to this branch (oldest commits first):\n"@
            + groups_from(items, 0) + unnumbered_text(items),
    }
}

fn push_short_hash(out: &mut String, h: &String)
    ensures
        final(out)@ == old(out)@ + short_hash(h@),
{
    let cs = chars_of(h.as_str());
    let end = if cs.len() <= 7 {
        cs.len()
    } else {
        7
    };
    let s = string_of(&cs, 0, end);
    assert(cs@.subrange(0, cs@.len() as int) == cs@);
    assert(cs@.take(7) == cs@.subrange(0, 7));
    push_str(out, s.as_str());
}

fn push_indented(out: &mut String, s: &String)
    ensures
        final(out)@ == old(out)@ + indented(s@),
{
    let cs = chars_of(s.as_str());
    let ghost start = out@;
    let mut i: usize = 0;
    while i < cs.len()
        invariant
            i <= cs@.len(),
            cs@ == s@,
            out@ == start + indented(cs@.take(i as int)),
        decreases cs@.len() - i,
    {
        assert(cs@.take(i + 1).drop_last() == cs@.take(i as int));
        if cs[i] == '\n' {
            push_char(out, '\n');
            push_char(out, ' ');
            push_char(out, ' ');
            assert(out@ == start + indented(cs@.take(i + 1)));
        } else {
            push_char(out, cs[i]);
            assert(out@ == start + indented(cs@.take(i + 1)));
        }
        i = i + 1;
    }
    assert(cs@.take(cs@.len() as int) == cs@);
}

fn push_short_line(out: &mut String, item: &PrItem)
    ensures
        final(out)@ == old(out)@ + short_line(*item),
{
    let ghost start = out@;
    push_str(out, "- ");
    push_short_hash(out, &item.commit_hash);
    push_str(out, ": ");
    let title = trim(item.title.as_str());
    push_str(out, title.as_str());
    push_str(out, "\n");
    assert(out@ == start + short_line(*item));
}

fn push_commit_entry(out: &mut String, item: &PrItem)
    ensures
        final(out)@ == old(out)@ + commit_entry(*item),
{
    let ghost start = out@;
    push_str(out, "- ");
    push_short_hash(out, &item.commit_hash);
    if let Some(n) = item.pr_number {
        push_str(out, " (PR #");
        push_decimal(out, n as u64);
        push_str(out, ")");
    }
    push_str(out, ": ");
    let title = trim(item.title.as_str());
    push_str(out, title.as_str());
    push_str(out, "\n");
    let body = trim(item.body.as_str());
    if body.unicode_len() > 0 {
        push_str(out, "  Body:\n");
        push_str(out, "  ");
        push_indented(out, &item.body);
        push_str(out, "\n");
    }
    assert(out@ == start + commit_entry(*item));
}

fn min_pr_from(items: &[PrItem], lo: u64) -> (r: Option<u32>)
    ensures
        r == min_pr_at_least(items@, lo as nat),
{
    let mut best: Option<u32> = None;
    let mut i: usize = 0;
    while i < items.len()
        invariant
            i <= items@.len(),
            best == min_pr_at_least(items@.take(i as int), lo as nat),
        decreases items@.len() - i,
    {
        assert(items@.take(i + 1).drop_last() == items@.take(i as int));
        if let Some(p) = items[i].pr_number {
            if p as u64 >= lo {
                best = match best {
                    Some(q) => if q <= p {
                        Some(q)
                    } else {
                        Some(p)
                    },
                    None => Some(p),
                };
            }
        }
        i = i + 1;
    }
    assert(items@.take(items@.len() as int) == items@);
    best
}

proof fn lemma_min_pr_found(items: Seq<PrItem>, lo: nat)
    ensures
        min_pr_at_least(items, lo) matches Some(n) ==> n >= lo && count_with(items, Some(n)) > 0,
    decreases items.len(),
{
    if items.len() > 0 {
        lemma_min_pr_found(items.drop_last(), lo);
    }
}

proof fn lemma_first_with_bounds(items: Seq<PrItem>, n: Option<u32>)
    ensures
        -1 <= first_with(items, n) < items.len(),
        count_with(items, n) > 0 <==> first_with(items, n) >= 0,
    decreases items.len(),
{
    if items.len() > 0 {
        lemma_first_with_bounds(items.drop_last(), n);
    }
}

/// Appends the section of pull request `n`, which some commit carries.
fn push_group(out: &mut String, items: &[PrItem], n: u32)
    requires
        count_with(items@, Some(n)) > 0,
    ensures
        final(out)@ == old(out)@ + group_text(items@, n),
{
    let ghost start = out@;
    let mut first: usize = 0;
    let mut found = false;
    let mut count: usize = 0;
    let mut i: usize = 0;
    while i < items.len()
        invariant
            i <= items@.len(),
            count == count_with(items@.take(i as int), Some(n)),
            found <==> first_with(items@.take(i as int), Some(n)) >= 0,
            found ==> first == first_with(items@.take(i as int), Some(n)),
            count <= i,
        decreases items@.len() - i,
    {
        assert(items@.take(i + 1).drop_last() == items@.take(i as int));
        proof {
            lemma_first_with_bounds(items@.take(i as int), Some(n));
        }
        if items[i].pr_number == Some(n) {
            if !found {
                first = i;
                found = true;
            }
            count = count + 1;
        }
        i = i + 1;
    }
    assert(items@.take(items@.len() as int) == items@);
    proof {
        lemma_first_with_bounds(items@, Some(n));
    }
    let head = &items[first];
    push_str(out, "\nPR #");
    push_decimal(out, n as u64);
    push_str(out, ": ");
    let title = trim(head.title.as_str());
    push_str(out, title.as_str());
    push_str(out, " [");
    push_short_hash(out, &head.commit_hash);
    push_str(out, "]\n");
    let ghost mid = out@;
    if count > 1 {
        push_str(out, "Additional commits in this PR:\n");
        let ghost lines_start = out@;
        let mut seen: usize = 0;
        let mut k: usize = 0;
        while k < items.len()
            invariant
                k <= items@.len(),
                seen == count_with(items@.take(k as int), Some(n)),
                seen <= k,
                out@ == lines_start + later_lines(items@.take(k as int), Some(n)),
            decreases items@.len() - k,
        {
            assert(items@.take(k + 1).drop_last() == items@.take(k as int));
            if items[k].pr_number == Some(n) {
                if seen > 0 {
                    push_short_line(out, &items[k]);
                }
                seen = seen + 1;
            }
            k = k + 1;
        }
        assert(items@.take(items@.len() as int) == items@);
    }
    assert(out@ == start + group_text(items@, n));
}

fn push_unnumbered(out: &mut String, items: &[PrItem])
    ensures
        final(out)@ == old(out)@ + unnumbered_text(items@),
{
    let ghost start = out@;
    let mut count: usize = 0;
    let mut i: usize = 0;
    while i < items.len()
        invariant
            i <= items@.len(),
            count == count_with(items@.take(i as int), None),
            count <= i,
        decreases items@.len() - i,
    {
        assert(items@.take(i + 1).drop_last() == items@.take(i as int));
        if items[i].pr_number.is_none() {
            count = count + 1;
        }
        i = i + 1;
    }
    assert(items@.take(items@.len() as int) == items@);
    if count > 0 {
        push_str(
            out,
            "\nCommits without associated PR numbers (may be small fixes or direct pushes):\n",
        );
        let ghost lines_start = out@;
        let mut k: usize = 0;
        while k < items.len()
            invariant
                k <= items@.len(),
                out@ == lines_start + lines_with(items@.take(k as int), None),
            decreases items@.len() - k,
        {
            assert(items@.take(k + 1).drop_last() == items@.take(k as int));
            if items[k].pr_number.is_none() {
                push_short_line(out, &items[k]);
            }
            k = k + 1;
        }
        assert(items@.take(items@.len() as int) == items@);
    }
    assert(out@ == start + unnumbered_text(items@));
}

/// The prompts asking for a pull-request description of the commits `items`
/// between `base_branch` and `from_branch`, listed commit by commit or
/// grouped by pull-request number in ascending order.
pub fn pr_message_prompt(
    base_branch: &str,
    from_branch: &str,
    mode: PrSummaryMode,
    items: &[PrItem],
    ticket_summary: Option<&str>,
) -> (r: PromptPair)
    ensures
        r.system@ == with_ticket(prompts::PR_INSTRUCTIONS@, opt_view(ticket_summary)),
        r.user@ == pr_user_text(base_branch@, from_branch@, mode, items@),
{
    let system = system_prompt(prompts::PR_INSTRUCTIONS, ticket_summary);
    let mut user = String::from_str("Base branch: ");
    push_str(&mut user, base_branch);
    push_str(&mut user, "\nFeature branch: ");
    push_str(&mut user, from_branch);
    push_str(&mut user, "\nSummary mode: ");
    push_str(&mut user, mode.as_str());
    push_str(&mut user, "\n\n");
    let ghost head = user@;
    match mode {
        PrSummaryMode::ByCommits => {
            push_str(&mut user, "Commit history (oldest first):\n");
            let ghost list_start = user@;
            let mut i: usize = 0;
            while i < items.len()
                invariant
                    i <= items@.len(),
                    user@ == list_start + commits_text(items@.take(i as int)),
                decreases items@.len() - i,
            {
                assert(items@.take(i + 1).drop_last() == items@.take(i as int));
                push_commit_entry(&mut user, &items[i]);
                i = i + 1;
            }
            assert(items@.take(items@.len() as int) == items@);
        },
        PrSummaryMode::ByPrs => {
            push_str(
                &mut user,
                "Pull requests contributing to this branch (oldest commits first):\n",
            );
            let ghost groups_start = user@;
            let mut lo: u64 = 0;
            let mut done = false;
            while !done
                invariant
                    lo <= u32::MAX + 1,
                    !done ==> user@ + groups_from(items@, lo as nat) == groups_start + groups_from(
                        items@,
                        0,
                    ),
                    done ==> user@ == groups_start + groups_from(items@, 0),
                decreases u32::MAX + 1 - lo, if done {
                    0int
                } else {
                    1int
                },
            {
                if lo > 0xffff_ffffu64 {
                    done = true;
                } else {
                    match min_pr_from(items, lo) {
                        None => {
                            done = true;
                        },
                        Some(n) => {
                            proof {
                                lemma_min_pr_found(items@, lo as nat);
                            }
                            let ghost before = user@;
                            push_group(&mut user, items, n);
                            assert(groups_from(items@, lo as nat) == group_text(items@, n)
                                + groups_from(items@, n as nat + 1));
                            assert(user@ + groups_from(items@, n as nat + 1) == before
                                + groups_from(items@, lo as nat));
                            lo = n as u64 + 1;
                        },
                    }
                }
            }
            push_unnumbered(&mut user, items);
        },
    }
    PromptPair { system, user }
}

} // verus!
