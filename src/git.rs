//! What the library reads out of git's output: the branch name, the staged
//! file list, the commits of a range with their pull-request numbers, and the
//! `owner/repo` identifier of a remote URL.

use vstd::prelude::*;
use vstd::string::StringExecFns;
use crate::text::{
    chars_of, ends_with, find_from, next_occurrence, has_suffix, push_char, push_str,
    split_all, split_text, string_of, trim, trimmed, views,
};

verus! {

/// How the commits of a pull request's range are presented to the model.
#[derive(Clone, Copy, Debug, PartialEq, Eq, Structural)]
pub enum PrSummaryMode {
    ByCommits,
    ByPrs,
}

pub open spec fn mode_name(m: PrSummaryMode) -> Seq<char> {
    match m {
        PrSummaryMode::ByCommits => "commits"@,
        PrSummaryMode::ByPrs => "prs"@,
    }
}

impl PrSummaryMode {
    /// The mode's name as it appears in prompts.
    pub fn as_str(&self) -> (r: &'static str)
        ensures
            r@ == mode_name(*self),
    {
        match self {
            PrSummaryMode::ByCommits => "commits",
            PrSummaryMode::ByPrs => "prs",
        }
    }
}

/// A commit of a pull request's range, with the first `#<number>` reference
/// found in its title, or else in its body.
#[derive(Clone, Debug)]
pub struct PrItem {
    pub commit_hash: String,
    pub title: String,
    pub body: String,
    pub pr_number: Option<u32>,
}

/// The branch name in the output of `git rev-parse --abbrev-ref HEAD`.
pub fn current_branch(git_output: &str) -> (r: String)
    ensures
        r@ == trimmed(git_output@),
{
    trim(git_output)
}

/// The non-blank lines of `pieces`, trimmed.
pub open spec fn nonblank_trimmed(pieces: Seq<Seq<char>>) -> Seq<Seq<char>>
    decreases pieces.len(),
{
    if pieces.len() == 0 {
        Seq::empty()
    } else {
        let rest = nonblank_trimmed(pieces.drop_last());
        if trimmed(pieces.last()).len() == 0 {
            rest
        } else {
            rest.push(trimmed(pieces.last()))
        }
    }
}

/// The file paths in the output of `git diff --cached --name-only`: each line
/// trimmed, blank lines dropped.
pub fn staged_files(git_output: &str) -> (r: Vec<String>)
    ensures
        views(r@) == nonblank_trimmed(split_all(git_output@, "\n"@)),
{
    proof {
        reveal_strlit("\n");
    }
    let pieces = split_text(git_output, "\n");
    let ghost pv = views(pieces@);
    let mut out: Vec<String> = Vec::new();
    let mut i: usize = 0;
    while i < pieces.len()
        invariant
            i <= pieces@.len(),
            pv == views(pieces@),
            views(out@) == nonblank_trimmed(pv.take(i as int)),
        decreases pieces@.len() - i,
    {
        assert(pv.take(i + 1).drop_last() == pv.take(i as int));
        assert(pv.take(i + 1).last() == pieces@[i as int]@);
        let t = trim(pieces[i].as_str());
        if t.unicode_len() > 0 {
            let ghost before = views(out@);
            out.push(t);
            assert(views(out@) == before.push(t@));
        }
        i = i + 1;
    }
    assert(pv.take(pieces@.len() as int) == pv);
    out
}

pub open spec fn is_digit(c: char) -> bool {
    '0' <= c <= '9'
}

/// The end of the run of ASCII digits that starts at `j`.
pub open spec fn digit_run_end(s: Seq<char>, j: int) -> int
    decreases s.len() - j,
{
    if 0 <= j < s.len() && is_digit(s[j]) {
        digit_run_end(s, j + 1)
    } else {
        j
    }
}

/// The value of the digits `s[from..to]`, saturating at `u32::MAX`.
pub open spec fn saturating_value(s: Seq<char>, from: int, to: int) -> nat
    decreases to - from,
{
    if to <= from {
        0
    } else {
        let v = saturating_value(s, from, to - 1) * 10 + ((s[to - 1] as nat) - ('0' as nat));
        if v > u32::MAX {
            u32::MAX as nat
        } else if v < 0 {
            0
        } else {
            v as nat
        }
    }
}

/// The number of the first `#` in `s[i..]` that a digit follows.
pub open spec fn first_pr_from(s: Seq<char>, i: int) -> Option<u32>
    decreases s.len() - i,
{
    if i < 0 || i >= s.len() {
        None
    } else if s[i] == '#' && digit_run_end(s, i + 1) > i + 1 {
        Some(saturating_value(s, i + 1, digit_run_end(s, i + 1)) as u32)
    } else {
        first_pr_from(s, i + 1)
    }
}

/// The number of the first `#<digits>` reference in `s`, saturating at
/// `u32::MAX`.
pub open spec fn first_pr_number(s: Seq<char>) -> Option<u32> {
    first_pr_from(s, 0)
}

proof fn lemma_saturating_value_bound(s: Seq<char>, from: int, to: int)
    ensures
        saturating_value(s, from, to) <= u32::MAX,
    decreases to - from,
{
    if to > from {
        lemma_saturating_value_bound(s, from, to - 1);
    }
}

/// The number of the first `#<digits>` reference in `text`.
pub fn find_first_pr_number(text: &str) -> (r: Option<u32>)
    ensures
        r == first_pr_number(text@),
{
    let cs = chars_of(text);
    let n = cs.len();
    let mut i: usize = 0;
    while i < n
        invariant
            n == cs@.len(),
            cs@ == text@,
            i <= n,
            first_pr_from(cs@, i as int) == first_pr_from(cs@, 0),
        decreases n - i,
    {
        if cs[i] == '#' {
            let mut j = i + 1;
            let mut value: u32 = 0;
            while j < n && '0' <= cs[j] && cs[j] <= '9'
                invariant
                    n == cs@.len(),
                    i < j <= n,
                    forall|k: int| i + 1 <= k < j ==> is_digit(#[trigger] cs@[k]),
                    digit_run_end(cs@, i + 1) == digit_run_end(cs@, j as int),
                    value == saturating_value(cs@, i + 1, j as int),
                decreases n - j,
            {
                proof {
                    lemma_saturating_value_bound(cs@, i + 1, j as int);
                }
                let d = (cs[j] as u32) - ('0' as u32);
                let v: u64 = (value as u64) * 10 + (d as u64);
                value = if v > 0xffff_ffffu64 {
                    0xffff_ffffu32
                } else {
                    v as u32
                };
                j = j + 1;
            }
            assert(digit_run_end(cs@, j as int) == j);
            proof {
                lemma_saturating_value_bound(cs@, i + 1, j as int);
            }
            if j > i + 1 {
                assert(first_pr_from(cs@, i as int) == Some(
                    saturating_value(cs@, i + 1, j as int) as u32,
                ));
                return Some(value);
            }
        }
        i = i + 1;
    }
    None
}

/// `l` without one trailing carriage return.
pub open spec fn strip_cr(l: Seq<char>) -> Seq<char> {
    if l.len() > 0 && l.last() == '\r' {
        l.drop_last()
    } else {
        l
    }
}

/// The lines of `s`, as `str::lines` gives them for a text that does not end
/// with a line break.
pub open spec fn text_lines(s: Seq<char>) -> Seq<Seq<char>> {
    split_all(s, "\n"@).map_values(|l: Seq<char>| strip_cr(l))
}

/// The lines joined with line breaks.
pub open spec fn join_lines(ls: Seq<Seq<char>>) -> Seq<char>
    decreases ls.len(),
{
    if ls.len() == 0 {
        Seq::empty()
    } else if ls.len() == 1 {
        ls[0]
    } else {
        join_lines(ls.drop_last()) + seq!['\n'] + ls.last()
    }
}

/// A commit as plain values: hash, title, body and pull-request number.
pub open spec fn item_view(i: PrItem) -> (Seq<char>, Seq<char>, Seq<char>, Option<u32>) {
    (i.commit_hash@, i.title@, i.body@, i.pr_number)
}

/// The commit a trimmed, non-empty log block describes: the hash on its first
/// line, the title on its second, the body on the rest.
pub open spec fn block_item(block: Seq<char>) -> (Seq<char>, Seq<char>, Seq<char>, Option<u32>) {
    let ls = text_lines(block);
    let hash = trimmed(ls[0]);
    let title = if ls.len() > 1 {
        trimmed(ls[1])
    } else {
        Seq::empty()
    };
    let body = if ls.len() > 2 {
        join_lines(ls.skip(2))
    } else {
        Seq::empty()
    };
    let pr = match first_pr_number(title) {
        Some(n) => Some(n),
        None => first_pr_number(body),
    };
    (hash, title, body, pr)
}

/// The commits of the log blocks that are not blank.
pub open spec fn block_items(blocks: Seq<Seq<char>>) -> Seq<(Seq<char>, Seq<char>, Seq<char>, Option<u32>)>
    decreases blocks.len(),
{
    if blocks.len() == 0 {
        Seq::empty()
    } else {
        let rest = block_items(blocks.drop_last());
        let b = trimmed(blocks.last());
        if b.len() == 0 {
            rest
        } else {
            rest.push(block_item(b))
        }
    }
}

/// The commits in the output of `git log --reverse
/// --pretty=format:%H%n%s%n%b%n---END---`, oldest first.
pub open spec fn pr_log_items(log: Seq<char>) -> Seq<(Seq<char>, Seq<char>, Seq<char>, Option<u32>)> {
    block_items(split_all(log, "\n---END---"@))
}

fn strip_carriage_return(l: &str) -> (r: String)
    ensures
        r@ == strip_cr(l@),
{
    let cs = chars_of(l);
    if cs.len() > 0 && cs[cs.len() - 1] == '\r' {
        string_of(&cs, 0, cs.len() - 1)
    } else {
        assert(cs@.subrange(0, cs@.len() as int) == cs@);
        string_of(&cs, 0, cs.len())
    }
}

fn block_to_item(block: &str) -> (r: PrItem)
    ensures
        item_view(r) == block_item(block@),
{
    proof {
        reveal_strlit("\n");
    }
    let pieces = split_text(block, "\n");
    let ghost lv = text_lines(block@);
    assert(lv.len() == pieces@.len());
    let mut lines: Vec<String> = Vec::new();
    let mut i: usize = 0;
    while i < pieces.len()
        invariant
            i <= pieces@.len(),
            lv == split_all(block@, "\n"@).map_values(|l: Seq<char>| strip_cr(l)),
            views(pieces@) == split_all(block@, "\n"@),
            views(lines@) == lv.take(i as int),
        decreases pieces@.len() - i,
    {
        let l = strip_carriage_return(pieces[i].as_str());
        let ghost before = views(lines@);
        lines.push(l);
        assert(views(lines@) == before.push(l@));
        assert(lv.take(i + 1) == lv.take(i as int).push(lv[i as int]));
        i = i + 1;
    }
    assert(lv.take(lv.len() as int) == lv);
    assert(views(lines@) == lv);
    let hash = if lines.len() > 0 {
        trim(lines[0].as_str())
    } else {
        String::new()
    };
    assert(lv.len() > 0) by {
        assert(split_all(block@, "\n"@).len() > 0);
    }
    let title = if lines.len() > 1 {
        trim(lines[1].as_str())
    } else {
        String::new()
    };
    let mut body = String::new();
    let mut k: usize = 2;
    while k < lines.len()
        invariant
            2 <= k <= lines@.len() || (k == 2 && lines@.len() < 2),
            views(lines@) == lv,
            k <= lines@.len() ==> body@ == join_lines(lv.subrange(2, k as int)),
            k == 2 ==> body@ == Seq::<char>::empty(),
        decreases lines@.len() - k,
    {
        if k > 2 {
            push_char(&mut body, '\n');
        }
        push_str(&mut body, lines[k].as_str());
        proof {
            let sub = lv.subrange(2, k + 1);
            assert(sub.drop_last() == lv.subrange(2, k as int));
            if k == 2 {
                assert(sub.len() == 1);
            }
        }
        k = k + 1;
    }
    proof {
        if lv.len() > 2 {
            assert(lv.subrange(2, lv.len() as int) == lv.skip(2));
        }
    }
    let mut pr = find_first_pr_number(title.as_str());
    if pr.is_none() {
        pr = find_first_pr_number(body.as_str());
    }
    PrItem { commit_hash: hash, title, body, pr_number: pr }
}

/// The commits in the output of `git log --reverse
/// --pretty=format:%H%n%s%n%b%n---END---`, oldest first.
pub fn collect_pr_items(git_log: &str) -> (r: Vec<PrItem>)
    ensures
        r@.map_values(|i: PrItem| item_view(i)) == pr_log_items(git_log@),
{
    proof {
        reveal_strlit("\n---END---");
    }
    let blocks = split_text(git_log, "\n---END---");
    let ghost bv = views(blocks@);
    let mut items: Vec<PrItem> = Vec::new();
    let mut i: usize = 0;
    while i < blocks.len()
        invariant
            i <= blocks@.len(),
            bv == views(blocks@),
            bv == split_all(git_log@, "\n---END---"@),
            items@.map_values(|it: PrItem| item_view(it)) == block_items(bv.take(i as int)),
        decreases blocks@.len() - i,
    {
        assert(bv.take(i + 1).drop_last() == bv.take(i as int));
        assert(bv.take(i + 1).last() == blocks@[i as int]@);
        let b = trim(blocks[i].as_str());
        if b.unicode_len() > 0 {
            let item = block_to_item(b.as_str());
            let ghost before = items@.map_values(|it: PrItem| item_view(it));
            items.push(item);
            assert(items@.map_values(|it: PrItem| item_view(it)) == before.push(item_view(item)));
        }
        i = i + 1;
    }
    assert(bv.take(blocks@.len() as int) == bv);
    items
}

/// Whether two commits carry different pull-request numbers.
pub open spec fn has_distinct_prs(items: Seq<PrItem>) -> bool {
    exists|a: int, b: int|
        0 <= a < items.len() && 0 <= b < items.len() && (#[trigger] items[a]).pr_number is Some
            && (#[trigger] items[b]).pr_number is Some && items[a].pr_number != items[b].pr_number
}

/// The presentation of a range: by pull requests when asked for, by commits
/// when asked for, and otherwise by pull requests exactly when the commits
/// carry at least two distinct pull-request numbers.
pub fn choose_pr_mode(items: &Vec<PrItem>, pr_flag: bool, commit_flag: bool) -> (r: PrSummaryMode)
    ensures
        r == (if pr_flag {
            PrSummaryMode::ByPrs
        } else if commit_flag {
            PrSummaryMode::ByCommits
        } else if has_distinct_prs(items@) {
            PrSummaryMode::ByPrs
        } else {
            PrSummaryMode::ByCommits
        }),
{
    if pr_flag {
        return PrSummaryMode::ByPrs;
    }
    if commit_flag {
        return PrSummaryMode::ByCommits;
    }
    let mut first: Option<u32> = None;
    let mut i: usize = 0;
    while i < items.len()
        invariant
            !pr_flag,
            !commit_flag,
            i <= items@.len(),
            first is None ==> forall|k: int| 0 <= k < i ==> (#[trigger] items@[k]).pr_number is None,
            first matches Some(f) ==> exists|k: int|
                0 <= k < i && (#[trigger] items@[k]).pr_number == Some(f),
            first matches Some(f) ==> forall|k: int|
                0 <= k < i && (#[trigger] items@[k]).pr_number is Some ==> items@[k].pr_number
                    == Some(f),
        decreases items@.len() - i,
    {
        if let Some(n) = items[i].pr_number {
            match first {
                None => {
                    first = Some(n);
                },
                Some(f) => {
                    if f != n {
                        let ghost k = choose|k: int|
                            0 <= k < i && (#[trigger] items@[k]).pr_number == Some(f);
                        assert(items@[k].pr_number is Some && items@[i as int].pr_number is Some
                            && items@[k].pr_number != items@[i as int].pr_number);
                        assert(has_distinct_prs(items@));
                        return PrSummaryMode::ByPrs;
                    }
                },
            }
        }
        i = i + 1;
    }
    assert(!has_distinct_prs(items@)) by {
        if has_distinct_prs(items@) {
            let (a, b) = choose|a: int, b: int|
                0 <= a < items@.len() && 0 <= b < items@.len() && (#[trigger] items@[a]).pr_number is Some
                    && (#[trigger] items@[b]).pr_number is Some && items@[a].pr_number
                    != items@[b].pr_number;
            assert(items@[a].pr_number is Some);
        }
    }
    PrSummaryMode::ByCommits
}

/// `s` without any number of trailing `.git`.
pub open spec fn strip_git_suffix(s: Seq<char>) -> Seq<char>
    decreases s.len(),
{
    if s.len() >= 4 && has_suffix(s, ".git"@) {
        strip_git_suffix(s.take(s.len() - 4))
    } else {
        s
    }
}

/// The path part of a remote URL: after the host of a `scheme://host/` URL,
/// after the first `:` of an scp-like `user@host:` address, or the whole text.
pub open spec fn remote_path(t: Seq<char>) -> Seq<char> {
    let i = next_occurrence(t, "://"@, 0);
    if i < t.len() {
        let rest = t.skip(i + 3);
        let k = next_occurrence(rest, "/"@, 0);
        if k < rest.len() {
            rest.skip(k + 1)
        } else {
            rest
        }
    } else {
        let c = next_occurrence(t, ":"@, 0);
        if c < t.len() {
            t.skip(c + 1)
        } else {
            t
        }
    }
}

/// The pieces that are not empty.
pub open spec fn nonempty_pieces(ps: Seq<Seq<char>>) -> Seq<Seq<char>>
    decreases ps.len(),
{
    if ps.len() == 0 {
        Seq::empty()
    } else if ps.last().len() == 0 {
        nonempty_pieces(ps.drop_last())
    } else {
        nonempty_pieces(ps.drop_last()).push(ps.last())
    }
}

/// The `owner/repo` identifier of a remote URL: its last two non-empty path
/// segments, once surrounding whitespace and trailing `.git` are dropped.
pub open spec fn repo_id(url: Seq<char>) -> Option<Seq<char>> {
    let segs = nonempty_pieces(
        split_all(remote_path(strip_git_suffix(trimmed(url))), "/"@),
    );
    if segs.len() >= 2 {
        Some(segs[segs.len() - 2] + "/"@ + segs[segs.len() - 1])
    } else {
        None
    }
}

fn strip_git_suffixes(s: String) -> (r: String)
    ensures
        r@ == strip_git_suffix(s@),
{
    proof {
        reveal_strlit(".git");
    }
    let mut t = s;
    while ends_with(t.as_str(), ".git")
        invariant
            strip_git_suffix(t@) == strip_git_suffix(s@),
        decreases t@.len(),
    {
        proof {
            reveal_strlit(".git");
        }
        let cs = chars_of(t.as_str());
        let u = string_of(&cs, 0, cs.len() - 4);
        assert(u@ == t@.take(t@.len() - 4));
        t = u;
    }
    t
}

/// The `owner/repo` identifier of the remote URL `url`, as `git config --get
/// remote.origin.url` prints it.
pub fn repo_id_from_url(url: &str) -> (r: Option<String>)
    ensures
        r matches Some(id) ==> repo_id(url@) == Some(id@),
        r is None ==> repo_id(url@) is None,
{
    proof {
        reveal_strlit("://");
        reveal_strlit("/");
        reveal_strlit(":");
    }
    let t = strip_git_suffixes(trim(url));
    let cs = chars_of(t.as_str());
    let scheme = chars_of("://");
    let i = find_from(&cs, &scheme, 0);
    let path = if i < cs.len() {
        let rest = string_of(&cs, i + 3, cs.len());
        assert(rest@ == cs@.skip(i + 3));
        let rs = chars_of(rest.as_str());
        let slash = chars_of("/");
        let k = find_from(&rs, &slash, 0);
        if k < rs.len() {
            let p = string_of(&rs, k + 1, rs.len());
            assert(p@ == rs@.skip(k + 1));
            p
        } else {
            rest
        }
    } else {
        let colon = chars_of(":");
        let c = find_from(&cs, &colon, 0);
        if c < cs.len() {
            let p = string_of(&cs, c + 1, cs.len());
            assert(p@ == cs@.skip(c + 1));
            p
        } else {
            t
        }
    };
    let pieces = split_text(path.as_str(), "/");
    let ghost pv = views(pieces@);
    let mut segs: Vec<String> = Vec::new();
    let mut j: usize = 0;
    while j < pieces.len()
        invariant
            j <= pieces@.len(),
            pv == views(pieces@),
            views(segs@) == nonempty_pieces(pv.take(j as int)),
        decreases pieces@.len() - j,
    {
        assert(pv.take(j + 1).drop_last() == pv.take(j as int));
        if pieces[j].as_str().unicode_len() > 0 {
            let ghost before = views(segs@);
            segs.push(pieces[j].clone());
            assert(views(segs@) == before.push(pieces@[j as int]@));
        }
        j = j + 1;
    }
    assert(pv.take(pieces@.len() as int) == pv);
    let n = segs.len();
    if n >= 2 {
        let mut id = segs[n - 2].clone();
        push_str(&mut id, "/");
        push_str(&mut id, segs[n - 1].as_str());
        assert(segs@[n - 2]@ == views(segs@)[n - 2]);
        assert(segs@[n - 1]@ == views(segs@)[n - 1]);
        Some(id)
    } else {
        None
    }
}

} // verus!
