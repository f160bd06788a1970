//! Rename previews and the checks made before renaming.

use std::collections::HashSet;
use vstd::prelude::*;
use crate::entry::FileEntry;
use crate::text::{lemma_text_order, owned, chars_equal, chars_of, compare_chars, contains_char, replace_chars, replace_all, seq_order, string_of, law_replace_by_itself};
use vstd::string::*;

verus! {

broadcast use vstd::std_specs::hash::group_hash_axioms;

/// Preview of a rename operation.
#[derive(Debug, Clone)]
pub struct RenamePreview {
    /// Original filename.
    pub original_name: String,
    /// New filename after rename.
    pub new_name: String,
    /// Whether this file will actually change.
    pub will_change: bool,
    /// Index of the file in the original list.
    pub file_index: usize,
}

/// What a preview says, as plain values.
pub struct PreviewView {
    pub original_name: Seq<char>,
    pub new_name: Seq<char>,
    pub will_change: bool,
    pub file_index: usize,
}

impl View for RenamePreview {
    type V = PreviewView;

    open spec fn view(&self) -> PreviewView {
        PreviewView {
            original_name: self.original_name@,
            new_name: self.new_name@,
            will_change: self.will_change,
            file_index: self.file_index,
        }
    }
}

/// The views of a list of previews.
pub open spec fn views(v: Seq<RenamePreview>) -> Seq<PreviewView> {
    v.map_values(|p: RenamePreview| p@)
}

/// File `i` is one the previews cover: it exists, is no directory, and is
/// selected, where an empty selection selects every file.
pub open spec fn in_scope(files: Seq<FileEntry>, selected: Set<usize>, i: int) -> bool {
    &&& 0 <= i < files.len()
    &&& !files[i].is_dir
    &&& (selected.is_empty() || selected.contains(i as usize))
}

/// The preview of search/replace on one file.
pub open spec fn search_replace_preview(
    f: FileEntry,
    i: int,
    search: Seq<char>,
    replace: Seq<char>,
) -> PreviewView {
    let new_name = if search.len() == 0 {
        f.name@
    } else {
        replace_all(f.name@, search, replace)
    };
    PreviewView {
        original_name: f.name@,
        new_name,
        will_change: new_name != f.name@ && search.len() > 0,
        file_index: i as usize,
    }
}

/// The search/replace previews of the first `n` files that are in scope,
/// in list order.
pub open spec fn collected_previews(
    files: Seq<FileEntry>,
    selected: Set<usize>,
    search: Seq<char>,
    replace: Seq<char>,
    n: int,
) -> Seq<PreviewView>
    decreases n,
{
    if n <= 0 {
        seq![]
    } else {
        collected_previews(files, selected, search, replace, n - 1) + if in_scope(
            files,
            selected,
            n - 1,
        ) {
            seq![search_replace_preview(files[n - 1], n - 1, search, replace)]
        } else {
            seq![]
        }
    }
}

/// Where `x` goes into previews ordered by original name: after every
/// preview whose name is not greater.
pub open spec fn preview_insert_pos(s: Seq<PreviewView>, x: PreviewView) -> int
    decreases s.len(),
{
    if s.len() == 0 || seq_order(x.original_name, s.last().original_name) >= 0 {
        s.len() as int
    } else {
        preview_insert_pos(s.drop_last(), x)
    }
}

/// The stable sort of previews by original name.
pub open spec fn by_original_name(s: Seq<PreviewView>) -> Seq<PreviewView>
    decreases s.len(),
{
    if s.len() == 0 {
        s
    } else {
        let r = by_original_name(s.drop_last());
        let k = preview_insert_pos(r, s.last());
        r.take(k).push(s.last()) + r.skip(k)
    }
}

/// The previews of search/replace over the files in scope, ordered by
/// original name.
pub open spec fn search_replace_previews(
    files: Seq<FileEntry>,
    selected: Set<usize>,
    search: Seq<char>,
    replace: Seq<char>,
) -> Seq<PreviewView> {
    by_original_name(collected_previews(files, selected, search, replace, files.len() as int))
}

proof fn lemma_preview_insert_pos_bounds(s: Seq<PreviewView>, x: PreviewView)
    ensures
        0 <= preview_insert_pos(s, x) <= s.len(),
    decreases s.len(),
{
    if s.len() > 0 && seq_order(x.original_name, s.last().original_name) < 0 {
        lemma_preview_insert_pos_bounds(s.drop_last(), x);
    }
}

/// Orders previews by original name, stably.
pub fn sort_previews(v: &mut Vec<RenamePreview>)
    ensures
        views(final(v)@) == by_original_name(views(old(v)@)),
{
    let n = v.len();
    let mut out: Vec<RenamePreview> = Vec::new();
    let mut keys: Vec<Vec<char>> = Vec::new();
    let mut i: usize = 0;
    while i < n
        invariant
            n == old(v)@.len(),
            i <= n,
            v@ == old(v)@.skip(i as int),
            views(out@) == by_original_name(views(old(v)@.take(i as int))),
            keys@.len() == out@.len(),
            forall|t: int| 0 <= t < out@.len() ==> (#[trigger] keys@[t])@ == out@[t].original_name@,
        decreases n - i,
    {
        let x = v.remove(0);
        let kx = chars_of(x.original_name.as_str());
        let ghost s = views(out@);
        let mut j = out.len();
        proof {
            assert(s.take(j as int) =~= s);
        }
        let mut stop = false;
        while j > 0 && !stop
            invariant
                stop ==> j > 0 && seq_order(x@.original_name, s[j - 1].original_name) >= 0,
                j <= s.len(),
                s == views(out@),
                keys@.len() == out@.len(),
                forall|t: int| 0 <= t < out@.len() ==> (#[trigger] keys@[t])@ == out@[t].original_name@,
                kx@ == x.original_name@,
                preview_insert_pos(s.take(j as int), x@) == preview_insert_pos(s, x@),
            decreases j + if stop { 0int } else { 1int },
        {
            let c = compare_chars(kx.as_slice(), keys[j - 1].as_slice());
            if c >= 0 {
                stop = true;
            } else {
                assert(s.take(j as int).drop_last() =~= s.take(j - 1));
                j -= 1;
            }
        }
        proof {
            if j == 0 {
                assert(s.take(0) =~= Seq::<PreviewView>::empty());
            } else {
                assert(s.take(j as int).last() == s[j - 1]);
            }
            lemma_preview_insert_pos_bounds(s, x@);
            assert(preview_insert_pos(s, x@) == j);
        }
        let ghost ks = keys@;
        let ghost os = out@;
        out.insert(j, x);
        keys.insert(j, kx);
        proof {
            let all = views(old(v)@.take(i + 1));
            assert(all.drop_last() =~= views(old(v)@.take(i as int)));
            assert(all.last() == x@);
            assert(views(out@) =~= s.take(j as int).push(x@) + s.skip(j as int));
            assert(v@ =~= old(v)@.skip(i + 1));
            assert forall|t: int| 0 <= t < out@.len() implies (#[trigger] keys@[t])@ == out@[t].original_name@ by {
                if t > j {
                    assert(keys@[t] == ks[t - 1]);
                    assert(out@[t] == os[t - 1]);
                }
            }
        }
        i += 1;
    }
    proof {
        assert(old(v)@.take(n as int) =~= old(v)@);
    }
    *v = out;
}

/// Generate previews for all selected files based on search/replace; with
/// no file selected, every file is previewed. Directories are skipped.
pub fn generate_previews(
    files: &[FileEntry],
    selected: &HashSet<usize>,
    search: &str,
    replace: &str,
) -> (res: Vec<RenamePreview>)
    ensures
        views(res@) == search_replace_previews(files@, selected@, search@, replace@),
{
    let n = files.len();
    let pat = chars_of(search);
    let rep = chars_of(replace);
    let none_selected = selected.is_empty();
    let mut previews: Vec<RenamePreview> = Vec::new();
    for i in 0..n
        invariant
            n == files@.len(),
            pat@ == search@,
            rep@ == replace@,
            none_selected == selected@.is_empty(),
            views(previews@) == collected_previews(files@, selected@, search@, replace@, i as int),
    {
        let file = &files[i];
        let chosen = !file.is_dir && (none_selected || selected.contains(&i));
        let ghost before = views(previews@);
        if chosen {
            let name = chars_of(file.name.as_str());
            let new_chars = if pat.len() == 0 {
                name.clone()
            } else {
                replace_chars(name.as_slice(), pat.as_slice(), rep.as_slice())
            };
            let same = chars_equal(new_chars.as_slice(), name.as_slice());
            let p = RenamePreview {
                original_name: string_of(name.as_slice()),
                new_name: string_of(new_chars.as_slice()),
                will_change: !same && pat.len() > 0,
                file_index: i,
            };
            previews.push(p);
            assert(views(previews@) =~= before + seq![search_replace_preview(files@[i as int], i as int, search@, replace@)]);
        } else {
            assert(views(previews@) =~= before + Seq::<PreviewView>::empty());
        }
    }
    sort_previews(&mut previews);
    previews
}

/// What the file system says about one preview before renaming.
#[derive(Clone, Copy)]
pub struct RenameCheck {
    /// The file under its original name exists.
    pub source_exists: bool,
    /// A file under the new name exists.
    pub target_exists: bool,
    /// The original and the new path are the same path.
    pub same_path: bool,
}

/// The problem that stops the rename of one preview, if any.
pub open spec fn rename_problem(p: PreviewView, c: RenameCheck) -> Option<Seq<char>> {
    if !p.will_change {
        None
    } else if !c.source_exists {
        Some("Quelldatei existiert nicht: "@ + p.original_name)
    } else if c.target_exists && !c.same_path {
        Some("Zieldatei existiert bereits: "@ + p.new_name)
    } else if p.new_name.contains('/') || p.new_name.contains('\\') {
        Some("Ungueltiger Dateiname: "@ + p.new_name)
    } else if p.new_name.len() == 0 {
        Some("Leerer Dateiname ist nicht erlaubt"@)
    } else {
        None
    }
}

/// The problems of the first `n` previews, in order.
pub open spec fn rename_problems(ps: Seq<PreviewView>, cs: Seq<RenameCheck>, n: int) -> Seq<
    Seq<char>,
>
    decreases n,
{
    if n <= 0 {
        seq![]
    } else {
        rename_problems(ps, cs, n - 1) + match rename_problem(ps[n - 1], cs[n - 1]) {
            Some(m) => seq![m],
            None => seq![],
        }
    }
}

/// The lines joined with a line break between each two.
pub open spec fn join_lines(lines: Seq<Seq<char>>) -> Seq<char>
    decreases lines.len(),
{
    if lines.len() == 0 {
        seq![]
    } else if lines.len() == 1 {
        lines[0]
    } else {
        join_lines(lines.drop_last()) + "\n"@ + lines.last()
    }
}

/// The validation of a batch of renames: `Ok` when no preview that will
/// change has a problem, otherwise every problem, one per line.
pub open spec fn rename_validation(ps: Seq<PreviewView>, cs: Seq<RenameCheck>) -> Result<(), Seq<char>> {
    let probs = rename_problems(ps, cs, ps.len() as int);
    if probs.len() == 0 {
        Ok(())
    } else {
        Err("Validierungsfehler:\n"@ + join_lines(probs))
    }
}

fn problem_text(p: &RenamePreview, c: &RenameCheck) -> (res: Option<String>)
    ensures
        match (res, rename_problem(p@, *c)) {
            (Some(m), Some(t)) => m@ == t,
            (None, None) => true,
            _ => false,
        },
{
    if !p.will_change {
        return None;
    }
    if !c.source_exists {
        let mut m = owned("Quelldatei existiert nicht: ");
        m.append(p.original_name.as_str());
        return Some(m);
    }
    if c.target_exists && !c.same_path {
        let mut m = owned("Zieldatei existiert bereits: ");
        m.append(p.new_name.as_str());
        return Some(m);
    }
    let new_chars = chars_of(p.new_name.as_str());
    if contains_char(new_chars.as_slice(), '/') || contains_char(new_chars.as_slice(), '\\') {
        let mut m = owned("Ungueltiger Dateiname: ");
        m.append(p.new_name.as_str());
        return Some(m);
    }
    if new_chars.len() == 0 {
        return Some(owned("Leerer Dateiname ist nicht erlaubt"));
    }
    None
}

/// Checks a batch of renames against what the file system reported for
/// each preview (`checks[i]` belongs to `previews[i]`).
pub fn validate_renames(previews: &[RenamePreview], checks: &[RenameCheck]) -> (res: Result<
    (),
    String,
>)
    requires
        checks.len() == previews.len(),
    ensures
        match (res, rename_validation(views(previews@), checks@)) {
            (Ok(()), Ok(())) => true,
            (Err(m), Err(t)) => m@ == t,
            _ => false,
        },
{
    let n = previews.len();
    let mut msg = owned("Validierungsfehler:\n");
    let mut count: usize = 0;
    let ghost ps = views(previews@);
    for i in 0..n
        invariant
            n == previews@.len(),
            checks@.len() == n,
            ps == views(previews@),
            count == rename_problems(ps, checks@, i as int).len(),
            count > 0 ==> msg@ == "Validierungsfehler:\n"@ + join_lines(rename_problems(ps, checks@, i as int)),
            count == 0 ==> msg@ == "Validierungsfehler:\n"@,
            count <= i,
    {
        let ghost before = rename_problems(ps, checks@, i as int);
        let t = problem_text(&previews[i], &checks[i]);
        assert(ps[i as int] == previews@[i as int]@);
        match t {
            Some(line) => {
                let ghost after = rename_problems(ps, checks@, i + 1);
                assert(after =~= before.push(line@));
                if count > 0 {
                    msg.append("\n");
                    assert(after.drop_last() =~= before);
                }
                msg.append(line.as_str());
                count += 1;
                proof {
                    if count == 1 {
                        assert(before.len() == 0);
                        assert(join_lines(after) == after[0]);
                    }
                    assert(msg@ =~= "Validierungsfehler:\n"@ + join_lines(after));
                }
            },
            None => {
                assert(rename_problems(ps, checks@, i + 1) =~= before);
            },
        }
    }
    if count == 0 {
        Ok(())
    } else {
        Err(msg)
    }
}

/// Positions of the previews that will change, in order: the renames to
/// carry out.
pub fn pending_renames(previews: &[RenamePreview]) -> (res: Vec<usize>)
    ensures
        forall|k: int| 0 <= k < res@.len() ==> (#[trigger] res@[k]) < previews@.len()
            && previews@[res@[k] as int].will_change,
        forall|i: int| 0 <= i < previews@.len() && previews@[i].will_change ==> res@.contains(
            i as usize,
        ),
        forall|a: int, b: int| 0 <= a < b < res@.len() ==> res@[a] < res@[b],
{
    let n = previews.len();
    let mut res: Vec<usize> = Vec::new();
    for i in 0..n
        invariant
            n == previews@.len(),
            forall|k: int| 0 <= k < res@.len() ==> (#[trigger] res@[k]) < i
                && previews@[res@[k] as int].will_change,
            forall|j: int| 0 <= j < i && previews@[j].will_change ==> res@.contains(j as usize),
            forall|a: int, b: int| 0 <= a < b < res@.len() ==> res@[a] < res@[b],
    {
        let ghost prev = res@;
        if previews[i].will_change {
            res.push(i);
            assert(res@[res@.len() - 1] == i);
        }
        assert forall|j: int| 0 <= j < i + 1 && previews@[j].will_change implies res@.contains(j as usize) by {
            if j == i {
                assert(res@[res@.len() - 1] == j as usize);
            } else {
                assert(prev.contains(j as usize));
                let k = choose|k: int| 0 <= k < prev.len() && prev[k] == j as usize;
                assert(res@[k] == j as usize);
            }
        }
    }
    res
}

/// Previews are in order of original name.
pub open spec fn previews_ordered(s: Seq<PreviewView>) -> bool {
    forall|i: int, j: int| 0 <= i < j < s.len() ==> seq_order(s[i].original_name, s[j].original_name) <= 0
}

proof fn lemma_preview_insert_props(s: Seq<PreviewView>, x: PreviewView)
    ensures
        0 <= preview_insert_pos(s, x) <= s.len(),
        forall|t: int| preview_insert_pos(s, x) <= t < s.len() ==> seq_order(x.original_name, #[trigger] s[t].original_name) < 0,
        preview_insert_pos(s, x) > 0 ==> seq_order(x.original_name, s[preview_insert_pos(s, x) - 1].original_name) >= 0,
    decreases s.len(),
{
    if s.len() > 0 && seq_order(x.original_name, s.last().original_name) < 0 {
        let d = s.drop_last();
        lemma_preview_insert_props(d, x);
        assert forall|t: int| preview_insert_pos(s, x) <= t < s.len() implies seq_order(x.original_name, #[trigger] s[t].original_name) < 0 by {
            if t < s.len() - 1 {
                assert(d[t] == s[t]);
            }
        }
    }
}

/// Sorting previews by original name puts them in order and keeps every
/// preview.
pub proof fn law_previews_sorted_and_kept(s: Seq<PreviewView>)
    ensures
        previews_ordered(by_original_name(s)),
        by_original_name(s).to_multiset() == s.to_multiset(),
    decreases s.len(),
{
    if s.len() > 0 {
        let d = s.drop_last();
        let x = s.last();
        law_previews_sorted_and_kept(d);
        let r0 = by_original_name(d);
        lemma_preview_insert_props(r0, x);
        let k = preview_insert_pos(r0, x);
        let r = by_original_name(s);
        assert(r =~= r0.insert(k, x));
        vstd::seq_lib::to_multiset_insert(r0, k, x);
        assert(s =~= d.push(x));
        vstd::seq_lib::to_multiset_build(d, x);
        assert forall|i: int, j: int| 0 <= i < j < r.len() implies seq_order(r[i].original_name, r[j].original_name) <= 0 by {
            if j < k {
                assert(r[i] == r0[i] && r[j] == r0[j]);
            } else if j == k {
                assert(r[j] == x && r[i] == r0[i]);
                lemma_text_order(x.original_name, r0[k - 1].original_name, r0[i].original_name);
                lemma_text_order(r0[i].original_name, r0[k - 1].original_name, x.original_name);
                crate::text::lemma_seq_order_antisym(x.original_name, r0[k - 1].original_name);
                crate::text::lemma_seq_order_antisym(r0[i].original_name, r0[k - 1].original_name);
                crate::text::lemma_seq_order_antisym(r0[i].original_name, x.original_name);
                if i < k - 1 {
                    assert(seq_order(r0[i].original_name, r0[k - 1].original_name) <= 0);
                    crate::text::lemma_seq_order_trans(r0[i].original_name, r0[k - 1].original_name, x.original_name);
                }
            } else if i == k {
                assert(r[i] == x && r[j] == r0[j - 1]);
            } else if i < k {
                assert(r[i] == r0[i] && r[j] == r0[j - 1]);
            } else {
                assert(r[i] == r0[i - 1] && r[j] == r0[j - 1]);
            }
        }
    }
}

proof fn lemma_collected_props(
    files: Seq<FileEntry>,
    selected: Set<usize>,
    search: Seq<char>,
    replace: Seq<char>,
    n: int,
)
    requires
        n <= files.len(),
        files.len() <= usize::MAX,
    ensures
        forall|k: int| 0 <= k < collected_previews(files, selected, search, replace, n).len() ==> {
            let p = #[trigger] collected_previews(files, selected, search, replace, n)[k];
            &&& in_scope(files, selected, p.file_index as int)
            &&& p.original_name == files[p.file_index as int].name@
            &&& (search.len() == 0 ==> !p.will_change && p.new_name == p.original_name)
        },
    decreases n,
{
    if n > 0 {
        lemma_collected_props(files, selected, search, replace, n - 1);
        let a = collected_previews(files, selected, search, replace, n - 1);
        let c = collected_previews(files, selected, search, replace, n);
        assert forall|k: int| 0 <= k < c.len() implies {
            let p = #[trigger] c[k];
            &&& in_scope(files, selected, p.file_index as int)
            &&& p.original_name == files[p.file_index as int].name@
            &&& (search.len() == 0 ==> !p.will_change && p.new_name == p.original_name)
        } by {
            if k < a.len() {
                assert(c[k] == a[k]);
            }
        }
    }
}

/// Every search/replace preview belongs to a file in scope (selected, or
/// any when none is, and no directory) and carries its name; with an empty
/// search text no preview changes a name.
pub proof fn law_previews_cover_scope(
    files: Seq<FileEntry>,
    selected: Set<usize>,
    search: Seq<char>,
    replace: Seq<char>,
)
    requires
        files.len() <= usize::MAX,
    ensures
        forall|p: PreviewView| #[trigger] search_replace_previews(files, selected, search, replace).contains(p) ==> {
            &&& in_scope(files, selected, p.file_index as int)
            &&& p.original_name == files[p.file_index as int].name@
            &&& (search.len() == 0 ==> !p.will_change && p.new_name == p.original_name)
        },
{
    let c = collected_previews(files, selected, search, replace, files.len() as int);
    lemma_collected_props(files, selected, search, replace, files.len() as int);
    law_previews_sorted_and_kept(c);
    assert forall|p: PreviewView| #[trigger] search_replace_previews(files, selected, search, replace).contains(p) implies {
        &&& in_scope(files, selected, p.file_index as int)
        &&& p.original_name == files[p.file_index as int].name@
        &&& (search.len() == 0 ==> !p.will_change && p.new_name == p.original_name)
    } by {
        let r = search_replace_previews(files, selected, search, replace);
        r.to_multiset_ensures();
        c.to_multiset_ensures();
        assert(r.to_multiset().count(p) > 0);
        assert(c.to_multiset().count(p) > 0);
        assert(c.contains(p));
        let k = choose|k: int| 0 <= k < c.len() && c[k] == p;
        assert(c[k] == p);
    }
}

proof fn lemma_no_problems(ps: Seq<PreviewView>, cs: Seq<RenameCheck>, n: int)
    requires
        0 <= n <= ps.len(),
        n <= cs.len(),
        rename_problems(ps, cs, n).len() == 0,
    ensures
        forall|i: int| 0 <= i < n ==> rename_problem(#[trigger] ps[i], cs[i]) is None,
    decreases n,
{
    if n > 0 {
        let a = rename_problems(ps, cs, n - 1);
        assert(rename_problems(ps, cs, n).len() >= a.len());
        lemma_no_problems(ps, cs, n - 1);
    }
}

/// In a batch that passes validation, each rename, taken on its own, moves
/// an existing file onto a name that is free (or the file's own), not
/// empty, and free of path separators. Validation looks at each rename
/// alone: two renames onto the same new name both pass.
pub proof fn law_validation_checks_each_rename(ps: Seq<PreviewView>, cs: Seq<RenameCheck>)
    requires
        ps.len() == cs.len(),
        rename_validation(ps, cs) is Ok,
    ensures
        forall|i: int| 0 <= i < ps.len() && (#[trigger] ps[i]).will_change ==> {
            &&& cs[i].source_exists
            &&& !cs[i].target_exists || cs[i].same_path
            &&& ps[i].new_name.len() > 0
            &&& !ps[i].new_name.contains('/')
            &&& !ps[i].new_name.contains('\\')
        },
{
    lemma_no_problems(ps, cs, ps.len() as int);
}

proof fn lemma_collected_unchanged(
    files: Seq<FileEntry>,
    selected: Set<usize>,
    search: Seq<char>,
    n: int,
)
    ensures
        forall|k: int| 0 <= k < collected_previews(files, selected, search, search, n).len() ==> {
            let p = #[trigger] collected_previews(files, selected, search, search, n)[k];
            p.new_name == p.original_name && !p.will_change
        },
    decreases n,
{
    if n > 0 {
        lemma_collected_unchanged(files, selected, search, n - 1);
        law_replace_by_itself(files[n - 1].name@, search);
        let a = collected_previews(files, selected, search, search, n - 1);
        let c = collected_previews(files, selected, search, search, n);
        assert forall|k: int| 0 <= k < c.len() implies {
            let p = #[trigger] c[k];
            p.new_name == p.original_name && !p.will_change
        } by {
            if k < a.len() {
                assert(c[k] == a[k]);
            }
        }
    }
}

/// Replacing the search text by itself changes no name: every preview
/// keeps its name and is marked unchanged.
pub proof fn law_search_is_replace_changes_nothing(
    files: Seq<FileEntry>,
    selected: Set<usize>,
    search: Seq<char>,
)
    ensures
        forall|p: PreviewView| #[trigger] search_replace_previews(files, selected, search, search).contains(p)
            ==> p.new_name == p.original_name && !p.will_change,
{
    let c = collected_previews(files, selected, search, search, files.len() as int);
    lemma_collected_unchanged(files, selected, search, files.len() as int);
    law_previews_sorted_and_kept(c);
    assert forall|p: PreviewView| #[trigger] search_replace_previews(files, selected, search, search).contains(p)
        implies p.new_name == p.original_name && !p.will_change by {
        let r = search_replace_previews(files, selected, search, search);
        r.to_multiset_ensures();
        c.to_multiset_ensures();
        assert(r.to_multiset().count(p) > 0);
        assert(c.contains(p));
        let k = choose|k: int| 0 <= k < c.len() && c[k] == p;
        assert(c[k] == p);
    }
}

} // verus!
