//! File entries of the list and their ordering.

use vstd::prelude::*;
use vstd::string::*;
use crate::modes::SortOrder;
use crate::text::{chars_of, compare_chars, lemma_text_order, lowercase_chars, lowercase_of, seq_order};

verus! {

/// `std::path::PathBuf`, carried through the library unread.
#[verifier::external_type_specification]
#[verifier::external_body]
pub struct ExPathBuf(std::path::PathBuf);

/// Trusted: `Clone` of `std::path::PathBuf`, which the copies of a file
/// entry make. Nothing is claimed of the copy.
pub assume_specification [<std::path::PathBuf as std::clone::Clone>::clone] (p: &std::path::PathBuf) -> std::path::PathBuf;

/// One file (or directory) of the list.
#[derive(Debug, Clone)]
pub struct FileEntry {
    pub path: std::path::PathBuf,
    pub name: String,
    pub is_dir: bool,
    pub size: u64,
    /// Modification time in nanoseconds since the Unix epoch, if known.
    pub modified: Option<i128>,
    pub extension: String,
}

/// `a` comes strictly before `b` in time order; an unknown time comes
/// before every known one.
pub open spec fn time_before(a: Option<i128>, b: Option<i128>) -> bool {
    match (a, b) {
        (None, Some(_)) => true,
        (Some(x), Some(y)) => x < y,
        _ => false,
    }
}

/// `a` comes strictly before `b` in the list ordered by `order`:
/// directories first, then by the order's key (names and extensions
/// compared in lowercase).
pub open spec fn entry_before(a: FileEntry, b: FileEntry, order: SortOrder) -> bool {
    if a.is_dir && !b.is_dir {
        true
    } else if !a.is_dir && b.is_dir {
        false
    } else {
        match order {
            SortOrder::Name => seq_order(lowercase_of(a.name@), lowercase_of(b.name@)) < 0,
            SortOrder::NameDesc => seq_order(lowercase_of(b.name@), lowercase_of(a.name@)) < 0,
            SortOrder::Size => a.size < b.size,
            SortOrder::SizeDesc => b.size < a.size,
            SortOrder::Extension => seq_order(
                lowercase_of(a.extension@),
                lowercase_of(b.extension@),
            ) < 0,
            SortOrder::Date => time_before(a.modified, b.modified),
            SortOrder::DateDesc => time_before(b.modified, a.modified),
        }
    }
}

/// Where `x` goes into the ordered `s`: after every entry it does not come
/// strictly before, so equal entries keep their order.
pub open spec fn insert_pos(s: Seq<FileEntry>, x: FileEntry, order: SortOrder) -> int
    decreases s.len(),
{
    if s.len() == 0 || !entry_before(x, s.last(), order) {
        s.len() as int
    } else {
        insert_pos(s.drop_last(), x, order)
    }
}

/// `s` with `x` inserted at `insert_pos`.
pub open spec fn insert_entry(s: Seq<FileEntry>, x: FileEntry, order: SortOrder) -> Seq<FileEntry> {
    s.take(insert_pos(s, x, order)).push(x) + s.skip(insert_pos(s, x, order))
}

/// The stable sort of `s` by `order`: each entry, first to last, inserted
/// into the ordered list of the entries before it.
pub open spec fn sorted_entries(s: Seq<FileEntry>, order: SortOrder) -> Seq<FileEntry>
    decreases s.len(),
{
    if s.len() == 0 {
        s
    } else {
        insert_entry(sorted_entries(s.drop_last(), order), s.last(), order)
    }
}

/// What the sort compares of one entry.
pub struct SortKey {
    pub dir: bool,
    pub text: Vec<char>,
    pub size: u64,
    pub time: Option<i128>,
}

pub open spec fn key_of(k: SortKey, e: FileEntry, order: SortOrder) -> bool {
    &&& k.dir == e.is_dir
    &&& k.size == e.size
    &&& k.time == e.modified
    &&& (order == SortOrder::Name || order == SortOrder::NameDesc) ==> k.text@ == lowercase_of(
        e.name@,
    )
    &&& order == SortOrder::Extension ==> k.text@ == lowercase_of(e.extension@)
}

fn make_key(e: &FileEntry, order: SortOrder) -> (k: SortKey)
    ensures
        key_of(k, *e, order),
{
    let text = match order {
        SortOrder::Name | SortOrder::NameDesc => {
            let n = chars_of(e.name.as_str());
            lowercase_chars(n.as_slice())
        },
        SortOrder::Extension => {
            let x = chars_of(e.extension.as_str());
            lowercase_chars(x.as_slice())
        },
        _ => Vec::new(),
    };
    SortKey { dir: e.is_dir, text, size: e.size, time: e.modified }
}

fn time_lt(a: Option<i128>, b: Option<i128>) -> (res: bool)
    ensures
        res == time_before(a, b),
{
    match (a, b) {
        (None, Some(_)) => true,
        (Some(x), Some(y)) => x < y,
        _ => false,
    }
}

fn key_before(a: &SortKey, b: &SortKey, order: SortOrder, Ghost(ea): Ghost<FileEntry>, Ghost(
    eb,
): Ghost<FileEntry>) -> (res: bool)
    requires
        key_of(*a, ea, order),
        key_of(*b, eb, order),
    ensures
        res == entry_before(ea, eb, order),
{
    if a.dir && !b.dir {
        return true;
    }
    if !a.dir && b.dir {
        return false;
    }
    match order {
        SortOrder::Name => compare_chars(a.text.as_slice(), b.text.as_slice()) < 0,
        SortOrder::NameDesc => compare_chars(b.text.as_slice(), a.text.as_slice()) < 0,
        SortOrder::Size => a.size < b.size,
        SortOrder::SizeDesc => b.size < a.size,
        SortOrder::Extension => compare_chars(a.text.as_slice(), b.text.as_slice()) < 0,
        SortOrder::Date => time_lt(a.time, b.time),
        SortOrder::DateDesc => time_lt(b.time, a.time),
    }
}

proof fn lemma_insert_pos_bounds(s: Seq<FileEntry>, x: FileEntry, order: SortOrder)
    ensures
        0 <= insert_pos(s, x, order) <= s.len(),
    decreases s.len(),
{
    if s.len() > 0 && entry_before(x, s.last(), order) {
        lemma_insert_pos_bounds(s.drop_last(), x, order);
    }
}

/// Sort the entries by `order`, stably: the result is `sorted_entries`.
pub fn sort_files(files: &mut Vec<FileEntry>, order: SortOrder)
    ensures
        final(files)@ == sorted_entries(old(files)@, order),
{
    let n = files.len();
    let mut out: Vec<FileEntry> = Vec::new();
    let mut keys: Vec<SortKey> = Vec::new();
    let mut i: usize = 0;
    while i < n
        invariant
            n == old(files)@.len(),
            i <= n,
            files@ == old(files)@.skip(i as int),
            out@ == sorted_entries(old(files)@.take(i as int), order),
            keys@.len() == out@.len(),
            forall|t: int| 0 <= t < out@.len() ==> key_of(#[trigger] keys@[t], out@[t], order),
        decreases n - i,
    {
        let x = files.remove(0);
        let kx = make_key(&x, order);
        let ghost s = out@;
        let mut j = out.len();
        proof {
            assert(s.take(j as int) =~= s);
        }
        let mut stop = false;
        while j > 0 && !stop
            invariant
                stop ==> j > 0 && !entry_before(x, s[j - 1], order),
                j <= s.len(),
                s == out@,
                keys@.len() == out@.len(),
                forall|t: int| 0 <= t < out@.len() ==> key_of(#[trigger] keys@[t], out@[t], order),
                key_of(kx, x, order),
                insert_pos(s.take(j as int), x, order) == insert_pos(s, x, order),
            decreases j + if stop { 0int } else { 1int },
        {
            let b = key_before(&kx, &keys[j - 1], order, Ghost(x), Ghost(out@[j - 1]));
            if !b {
                stop = true;
            } else {
                assert(s.take(j as int).drop_last() =~= s.take(j - 1));
                j -= 1;
            }
        }
        proof {
            if j == 0 {
                assert(s.take(0) =~= Seq::<FileEntry>::empty());
            } else {
                assert(s.take(j as int).last() == s[j - 1]);
            }
            lemma_insert_pos_bounds(s, x, order);
            assert(insert_pos(s, x, order) == j);
        }
        let ghost ks = keys@;
        out.insert(j, x);
        keys.insert(j, kx);
        proof {
            let all = old(files)@.take(i + 1);
            assert(all.drop_last() =~= old(files)@.take(i as int));
            assert(all.last() == x);
            assert(out@ =~= s.take(j as int).push(x) + s.skip(j as int));
            assert(files@ =~= old(files)@.skip(i + 1));
            assert forall|t: int| 0 <= t < out@.len() implies key_of(#[trigger] keys@[t], out@[t], order) by {
                if t < j {
                } else if t == j {
                } else {
                    assert(keys@[t] == ks[t - 1]);
                }
            }
        }
        i += 1;
    }
    proof {
        assert(old(files)@.take(n as int) =~= old(files)@);
    }
    *files = out;
}

/// A hidden file: its name starts with a dot.
pub open spec fn is_hidden(e: FileEntry) -> bool {
    e.name@.len() > 0 && e.name@[0] == '.'
}

/// The first `n` entries without the hidden ones when `skip_hidden`.
pub open spec fn listed_entries(s: Seq<FileEntry>, skip_hidden: bool, n: int) -> Seq<FileEntry>
    decreases n,
{
    if n <= 0 {
        seq![]
    } else {
        listed_entries(s, skip_hidden, n - 1) + if skip_hidden && is_hidden(s[n - 1]) {
            seq![]
        } else {
            seq![s[n - 1]]
        }
    }
}

/// The list of a directory as shown: hidden files dropped when
/// `skip_hidden` (a plain directory listing; a glob lists what it matched),
/// then sorted by `order`.
pub fn finish_listing(entries: Vec<FileEntry>, skip_hidden: bool, order: SortOrder) -> (res: Vec<FileEntry>)
    ensures
        res@ == sorted_entries(listed_entries(entries@, skip_hidden, entries@.len() as int), order),
{
    let n = entries.len();
    let mut rest = entries;
    let mut kept: Vec<FileEntry> = Vec::new();
    let mut i: usize = 0;
    while i < n
        invariant
            i <= n,
            n == entries@.len(),
            rest@ == entries@.skip(i as int),
            kept@ == listed_entries(entries@, skip_hidden, i as int),
        decreases n - i,
    {
        let e = rest.remove(0);
        assert(e == entries@[i as int]);
        let hidden = e.name.as_str().unicode_len() > 0 && e.name.as_str().get_char(0) == '.';
        if !(skip_hidden && hidden) {
            kept.push(e);
        }
        assert(rest@ =~= entries@.skip(i + 1));
        i += 1;
    }
    sort_files(&mut kept, order);
    kept
}

/// No entry comes strictly before an entry placed ahead of it.
pub open spec fn entries_ordered(s: Seq<FileEntry>, order: SortOrder) -> bool {
    forall|i: int, j: int| 0 <= i < j < s.len() ==> !entry_before(s[j], s[i], order)
}

/// `entry_before` is a strict weak order: irreflexive, transitive, and
/// incomparability is transitive.
pub proof fn lemma_entry_before_order(a: FileEntry, b: FileEntry, c: FileEntry, order: SortOrder)
    ensures
        !entry_before(a, a, order),
        entry_before(a, b, order) && entry_before(b, c, order) ==> entry_before(a, c, order),
        !entry_before(a, b, order) && !entry_before(b, c, order) ==> !entry_before(a, c, order),
{
    lemma_text_order(lowercase_of(a.name@), lowercase_of(b.name@), lowercase_of(c.name@));
    lemma_text_order(lowercase_of(c.name@), lowercase_of(b.name@), lowercase_of(a.name@));
    lemma_text_order(lowercase_of(a.extension@), lowercase_of(b.extension@), lowercase_of(c.extension@));
}

proof fn lemma_insert_pos_props(s: Seq<FileEntry>, x: FileEntry, order: SortOrder)
    ensures
        0 <= insert_pos(s, x, order) <= s.len(),
        forall|t: int| insert_pos(s, x, order) <= t < s.len() ==> entry_before(x, #[trigger] s[t], order),
        insert_pos(s, x, order) > 0 ==> !entry_before(x, s[insert_pos(s, x, order) - 1], order),
    decreases s.len(),
{
    if s.len() > 0 && entry_before(x, s.last(), order) {
        let d = s.drop_last();
        lemma_insert_pos_props(d, x, order);
        assert forall|t: int| insert_pos(s, x, order) <= t < s.len() implies entry_before(x, #[trigger] s[t], order) by {
            if t < s.len() - 1 {
                assert(d[t] == s[t]);
            }
        }
    }
}

proof fn lemma_insert_keeps_order(s: Seq<FileEntry>, x: FileEntry, order: SortOrder)
    requires
        entries_ordered(s, order),
    ensures
        entries_ordered(insert_entry(s, x, order), order),
        insert_entry(s, x, order).to_multiset() == s.to_multiset().insert(x),
{
    lemma_insert_pos_props(s, x, order);
    let k = insert_pos(s, x, order);
    let r = insert_entry(s, x, order);
    assert(r =~= s.insert(k, x));
    vstd::seq_lib::to_multiset_insert(s, k, x);
    assert forall|i: int, j: int| 0 <= i < j < r.len() implies !entry_before(r[j], r[i], order) by {
        if j < k {
            assert(r[i] == s[i] && r[j] == s[j]);
        } else if j == k {
            assert(r[j] == x && r[i] == s[i]);
            lemma_entry_before_order(x, s[k - 1], s[i], order);
            if i < k - 1 {
                assert(!entry_before(s[k - 1], s[i], order));
            }
        } else if i == k {
            assert(r[i] == x && r[j] == s[j - 1]);
            assert(entry_before(x, s[j - 1], order));
            lemma_entry_before_order(x, s[j - 1], x, order);
        } else if i < k {
            assert(r[i] == s[i] && r[j] == s[j - 1]);
        } else {
            assert(r[i] == s[i - 1] && r[j] == s[j - 1]);
        }
    }
}

/// Sorting puts the entries in order, directories first, and keeps every
/// entry: the result is a permutation of the input.
pub proof fn law_sort_orders_and_keeps(s: Seq<FileEntry>, order: SortOrder)
    ensures
        entries_ordered(sorted_entries(s, order), order),
        sorted_entries(s, order).to_multiset() == s.to_multiset(),
    decreases s.len(),
{
    if s.len() == 0 {
    } else {
        let d = s.drop_last();
        law_sort_orders_and_keeps(d, order);
        lemma_insert_keeps_order(sorted_entries(d, order), s.last(), order);
        assert(s =~= d.push(s.last()));
        vstd::seq_lib::to_multiset_build(d, s.last());
    }
}

proof fn lemma_sorted_of_ordered(s: Seq<FileEntry>, order: SortOrder)
    requires
        entries_ordered(s, order),
    ensures
        sorted_entries(s, order) == s,
    decreases s.len(),
{
    if s.len() > 0 {
        let d = s.drop_last();
        assert(entries_ordered(d, order)) by {
            assert forall|i: int, j: int| 0 <= i < j < d.len() implies !entry_before(d[j], d[i], order) by {
                assert(d[i] == s[i] && d[j] == s[j]);
            }
        }
        lemma_sorted_of_ordered(d, order);
        if d.len() > 0 {
            assert(!entry_before(s.last(), d.last(), order));
        }
        assert(insert_pos(d, s.last(), order) == d.len());
        assert(insert_entry(d, s.last(), order) =~= s);
    }
}

/// Sorting a sorted list a second time leaves it as it is.
pub proof fn law_sort_idempotent(s: Seq<FileEntry>, order: SortOrder)
    ensures
        sorted_entries(sorted_entries(s, order), order) == sorted_entries(s, order),
{
    law_sort_orders_and_keeps(s, order);
    lemma_sorted_of_ordered(sorted_entries(s, order), order);
}

/// Neither entry comes before the other under the order.
pub open spec fn tied(a: FileEntry, b: FileEntry, order: SortOrder) -> bool {
    !entry_before(a, b, order) && !entry_before(b, a, order)
}

/// Sorting is stable: the entries tied with any entry `x` come out in the
/// order in which they went in.
pub proof fn law_sort_is_stable(s: Seq<FileEntry>, order: SortOrder, x: FileEntry)
    ensures
        sorted_entries(s, order).filter(|e: FileEntry| tied(e, x, order)) == s.filter(
            |e: FileEntry| tied(e, x, order),
        ),
    decreases s.len(),
{
    let p = |e: FileEntry| tied(e, x, order);
    if s.len() > 0 {
        let d = s.drop_last();
        let y = s.last();
        law_sort_is_stable(d, order, x);
        let r0 = sorted_entries(d, order);
        lemma_insert_pos_props(r0, y, order);
        let k = insert_pos(r0, y, order);
        let a = r0.take(k);
        let b = r0.skip(k);
        assert(r0 =~= a + b);
        assert(sorted_entries(s, order) =~= a.push(y) + b);
        Seq::filter_distributes_over_add(a.push(y), b, p);
        Seq::filter_distributes_over_add(a, b, p);
        a.lemma_filter_push(y, p);
        d.lemma_filter_push(y, p);
        assert(s =~= d.push(y));
        if p(y) {
            assert forall|t: int| 0 <= t < b.len() implies !p(#[trigger] b[t]) by {
                assert(b[t] == r0[k + t]);
                assert(entry_before(y, r0[k + t], order));
                lemma_entry_before_order(y, x, b[t], order);
                lemma_entry_before_order(b[t], x, y, order);
            }
            b.lemma_all_neg_filter_empty(p);
            assert(b.filter(p) =~= Seq::<FileEntry>::empty());
            assert(a.filter(p).push(y) + b.filter(p) =~= (a.filter(p) + b.filter(p)).push(y));
        }
    }
}

/// Of two entries of the same kind in a sorted list, the earlier one does
/// not come after the later one by the order's key: names and extensions
/// compared in lowercase, sizes as numbers, times with an unknown time
/// first; the descending orders reversed.
pub proof fn law_sort_by_key(s: Seq<FileEntry>, order: SortOrder)
    ensures
        forall|i: int, j: int|
            0 <= i < j < sorted_entries(s, order).len() && (#[trigger] sorted_entries(s, order)[i]).is_dir
                == (#[trigger] sorted_entries(s, order)[j]).is_dir ==> {
                let a = sorted_entries(s, order)[i];
                let b = sorted_entries(s, order)[j];
                match order {
                    SortOrder::Name => seq_order(lowercase_of(a.name@), lowercase_of(b.name@)) <= 0,
                    SortOrder::NameDesc => seq_order(lowercase_of(b.name@), lowercase_of(a.name@)) <= 0,
                    SortOrder::Size => a.size <= b.size,
                    SortOrder::SizeDesc => b.size <= a.size,
                    SortOrder::Extension => seq_order(lowercase_of(a.extension@), lowercase_of(b.extension@)) <= 0,
                    SortOrder::Date => match (a.modified, b.modified) {
                        (Some(x), Some(y)) => x <= y,
                        (Some(_), None) => false,
                        _ => true,
                    },
                    SortOrder::DateDesc => match (a.modified, b.modified) {
                        (Some(x), Some(y)) => y <= x,
                        (None, Some(_)) => false,
                        _ => true,
                    },
                }
            },
{
    law_sort_orders_and_keeps(s, order);
    let r = sorted_entries(s, order);
    assert forall|i: int, j: int|
        0 <= i < j < r.len() && (#[trigger] r[i]).is_dir == (#[trigger] r[j]).is_dir implies {
            let a = r[i];
            let b = r[j];
            match order {
                SortOrder::Name => seq_order(lowercase_of(a.name@), lowercase_of(b.name@)) <= 0,
                SortOrder::NameDesc => seq_order(lowercase_of(b.name@), lowercase_of(a.name@)) <= 0,
                SortOrder::Size => a.size <= b.size,
                SortOrder::SizeDesc => b.size <= a.size,
                SortOrder::Extension => seq_order(lowercase_of(a.extension@), lowercase_of(b.extension@)) <= 0,
                SortOrder::Date => match (a.modified, b.modified) {
                    (Some(x), Some(y)) => x <= y,
                    (Some(_), None) => false,
                    _ => true,
                },
                SortOrder::DateDesc => match (a.modified, b.modified) {
                    (Some(x), Some(y)) => y <= x,
                    (None, Some(_)) => false,
                    _ => true,
                },
            }
        } by {
        let a = r[i];
        let b = r[j];
        assert(!entry_before(b, a, order));
        crate::text::lemma_seq_order_antisym(lowercase_of(a.name@), lowercase_of(b.name@));
        crate::text::lemma_seq_order_antisym(lowercase_of(a.extension@), lowercase_of(b.extension@));
    }
}

/// Names that differ only in case are tied when sorting by name (either
/// way), so such entries keep the order they came in.
pub proof fn law_case_variants_tied(a: FileEntry, b: FileEntry)
    requires
        a.is_dir == b.is_dir,
        lowercase_of(a.name@) == lowercase_of(b.name@),
    ensures
        tied(a, b, SortOrder::Name),
        tied(a, b, SortOrder::NameDesc),
{
    crate::text::lemma_seq_order_antisym(lowercase_of(a.name@), lowercase_of(a.name@));
}

/// In a sorted list every directory comes before every file.
pub proof fn law_directories_first(s: Seq<FileEntry>, order: SortOrder)
    ensures
        forall|i: int, j: int|
            0 <= i < j < sorted_entries(s, order).len() && (#[trigger] sorted_entries(s, order)[j]).is_dir
                ==> (#[trigger] sorted_entries(s, order)[i]).is_dir,
{
    law_sort_orders_and_keeps(s, order);
    let r = sorted_entries(s, order);
    assert forall|i: int, j: int|
        0 <= i < j < r.len() && (#[trigger] r[j]).is_dir implies (#[trigger] r[i]).is_dir by {
        assert(!entry_before(r[j], r[i], order));
    }
}

} // verus!
