//! The rename rule of every mode, and the previews of a whole batch.

use std::collections::HashSet;
use vstd::prelude::*;
use crate::date::{date_chars, date_text};
use crate::entry::FileEntry;
use crate::modes::{DatePosition, PrefixAction, RenameMode};
use crate::operations::{by_original_name, collected_previews, in_scope, search_replace_previews, search_replace_preview, sort_previews, views, PreviewView, RenamePreview};
use crate::pattern::{compile_pattern, regex_refusal, regex_replaced, replace_matches, CompiledPattern};
use crate::text::{
    chars_equal, chars_of, ends_with_chars, ext_of, extend_chars, find_ext_start, has_prefix,
    has_suffix, lemma_stem_ext, lemma_stem_ext_insert, lowercase_chars, lowercase_of, padded_decimal, replace_all,
    replace_chars, starts_with_chars, stem_of, string_of, title_chars, title_of, uppercase_chars,
    uppercase_of, zero_padded, decimal, digits_value, is_digit_char, law_decimal_injective,
    law_zero_padded_reads_back,
};

verus! {

broadcast use vstd::std_specs::hash::group_hash_axioms;

/// The settings of one batch, as plain values.
pub struct RenameSettings {
    pub mode: RenameMode,
    pub search: Seq<char>,
    pub replace: Seq<char>,
    pub action: PrefixAction,
    pub start: nat,
    pub step: nat,
    pub date_position: DatePosition,
}

/// Position of the first `#` of a numbering pattern, or its length.
pub open spec fn first_hash(p: Seq<char>) -> int
    decreases p.len(),
{
    if p.len() == 0 {
        0
    } else if p[0] == '#' {
        0
    } else {
        1 + first_hash(p.drop_first())
    }
}

/// The number of `#` in a row from position `i`.
pub open spec fn hash_run(p: Seq<char>, i: int) -> int
    decreases p.len() - i,
{
    if 0 <= i < p.len() && p[i] == '#' {
        1 + hash_run(p, i + 1)
    } else {
        0
    }
}

/// The numbering pattern with its first run of `#` replaced by `number`,
/// zero-padded to the run's length (a pattern without `#` gets the number
/// appended), followed by the extension.
pub open spec fn numbered_name(p: Seq<char>, number: nat, ext: Seq<char>) -> Seq<char> {
    let s = first_hash(p);
    let w = hash_run(p, s);
    p.take(s) + zero_padded(number, w as nat) + p.skip(s + w) + ext
}

/// The new name of file `f` under the settings, `k` being its place among
/// the files of the batch (counted from 0).
pub open spec fn renamed_name(st: RenameSettings, f: FileEntry, k: nat) -> Seq<char> {
    let name = f.name@;
    let stem = stem_of(name);
    let ext = ext_of(name);
    match st.mode {
        RenameMode::SearchReplace => if st.search.len() == 0 {
            name
        } else {
            replace_all(name, st.search, st.replace)
        },
        RenameMode::Regex => if st.search.len() == 0 {
            name
        } else {
            regex_replaced(st.search, name, st.replace)
        },
        RenameMode::Numbering => if st.search.len() == 0 {
            name
        } else {
            numbered_name(st.search, st.start + k * st.step, ext)
        },
        RenameMode::Prefix => if st.search.len() == 0 {
            name
        } else {
            match st.action {
                PrefixAction::Add => st.search + name,
                PrefixAction::Remove => if has_prefix(name, st.search) {
                    name.skip(st.search.len() as int)
                } else {
                    name
                },
            }
        },
        RenameMode::Suffix => if st.search.len() == 0 {
            name
        } else {
            match st.action {
                PrefixAction::Add => stem + st.search + ext,
                PrefixAction::Remove => if has_suffix(stem, st.search) {
                    stem.take(stem.len() - st.search.len()) + ext
                } else {
                    name
                },
            }
        },
        RenameMode::DateInsert => match date_text(f.modified) {
            None => name,
            Some(d) => match st.date_position {
                DatePosition::Prefix => d + "_"@ + name,
                DatePosition::Suffix => stem + "_"@ + d + ext,
                DatePosition::Replace => d + ext,
            },
        },
        RenameMode::Uppercase => uppercase_of(stem) + lowercase_of(ext),
        RenameMode::Lowercase => lowercase_of(stem) + lowercase_of(ext),
        RenameMode::TitleCase => title_of(stem) + lowercase_of(ext),
    }
}

/// The preview of file `i` of the list.
pub open spec fn mode_preview(st: RenameSettings, f: FileEntry, i: int, k: nat) -> PreviewView {
    let new_name = renamed_name(st, f, k);
    PreviewView {
        original_name: f.name@,
        new_name,
        will_change: new_name != f.name@,
        file_index: i as usize,
    }
}

/// How many of the first `n` files are in scope.
pub open spec fn scope_count(files: Seq<FileEntry>, selected: Set<usize>, n: int) -> nat
    decreases n,
{
    if n <= 0 {
        0
    } else {
        scope_count(files, selected, n - 1) + if in_scope(files, selected, n - 1) {
            1nat
        } else {
            0nat
        }
    }
}

/// The previews of the first `n` files that are in scope, in list order.
pub open spec fn collected_mode_previews(
    files: Seq<FileEntry>,
    selected: Set<usize>,
    st: RenameSettings,
    n: int,
) -> Seq<PreviewView>
    decreases n,
{
    if n <= 0 {
        seq![]
    } else {
        collected_mode_previews(files, selected, st, n - 1) + if in_scope(files, selected, n - 1) {
            seq![mode_preview(st, files[n - 1], n - 1, scope_count(files, selected, n - 1))]
        } else {
            seq![]
        }
    }
}

/// The previews of a batch: an error when the regex pattern is refused,
/// otherwise the previews of the files in scope ordered by original name.
pub open spec fn mode_previews(files: Seq<FileEntry>, selected: Set<usize>, st: RenameSettings) -> Result<
    Seq<PreviewView>,
    Seq<char>,
> {
    if st.mode == RenameMode::Regex && st.search.len() > 0 && regex_refusal(st.search) is Some {
        Err(regex_refusal(st.search)->0)
    } else {
        Ok(by_original_name(collected_mode_previews(files, selected, st, files.len() as int)))
    }
}

fn first_hash_at(p: &[char]) -> (r: usize)
    ensures
        r == first_hash(p@),
        r <= p@.len(),
{
    let n = p.len();
    let mut i: usize = 0;
    assert(p@.skip(0) =~= p@);
    while i < n && p[i] != '#'
        invariant
            i <= n,
            n == p@.len(),
            first_hash(p@) == i + first_hash(p@.skip(i as int)),
        decreases n - i,
    {
        assert(p@.skip(i as int).drop_first() =~= p@.skip(i + 1));
        i += 1;
    }
    proof {
        if i < n {
            assert(p@.skip(i as int)[0] == '#');
        } else {
            assert(p@.skip(i as int).len() == 0);
        }
    }
    i
}

fn hash_run_at(p: &[char], start: usize) -> (r: usize)
    requires
        start <= p@.len(),
    ensures
        r == hash_run(p@, start as int),
        start + r <= p@.len(),
{
    let n = p.len();
    let mut i: usize = start;
    while i < n && p[i] == '#'
        invariant
            start <= i <= n,
            n == p@.len(),
            hash_run(p@, start as int) == (i - start) + hash_run(p@, i as int),
        decreases n - i,
    {
        i += 1;
    }
    i - start
}

fn numbered_chars(p: &[char], number: u128, ext: &[char]) -> (r: Vec<char>)
    ensures
        r@ == numbered_name(p@, number as nat, ext@),
{
    let s = first_hash_at(p);
    let w = hash_run_at(p, s);
    assert(s + w <= p.len());
    let mut out: Vec<char> = Vec::new();
    extend_chars(&mut out, &p[0..s]);
    let digits = padded_decimal(number, w);
    extend_chars(&mut out, digits.as_slice());
    extend_chars(&mut out, &p[s + w..p.len()]);
    extend_chars(&mut out, ext);
    assert(p@.subrange(0, s as int) =~= p@.take(s as int));
    assert(p@.subrange((s + w) as int, p@.len() as int) =~= p@.skip((s + w) as int));
    out
}

/// The new name of one file under the settings.
fn rename_one(
    f: &FileEntry,
    mode: RenameMode,
    search: &[char],
    replace: &[char],
    replace_str: &str,
    action: PrefixAction,
    number: u128,
    date_position: DatePosition,
    compiled: &Option<CompiledPattern>,
    Ghost(st): Ghost<RenameSettings>,
    Ghost(k): Ghost<nat>,
) -> (r: Vec<char>)
    requires
        st.mode == mode,
        st.search == search@,
        st.replace == replace@,
        replace_str@ == replace@,
        st.action == action,
        st.date_position == date_position,
        number == st.start + k * st.step,
        mode == RenameMode::Regex && search@.len() > 0 ==> (compiled matches Some(c) && c.pattern()
            == search@),
    ensures
        r@ == renamed_name(st, *f, k),
{
    let name = chars_of(f.name.as_str());
    let e = find_ext_start(name.as_slice());
    proof {
        lemma_stem_ext(name@);
    }
    let stem = &name[0..e];
    let ext = &name[e..name.len()];
    assert(stem@ =~= stem_of(name@));
    assert(ext@ =~= ext_of(name@));
    match mode {
        RenameMode::SearchReplace => {
            if search.len() == 0 {
                name
            } else {
                replace_chars(name.as_slice(), search, replace)
            }
        },
        RenameMode::Regex => {
            if search.len() == 0 {
                name
            } else {
                match compiled {
                    Some(c) => {
                        let r = replace_matches(c, f.name.as_str(), replace_str);
                        chars_of(r.as_str())
                    },
                    None => name,
                }
            }
        },
        RenameMode::Numbering => {
            if search.len() == 0 {
                name
            } else {
                numbered_chars(search, number, ext)
            }
        },
        RenameMode::Prefix => {
            if search.len() == 0 {
                name
            } else {
                match action {
                    PrefixAction::Add => {
                        let mut out: Vec<char> = Vec::new();
                        extend_chars(&mut out, search);
                        extend_chars(&mut out, name.as_slice());
                        out
                    },
                    PrefixAction::Remove => {
                        if starts_with_chars(name.as_slice(), search) {
                            let mut out: Vec<char> = Vec::new();
                            extend_chars(&mut out, &name[search.len()..name.len()]);
                            assert(out@ =~= name@.skip(search@.len() as int));
                            out
                        } else {
                            name
                        }
                    },
                }
            }
        },
        RenameMode::Suffix => {
            if search.len() == 0 {
                name
            } else {
                match action {
                    PrefixAction::Add => {
                        let mut out: Vec<char> = Vec::new();
                        extend_chars(&mut out, stem);
                        extend_chars(&mut out, search);
                        extend_chars(&mut out, ext);
                        out
                    },
                    PrefixAction::Remove => {
                        if ends_with_chars(stem, search) {
                            let mut out: Vec<char> = Vec::new();
                            extend_chars(&mut out, &stem[0..stem.len() - search.len()]);
                            extend_chars(&mut out, ext);
                            assert(stem@.subrange(0, stem@.len() - search@.len()) =~= stem@.take(
                                stem@.len() - search@.len(),
                            ));
                            out
                        } else {
                            name
                        }
                    },
                }
            }
        },
        RenameMode::DateInsert => {
            match date_chars(f.modified) {
                None => name,
                Some(d) => {
                    let mut out: Vec<char> = Vec::new();
                    match date_position {
                        DatePosition::Prefix => {
                            extend_chars(&mut out, d.as_slice());
                            out.push('_');
                            extend_chars(&mut out, name.as_slice());
                        },
                        DatePosition::Suffix => {
                            extend_chars(&mut out, stem);
                            out.push('_');
                            extend_chars(&mut out, d.as_slice());
                            extend_chars(&mut out, ext);
                        },
                        DatePosition::Replace => {
                            extend_chars(&mut out, d.as_slice());
                            extend_chars(&mut out, ext);
                        },
                    }
                    proof {
                        reveal_strlit("_");
                    }
                    out
                },
            }
        },
        RenameMode::Uppercase => {
            let mut out = uppercase_chars(stem);
            let lx = lowercase_chars(ext);
            extend_chars(&mut out, lx.as_slice());
            out
        },
        RenameMode::Lowercase => {
            let mut out = lowercase_chars(stem);
            let lx = lowercase_chars(ext);
            extend_chars(&mut out, lx.as_slice());
            out
        },
        RenameMode::TitleCase => {
            let mut out = title_chars(stem);
            let lx = lowercase_chars(ext);
            extend_chars(&mut out, lx.as_slice());
            out
        },
    }
}

/// The previews of a batch under any mode. With no file selected every
/// file takes part; directories never do. The `k`-th file of the batch (in
/// list order, from 0) gets the number `number_start + k * number_step`.
/// A regex pattern that `regex` refuses gives an error whose text `regex`
/// words.
pub fn generate_mode_previews(
    files: &[FileEntry],
    selected: &HashSet<usize>,
    search: &str,
    replace: &str,
    mode: RenameMode,
    prefix_action: PrefixAction,
    number_start: usize,
    number_step: usize,
    date_position: DatePosition,
) -> (res: Result<Vec<RenamePreview>, String>)
    ensures
        ({
            let st = RenameSettings {
                mode,
                search: search@,
                replace: replace@,
                action: prefix_action,
                start: number_start as nat,
                step: number_step as nat,
                date_position,
            };
            match (res, mode_previews(files@, selected@, st)) {
                (Ok(v), Ok(t)) => views(v@) == t,
                (Err(m), Err(t)) => m@ == t,
                _ => false,
            }
        }),
{
    let ghost st = RenameSettings {
        mode,
        search: search@,
        replace: replace@,
        action: prefix_action,
        start: number_start as nat,
        step: number_step as nat,
        date_position,
    };
    let pat = chars_of(search);
    let rep = chars_of(replace);
    let mut compiled: Option<CompiledPattern> = None;
    if mode == RenameMode::Regex && pat.len() > 0 {
        match compile_pattern(search) {
            Ok(c) => {
                compiled = Some(c);
            },
            Err(e) => {
                return Err(e);
            },
        }
    }
    let n = files.len();
    let none_selected = selected.is_empty();
    let mut previews: Vec<RenamePreview> = Vec::new();
    let mut k: usize = 0;
    for i in 0..n
        invariant
            n == files@.len(),
            pat@ == search@,
            rep@ == replace@,
            none_selected == selected@.is_empty(),
            k == scope_count(files@, selected@, i as int),
            k <= i,
            mode == RenameMode::Regex && search@.len() > 0 ==> (compiled matches Some(c)
                && c.pattern() == search@),
            st == (RenameSettings {
                mode,
                search: search@,
                replace: replace@,
                action: prefix_action,
                start: number_start as nat,
                step: number_step as nat,
                date_position,
            }),
            views(previews@) == collected_mode_previews(files@, selected@, st, i as int),
    {
        let file = &files[i];
        let chosen = !file.is_dir && (none_selected || selected.contains(&i));
        let ghost before = views(previews@);
        if chosen {
            proof {
                let kk = k as int;
                let ss = number_step as int;
                assert(kk * ss <= 0xFFFF_FFFF_FFFF_FFFFint * 0xFFFF_FFFF_FFFF_FFFFint) by (nonlinear_arith)
                    requires 0 <= kk <= 0xFFFF_FFFF_FFFF_FFFFint, 0 <= ss <= 0xFFFF_FFFF_FFFF_FFFFint;
                assert(0 <= kk * ss) by (nonlinear_arith)
                    requires 0 <= kk, 0 <= ss;
            }
            let product: u128 = (k as u128) * (number_step as u128);
            let number: u128 = number_start as u128 + product;
            let new_chars = rename_one(
                file,
                mode,
                pat.as_slice(),
                rep.as_slice(),
                replace,
                prefix_action,
                number,
                date_position,
                &compiled,
                Ghost(st),
                Ghost(k as nat),
            );
            let name = chars_of(file.name.as_str());
            let same = chars_equal(new_chars.as_slice(), name.as_slice());
            let p = RenamePreview {
                original_name: string_of(name.as_slice()),
                new_name: string_of(new_chars.as_slice()),
                will_change: !same,
                file_index: i,
            };
            previews.push(p);
            k += 1;
            assert(views(previews@) =~= before + seq![
                mode_preview(st, files@[i as int], i as int, scope_count(files@, selected@, i as int)),
            ]);
        } else {
            assert(views(previews@) =~= before + Seq::<PreviewView>::empty());
        }
    }
    sort_previews(&mut previews);
    Ok(previews)
}

proof fn lemma_collected_agree(
    files: Seq<FileEntry>,
    selected: Set<usize>,
    st: RenameSettings,
    n: int,
)
    requires
        st.mode == RenameMode::SearchReplace,
    ensures
        collected_mode_previews(files, selected, st, n) == collected_previews(
            files,
            selected,
            st.search,
            st.replace,
            n,
        ),
    decreases n,
{
    if n > 0 {
        lemma_collected_agree(files, selected, st, n - 1);
        if in_scope(files, selected, n - 1) {
            let k = scope_count(files, selected, n - 1);
            assert(mode_preview(st, files[n - 1], n - 1, k) == search_replace_preview(
                files[n - 1],
                n - 1,
                st.search,
                st.replace,
            ));
        }
    }
}

/// In search/replace mode the mode previews are exactly the previews of
/// `generate_previews`.
pub proof fn law_search_replace_mode_agrees(files: Seq<FileEntry>, selected: Set<usize>, st: RenameSettings)
    requires
        st.mode == RenameMode::SearchReplace,
    ensures
        mode_previews(files, selected, st) == Ok::<Seq<PreviewView>, Seq<char>>(
            search_replace_previews(files, selected, st.search, st.replace),
        ),
{
    lemma_collected_agree(files, selected, st, files.len() as int);
}

/// Removing the prefix that was just added gives back the name.
pub proof fn law_prefix_add_remove(st: RenameSettings, f: FileEntry, g: FileEntry, k: nat)
    requires
        st.mode == RenameMode::Prefix,
        st.search.len() > 0,
        st.action == PrefixAction::Add,
        g.name@ == renamed_name(st, f, k),
    ensures
        renamed_name(RenameSettings { action: PrefixAction::Remove, ..st }, g, k) == f.name@,
{
    let p = st.search;
    let n = f.name@;
    assert((p + n).subrange(0, p.len() as int) =~= p);
    assert((p + n).skip(p.len() as int) =~= n);
}

/// Removing the suffix that was just added gives back the name, for a
/// suffix without a dot (one with a dot would change the extension).
pub proof fn law_suffix_add_remove(st: RenameSettings, f: FileEntry, g: FileEntry, k: nat)
    requires
        st.mode == RenameMode::Suffix,
        st.search.len() > 0,
        !st.search.contains('.'),
        st.action == PrefixAction::Add,
        g.name@ == renamed_name(st, f, k),
    ensures
        renamed_name(RenameSettings { action: PrefixAction::Remove, ..st }, g, k) == f.name@,
{
    let sfx = st.search;
    let n = f.name@;
    lemma_stem_ext(n);
    lemma_stem_ext_insert(n, sfx);
    let stem2 = stem_of(n) + sfx;
    assert(stem2.subrange(stem2.len() - sfx.len(), stem2.len() as int) =~= sfx);
    assert(stem2.take(stem2.len() - sfx.len()) =~= stem_of(n));
}

proof fn lemma_first_hash_bounds(p: Seq<char>)
    ensures
        0 <= first_hash(p) <= p.len(),
    decreases p.len(),
{
    if p.len() > 0 && p[0] != '#' {
        lemma_first_hash_bounds(p.drop_first());
    }
}

proof fn lemma_hash_run_bounds(p: Seq<char>, i: int)
    requires
        0 <= i <= p.len(),
    ensures
        0 <= hash_run(p, i),
        i + hash_run(p, i) <= p.len(),
    decreases p.len() - i,
{
    if i < p.len() && p[i] == '#' {
        lemma_hash_run_bounds(p, i + 1);
    }
}

/// The parts of a numbered name: the pattern before its first `#` run,
/// the padded number, the rest of the pattern and the extension.
proof fn lemma_numbered_parts(p: Seq<char>, number: nat, ext: Seq<char>)
    ensures
        ({
            let s = first_hash(p);
            let w = hash_run(p, s);
            let z = zero_padded(number, w as nat);
            let r = numbered_name(p, number, ext);
            &&& 0 <= s <= s + w <= p.len()
            &&& r.len() == s + z.len() + (p.len() - s - w) + ext.len()
            &&& r.subrange(0, s) == p.take(s)
            &&& r.subrange(s, s + z.len()) == z
            &&& r.subrange(s + z.len(), r.len() as int) == p.skip(s + w) + ext
        }),
{
    lemma_first_hash_bounds(p);
    lemma_hash_run_bounds(p, first_hash(p));
    let s = first_hash(p);
    let w = hash_run(p, s);
    let z = zero_padded(number, w as nat);
    let r = numbered_name(p, number, ext);
    assert(r.subrange(0, s) =~= p.take(s));
    assert(r.subrange(s, s + z.len()) =~= z);
    assert(r.subrange(s + z.len(), r.len() as int) =~= p.skip(s + w) + ext);
}

/// The number in a numbered name reads back as the number given: where
/// the number has no more digits than the pattern's first `#` run, the
/// run is replaced by exactly as many digits, and they read as the number.
pub proof fn law_numbering_reads_back(p: Seq<char>, number: nat, ext: Seq<char>)
    ensures
        ({
            let s = first_hash(p);
            let w = hash_run(p, s);
            let r = numbered_name(p, number, ext);
            decimal(number).len() <= w ==> {
                &&& r.len() == p.len() + ext.len()
                &&& r.subrange(0, s) == p.subrange(0, s)
                &&& digits_value(r.subrange(s, s + w)) == number
                &&& forall|i: int| s <= i < s + w ==> is_digit_char(#[trigger] r[i])
                &&& r.subrange(s + w, r.len() as int) == p.subrange(s + w, p.len() as int) + ext
            }
        }),
{
    lemma_numbered_parts(p, number, ext);
    let s = first_hash(p);
    let w = hash_run(p, s);
    let r = numbered_name(p, number, ext);
    let z = zero_padded(number, w as nat);
    law_zero_padded_reads_back(number, w as nat);
    if decimal(number).len() <= w {
        assert(p.take(s) =~= p.subrange(0, s));
        assert(p.skip(s + w) =~= p.subrange(s + w, p.len() as int));
        assert forall|i: int| s <= i < s + w implies is_digit_char(#[trigger] r[i]) by {
            assert(r[i] == r.subrange(s, s + w)[i - s]);
        }
    }
}

/// Two different numbers give two different names for one pattern and one
/// extension.
pub proof fn law_numbering_distinct_numbers(p: Seq<char>, n1: nat, n2: nat, ext: Seq<char>)
    ensures
        numbered_name(p, n1, ext) == numbered_name(p, n2, ext) ==> n1 == n2,
{
    lemma_numbered_parts(p, n1, ext);
    lemma_numbered_parts(p, n2, ext);
    let s = first_hash(p);
    let w = hash_run(p, s);
    law_decimal_injective(n1, n2, w as nat);
    if numbered_name(p, n1, ext) == numbered_name(p, n2, ext) {
        let r = numbered_name(p, n1, ext);
        assert(zero_padded(n1, w as nat) == r.subrange(s, s + zero_padded(n1, w as nat).len()));
    }
}

/// In numbering mode with a positive step, two files of the batch with
/// the same extension get different names.
pub proof fn law_numbering_gives_distinct_names(st: RenameSettings, f: FileEntry, g: FileEntry, k1: nat, k2: nat)
    requires
        st.mode == RenameMode::Numbering,
        st.search.len() > 0,
        st.step > 0,
        k1 != k2,
        ext_of(f.name@) == ext_of(g.name@),
    ensures
        renamed_name(st, f, k1) != renamed_name(st, g, k2),
{
    assert(k1 * st.step != k2 * st.step) by (nonlinear_arith)
        requires k1 != k2, st.step > 0;
    law_numbering_distinct_numbers(st.search, st.start + k1 * st.step, st.start + k2 * st.step, ext_of(f.name@));
}

} // verus!
