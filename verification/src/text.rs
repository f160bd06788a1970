//! Character-level text helpers: converting between `str` and character
//! vectors, replacement of all occurrences, prefix/suffix tests, the
//! stem/extension split of a file name, and ordering of names.

use vstd::prelude::*;
use vstd::string::*;

verus! {

// ---------------------------------------------------------------------
// Conversions
// ---------------------------------------------------------------------

/// The characters of `s`, in order.
pub fn chars_of(s: &str) -> (v: Vec<char>)
    ensures
        v@ == s@,
{
    let mut v: Vec<char> = Vec::new();
    for c in it: s.chars()
        invariant
            v@ == it.seq().take(it.index() as int),
    {
        v.push(c);
    }
    v
}

/// Appends one character to a string.
/// Trusted: `String::push` appends the character at the end, as its
/// documentation says.
#[verifier::external_body]
pub(crate) fn push_char(s: &mut String, c: char)
    ensures
        final(s)@ == old(s)@.push(c),
{
    s.push(c);
}

/// Appends the characters of `v` to `s`.
pub fn push_chars(s: &mut String, v: &[char])
    ensures
        final(s)@ == old(s)@ + v@,
{
    let n = v.len();
    for i in 0..n
        invariant
            n == v@.len(),
            s@ == old(s)@ + v@.take(i as int),
    {
        push_char(s, v[i]);
        assert(v@.take(i + 1) =~= v@.take(i as int).push(v@[i as int]));
    }
    assert(v@.take(n as int) =~= v@);
}

/// A string holding exactly the characters of `v`.
pub fn string_of(v: &[char]) -> (s: String)
    ensures
        s@ == v@,
{
    let mut s = String::new();
    push_chars(&mut s, v);
    s
}

/// A fresh copy of `s`.
pub fn owned(s: &str) -> (r: String)
    ensures
        r@ == s@,
{
    let mut r = String::new();
    r.append(s);
    r
}

/// Appends `v` to the character vector `out`.
pub fn extend_chars(out: &mut Vec<char>, v: &[char])
    ensures
        final(out)@ == old(out)@ + v@,
{
    let n = v.len();
    for i in 0..n
        invariant
            n == v@.len(),
            out@ == old(out)@ + v@.take(i as int),
    {
        out.push(v[i]);
        assert(v@.take(i + 1) =~= v@.take(i as int).push(v@[i as int]));
    }
    assert(v@.take(n as int) =~= v@);
}

// ---------------------------------------------------------------------
// Occurrences and replacement
// ---------------------------------------------------------------------

/// `pat` occurs in `s` starting at position `i`.
pub open spec fn occurs_at(s: Seq<char>, i: int, pat: Seq<char>) -> bool {
    0 <= i && i + pat.len() <= s.len() && s.subrange(i, i + pat.len()) == pat
}

/// `s` begins with `p`.
pub open spec fn has_prefix(s: Seq<char>, p: Seq<char>) -> bool {
    occurs_at(s, 0, p)
}

/// `s` ends with `p`.
pub open spec fn has_suffix(s: Seq<char>, p: Seq<char>) -> bool {
    p.len() <= s.len() && occurs_at(s, s.len() - p.len(), p)
}

/// Every occurrence of `pat` in `s`, taken from left to right without
/// overlap, replaced by `rep`. An empty pattern leaves `s` as it is.
pub open spec fn replace_all(s: Seq<char>, pat: Seq<char>, rep: Seq<char>) -> Seq<char>
    decreases s.len(),
{
    if pat.len() == 0 || s.len() < pat.len() {
        s
    } else if s.take(pat.len() as int) == pat {
        rep + replace_all(s.skip(pat.len() as int), pat, rep)
    } else {
        seq![s[0]] + replace_all(s.skip(1), pat, rep)
    }
}

/// Replacing a pattern by itself gives back the text.
pub proof fn law_replace_by_itself(s: Seq<char>, pat: Seq<char>)
    ensures
        replace_all(s, pat, pat) == s,
    decreases s.len(),
{
    if pat.len() == 0 || s.len() < pat.len() {
    } else if s.take(pat.len() as int) == pat {
        law_replace_by_itself(s.skip(pat.len() as int), pat);
        assert(s =~= s.take(pat.len() as int) + s.skip(pat.len() as int));
    } else {
        law_replace_by_itself(s.skip(1), pat);
        assert(s =~= seq![s[0]] + s.skip(1));
    }
}

/// Whether `pat` occurs in `s` at position `i`.
pub fn matches_at(s: &[char], i: usize, pat: &[char]) -> (res: bool)
    ensures
        res == occurs_at(s@, i as int, pat@),
{
    if i > s.len() || pat.len() > s.len() - i {
        return false;
    }
    let n = pat.len();
    let mut j: usize = 0;
    while j < n
        invariant
            n == pat@.len(),
            i + n <= s.len(),
            j <= n,
            forall|k: int| 0 <= k < j ==> s@[i + k] == pat@[k],
        decreases n - j,
    {
        if s[i + j] != pat[j] {
            assert(s@.subrange(i as int, i + n)[j as int] != pat@[j as int]);
            return false;
        }
        j += 1;
    }
    assert(s@.subrange(i as int, i + n) =~= pat@);
    true
}

proof fn lemma_replace_step(s: Seq<char>, i: int, pat: Seq<char>, rep: Seq<char>)
    requires
        pat.len() > 0,
        0 <= i,
        i + pat.len() <= s.len(),
    ensures
        occurs_at(s, i, pat) ==> replace_all(s.skip(i), pat, rep) == rep + replace_all(
            s.skip(i + pat.len()),
            pat,
            rep,
        ),
        !occurs_at(s, i, pat) ==> replace_all(s.skip(i), pat, rep) == seq![s[i]]
            + replace_all(s.skip(i + 1), pat, rep),
{
    let t = s.skip(i);
    assert(t.take(pat.len() as int) =~= s.subrange(i, i + pat.len()));
    assert(t.skip(pat.len() as int) =~= s.skip(i + pat.len()));
    assert(t.skip(1) =~= s.skip(i + 1));
}

/// `s` with every occurrence of `pat` replaced by `rep`, as `replace_all`
/// says; an empty `pat` leaves `s` unchanged.
pub fn replace_chars(s: &[char], pat: &[char], rep: &[char]) -> (res: Vec<char>)
    ensures
        res@ == replace_all(s@, pat@, rep@),
{
    let n = s.len();
    let p = pat.len();
    let mut out: Vec<char> = Vec::new();
    if p == 0 {
        extend_chars(&mut out, s);
        return out;
    }
    let mut i: usize = 0;
    assert(s@.skip(0) =~= s@);
    while i < n
        invariant
            n == s@.len(),
            p == pat@.len(),
            p > 0,
            i <= n,
            out@ + replace_all(s@.skip(i as int), pat@, rep@) == replace_all(s@, pat@, rep@),
        decreases n - i,
    {
        if p <= n - i {
            proof {
                lemma_replace_step(s@, i as int, pat@, rep@);
            }
            if matches_at(s, i, pat) {
                let ghost before = out@;
                extend_chars(&mut out, rep);
                assert(out@ + replace_all(s@.skip(i + p), pat@, rep@) =~= before + (rep@
                    + replace_all(s@.skip(i + p), pat@, rep@)));
                i = i + p;
            } else {
                let ghost before = out@;
                out.push(s[i]);
                assert(out@ + replace_all(s@.skip(i + 1), pat@, rep@) =~= before + (seq![s@[i as int]]
                    + replace_all(s@.skip(i + 1), pat@, rep@)));
                i = i + 1;
            }
        } else {
            let ghost before = out@;
            assert(replace_all(s@.skip(i as int), pat@, rep@) == s@.skip(i as int));
            extend_chars(&mut out, &s[i..n]);
            assert(s@.subrange(i as int, n as int) =~= s@.skip(i as int));
            assert(s@.skip(n as int) =~= Seq::<char>::empty());
            i = n;
        }
    }
    assert(s@.skip(n as int) =~= Seq::<char>::empty());
    assert(out@ + Seq::<char>::empty() =~= out@);
    out
}

/// Whether `s` begins with `p`.
pub fn starts_with_chars(s: &[char], p: &[char]) -> (res: bool)
    ensures
        res == has_prefix(s@, p@),
{
    matches_at(s, 0, p)
}

/// Whether `s` ends with `p`.
pub fn ends_with_chars(s: &[char], p: &[char]) -> (res: bool)
    ensures
        res == has_suffix(s@, p@),
{
    if p.len() > s.len() {
        false
    } else {
        matches_at(s, s.len() - p.len(), p)
    }
}

/// Whether `c` occurs in `s`.
pub fn contains_char(s: &[char], c: char) -> (res: bool)
    ensures
        res == s@.contains(c),
{
    let n = s.len();
    for i in 0..n
        invariant
            n == s@.len(),
            forall|k: int| 0 <= k < i ==> s@[k] != c,
    {
        if s[i] == c {
            assert(s@[i as int] == c);
            return true;
        }
    }
    false
}

/// Whether two character sequences are equal.
pub fn chars_equal(a: &[char], b: &[char]) -> (res: bool)
    ensures
        res == (a@ == b@),
{
    if a.len() != b.len() {
        return false;
    }
    let r = matches_at(a, 0, b);
    proof {
        if r {
            assert(a@ =~= a@.subrange(0, b@.len() as int));
        } else {
            assert(a@.subrange(0, a@.len() as int) =~= a@);
        }
    }
    r
}

// ---------------------------------------------------------------------
// Stem and extension of a file name
// ---------------------------------------------------------------------

/// The position of the last occurrence of `c` in `s`, or -1.
pub open spec fn last_index_of(s: Seq<char>, c: char) -> int
    decreases s.len(),
{
    if s.len() == 0 {
        -1
    } else if s.last() == c {
        s.len() - 1
    } else {
        last_index_of(s.drop_last(), c)
    }
}

/// Where the extension of a file name starts: at its last dot, unless that
/// dot is the first character (a hidden file such as `.bashrc`) or there is
/// no dot, in which case the extension is empty and starts at the end.
pub open spec fn ext_start(name: Seq<char>) -> int {
    if last_index_of(name, '.') > 0 {
        last_index_of(name, '.')
    } else {
        name.len() as int
    }
}

/// The file name without its extension.
pub open spec fn stem_of(name: Seq<char>) -> Seq<char> {
    name.take(ext_start(name))
}

/// The extension of a file name, with its dot (empty if there is none).
pub open spec fn ext_of(name: Seq<char>) -> Seq<char> {
    name.skip(ext_start(name))
}

pub proof fn lemma_last_index_bounds(s: Seq<char>, c: char)
    ensures
        -1 <= last_index_of(s, c) < s.len(),
        last_index_of(s, c) >= 0 ==> s[last_index_of(s, c)] == c,
        forall|k: int| last_index_of(s, c) < k < s.len() ==> s[k] != c,
    decreases s.len(),
{
    if s.len() > 0 && s.last() != c {
        lemma_last_index_bounds(s.drop_last(), c);
        assert forall|k: int| last_index_of(s, c) < k < s.len() implies s[k] != c by {
            if k < s.len() - 1 {
                assert(s.drop_last()[k] == s[k]);
            }
        }
    }
}

/// The stem and the extension together give back the name.
pub proof fn lemma_stem_ext(name: Seq<char>)
    ensures
        0 <= ext_start(name) <= name.len(),
        stem_of(name) + ext_of(name) == name,
{
    lemma_last_index_bounds(name, '.');
    assert(stem_of(name) + ext_of(name) =~= name);
}

/// The position where the extension of `name` starts.
pub fn find_ext_start(name: &[char]) -> (res: usize)
    ensures
        res == ext_start(name@),
{
    let n = name.len();
    let mut i: usize = n;
    assert(name@.take(n as int) =~= name@);
    while i > 0
        invariant
            i <= n,
            n == name@.len(),
            last_index_of(name@.take(i as int), '.') == last_index_of(name@, '.'),
        decreases i,
    {
        if name[i - 1] == '.' {
            assert(name@.take(i as int).last() == '.');
            if i - 1 > 0 {
                return i - 1;
            } else {
                return n;
            }
        }
        assert(name@.take(i as int).drop_last() =~= name@.take(i - 1));
        i -= 1;
    }
    assert(name@.take(0) =~= Seq::<char>::empty());
    n
}

/// Appending characters other than `c` leaves the last `c` where it was.
pub proof fn lemma_last_index_append(a: Seq<char>, b: Seq<char>, c: char)
    requires
        !b.contains(c),
    ensures
        last_index_of(a + b, c) == last_index_of(a, c),
    decreases b.len(),
{
    if b.len() == 0 {
        assert(a + b =~= a);
    } else {
        assert((a + b).drop_last() =~= a + b.drop_last());
        assert((a + b).last() == b.last());
        assert(b.drop_last().len() < b.len());
        assert(!b.drop_last().contains(c)) by {
            if b.drop_last().contains(c) {
                let i = choose|i: int| 0 <= i < b.drop_last().len() && b.drop_last()[i] == c;
                assert(b[i] == c);
            }
        }
        assert(b.last() != c) by {
            assert(b[b.len() - 1] == b.last());
        }
        lemma_last_index_append(a, b.drop_last(), c);
    }
}

/// The extension of a name has no dot after its first character.
pub proof fn lemma_ext_shape(name: Seq<char>)
    ensures
        ext_of(name).len() > 0 ==> ext_of(name)[0] == '.' && ext_start(name) > 0,
        forall|i: int| 1 <= i < ext_of(name).len() ==> #[trigger] ext_of(name)[i] != '.',
        ext_of(name).len() == 0 ==> last_index_of(name, '.') <= 0,
{
    lemma_last_index_bounds(name, '.');
    let e = ext_of(name);
    assert forall|i: int| 1 <= i < e.len() implies #[trigger] e[i] != '.' by {
        assert(e[i] == name[ext_start(name) + i]);
    }
}

/// Inserting text without a dot just before the extension keeps the
/// extension and makes the stem the old stem followed by that text.
pub proof fn lemma_stem_ext_insert(name: Seq<char>, s: Seq<char>)
    requires
        !s.contains('.'),
    ensures
        stem_of(stem_of(name) + s + ext_of(name)) == stem_of(name) + s,
        ext_of(stem_of(name) + s + ext_of(name)) == ext_of(name),
{
    lemma_stem_ext(name);
    lemma_ext_shape(name);
    lemma_last_index_bounds(name, '.');
    let stem = stem_of(name);
    let ext = ext_of(name);
    let new = stem + s + ext;
    if ext.len() > 0 {
        let rest = ext.drop_first();
        assert(!rest.contains('.')) by {
            if rest.contains('.') {
                let i = choose|i: int| 0 <= i < rest.len() && rest[i] == '.';
                assert(ext[i + 1] == '.');
            }
        }
        assert(new =~= (stem + s + seq!['.']) + rest);
        lemma_last_index_append(stem + s + seq!['.'], rest, '.');
        assert((stem + s + seq!['.']).last() == '.');
        assert(last_index_of(stem + s + seq!['.'], '.') == stem.len() + s.len());
        assert(ext_start(new) == stem.len() + s.len());
        assert(stem_of(new) =~= stem + s);
        assert(ext_of(new) =~= ext);
    } else {
        assert(stem =~= name);
        assert(new =~= name + s);
        lemma_last_index_append(name, s, '.');
        lemma_last_index_bounds(name + s, '.');
        assert(ext_start(new) == new.len());
        assert(stem_of(new) =~= new);
        assert(ext_of(new) =~= Seq::<char>::empty());
    }
}

// ---------------------------------------------------------------------
// Ordering of names
// ---------------------------------------------------------------------

/// Three-way lexicographic comparison by character value: -1, 0 or 1.
/// This is the order of `str`'s `cmp`, since UTF-8 keeps the order of
/// code points.
pub open spec fn seq_order(a: Seq<char>, b: Seq<char>) -> int
    decreases a.len(),
{
    if a.len() == 0 {
        if b.len() == 0 { 0 } else { -1 }
    } else if b.len() == 0 {
        1
    } else if (a[0] as u32) < (b[0] as u32) {
        -1
    } else if (a[0] as u32) > (b[0] as u32) {
        1
    } else {
        seq_order(a.drop_first(), b.drop_first())
    }
}

pub proof fn lemma_seq_order_antisym(a: Seq<char>, b: Seq<char>)
    ensures
        seq_order(a, b) == -seq_order(b, a),
        -1 <= seq_order(a, b) <= 1,
        seq_order(a, b) == 0 <==> a == b,
    decreases a.len(),
{
    if a.len() > 0 && b.len() > 0 && (a[0] as u32) == (b[0] as u32) {
        lemma_seq_order_antisym(a.drop_first(), b.drop_first());
        vstd::utf8::char_u32_cast(a[0], a[0] as u32);
        vstd::utf8::char_u32_cast(b[0], b[0] as u32);
        if a.drop_first() == b.drop_first() {
            assert(a =~= seq![a[0]] + a.drop_first());
            assert(b =~= seq![b[0]] + b.drop_first());
        }
        if a == b {
            assert(a.drop_first() =~= b.drop_first());
        }
    } else if a.len() > 0 && b.len() > 0 {
        if a == b {
            assert(a[0] == b[0]);
        }
    } else if a.len() == 0 && b.len() == 0 {
        assert(a =~= b);
    }
}

pub proof fn lemma_seq_order_trans(a: Seq<char>, b: Seq<char>, c: Seq<char>)
    requires
        seq_order(a, b) <= 0,
        seq_order(b, c) <= 0,
    ensures
        seq_order(a, c) <= 0,
        seq_order(a, b) < 0 || seq_order(b, c) < 0 ==> seq_order(a, c) < 0,
    decreases a.len(),
{
    lemma_seq_order_antisym(a, b);
    lemma_seq_order_antisym(b, c);
    lemma_seq_order_antisym(a, c);
    if a.len() > 0 && b.len() > 0 && c.len() > 0 && (a[0] as u32) == (b[0] as u32) && (b[0]
        as u32) == (c[0] as u32) {
        lemma_seq_order_trans(a.drop_first(), b.drop_first(), c.drop_first());
    }
}

/// Lexicographic `<` is a strict weak order.
pub proof fn lemma_text_order(a: Seq<char>, b: Seq<char>, c: Seq<char>)
    ensures
        !(seq_order(a, a) < 0),
        seq_order(a, b) < 0 && seq_order(b, c) < 0 ==> seq_order(a, c) < 0,
        !(seq_order(a, b) < 0) && !(seq_order(b, c) < 0) ==> !(seq_order(a, c) < 0),
{
    lemma_seq_order_antisym(a, a);
    lemma_seq_order_antisym(a, b);
    lemma_seq_order_antisym(b, c);
    lemma_seq_order_antisym(a, c);
    if seq_order(a, b) < 0 && seq_order(b, c) < 0 {
        lemma_seq_order_trans(a, b, c);
    }
    if !(seq_order(a, b) < 0) && !(seq_order(b, c) < 0) {
        lemma_seq_order_trans(c, b, a);
    }
}

/// Three-way comparison of two character sequences.
pub fn compare_chars(a: &[char], b: &[char]) -> (res: i8)
    ensures
        res as int == seq_order(a@, b@),
{
    let n = a.len();
    let m = b.len();
    let mut i: usize = 0;
    assert(a@.skip(0) =~= a@);
    assert(b@.skip(0) =~= b@);
    while i < n && i < m
        invariant
            n == a@.len(),
            m == b@.len(),
            i <= n,
            i <= m,
            seq_order(a@.skip(i as int), b@.skip(i as int)) == seq_order(a@, b@),
        decreases n - i,
    {
        let x = a[i];
        let y = b[i];
        let ghost ta = a@.skip(i as int);
        let ghost tb = b@.skip(i as int);
        assert(ta[0] == x && tb[0] == y);
        if (x as u32) < (y as u32) {
            return -1;
        } else if (x as u32) > (y as u32) {
            return 1;
        }
        assert(ta.drop_first() =~= a@.skip(i + 1));
        assert(tb.drop_first() =~= b@.skip(i + 1));
        i += 1;
    }
    if i == n && i == m {
        0
    } else if i == n {
        -1
    } else {
        1
    }
}

// ---------------------------------------------------------------------
// Unicode case mapping (std)
// ---------------------------------------------------------------------

/// What `str::to_lowercase` returns for a string with these characters.
pub uninterp spec fn lowercase_of(s: Seq<char>) -> Seq<char>;

/// What `str::to_uppercase` returns for a string with these characters.
pub uninterp spec fn uppercase_of(s: Seq<char>) -> Seq<char>;

/// The characters that `char::to_uppercase` yields for `c`.
pub uninterp spec fn char_upper(c: char) -> Seq<char>;

/// The characters that `char::to_lowercase` yields for `c`.
pub uninterp spec fn char_lower(c: char) -> Seq<char>;

/// What `char::is_alphanumeric` says of `c`.
pub uninterp spec fn is_alnum(c: char) -> bool;

/// Trusted: calls `str::to_lowercase`. Claimed: the result depends on the
/// characters of `s` alone (the Unicode tables of the standard library);
/// that function is named `lowercase_of` and nothing more is said of it.
#[verifier::external_body]
pub(crate) fn to_lowercase(s: &str) -> (r: String)
    ensures
        r@ == lowercase_of(s@),
{
    s.to_lowercase()
}

/// Trusted: calls `str::to_uppercase`. Claimed: the result depends on the
/// characters of `s` alone; that function is named `uppercase_of`.
#[verifier::external_body]
pub(crate) fn to_uppercase(s: &str) -> (r: String)
    ensures
        r@ == uppercase_of(s@),
{
    s.to_uppercase()
}

/// Trusted: calls `char::to_uppercase` and collects what it yields.
/// Claimed: the characters depend on `c` alone, named `char_upper`.
#[verifier::external_body]
pub(crate) fn upper_of_char(c: char) -> (r: String)
    ensures
        r@ == char_upper(c),
{
    c.to_uppercase().collect()
}

/// Trusted: calls `char::to_lowercase` and collects what it yields.
/// Claimed: the characters depend on `c` alone, named `char_lower`.
#[verifier::external_body]
pub(crate) fn lower_of_char(c: char) -> (r: String)
    ensures
        r@ == char_lower(c),
{
    c.to_lowercase().collect()
}

/// Trusted: calls `char::is_alphanumeric`. Claimed: the answer depends on
/// `c` alone, named `is_alnum`.
#[verifier::external_body]
pub(crate) fn alphanumeric(c: char) -> (r: bool)
    ensures
        r == is_alnum(c),
{
    c.is_alphanumeric()
}

/// The lowercase form of the characters `v`.
pub fn lowercase_chars(v: &[char]) -> (r: Vec<char>)
    ensures
        r@ == lowercase_of(v@),
{
    let s = string_of(v);
    let l = to_lowercase(s.as_str());
    chars_of(l.as_str())
}

/// The uppercase form of the characters `v`.
pub fn uppercase_chars(v: &[char]) -> (r: Vec<char>)
    ensures
        r@ == uppercase_of(v@),
{
    let s = string_of(v);
    let u = to_uppercase(s.as_str());
    chars_of(u.as_str())
}

/// Whether position `i` of `s` starts a word: it is the first character, or
/// the character before it is not alphanumeric.
pub open spec fn starts_word(s: Seq<char>, i: int) -> bool {
    i == 0 || !is_alnum(s[i - 1])
}

/// The title-case form of the first `n` characters of `s`: the first
/// character of each word in uppercase, every other character in lowercase.
pub open spec fn title_prefix(s: Seq<char>, n: int) -> Seq<char>
    decreases n,
{
    if n <= 0 {
        seq![]
    } else {
        title_prefix(s, n - 1) + if starts_word(s, n - 1) {
            char_upper(s[n - 1])
        } else {
            char_lower(s[n - 1])
        }
    }
}

/// Every word of `s` capitalised, the rest in lowercase.
pub open spec fn title_of(s: Seq<char>) -> Seq<char> {
    title_prefix(s, s.len() as int)
}

/// The title-case form of `v`.
pub fn title_chars(v: &[char]) -> (r: Vec<char>)
    ensures
        r@ == title_of(v@),
{
    let n = v.len();
    let mut out: Vec<char> = Vec::new();
    let mut prev_alnum = false;
    for i in 0..n
        invariant
            n == v@.len(),
            out@ == title_prefix(v@, i as int),
            i > 0 ==> prev_alnum == is_alnum(v@[i - 1]),
    {
        let c = v[i];
        let piece = if i == 0 || !prev_alnum {
            upper_of_char(c)
        } else {
            lower_of_char(c)
        };
        let pc = chars_of(piece.as_str());
        extend_chars(&mut out, pc.as_slice());
        prev_alnum = alphanumeric(c);
    }
    out
}

// ---------------------------------------------------------------------
// Decimal numbers
// ---------------------------------------------------------------------

/// The character of the decimal digit `d`.
pub open spec fn digit_char(d: nat) -> char {
    if d == 0 { '0' }
    else if d == 1 { '1' }
    else if d == 2 { '2' }
    else if d == 3 { '3' }
    else if d == 4 { '4' }
    else if d == 5 { '5' }
    else if d == 6 { '6' }
    else if d == 7 { '7' }
    else if d == 8 { '8' }
    else { '9' }
}

/// The decimal notation of `n`, without leading zeros.
pub open spec fn decimal(n: nat) -> Seq<char>
    decreases n,
{
    if n < 10 {
        seq![digit_char(n)]
    } else {
        decimal(n / 10).push(digit_char(n % 10))
    }
}

/// `n` in decimal, padded with leading zeros to at least `width` digits.
pub open spec fn zero_padded(n: nat, width: nat) -> Seq<char> {
    let d = decimal(n);
    if d.len() >= width {
        d
    } else {
        Seq::new((width - d.len()) as nat, |i: int| '0') + d
    }
}

/// The character is one of the decimal digits `0` to `9`.
pub open spec fn is_digit_char(c: char) -> bool {
    48 <= (c as u32) <= 57
}

/// The number that a text of decimal digits reads as, the first digit
/// being the most significant.
pub open spec fn digits_value(s: Seq<char>) -> int
    decreases s.len(),
{
    if s.len() == 0 {
        0
    } else {
        digits_value(s.drop_last()) * 10 + ((s.last() as u32) as int - 48)
    }
}

proof fn lemma_digit_char_value(d: nat)
    requires
        d < 10,
    ensures
        is_digit_char(digit_char(d)),
        (digit_char(d) as u32) as int - 48 == d,
{
}

/// The decimal notation of `n` is made of digits, starts with a non-zero
/// digit unless `n` is zero, and reads back as `n`.
pub proof fn law_decimal_reads_back(n: nat)
    ensures
        decimal(n).len() >= 1,
        forall|i: int| 0 <= i < decimal(n).len() ==> is_digit_char(#[trigger] decimal(n)[i]),
        digits_value(decimal(n)) == n,
        n > 0 ==> decimal(n)[0] != '0',
        n < 10 <==> decimal(n).len() == 1,
    decreases n,
{
    if n < 10 {
        lemma_digit_char_value(n);
        assert(seq![digit_char(n)].drop_last() =~= Seq::<char>::empty());
        assert(digits_value(Seq::<char>::empty()) == 0);
        assert(digits_value(decimal(n)) == n);
    } else {
        law_decimal_reads_back(n / 10);
        lemma_digit_char_value(n % 10);
        let d = decimal(n / 10);
        assert(decimal(n) == d.push(digit_char(n % 10)));
        assert(decimal(n).drop_last() =~= d);
        assert forall|i: int| 0 <= i < decimal(n).len() implies is_digit_char(#[trigger] decimal(n)[i]) by {
            if i < d.len() {
                assert(decimal(n)[i] == d[i]);
            }
        }
        assert(decimal(n)[0] == d[0]);
        assert(n == (n / 10) * 10 + n % 10);
        assert(digits_value(decimal(n)) == digits_value(d) * 10 + (n % 10));
    }
}

/// Leading zeros do not change what a text of digits reads as.
proof fn lemma_leading_zeros(z: nat, d: Seq<char>)
    ensures
        digits_value(Seq::new(z, |i: int| '0') + d) == digits_value(d),
    decreases d.len(),
{
    let zs = Seq::new(z, |i: int| '0');
    if d.len() == 0 {
        assert(zs + d =~= zs);
        lemma_zeros_value(z);
    } else {
        lemma_leading_zeros(z, d.drop_last());
        assert((zs + d).drop_last() =~= zs + d.drop_last());
        assert((zs + d).last() == d.last());
    }
}

proof fn lemma_zeros_value(z: nat)
    ensures
        digits_value(Seq::new(z, |i: int| '0')) == 0,
    decreases z,
{
    if z > 0 {
        lemma_zeros_value((z - 1) as nat);
        assert(Seq::new(z, |i: int| '0').drop_last() =~= Seq::new((z - 1) as nat, |i: int| '0'));
    }
}

/// `n` padded to `width` digits is made of digits, is `width` long when
/// `n` has at most `width` digits, and reads back as `n`.
pub proof fn law_zero_padded_reads_back(n: nat, width: nat)
    ensures
        forall|i: int| 0 <= i < zero_padded(n, width).len() ==> is_digit_char(
            #[trigger] zero_padded(n, width)[i],
        ),
        digits_value(zero_padded(n, width)) == n,
        zero_padded(n, width).len() >= width,
        decimal(n).len() <= width ==> zero_padded(n, width).len() == width,
{
    law_decimal_reads_back(n);
    let d = decimal(n);
    if d.len() < width {
        let z = (width - d.len()) as nat;
        lemma_leading_zeros(z, d);
        let r = Seq::new(z, |i: int| '0') + d;
        assert forall|i: int| 0 <= i < r.len() implies is_digit_char(#[trigger] r[i]) by {
            if i >= z {
                assert(r[i] == d[i - z]);
            }
        }
    }
}

/// Different numbers have different decimal notations, padded or not.
pub proof fn law_decimal_injective(a: nat, b: nat, width: nat)
    ensures
        decimal(a) == decimal(b) ==> a == b,
        zero_padded(a, width) == zero_padded(b, width) ==> a == b,
{
    law_decimal_reads_back(a);
    law_decimal_reads_back(b);
    law_zero_padded_reads_back(a, width);
    law_zero_padded_reads_back(b, width);
}

fn digit(d: u128) -> (c: char)
    requires
        d < 10,
    ensures
        c == digit_char(d as nat),
{
    if d == 0 { '0' }
    else if d == 1 { '1' }
    else if d == 2 { '2' }
    else if d == 3 { '3' }
    else if d == 4 { '4' }
    else if d == 5 { '5' }
    else if d == 6 { '6' }
    else if d == 7 { '7' }
    else if d == 8 { '8' }
    else { '9' }
}

/// Appends the decimal notation of `n`.
pub fn push_decimal(out: &mut Vec<char>, n: u128)
    ensures
        final(out)@ == old(out)@ + decimal(n as nat),
    decreases n,
{
    if n >= 10 {
        push_decimal(out, n / 10);
    }
    out.push(digit(n % 10));
    assert(final(out)@ =~= old(out)@ + decimal(n as nat)) by {
        if n >= 10 {
            assert(decimal(n as nat) == decimal((n / 10) as nat).push(digit_char((n % 10) as nat)));
        }
    }
}

/// The decimal notation of `n`, padded with zeros to at least `width` digits.
pub fn padded_decimal(n: u128, width: usize) -> (r: Vec<char>)
    ensures
        r@ == zero_padded(n as nat, width as nat),
{
    let mut d: Vec<char> = Vec::new();
    push_decimal(&mut d, n);
    assert(d@ =~= decimal(n as nat));
    if d.len() >= width {
        return d;
    }
    let pad = width - d.len();
    let mut r: Vec<char> = Vec::new();
    for i in 0..pad
        invariant
            r@ == Seq::new(i as nat, |k: int| '0'),
    {
        r.push('0');
        assert(r@ =~= Seq::new((i + 1) as nat, |k: int| '0'));
    }
    extend_chars(&mut r, d.as_slice());
    r
}

/// The decimal notation of `n` as a string.
pub fn decimal_string(n: usize) -> (s: String)
    ensures
        s@ == decimal(n as nat),
{
    let mut d: Vec<char> = Vec::new();
    push_decimal(&mut d, n as u128);
    assert(d@ =~= decimal(n as nat));
    string_of(d.as_slice())
}

} // verus!
