//! Byte positions in strings: the text fields keep their cursors as byte
//! offsets into the UTF-8 encoding, as `String::insert` and
//! `String::remove` take them.

use vstd::prelude::*;
use vstd::string::*;
use vstd::utf8::{
    decode_utf8, encode_scalar, encode_utf8, encode_utf8_first_scalar, is_char_boundary,
    is_continuation_byte, length_of_first_scalar, pop_first_scalar,
};

verus! {

broadcast use vstd::utf8::encode_utf8_decode_utf8, vstd::utf8::encode_utf8_valid_utf8;

/// The number of bytes of the UTF-8 encoding of `s`.
pub open spec fn utf8_len(s: Seq<char>) -> nat {
    encode_utf8(s).len()
}

/// Byte offset `i` falls between two characters of `s` (or at an end).
pub open spec fn at_char_boundary(s: Seq<char>, i: int) -> bool {
    is_char_boundary(encode_utf8(s), i)
}

/// `s` with `c` inserted at byte offset `i`.
pub open spec fn inserted_at_byte(s: Seq<char>, i: int, c: char) -> Seq<char> {
    decode_utf8(encode_utf8(s).take(i) + encode_utf8(seq![c]) + encode_utf8(s).skip(i))
}

/// The number of bytes of the character that starts at byte offset `i`.
pub open spec fn width_at_byte(s: Seq<char>, i: int) -> int {
    length_of_first_scalar(encode_utf8(s).skip(i))
}

/// `s` without the character that starts at byte offset `i`.
pub open spec fn removed_at_byte(s: Seq<char>, i: int) -> Seq<char> {
    decode_utf8(encode_utf8(s).take(i) + encode_utf8(s).skip(i + width_at_byte(s, i)))
}

/// Trusted: calls `String::len`, which returns the length of the string
/// in bytes, that is of its UTF-8 encoding (a length that the string's
/// allocation bounds, so it fits in `usize`).
#[verifier::external_body]
pub(crate) fn byte_len(s: &String) -> (n: usize)
    ensures
        n == utf8_len(s@),
{
    s.len()
}

/// Trusted: calls `String::insert`, which inserts `c` at byte offset `idx`
/// (it panics unless `idx` is a character boundary, which the caller
/// rules out). Claimed: the new encoding is the old one with the
/// encoding of `c` put at `idx`.
#[verifier::external_body]
pub(crate) fn insert_at(s: &mut String, idx: usize, c: char)
    requires
        at_char_boundary(old(s)@, idx as int),
        utf8_len(old(s)@) + 4 <= isize::MAX,
    ensures
        encode_utf8(final(s)@) == encode_utf8(old(s)@).take(idx as int) + encode_utf8(seq![c])
            + encode_utf8(old(s)@).skip(idx as int),
{
    s.insert(idx, c);
}

/// Trusted: calls `String::remove`, which removes the character that
/// starts at byte offset `idx` and returns it (it panics unless `idx` is a
/// character boundary before the end, which the caller rules out).
/// Claimed: the new encoding is the old one without that character's bytes.
#[verifier::external_body]
pub(crate) fn remove_at(s: &mut String, idx: usize) -> (c: char)
    requires
        at_char_boundary(old(s)@, idx as int),
        idx < utf8_len(old(s)@),
    ensures
        encode_utf8(final(s)@) == encode_utf8(old(s)@).take(idx as int) + encode_utf8(old(s)@).skip(
            idx + width_at_byte(old(s)@, idx as int),
        ),
        encode_utf8(seq![c]) == encode_utf8(old(s)@).subrange(
            idx as int,
            idx + width_at_byte(old(s)@, idx as int),
        ),
{
    s.remove(idx)
}

/// The encoding of a concatenation is the concatenation of the encodings.
pub proof fn lemma_encode_concat(a: Seq<char>, b: Seq<char>)
    ensures
        encode_utf8(a + b) == encode_utf8(a) + encode_utf8(b),
    decreases a.len(),
{
    if a.len() == 0 {
        assert(a + b =~= b);
        assert(encode_utf8(a) =~= Seq::<u8>::empty());
        assert(encode_utf8(a) + encode_utf8(b) =~= encode_utf8(b));
    } else {
        lemma_encode_concat(a.drop_first(), b);
        assert((a + b).drop_first() =~= a.drop_first() + b);
        assert((a + b)[0] == a[0]);
        assert(encode_utf8(a + b) =~= encode_scalar(a[0] as u32) + (encode_utf8(a.drop_first()) + encode_utf8(b)));
    }
}

proof fn lemma_encode_single(c: char)
    ensures
        encode_utf8(seq![c]) == encode_scalar(c as u32),
{
    let e = Seq::<char>::empty();
    assert(seq![c].drop_first() =~= e);
    assert(encode_utf8(e) =~= Seq::<u8>::empty());
    assert(encode_utf8(seq![c]) =~= encode_scalar(c as u32) + encode_utf8(e));
    assert(encode_scalar(c as u32) + Seq::<u8>::empty() =~= encode_scalar(c as u32));
}

proof fn lemma_pop_first(s: Seq<char>)
    requires
        s.len() > 0,
    ensures
        pop_first_scalar(encode_utf8(s)) == encode_utf8(s.drop_first()),
        length_of_first_scalar(encode_utf8(s)) == encode_scalar(s[0] as u32).len(),
{
    encode_utf8_first_scalar(s);
    assert(pop_first_scalar(encode_utf8(s)) =~= encode_utf8(s.drop_first()));
}

/// The end of the encoding of a prefix is a character boundary.
pub proof fn lemma_prefix_boundary(a: Seq<char>, r: Seq<char>)
    ensures
        at_char_boundary(a + r, utf8_len(a) as int),
    decreases a.len(),
{
    vstd::utf8::encode_utf8_valid_utf8(a + r);
    if a.len() > 0 {
        let t = a + r;
        lemma_pop_first(t);
        assert(t.drop_first() =~= a.drop_first() + r);
        assert(t[0] == a[0]);
        lemma_encode_concat(a, r);
        lemma_pop_first(a);
        lemma_prefix_boundary(a.drop_first(), r);
        vstd::utf8::encode_utf8_valid_utf8(a.drop_first() + r);
    }
}

/// A character boundary is the end of the encoding of some prefix.
pub proof fn lemma_boundary_is_prefix(s: Seq<char>, i: int)
    requires
        at_char_boundary(s, i),
    ensures
        exists|k: int| 0 <= k <= s.len() && #[trigger] utf8_len(s.take(k)) == i,
    decreases s.len(),
{
    vstd::utf8::encode_utf8_valid_utf8(s);
    if i == 0 {
        assert(s.take(0) =~= Seq::<char>::empty());
        assert(utf8_len(s.take(0)) == 0);
    } else {
        let b = encode_utf8(s);
        assert(0 < i <= b.len());
        if s.len() == 0 {
            assert(b.len() == 0);
        } else {
            lemma_pop_first(s);
            let w = encode_scalar(s[0] as u32).len() as int;
            vstd::utf8::encode_utf8_valid_utf8(s.drop_first());
            assert(at_char_boundary(s.drop_first(), i - w));
            lemma_boundary_is_prefix(s.drop_first(), i - w);
            let k = choose|k: int| 0 <= k <= s.drop_first().len() && #[trigger] utf8_len(s.drop_first().take(k)) == i - w;
            assert(s.take(k + 1) =~= seq![s[0]] + s.drop_first().take(k));
            lemma_encode_concat(seq![s[0]], s.drop_first().take(k));
            lemma_encode_single(s[0]);
            assert(utf8_len(s.take(k + 1)) == i);
        }
    }
}

/// Inserting at a boundary is inserting between two parts of the text.
pub proof fn lemma_insert_split(s: Seq<char>, k: int, c: char)
    requires
        0 <= k <= s.len(),
    ensures
        inserted_at_byte(s, utf8_len(s.take(k)) as int, c) == s.take(k).push(c) + s.skip(k),
{
    let a = s.take(k);
    let b = s.skip(k);
    assert(s =~= a + b);
    lemma_encode_concat(a, b);
    let x = encode_utf8(s);
    assert(x.take(utf8_len(a) as int) =~= encode_utf8(a));
    assert(x.skip(utf8_len(a) as int) =~= encode_utf8(b));
    lemma_encode_concat(a, seq![c]);
    lemma_encode_concat(a.push(c), b);
    assert(a + seq![c] =~= a.push(c));
    assert(encode_utf8(a) + encode_utf8(seq![c]) + encode_utf8(b) =~= encode_utf8(a.push(c) + b));
    vstd::utf8::encode_utf8_decode_utf8(a.push(c) + b);
}


/// The number of bytes of the UTF-8 encoding of `c`.
pub open spec fn char_width(c: char) -> nat {
    utf8_len(seq![c])
}

/// The first character boundary of `s` after byte offset `k` (the end of
/// the text when there is none before it).
pub open spec fn next_boundary(s: Seq<char>, k: int) -> int
    decreases utf8_len(s) - k,
{
    if k + 1 >= utf8_len(s) {
        utf8_len(s) as int
    } else if at_char_boundary(s, k + 1) {
        k + 1
    } else {
        next_boundary(s, k + 1)
    }
}

/// The last character boundary of `s` before byte offset `k` (the start of
/// the text when there is none after it).
pub open spec fn prev_boundary(s: Seq<char>, k: int) -> int
    decreases k,
{
    if k <= 1 {
        0
    } else if at_char_boundary(s, k - 1) {
        k - 1
    } else {
        prev_boundary(s, k - 1)
    }
}

/// `next_boundary` is the nearest boundary after `k`.
pub proof fn lemma_next_boundary(s: Seq<char>, k: int)
    requires
        0 <= k < utf8_len(s),
    ensures
        k < next_boundary(s, k) <= utf8_len(s),
        at_char_boundary(s, next_boundary(s, k)),
        forall|i: int| k < i < next_boundary(s, k) ==> !#[trigger] at_char_boundary(s, i),
    decreases utf8_len(s) - k,
{
    vstd::utf8::is_char_boundary_start_end_of_seq(encode_utf8(s));
    if k + 1 < utf8_len(s) && !at_char_boundary(s, k + 1) {
        lemma_next_boundary(s, k + 1);
    }
}

/// `prev_boundary` is the nearest boundary before `k`.
pub proof fn lemma_prev_boundary(s: Seq<char>, k: int)
    requires
        0 < k,
    ensures
        0 <= prev_boundary(s, k) < k,
        at_char_boundary(s, prev_boundary(s, k)),
        forall|i: int| prev_boundary(s, k) < i < k ==> !#[trigger] at_char_boundary(s, i),
    decreases k,
{
    vstd::utf8::is_char_boundary_start_end_of_seq(encode_utf8(s));
    if k > 1 && !at_char_boundary(s, k - 1) {
        lemma_prev_boundary(s, k - 1);
    }
}

/// A boundary after `k` with no boundary between is `next_boundary`.
pub proof fn lemma_next_boundary_unique(s: Seq<char>, k: int, j: int)
    requires
        0 <= k < j,
        at_char_boundary(s, j),
        forall|i: int| k < i < j ==> !#[trigger] at_char_boundary(s, i),
    ensures
        next_boundary(s, k) == j,
{
    vstd::utf8::encode_utf8_valid_utf8(s);
    assert(j <= utf8_len(s));
    lemma_next_boundary(s, k);
    let nb = next_boundary(s, k);
    if nb < j {
        assert(!at_char_boundary(s, nb));
    } else if nb > j {
        assert(!at_char_boundary(s, j));
    }
}

/// A boundary before `k` with no boundary between is `prev_boundary`.
pub proof fn lemma_prev_boundary_unique(s: Seq<char>, k: int, j: int)
    requires
        0 <= j < k,
        at_char_boundary(s, j),
        forall|i: int| j < i < k ==> !#[trigger] at_char_boundary(s, i),
    ensures
        prev_boundary(s, k) == j,
{
    lemma_prev_boundary(s, k);
    let pb = prev_boundary(s, k);
    if pb < j {
        assert(!at_char_boundary(s, j));
    } else if pb > j {
        assert(!at_char_boundary(s, pb));
    }
}

proof fn lemma_continuation_bytes(c: char)
    ensures
        forall|j: int| 1 <= j < encode_scalar(c as u32).len() ==> is_continuation_byte(
            #[trigger] encode_scalar(c as u32)[j],
        ),
{
    let v = c as u32;
    assert(0x80 <= (0x80u8 | ((v & 0x3F) as u8)) <= 0xbf) by (bit_vector);
    assert(0x80 <= (0x80u8 | (((v >> 6) & 0x3F) as u8)) <= 0xbf) by (bit_vector);
    assert(0x80 <= (0x80u8 | (((v >> 12) & 0x3F) as u8)) <= 0xbf) by (bit_vector);
}

/// The character of `a + [c] + b` that starts at the end of `a` spans
/// `char_width(c)` bytes: its end is the next boundary, and no byte inside
/// it is one.
pub proof fn lemma_char_span(a: Seq<char>, c: char, b: Seq<char>)
    ensures
        ({
            let s = a.push(c) + b;
            let k = utf8_len(a) as int;
            let w = char_width(c) as int;
            &&& 1 <= w <= 4
            &&& k + w <= utf8_len(s)
            &&& utf8_len(a.push(c)) == k + w
            &&& at_char_boundary(s, k)
            &&& at_char_boundary(s, k + w)
            &&& forall|i: int| k < i < k + w ==> !#[trigger] at_char_boundary(s, i)
            &&& next_boundary(s, k) == k + w
            &&& prev_boundary(s, k + w) == k
            &&& width_at_byte(s, k) == w
        }),
{
    let s = a.push(c) + b;
    let k = utf8_len(a) as int;
    lemma_encode_single(c);
    vstd::utf8::char_is_scalar(c);
    let w = char_width(c) as int;
    let e = encode_scalar(c as u32);
    assert(a.push(c) =~= a + seq![c]);
    lemma_encode_concat(a, seq![c]);
    lemma_encode_concat(a.push(c), b);
    let x = encode_utf8(s);
    assert(x =~= encode_utf8(a) + e + encode_utf8(b));
    assert(s =~= a + (seq![c] + b));
    lemma_prefix_boundary(a, seq![c] + b);
    lemma_prefix_boundary(a.push(c), b);
    lemma_continuation_bytes(c);
    vstd::utf8::encode_utf8_valid_utf8(s);
    assert forall|i: int| k < i < k + w implies !#[trigger] at_char_boundary(s, i) by {
        assert(x[i] == e[i - k]);
        vstd::utf8::is_char_boundary_iff_not_is_continuation_byte(x, i);
    }
    lemma_next_boundary_unique(s, k, k + w);
    lemma_prev_boundary_unique(s, k + w, k);
    lemma_encode_concat(seq![c], b);
    let cb = seq![c] + b;
    lemma_pop_first(cb);
    assert(cb[0] == c);
    assert(x.skip(k) =~= encode_utf8(cb));
}

/// The character that starts at a boundary `k` before the end ends at the
/// next boundary: moving right over it steps `width_at_byte` bytes.
pub proof fn lemma_next_boundary_is_width(s: Seq<char>, k: int)
    requires
        at_char_boundary(s, k),
        k < utf8_len(s),
    ensures
        next_boundary(s, k) == k + width_at_byte(s, k),
        width_at_byte(s, k) >= 1,
{
    lemma_boundary_is_prefix(s, k);
    let j = choose|j: int| 0 <= j <= s.len() && #[trigger] utf8_len(s.take(j)) == k;
    if j == s.len() {
        assert(s.take(j) =~= s);
    }
    let a = s.take(j);
    let b = s.skip(j + 1);
    assert(s =~= a.push(s[j]) + b);
    lemma_char_span(a, s[j], b);
}

/// The number of bytes that `c` takes in UTF-8.
pub fn char_len_utf8(c: char) -> (n: usize)
    ensures
        n == char_width(c),
        1 <= n <= 4,
{
    proof {
        lemma_encode_single(c);
        vstd::utf8::char_is_scalar(c);
    }
    let v = c as u32;
    if v < 0x80 {
        1
    } else if v < 0x800 {
        2
    } else if v < 0x10000 {
        3
    } else {
        4
    }
}

/// The first character boundary after byte offset `k`.
pub fn next_boundary_of(s: &String, k: usize) -> (r: usize)
    requires
        k < utf8_len(s@),
    ensures
        r == next_boundary(s@, k as int),
{
    let n = byte_len(s);
    let mut j = k + 1;
    while j < n && !s.as_str().is_char_boundary(j)
        invariant
            k < j <= n,
            n == utf8_len(s@),
            forall|i: int| k < i < j ==> !#[trigger] at_char_boundary(s@, i),
        decreases n - j,
    {
        j += 1;
    }
    proof {
        vstd::utf8::encode_utf8_valid_utf8(s@);
        vstd::utf8::is_char_boundary_start_end_of_seq(encode_utf8(s@));
        lemma_next_boundary_unique(s@, k as int, j as int);
    }
    j
}

/// The last character boundary before byte offset `k`.
pub fn prev_boundary_of(s: &String, k: usize) -> (r: usize)
    requires
        0 < k,
    ensures
        r == prev_boundary(s@, k as int),
{
    let mut j = k - 1;
    while j > 0 && !s.as_str().is_char_boundary(j)
        invariant
            j < k,
            forall|i: int| j < i < k ==> !#[trigger] at_char_boundary(s@, i),
        decreases j,
    {
        j -= 1;
    }
    proof {
        vstd::utf8::encode_utf8_valid_utf8(s@);
        vstd::utf8::is_char_boundary_start_end_of_seq(encode_utf8(s@));
        lemma_prev_boundary_unique(s@, k as int, j as int);
    }
    j
}

/// Typing a character and deleting it again gives back the text:
/// `removed_at_byte` undoes `inserted_at_byte` at a boundary, and the
/// character typed is the one just before the boundary after it.
pub proof fn law_insert_then_remove(s: Seq<char>, i: int, c: char)
    requires
        at_char_boundary(s, i),
    ensures
        at_char_boundary(inserted_at_byte(s, i, c), i),
        at_char_boundary(inserted_at_byte(s, i, c), i + char_width(c)),
        1 <= char_width(c) <= 4,
        i + char_width(c) <= utf8_len(inserted_at_byte(s, i, c)),
        utf8_len(inserted_at_byte(s, i, c)) == utf8_len(s) + char_width(c),
        prev_boundary(inserted_at_byte(s, i, c), i + char_width(c)) == i,
        removed_at_byte(inserted_at_byte(s, i, c), i) == s,
{
    lemma_boundary_is_prefix(s, i);
    let k = choose|k: int| 0 <= k <= s.len() && #[trigger] utf8_len(s.take(k)) == i;
    lemma_insert_split(s, k, c);
    let a = s.take(k);
    let b = s.skip(k);
    let t = a.push(c) + b;
    lemma_char_span(a, c, b);
    let w = char_width(c) as int;
    let x = encode_utf8(t);
    lemma_encode_concat(a.push(c), b);
    assert(x.take(i) =~= encode_utf8(a)) by {
        assert(a.push(c) =~= a + seq![c]);
        lemma_encode_concat(a, seq![c]);
    }
    assert(x.skip(i + w) =~= encode_utf8(b));
    lemma_encode_concat(a, b);
    assert(s =~= a + b);
    vstd::utf8::encode_utf8_decode_utf8(s);
}

/// Removing the character at a boundary leaves that offset a boundary of
/// the new text.
pub proof fn lemma_remove_keeps_boundary(s: Seq<char>, p: int)
    requires
        at_char_boundary(s, p),
        p < utf8_len(s),
    ensures
        at_char_boundary(removed_at_byte(s, p), p),
{
    lemma_boundary_is_prefix(s, p);
    let j = choose|j: int| 0 <= j <= s.len() && #[trigger] utf8_len(s.take(j)) == p;
    if j == s.len() {
        assert(s.take(j) =~= s);
    }
    let a = s.take(j);
    let b = s.skip(j + 1);
    let c = s[j];
    assert(s =~= a.push(c) + b);
    lemma_char_span(a, c, b);
    let w = char_width(c) as int;
    let x = encode_utf8(s);
    lemma_encode_concat(a.push(c), b);
    assert(x.take(p) =~= encode_utf8(a)) by {
        assert(a.push(c) =~= a + seq![c]);
        lemma_encode_concat(a, seq![c]);
    }
    assert(x.skip(p + w) =~= encode_utf8(b));
    lemma_encode_concat(a, b);
    vstd::utf8::encode_utf8_decode_utf8(a + b);
    assert(removed_at_byte(s, p) == a + b);
    lemma_prefix_boundary(a, b);
}

} // verus!
