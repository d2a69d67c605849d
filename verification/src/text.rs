//! Text: searching, splitting and trimming, stated over the characters of a string.
use vstd::prelude::*;
use vstd::string::*;
use vstd::utf8::*;

use crate::outside::{is_white_space, white_space};

verus! {

/// Whether `pattern` occurs in `text` as a run of consecutive characters.
pub open spec fn mentions(text: Seq<char>, pattern: Seq<char>) -> bool {
    exists|i: int| occurs_at(text, pattern, i)
}

/// Whether `pattern` stands in `text` at the character index `i`.
pub open spec fn occurs_at(text: Seq<char>, pattern: Seq<char>, i: int) -> bool {
    0 <= i && i + pattern.len() <= text.len() && text.subrange(i, i + pattern.len()) == pattern
}

/// Whether `text` begins with `pattern`.
pub open spec fn begins_with(text: Seq<char>, pattern: Seq<char>) -> bool {
    occurs_at(text, pattern, 0)
}

/// The number of bytes that `text` takes in UTF-8.
pub open spec fn byte_len(text: Seq<char>) -> nat {
    encode_utf8(text).len()
}

/// The encoding of a concatenation is the concatenation of the encodings.
pub proof fn lemma_encode_concat(a: Seq<char>, b: Seq<char>)
    ensures
        encode_utf8(a + b) == encode_utf8(a) + encode_utf8(b),
    decreases a.len(),
{
    if a.len() == 0 {
        assert(a + b =~= b);
        assert(encode_utf8(a) + encode_utf8(b) =~= encode_utf8(b));
    } else {
        assert((a + b).drop_first() =~= a.drop_first() + b);
        assert((a + b)[0] == a[0]);
        lemma_encode_concat(a.drop_first(), b);
        assert(encode_utf8(a + b) =~= encode_utf8(a) + encode_utf8(b));
    }
}

/// Equal encodings come from equal texts.
pub proof fn lemma_encode_injective(a: Seq<char>, b: Seq<char>)
    requires
        encode_utf8(a) == encode_utf8(b),
    ensures
        a == b,
{
    encode_utf8_decode_utf8(a);
    encode_utf8_decode_utf8(b);
}

/// Only the empty text takes no bytes.
pub proof fn lemma_no_bytes(text: Seq<char>)
    ensures
        (encode_utf8(text).len() == 0) == (text.len() == 0),
{
    if text.len() > 0 {
        encode_utf8_first_scalar(text);
    }
}

/// Where a valid prefix of valid bytes ends, a character ends.
proof fn lemma_valid_prefix_is_boundary(p: Seq<u8>, r: Seq<u8>)
    requires
        valid_utf8(p),
        valid_utf8(p + r),
    ensures
        is_char_boundary(p + r, p.len() as int),
    decreases p.len(),
{
    if p.len() != 0 {
        let whole = p + r;
        assert(forall|i: int| 0 <= i < p.len() ==> whole[i] == p[i]);
        assert(length_of_first_scalar(whole) == length_of_first_scalar(p));
        assert(pop_first_scalar(whole) =~= pop_first_scalar(p) + r);
        lemma_valid_prefix_is_boundary(pop_first_scalar(p), r);
    }
}

/// A split of the encoding of a text at a character boundary is the encoding of a split of the
/// text.
pub proof fn lemma_split_at(text: Seq<char>, a: Seq<char>, b: Seq<char>, mid: int)
    requires
        is_char_boundary(encode_utf8(text), mid),
        0 <= mid <= encode_utf8(text).len(),
        encode_utf8(a) == encode_utf8(text).subrange(0, mid),
        encode_utf8(b) == encode_utf8(text).subrange(mid, encode_utf8(text).len() as int),
    ensures
        text == a + b,
{
    lemma_encode_concat(a, b);
    assert(encode_utf8(a) + encode_utf8(b) =~= encode_utf8(text));
    lemma_encode_injective(text, a + b);
}

/// A text that occurs in another occurs in it byte for byte.
proof fn lemma_has_to_bytes(text: Seq<char>, pattern: Seq<char>, i: int) -> (k: int)
    requires
        occurs_at(text, pattern, i),
    ensures
        0 <= k,
        k + encode_utf8(pattern).len() <= encode_utf8(text).len(),
        encode_utf8(text).subrange(k, k + encode_utf8(pattern).len()) == encode_utf8(pattern),
        k == encode_utf8(text.take(i)).len(),
{
    let a = text.take(i);
    let c = text.skip(i + pattern.len());
    assert(text =~= a + pattern + c);
    lemma_encode_concat(a + pattern, c);
    lemma_encode_concat(a, pattern);
    let k = encode_utf8(a).len() as int;
    assert(encode_utf8(text).subrange(k, k + encode_utf8(pattern).len()) =~= encode_utf8(pattern));
    k
}

/// Bytes of a text that occur in the bytes of another are an occurrence of the text itself.
proof fn lemma_bytes_to_has(text: Seq<char>, pattern: Seq<char>, k: int)
    requires
        0 <= k,
        k + encode_utf8(pattern).len() <= encode_utf8(text).len(),
        encode_utf8(text).subrange(k, k + encode_utf8(pattern).len()) == encode_utf8(pattern),
        pattern.len() > 0,
    ensures
        mentions(text, pattern),
        k == 0 ==> begins_with(text, pattern),
{
    let bytes = encode_utf8(text);
    let pat = encode_utf8(pattern);
    encode_utf8_valid_utf8(text);
    encode_utf8_valid_utf8(pattern);
    encode_utf8_first_scalar(pattern);
    assert(pat.len() > 0);
    is_char_boundary_start_end_of_seq(pat);
    is_char_boundary_iff_not_is_continuation_byte(pat, 0);
    assert(bytes[k] == bytes.subrange(k, k + pat.len())[0]);
    is_char_boundary_iff_not_is_continuation_byte(bytes, k);
    assert(is_char_boundary(bytes, k));
    valid_utf8_split(bytes, k);
    let head = bytes.subrange(0, k);
    let tail = bytes.subrange(k, bytes.len() as int);
    let rest = bytes.subrange(k + pat.len(), bytes.len() as int);
    assert(tail =~= pat + rest);
    lemma_valid_prefix_is_boundary(pat, rest);
    valid_utf8_split(tail, pat.len() as int);
    assert(rest =~= tail.subrange(pat.len() as int, tail.len() as int));
    let a = decode_utf8(head);
    let c = decode_utf8(rest);
    decode_utf8_encode_utf8(head);
    decode_utf8_encode_utf8(rest);
    lemma_encode_concat(a, pattern);
    lemma_encode_concat(a + pattern, c);
    assert(encode_utf8(a + pattern + c) =~= bytes);
    lemma_encode_injective(text, a + pattern + c);
    assert(text.subrange(a.len() as int, (a.len() + pattern.len()) as int) =~= pattern);
    assert(occurs_at(text, pattern, a.len() as int));
    if k == 0 {
        assert(head =~= Seq::<u8>::empty());
        assert(a.len() == 0);
    }
}

/// Whether `bytes` holds `pattern` at the byte index `at`.
fn bytes_at(bytes: &[u8], pattern: &[u8], at: usize) -> (r: bool)
    requires
        at + pattern@.len() <= bytes@.len(),
    ensures
        r == (bytes@.subrange(at as int, at + pattern@.len()) == pattern@),
{
    let n: usize = bytes.len();
    let mut j: usize = 0;
    while j < pattern.len()
        invariant
            j <= pattern@.len(),
            at + pattern@.len() <= bytes@.len(),
            n == bytes@.len(),
            forall|k: int| 0 <= k < j ==> bytes@[at + k] == pattern@[k],
        decreases pattern@.len() - j,
    {
        if bytes[at + j] != pattern[j] {
            assert(bytes@.subrange(at as int, at + pattern@.len())[j as int] != pattern@[j as int]);
            return false;
        }
        j = j + 1;
    }
    assert(bytes@.subrange(at as int, at + pattern@.len()) =~= pattern@);
    true
}

/// Whether two texts are the same.
pub fn same(a: &str, b: &str) -> (r: bool)
    ensures
        r == (a@ == b@),
{
    let x = a.as_bytes();
    let y = b.as_bytes();
    if x.len() != y.len() {
        return false;
    }
    let r = bytes_at(x, y, 0);
    assert(x@.subrange(0, y@.len() as int) =~= x@);
    proof {
        if r {
            lemma_encode_injective(a@, b@);
        }
    }
    r
}

/// Whether `pattern` occurs in `text`.
pub fn contains(text: &str, pattern: &str) -> (r: bool)
    ensures
        r == mentions(text@, pattern@),
{
    let bytes = text.as_bytes();
    let pat = pattern.as_bytes();
    if pat.len() == 0 {
        proof {
            if pattern@.len() > 0 {
                encode_utf8_first_scalar(pattern@);
            }
            assert(text@.subrange(0, 0) =~= pattern@);
            assert(occurs_at(text@, pattern@, 0));
        }
        return true;
    }
    let mut k: usize = 0;
    while pat.len() <= bytes.len() && k <= bytes.len() - pat.len()
        invariant
            bytes@ == encode_utf8(text@),
            pat@ == encode_utf8(pattern@),
            pat@.len() > 0,
            k <= bytes@.len(),
            forall|j: int|
                0 <= j < k && j + pat@.len() <= bytes@.len() ==> #[trigger] bytes@.subrange(
                    j,
                    j + pat@.len(),
                ) != pat@,
        decreases bytes@.len() - k,
    {
        if bytes_at(bytes, pat, k) {
            proof {
                lemma_bytes_to_has(text@, pattern@, k as int);
            }
            return true;
        }
        k = k + 1;
    }
    proof {
        if mentions(text@, pattern@) {
            let i = choose|i: int| occurs_at(text@, pattern@, i);
            let j = lemma_has_to_bytes(text@, pattern@, i);
            assert(bytes@.subrange(j, j + pat@.len()) == pat@);
        }
    }
    false
}

/// Whether `text` begins with `pattern`.
pub fn starts_with(text: &str, pattern: &str) -> (r: bool)
    ensures
        r == begins_with(text@, pattern@),
{
    let bytes = text.as_bytes();
    let pat = pattern.as_bytes();
    proof {
        if begins_with(text@, pattern@) {
            let j = lemma_has_to_bytes(text@, pattern@, 0);
            assert(text@.take(0) =~= Seq::<char>::empty());
        }
        if pattern@.len() == 0 {
            assert(text@.subrange(0, 0) =~= pattern@);
        }
    }
    if pat.len() > bytes.len() {
        return false;
    }
    let r = bytes_at(bytes, pat, 0);
    proof {
        if r && pattern@.len() > 0 {
            lemma_bytes_to_has(text@, pattern@, 0);
        }
    }
    r
}


/// The index of the first `c` in `text`, or the length of `text` where it holds none.
pub open spec fn find_char(text: Seq<char>, c: char) -> int
    decreases text.len(),
{
    if text.len() == 0 || text[0] == c {
        0
    } else {
        1 + find_char(text.drop_first(), c)
    }
}

/// What `find_char` gives is the first index at which `c` stands.
pub proof fn lemma_find_char(text: Seq<char>, c: char)
    ensures
        0 <= find_char(text, c) <= text.len(),
        forall|i: int| 0 <= i < find_char(text, c) ==> text[i] != c,
        find_char(text, c) < text.len() ==> text[find_char(text, c)] == c,
    decreases text.len(),
{
    if text.len() != 0 && text[0] != c {
        lemma_find_char(text.drop_first(), c);
        assert forall|i: int| 0 <= i < find_char(text, c) implies text[i] != c by {
            if i > 0 {
                assert(text[i] == text.drop_first()[i - 1]);
            }
        }
    }
}

/// An index with no `c` before it, and `c` at it or nothing after it, is that of `find_char`.
pub proof fn lemma_find_char_unique(text: Seq<char>, c: char, k: int)
    requires
        0 <= k <= text.len(),
        forall|i: int| 0 <= i < k ==> text[i] != c,
        k < text.len() ==> text[k] == c,
    ensures
        find_char(text, c) == k,
{
    lemma_find_char(text, c);
    let f = find_char(text, c);
    if f < k {
        assert(text[f] != c);
    } else if k < f {
        assert(text[k] != c);
    }
}

/// A character below 128 is encoded by its own number.
proof fn lemma_ascii_char(c: char)
    requires
        (c as u32) < 128,
    ensures
        leading_byte_width_1(c as u32) == c as u8,
{
    let v: u32 = c as u32;
    assert((v & 0x7F) as u8 == v as u8) by (bit_vector)
        requires
            v < 128,
    ;
}

/// A character below 128 is one byte of the encoding, at the place where its prefix ends.
proof fn lemma_ascii_in_bytes(text: Seq<char>, i: int)
    requires
        0 <= i < text.len(),
        (text[i] as u32) < 128,
    ensures
        encode_utf8(text.take(i)).len() < encode_utf8(text).len(),
        encode_utf8(text)[encode_utf8(text.take(i)).len() as int] == text[i] as u8,
{
    let a = text.take(i);
    let m = seq![text[i]];
    let c = text.skip(i + 1);
    assert(text =~= a + m + c);
    lemma_encode_concat(a + m, c);
    lemma_encode_concat(a, m);
    let v: u32 = text[i] as u32;
    lemma_ascii_char(text[i]);
    assert(m.drop_first() =~= Seq::<char>::empty());
    assert(encode_utf8(m.drop_first()) =~= Seq::<u8>::empty());
    assert(encode_utf8(m) =~= encode_scalar(v));
}

/// A text whose first byte is below 128 begins with that character, which is one byte.
proof fn lemma_ascii_head(rest: Seq<char>, sep: u8)
    requires
        sep < 128,
        encode_utf8(rest).len() > 0,
        encode_utf8(rest)[0] == sep,
    ensures
        rest.len() > 0,
        rest[0] == sep as char,
        is_char_boundary(encode_utf8(rest), 1),
{
    encode_utf8_valid_utf8(rest);
    if rest.len() == 0 {
        assert(encode_utf8(rest).len() == 0);
    }
    encode_utf8_first_scalar(rest);
    assert((sep & 0x7F) as u32 == sep as u32) by (bit_vector)
        requires
            sep < 128,
    ;
    char_u32_cast(rest[0], sep as u32);
    reveal_with_fuel(is_char_boundary, 2);
}

/// The two cuts that `split_once` makes, at the first byte `sep` and behind it, split the text at
/// the first character `sep`.
proof fn lemma_split_once(
    text: Seq<char>,
    a: Seq<char>,
    rest: Seq<char>,
    dot: Seq<char>,
    b: Seq<char>,
    sep: u8,
    k: int,
)
    requires
        sep < 128,
        0 <= k < encode_utf8(text).len(),
        forall|j: int| 0 <= j < k ==> encode_utf8(text)[j] != sep,
        text == a + rest,
        encode_utf8(a).len() == k,
        rest.len() > 0,
        rest[0] == sep as char,
        is_char_boundary(encode_utf8(rest), 1),
        encode_utf8(dot) == encode_utf8(rest).subrange(0, 1),
        encode_utf8(b) == encode_utf8(rest).subrange(1, encode_utf8(rest).len() as int),
    ensures
        find_char(text, sep as char) == a.len(),
        a.len() < text.len(),
        a == text.take(a.len() as int),
        b == text.skip((a.len() + 1) as int),
{
    let c = sep as char;
    let one = seq![c];
    encode_utf8_first_scalar(rest);
    lemma_split_at(rest, dot, b, 1);
    assert(one.drop_first() =~= Seq::<char>::empty());
    assert(encode_utf8(one.drop_first()) =~= Seq::<u8>::empty());
    assert(encode_utf8(one).len() == 1);
    assert(rest =~= one + rest.drop_first());
    lemma_encode_concat(one, rest.drop_first());
    assert(encode_utf8(dot) =~= encode_utf8(one));
    lemma_encode_injective(dot, one);
    assert forall|j: int| 0 <= j < a.len() implies text[j] != c by {
        if text[j] == c {
            lemma_ascii_in_bytes(text, j);
            let mid = text.subrange(j, a.len() as int);
            assert(text.take(j) + mid =~= a);
            lemma_encode_concat(text.take(j), mid);
            encode_utf8_first_scalar(mid);
            assert(encode_utf8(text)[encode_utf8(text.take(j)).len() as int] == sep);
        }
    }
    lemma_find_char_unique(text, c, a.len() as int);
    assert(a =~= text.take(a.len() as int));
    assert(b =~= text.skip((a.len() + 1) as int));
}

/// Splits `text` at the first `sep`, which is left out of both parts; `None` where there is none.
pub fn split_once<'a>(text: &'a str, sep: u8) -> (r: Option<(&'a str, &'a str)>)
    requires
        sep < 128,
    ensures
        match r {
            Some((a, b)) => {
                &&& find_char(text@, sep as char) < text@.len()
                &&& a@ == text@.take(find_char(text@, sep as char))
                &&& b@ == text@.skip(find_char(text@, sep as char) + 1)
            },
            None => find_char(text@, sep as char) == text@.len(),
        },
{
    let bytes = text.as_bytes();
    let ghost c = sep as char;
    let mut k: usize = 0;
    while k < bytes.len()
        invariant
            bytes@ == encode_utf8(text@),
            k <= bytes@.len(),
            forall|j: int| 0 <= j < k ==> bytes@[j] != sep,
            sep < 128,
            c == sep as char,
        decreases bytes@.len() - k,
    {
        if bytes[k] == sep {
            proof {
                encode_utf8_valid_utf8(text@);
                is_char_boundary_iff_not_is_continuation_byte(bytes@, k as int);
            }
            let (a, rest) = text.split_at(k);
            proof {
                lemma_split_at(text@, a@, rest@, k as int);
                lemma_ascii_head(rest@, sep);
            }
            let (dot, b) = rest.split_at(1);
            proof {
                lemma_split_once(text@, a@, rest@, dot@, b@, sep, k as int);
            }
            return Some((a, b));
        }
        k = k + 1;
    }
    proof {
        lemma_find_char(text@, c);
        let f = find_char(text@, c);
        if f < text@.len() {
            lemma_ascii_in_bytes(text@, f);
            assert(bytes@[encode_utf8(text@.take(f)).len() as int] == sep);
        }
    }
    None
}

/// `line` without a carriage return at its end.
pub open spec fn strip_cr(line: Seq<char>) -> Seq<char> {
    if line.len() > 0 && line.last() == '\r' {
        line.drop_last()
    } else {
        line
    }
}

/// The lines of `text`: each ends in a line feed, with or without a carriage return before it,
/// which are no part of the line. What follows the last line feed is a line where it is not empty.
pub open spec fn lines(text: Seq<char>) -> Seq<Seq<char>>
    decreases text.len(),
{
    let k = find_char(text, '\n');
    if text.len() == 0 {
        Seq::empty()
    } else if 0 <= k < text.len() {
        seq![strip_cr(text.take(k))] + lines(text.skip(k + 1))
    } else {
        seq![text]
    }
}

/// The texts that a list of string slices holds.
pub open spec fn texts(v: Seq<&str>) -> Seq<Seq<char>> {
    Seq::new(v.len(), |i: int| v[i]@)
}

/// `line` without a carriage return at its end.
fn without_cr<'a>(line: &'a str) -> (r: &'a str)
    ensures
        r@ == strip_cr(line@),
{
    let bytes = line.as_bytes();
    if bytes.len() == 0 {
        proof {
            if line@.len() > 0 {
                encode_utf8_first_scalar(line@);
            }
        }
        return line;
    }
    let last: usize = bytes.len() - 1;
    proof {
        encode_utf8_valid_utf8(line@);
        let n = line@.len();
        if n > 0 && line@.last() == '\r' {
            lemma_ascii_in_bytes(line@, n - 1);
            let a = line@.drop_last();
            assert(a =~= line@.take(n - 1));
            let m = seq!['\r'];
            assert(line@ =~= a + m);
            lemma_encode_concat(a, m);
            assert(m.drop_first() =~= Seq::<char>::empty());
            assert(encode_utf8(m.drop_first()) =~= Seq::<u8>::empty());
            assert(encode_utf8(m).len() == 1);
            assert(bytes@[last as int] == 13);
        }
    }
    if bytes[last] != 13 {
        return line;
    }
    proof {
        is_char_boundary_iff_not_is_continuation_byte(bytes@, last as int);
    }
    let (a, cr) = line.split_at(last);
    proof {
        lemma_split_at(line@, a@, cr@, last as int);
        let m = seq!['\r'];
        assert(m.drop_first() =~= Seq::<char>::empty());
        assert(encode_utf8(m.drop_first()) =~= Seq::<u8>::empty());
        assert((13u32 & 0x7F) as u8 == 13u8) by (bit_vector);
        assert(encode_utf8(m) =~= seq![13u8]);
        assert(encode_utf8(cr@) =~= encode_utf8(m));
        lemma_encode_injective(cr@, m);
        assert(line@.drop_last() =~= a@);
    }
    a
}

/// The lines of `text`.
pub fn lines_of<'a>(text: &'a str) -> (r: Vec<&'a str>)
    ensures
        texts(r@) == lines(text@),
{
    let mut out: Vec<&'a str> = Vec::new();
    let mut rest: &'a str = text;
    proof {
        assert(texts(out@) + lines(rest@) =~= lines(text@));
    }
    while !rest.is_empty()
        invariant
            texts(out@) + lines(rest@) == lines(text@),
        decreases rest@.len(),
    {
        let ghost before = texts(out@);
        proof {
            lemma_find_char(rest@, '\n');
        }
        match split_once(rest, 10) {
            Some((line, tail)) => {
                let line = without_cr(line);
                out.push(line);
                proof {
                    assert(texts(out@) =~= before.push(line@));
                    assert(before + lines(rest@) =~= texts(out@) + lines(tail@));
                }
                rest = tail;
            },
            None => {
                out.push(rest);
                proof {
                    assert(texts(out@) =~= before.push(rest@));
                    assert(before + lines(rest@) =~= texts(out@));
                }
                return out;
            },
        }
    }
    assert(lines(rest@) =~= Seq::<Seq<char>>::empty());
    assert(texts(out@) =~= lines(text@));
    out
}

/// `text` from its first character that is no white space.
pub open spec fn trim_start(text: Seq<char>) -> Seq<char>
    decreases text.len(),
{
    if text.len() > 0 && white_space(text[0]) {
        trim_start(text.drop_first())
    } else {
        text
    }
}

/// `text` up to its last character that is no white space.
pub open spec fn trim_end(text: Seq<char>) -> Seq<char>
    decreases text.len(),
{
    if text.len() > 0 && white_space(text.last()) {
        trim_end(text.drop_last())
    } else {
        text
    }
}

/// `text` without the white space at its two ends.
pub open spec fn trim(text: Seq<char>) -> Seq<char> {
    trim_end(trim_start(text))
}

/// The characters of `text`.
pub fn chars_of(text: &str) -> (r: Vec<char>)
    ensures
        r@ == text@,
{
    let mut out: Vec<char> = Vec::new();
    for c in it: text.chars()
        invariant
            out@ == it.seq().take(it.index()),
            it.seq() == text@,
    {
        out.push(c);
        assert(out@ =~= it.seq().take(it.index() + 1));
    }
    assert(out@ =~= text@);
    out
}

/// `text` without the white space at its two ends.
pub fn trimmed<'a>(text: &'a str) -> (r: &'a str)
    ensures
        r@ == trim(text@),
{
    let chars = chars_of(text);
    let n: usize = chars.len();
    let mut i: usize = 0;
    assert(text@.skip(0) =~= text@);
    while i < n && is_white_space(chars[i])
        invariant
            i <= n,
            n == chars@.len(),
            chars@ == text@,
            trim_start(text@) == trim_start(text@.skip(i as int)),
        decreases n - i,
    {
        assert(text@.skip(i as int).drop_first() =~= text@.skip(i + 1));
        i = i + 1;
    }
    assert(trim_start(text@) == text@.skip(i as int));
    let mut j: usize = n;
    assert(text@.subrange(i as int, n as int) =~= text@.skip(i as int));
    while i < j && is_white_space(chars[j - 1])
        invariant
            i <= j <= n,
            n == chars@.len(),
            chars@ == text@,
            trim(text@) == trim_end(text@.subrange(i as int, j as int)),
        decreases j,
    {
        assert(text@.subrange(i as int, j as int).drop_last() =~= text@.subrange(
            i as int,
            j - 1,
        ));
        j = j - 1;
    }
    text.substring_char(i, j)
}

/// Trimming shortens.
pub proof fn lemma_trim_len(text: Seq<char>)
    ensures
        trim(text).len() <= text.len(),
{
    lemma_trim_start_len(text);
    lemma_trim_end_len(trim_start(text));
}

proof fn lemma_trim_start_len(text: Seq<char>)
    ensures
        trim_start(text).len() <= text.len(),
    decreases text.len(),
{
    if text.len() > 0 && white_space(text[0]) {
        lemma_trim_start_len(text.drop_first());
    }
}

proof fn lemma_trim_end_len(text: Seq<char>)
    ensures
        trim_end(text).len() <= text.len(),
    decreases text.len(),
{
    if text.len() > 0 && white_space(text.last()) {
        lemma_trim_end_len(text.drop_last());
    }
}

/// Trimming keeps every character that is no white space.
pub proof fn lemma_trim_keeps(text: Seq<char>, c: char)
    requires
        text.contains(c),
        !white_space(c),
    ensures
        trim(text).contains(c),
{
    lemma_trim_start_keeps(text, c);
    lemma_trim_end_keeps(trim_start(text), c);
}

proof fn lemma_trim_start_keeps(text: Seq<char>, c: char)
    requires
        text.contains(c),
        !white_space(c),
    ensures
        trim_start(text).contains(c),
    decreases text.len(),
{
    if text.len() > 0 && white_space(text[0]) {
        let k = choose|k: int| 0 <= k < text.len() && text[k] == c;
        assert(text.drop_first()[k - 1] == c);
        lemma_trim_start_keeps(text.drop_first(), c);
    }
}

proof fn lemma_trim_end_keeps(text: Seq<char>, c: char)
    requires
        text.contains(c),
        !white_space(c),
    ensures
        trim_end(text).contains(c),
    decreases text.len(),
{
    if text.len() > 0 && white_space(text.last()) {
        let k = choose|k: int| 0 <= k < text.len() && text[k] == c;
        assert(text.drop_last()[k] == c);
        lemma_trim_end_keeps(text.drop_last(), c);
    }
}

/// Where, from `k` on, the last of `open` parentheses that were opened before is closed; the length
/// of `text` where that is nowhere.
pub open spec fn closing(text: Seq<char>, k: int, open: int) -> int
    decreases text.len() - k,
{
    if k >= text.len() {
        text.len() as int
    } else if text[k] == '(' {
        closing(text, k + 1, open + 1)
    } else if text[k] == ')' {
        if open <= 1 {
            k
        } else {
            closing(text, k + 1, open - 1)
        }
    } else {
        closing(text, k + 1, open)
    }
}

/// `text` without the parentheses round it, and without those before it that it does not close.
pub open spec fn bare(text: Seq<char>) -> Seq<char>
    decreases text.len(),
{
    proof {
        lemma_trim_len(text);
    }
    let t = trim(text);
    if t.len() == 0 || t[0] != '(' {
        t
    } else if closing(t, 1, 1) == t.len() {
        bare(t.skip(1))
    } else if closing(t, 1, 1) == t.len() - 1 {
        bare(t.subrange(1, t.len() - 1))
    } else {
        t
    }
}

/// `text` without the parentheses round it, and without those before it that it does not close.
pub fn bare_text<'a>(text: &'a str) -> (r: &'a str)
    ensures
        r@ == bare(text@),
    decreases text@.len(),
{
    proof {
        lemma_trim_len(text@);
    }
    let t = trimmed(text);
    let chars = chars_of(t);
    let n: usize = chars.len();
    if n == 0 || chars[0] != '(' {
        return t;
    }
    let mut k: usize = 1;
    let mut open: usize = 1;
    while k < n && !(chars[k] == ')' && open == 1)
        invariant
            1 <= k <= n,
            1 <= open <= k,
            n == chars@.len(),
            chars@ == t@,
            closing(t@, 1, 1) == closing(t@, k as int, open as int),
        decreases n - k,
    {
        if chars[k] == '(' {
            open = open + 1;
        } else if chars[k] == ')' {
            open = open - 1;
        }
        k = k + 1;
    }
    assert(closing(t@, 1, 1) == k);
    if k == n {
        bare_text(t.substring_char(1, n))
    } else if k == n - 1 {
        bare_text(t.substring_char(1, n - 1))
    } else {
        t
    }
}

/// The index at which `pattern` first stands in `text`, or the length of `text` where it does not.
pub open spec fn find_text(text: Seq<char>, pattern: Seq<char>) -> int
    decreases text.len(),
{
    if text.len() == 0 || occurs_at(text, pattern, 0) {
        0
    } else {
        1 + find_text(text.drop_first(), pattern)
    }
}

/// Where a pattern stands in a text, and nowhere before, it is found.
pub(crate) proof fn lemma_find_text(text: Seq<char>, pattern: Seq<char>, i: int)
    requires
        occurs_at(text, pattern, i),
        forall|j: int| 0 <= j < i ==> !occurs_at(text, pattern, j),
        pattern.len() > 0,
    ensures
        find_text(text, pattern) == i,
    decreases text.len(),
{
    if i > 0 {
        let rest = text.drop_first();
        assert(!occurs_at(text, pattern, 0));
        assert(text.subrange(i, i + pattern.len()) =~= rest.subrange(i - 1, i - 1 + pattern.len()));
        assert forall|j: int| 0 <= j < i - 1 implies !occurs_at(rest, pattern, j) by {
            if occurs_at(rest, pattern, j) {
                assert(text.subrange(j + 1, j + 1 + pattern.len()) =~= rest.subrange(
                    j,
                    j + pattern.len(),
                ));
                assert(occurs_at(text, pattern, j + 1));
            }
        }
        lemma_find_text(rest, pattern, i - 1);
    }
}

/// Whether `part` stands in `chars` at the index `i`.
fn stands_at(chars: &Vec<char>, part: &Vec<char>, i: usize) -> (r: bool)
    requires
        i <= chars@.len(),
    ensures
        r == occurs_at(chars@, part@, i as int),
{
    let m: usize = part.len();
    let n: usize = chars.len();
    if m > n - i {
        return false;
    }
    let mut k: usize = 0;
    while k < m
        invariant
            k <= m,
            m == part@.len(),
            n == chars@.len(),
            i + m <= n,
            forall|j: int| 0 <= j < k ==> chars@[i + j] == #[trigger] part@[j],
        decreases m - k,
    {
        if chars[i + k] != part[k] {
            assert(chars@.subrange(i as int, i + m)[k as int] != part@[k as int]);
            return false;
        }
        k = k + 1;
    }
    assert(chars@.subrange(i as int, i + m) =~= part@);
    true
}

/// The part of `text` before the first `pattern`; `None` where it does not occur.
pub fn before_text<'a>(text: &'a str, pattern: &str) -> (r: Option<&'a str>)
    requires
        pattern@.len() > 0,
    ensures
        match r {
            Some(a) => mentions(text@, pattern@) && a@ == text@.take(find_text(text@, pattern@)),
            None => !mentions(text@, pattern@),
        },
{
    let chars = chars_of(text);
    let part = chars_of(pattern);
    let mut i: usize = 0;
    while i < chars.len()
        invariant
            i <= chars@.len(),
            chars@ == text@,
            part@ == pattern@,
            pattern@.len() > 0,
            forall|j: int| 0 <= j < i ==> !occurs_at(text@, pattern@, j),
        decreases chars@.len() - i,
    {
        if stands_at(&chars, &part, i) {
            proof {
                lemma_find_text(text@, pattern@, i as int);
            }
            let a = text.substring_char(0, i);
            assert(a@ =~= text@.take(i as int));
            return Some(a);
        }
        i = i + 1;
    }
    None
}

/// The number that a run of decimal digits stands for.
pub open spec fn decimal_value(digits: Seq<char>) -> int
    decreases digits.len(),
{
    if digits.len() == 0 {
        0
    } else {
        decimal_value(digits.drop_last()) * 10 + (digits.last() as int - '0' as int)
    }
}

/// Whether every character is a decimal digit.
pub open spec fn all_digits(text: Seq<char>) -> bool {
    forall|i: int| 0 <= i < text.len() ==> '0' <= #[trigger] text[i] <= '9'
}

/// Whether `text` begins with a plus or a minus sign.
pub open spec fn signed(text: Seq<char>) -> bool {
    text.len() > 0 && (text[0] == '+' || text[0] == '-')
}

/// Whether `text` is a decimal number that fits in 64 bits with a sign: a sign or none, then at
/// least one digit and nothing else.
pub open spec fn is_integer(text: Seq<char>) -> bool {
    let digits = if signed(text) {
        text.drop_first()
    } else {
        text
    };
    &&& digits.len() > 0
    &&& all_digits(digits)
    &&& if text[0] == '-' {
        decimal_value(digits) <= 0x8000_0000_0000_0000
    } else {
        decimal_value(digits) < 0x8000_0000_0000_0000
    }
}

/// Whether `text` is a decimal number that fits in an `i64`.
pub fn parses_as_integer(text: &str) -> (r: bool)
    ensures
        r == is_integer(text@),
{
    let chars = chars_of(text);
    let n: usize = chars.len();
    if n == 0 {
        return false;
    }
    let negative = chars[0] == '-';
    let start: usize = if chars[0] == '+' || negative {
        1
    } else {
        0
    };
    let ghost digits = text@.skip(start as int);
    assert(digits =~= if signed(text@) {
        text@.drop_first()
    } else {
        text@
    });
    if start == n {
        return false;
    }
    let mut value: u64 = 0;
    let mut fits = true;
    let mut i: usize = start;
    assert(digits.take(0) =~= Seq::<char>::empty());
    while i < n
        invariant
            start <= i <= n,
            n == chars@.len(),
            chars@ == text@,
            digits == text@.skip(start as int),
            digits == (if signed(text@) {
                text@.drop_first()
            } else {
                text@
            }),
            forall|k: int| 0 <= k < i - start ==> '0' <= #[trigger] digits[k] <= '9',
            fits ==> value == decimal_value(digits.take(i - start)),
            fits ==> value <= 0x8000_0000_0000_0000,
            !fits ==> decimal_value(digits.take(i - start)) > 0x8000_0000_0000_0000,
        decreases n - i,
    {
        let c = chars[i];
        assert(c == digits[i - start]);
        if c < '0' || c > '9' {
            assert(!all_digits(digits));
            return false;
        }
        let d: u64 = c as u64 - '0' as u64;
        proof {
            let k = i - start;
            assert(digits.take(k + 1).drop_last() =~= digits.take(k));
            assert(digits.take(k + 1).last() == c);
            assert(d as int == c as int - '0' as int);
        }
        if fits {
            if value > 922337203685477580 || value * 10 + d > 0x8000_0000_0000_0000 {
                fits = false;
            } else {
                value = value * 10 + d;
            }
        }
        i = i + 1;
    }
    assert(digits.take(n - start) =~= digits);
    fits && (value < 0x8000_0000_0000_0000 || negative)
}

/// The decimal digit of a number below ten.
pub open spec fn digit(d: nat) -> Seq<char> {
    if d == 0 {
        "0"@
    } else if d == 1 {
        "1"@
    } else if d == 2 {
        "2"@
    } else if d == 3 {
        "3"@
    } else if d == 4 {
        "4"@
    } else if d == 5 {
        "5"@
    } else if d == 6 {
        "6"@
    } else if d == 7 {
        "7"@
    } else if d == 8 {
        "8"@
    } else {
        "9"@
    }
}

/// The decimal digits of `n`.
pub open spec fn decimal(n: nat) -> Seq<char>
    decreases n,
{
    if n < 10 {
        digit(n)
    } else {
        decimal(n / 10) + digit(n % 10)
    }
}

/// The decimal digits of `n`.
pub fn decimal_text(n: usize) -> (r: String)
    ensures
        r@ == decimal(n as nat),
    decreases n,
{
    if n < 10 {
        digit_text(n).to_owned()
    } else {
        let mut out = decimal_text(n / 10);
        out.append(digit_text(n % 10));
        out
    }
}

fn digit_text(d: usize) -> (r: &'static str)
    requires
        d < 10,
    ensures
        r@ == digit(d as nat),
{
    match d {
        0 => "0",
        1 => "1",
        2 => "2",
        3 => "3",
        4 => "4",
        5 => "5",
        6 => "6",
        7 => "7",
        8 => "8",
        _ => "9",
    }
}

/// `a` followed by `b`.
pub fn glue(a: &str, b: &str) -> (r: String)
    ensures
        r@ == a@ + b@,
{
    let mut out = a.to_owned();
    out.append(b);
    out
}

/// `a` followed by `b` and `c`.
pub fn glue3(a: &str, b: &str, c: &str) -> (r: String)
    ensures
        r@ == a@ + b@ + c@,
{
    let mut out = a.to_owned();
    out.append(b);
    out.append(c);
    out
}

/// `text`, `n` times over.
pub open spec fn repeated(text: Seq<char>, n: nat) -> Seq<char>
    decreases n,
{
    if n == 0 {
        Seq::empty()
    } else {
        repeated(text, (n - 1) as nat) + text
    }
}

/// `text`, `n` times over.
pub fn repeat_text(text: &str, n: usize) -> (r: String)
    ensures
        r@ == repeated(text@, n as nat),
{
    let mut out = String::new();
    let mut i: usize = 0;
    while i < n
        invariant
            i <= n,
            out@ == repeated(text@, i as nat),
        decreases n - i,
    {
        out.append(text);
        i = i + 1;
    }
    out
}

/// Four texts one after the other.
pub fn glue4(a: &str, b: &str, c: &str, d: &str) -> (r: String)
    ensures
        r@ == a@ + b@ + c@ + d@,
{
    let start = glue3(a, b, c);
    glue(start.as_str(), d)
}

/// The parts of `text` between the separators `sep`.
pub open spec fn split(text: Seq<char>, sep: char) -> Seq<Seq<char>>
    decreases text.len(),
{
    let k = find_char(text, sep);
    if 0 <= k < text.len() {
        seq![text.take(k)] + split(text.skip(k + 1), sep)
    } else {
        seq![text]
    }
}

/// The parts of `text` between the separators `sep`.
pub fn split_all<'a>(text: &'a str, sep: u8) -> (r: Vec<&'a str>)
    requires
        sep < 128,
    ensures
        texts(r@) == split(text@, sep as char),
{
    let ghost c = sep as char;
    let mut out: Vec<&'a str> = Vec::new();
    let mut rest: &'a str = text;
    assert(texts(out@) + split(rest@, c) =~= split(text@, c));
    loop
        invariant
            sep < 128,
            c == sep as char,
            texts(out@) + split(rest@, c) == split(text@, c),
        decreases rest@.len(),
    {
        proof {
            lemma_find_char(rest@, c);
        }
        let ghost before = texts(out@);
        match split_once(rest, sep) {
            Some((a, b)) => {
                out.push(a);
                proof {
                    assert(texts(out@) =~= before.push(a@));
                    assert(before + (seq![a@] + split(b@, c)) =~= texts(out@) + split(b@, c));
                }
                rest = b;
            },
            None => {
                out.push(rest);
                proof {
                    assert(texts(out@) =~= before.push(rest@));
                    assert(texts(out@) =~= before + seq![rest@]);
                }
                return out;
            },
        }
    }
}

/// The texts of strings.
pub open spec fn strings(v: Seq<String>) -> Seq<Seq<char>> {
    Seq::new(v.len(), |i: int| v[i]@)
}

/// Texts one after the other, with `sep` between them.
pub open spec fn join(parts: Seq<Seq<char>>, sep: Seq<char>) -> Seq<char>
    decreases parts.len(),
{
    if parts.len() == 0 {
        Seq::empty()
    } else if parts.len() == 1 {
        parts[0]
    } else {
        join(parts.drop_last(), sep) + sep + parts.last()
    }
}

/// Texts one after the other, with `sep` between them.
pub fn joined(parts: &Vec<String>, sep: &str) -> (r: String)
    ensures
        r@ == join(strings(parts@), sep@),
{
    let mut out = String::new();
    let mut k: usize = 0;
    let ghost all = strings(parts@);
    assert(out@ =~= join(all.take(0), sep@));
    while k < parts.len()
        invariant
            k <= parts@.len(),
            all == strings(parts@),
            out@ == join(all.take(k as int), sep@),
        decreases parts@.len() - k,
    {
        let ghost more = all.take(k + 1);
        assert(more.drop_last() =~= all.take(k as int));
        assert(all[k as int] == parts@[k as int]@);
        assert(more.last() == parts@[k as int]@);
        if k > 0 {
            out.append(sep);
        }
        let ghost start = out@;
        out.append(parts[k].as_str());
        if k == 0 {
            assert(start =~= Seq::<char>::empty());
            assert(out@ =~= parts@[0]@);
            assert(more[0] == parts@[0]@);
        }
        k = k + 1;
    }
    assert(all.take(k as int) =~= all);
    out
}

/// The order of texts: character by character, a text before its continuations.
pub open spec fn less(a: Seq<char>, b: Seq<char>) -> bool
    decreases a.len(),
{
    if b.len() == 0 {
        false
    } else if a.len() == 0 {
        true
    } else if a[0] == b[0] {
        less(a.drop_first(), b.drop_first())
    } else {
        a[0] < b[0]
    }
}

/// Whether `a` comes before `b`.
pub fn is_less(a: &str, b: &str) -> (r: bool)
    ensures
        r == less(a@, b@),
{
    let x = chars_of(a);
    let y = chars_of(b);
    let mut i: usize = 0;
    assert(a@.skip(0) =~= a@);
    assert(b@.skip(0) =~= b@);
    while i < x.len() && i < y.len() && x[i] == y[i]
        invariant
            i <= x@.len(),
            i <= y@.len(),
            x@ == a@,
            y@ == b@,
            less(a@, b@) == less(a@.skip(i as int), b@.skip(i as int)),
        decreases x@.len() - i,
    {
        assert(a@.skip(i as int).drop_first() =~= a@.skip(i + 1));
        assert(b@.skip(i as int).drop_first() =~= b@.skip(i + 1));
        i = i + 1;
    }
    if i >= y.len() {
        false
    } else if i >= x.len() {
        true
    } else {
        x[i] < y[i]
    }
}

/// No text comes before itself.
pub proof fn lemma_less_irreflexive(a: Seq<char>)
    ensures
        !less(a, a),
    decreases a.len(),
{
    if a.len() > 0 {
        lemma_less_irreflexive(a.drop_first());
    }
}

/// Of two texts one comes before the other, or they are equal.
pub proof fn lemma_less_total(a: Seq<char>, b: Seq<char>)
    ensures
        less(a, b) || less(b, a) || a == b,
    decreases a.len(),
{
    if a.len() > 0 && b.len() > 0 && a[0] == b[0] {
        lemma_less_total(a.drop_first(), b.drop_first());
        if a.drop_first() == b.drop_first() {
            assert(a =~= seq![a[0]] + a.drop_first());
            assert(b =~= seq![b[0]] + b.drop_first());
        }
    } else if a.len() == 0 && b.len() == 0 {
        assert(a =~= b);
    }
}

/// What comes before a text comes before all that it comes before.
pub proof fn lemma_less_transitive(a: Seq<char>, b: Seq<char>, c: Seq<char>)
    requires
        less(a, b),
        less(b, c),
    ensures
        less(a, c),
    decreases a.len(),
{
    if a.len() > 0 && a[0] == b[0] && b[0] == c[0] {
        lemma_less_transitive(a.drop_first(), b.drop_first(), c.drop_first());
    }
}

/// A text that mentions a pattern mentions what the pattern begins with.
pub proof fn lemma_mentions_longer(text: Seq<char>, pattern: Seq<char>, n: int)
    requires
        0 <= n <= pattern.len(),
    ensures
        mentions(text, pattern) ==> mentions(text, pattern.take(n)),
{
    if mentions(text, pattern) {
        let i = choose|i: int| occurs_at(text, pattern, i);
        assert(text.subrange(i, i + n) =~= text.subrange(i, i + pattern.len()).take(n));
        assert(occurs_at(text, pattern.take(n), i));
    }
}

} // verus!
