//! Text primitives over `String` and `str`, modelled on the `char` sequence
//! of a string and on the byte offsets of its UTF-8 encoding.

use vstd::prelude::*;
use vstd::utf8::*;
use vstd::string::*;

verus! {

/// Number of bytes in the UTF-8 encoding of `c`.
pub open spec fn char_width(c: char) -> nat {
    let v = c as u32;
    if v <= 0x7f {
        1
    } else if v <= 0x7ff {
        2
    } else if v <= 0xffff {
        3
    } else {
        4
    }
}

/// Number of bytes in the UTF-8 encoding of `s` (what `str::len` returns).
pub open spec fn byte_len(s: Seq<char>) -> nat
    decreases s.len(),
{
    if s.len() == 0 {
        0
    } else {
        char_width(s[0]) + byte_len(s.drop_first())
    }
}

/// `b` is the byte offset at which one of the characters of `s` starts, or the end of `s`.
pub open spec fn is_boundary(s: Seq<char>, b: int) -> bool {
    exists|k: int| 0 <= k <= s.len() && #[trigger] byte_len(s.take(k)) == b
}

/// The index of the character that starts at byte offset `b`.
pub open spec fn char_index(s: Seq<char>, b: int) -> int {
    choose|k: int| 0 <= k <= s.len() && #[trigger] byte_len(s.take(k)) == b
}

/// `s` with `c` inserted at byte offset `b`.
pub open spec fn insert_at_byte(s: Seq<char>, b: int, c: char) -> Seq<char> {
    let k = char_index(s, b);
    s.take(k).push(c) + s.skip(k)
}

/// `s` without the character that starts at byte offset `b`.
pub open spec fn remove_at_byte(s: Seq<char>, b: int) -> Seq<char> {
    let k = char_index(s, b);
    s.take(k) + s.skip(k + 1)
}

pub open spec fn is_ascii_char(c: char) -> bool {
    (c as u32) <= 0x7f
}

pub open spec fn all_ascii(s: Seq<char>) -> bool {
    forall|i: int| 0 <= i < s.len() ==> is_ascii_char(#[trigger] s[i])
}

pub proof fn lemma_byte_len_concat(a: Seq<char>, b: Seq<char>)
    ensures
        byte_len(a + b) == byte_len(a) + byte_len(b),
    decreases a.len(),
{
    if a.len() == 0 {
        assert(a + b =~= b);
    } else {
        assert((a + b).drop_first() =~= a.drop_first() + b);
        lemma_byte_len_concat(a.drop_first(), b);
    }
}

pub proof fn lemma_byte_len_single(c: char)
    ensures
        byte_len(seq![c]) == char_width(c),
{
    assert(seq![c].drop_first() =~= Seq::<char>::empty());
    assert(seq![c][0] == c);
    assert(byte_len(Seq::<char>::empty()) == 0);
}

pub proof fn lemma_byte_len_push(s: Seq<char>, c: char)
    ensures
        byte_len(s.push(c)) == byte_len(s) + char_width(c),
{
    assert(s.push(c) =~= s + seq![c]);
    lemma_byte_len_concat(s, seq![c]);
    lemma_byte_len_single(c);
}

/// The byte offsets of the prefixes of `s` grow strictly with the prefix length.
pub proof fn lemma_prefix_byte_len_strict(s: Seq<char>, i: int, j: int)
    requires
        0 <= i < j <= s.len(),
    ensures
        byte_len(s.take(i)) < byte_len(s.take(j)),
    decreases j - i,
{
    assert(s.take(i + 1) =~= s.take(i).push(s[i]));
    lemma_byte_len_push(s.take(i), s[i]);
    if i + 1 < j {
        lemma_prefix_byte_len_strict(s, i + 1, j);
    }
}

pub proof fn lemma_prefix_byte_len_le(s: Seq<char>, i: int)
    requires
        0 <= i <= s.len(),
    ensures
        byte_len(s.take(i)) <= byte_len(s),
{
    assert(s.take(s.len() as int) =~= s);
    if i < s.len() {
        lemma_prefix_byte_len_strict(s, i, s.len() as int);
    }
}

/// The character index of a boundary is the unique prefix length with that byte length.
pub proof fn lemma_char_index_unique(s: Seq<char>, k: int)
    requires
        0 <= k <= s.len(),
    ensures
        is_boundary(s, byte_len(s.take(k)) as int),
        char_index(s, byte_len(s.take(k)) as int) == k,
{
    let b = byte_len(s.take(k)) as int;
    assert(0 <= k <= s.len() && byte_len(s.take(k)) == b);
    let j = char_index(s, b);
    if j < k {
        lemma_prefix_byte_len_strict(s, j, k);
    } else if k < j {
        lemma_prefix_byte_len_strict(s, k, j);
    }
}

pub proof fn lemma_boundary_le_len(s: Seq<char>, b: int)
    requires
        is_boundary(s, b),
    ensures
        0 <= b <= byte_len(s),
        0 <= char_index(s, b) <= s.len(),
        byte_len(s.take(char_index(s, b))) == b,
{
    let k = char_index(s, b);
    lemma_prefix_byte_len_le(s, k);
}

pub proof fn lemma_ascii_byte_len(s: Seq<char>)
    requires
        all_ascii(s),
    ensures
        byte_len(s) == s.len(),
    decreases s.len(),
{
    if s.len() > 0 {
        assert(all_ascii(s.drop_first()));
        lemma_ascii_byte_len(s.drop_first());
    }
}

/// In an ASCII text every offset up to the length is a boundary, at the same character index.
pub proof fn lemma_ascii_boundary(s: Seq<char>, b: int)
    requires
        all_ascii(s),
        0 <= b <= s.len(),
    ensures
        is_boundary(s, b),
        char_index(s, b) == b,
{
    assert(all_ascii(s.take(b)));
    lemma_ascii_byte_len(s.take(b));
    lemma_char_index_unique(s, b);
}


pub proof fn lemma_insert_byte_len(s: Seq<char>, b: int, c: char)
    requires
        is_boundary(s, b),
    ensures
        byte_len(insert_at_byte(s, b, c)) == byte_len(s) + char_width(c),
        b <= byte_len(s),
{
    let k = char_index(s, b);
    lemma_boundary_le_len(s, b);
    assert(s =~= s.take(k) + s.skip(k));
    lemma_byte_len_concat(s.take(k), s.skip(k));
    lemma_byte_len_push(s.take(k), c);
    lemma_byte_len_concat(s.take(k).push(c), s.skip(k));
}

pub open spec fn min_int(a: int, b: int) -> int {
    if a < b {
        a
    } else {
        b
    }
}

/// Inserts `c` into a text at byte offset `*cursor` and moves the cursor one byte on,
/// at most to the end of the text.
pub fn insert_at_cursor(text: &mut String, cursor: &mut usize, c: char)
    requires
        is_boundary(old(text)@, *old(cursor) as int),
    ensures
        final(text)@ == insert_at_byte(old(text)@, *old(cursor) as int, c),
        *final(cursor) == min_int(*old(cursor) + 1, byte_len(final(text)@) as int),
{
    string_insert(text, *cursor, c);
    let len = text_len(text.as_str());
    proof {
        lemma_insert_byte_len(old(text)@, *old(cursor) as int, c);
    }
    let next = *cursor + 1;
    *cursor = if next < len { next } else { len };
}

/// Removes the character before the cursor and moves the cursor back one byte,
/// when the cursor is not at the start.
pub fn backspace_at_cursor(text: &mut String, cursor: &mut usize)
    requires
        *old(cursor) > 0 ==> is_boundary(old(text)@, *old(cursor) - 1) && *old(cursor) - 1
            < byte_len(old(text)@),
    ensures
        *old(cursor) > 0 ==> final(text)@ == remove_at_byte(old(text)@, *old(cursor) - 1)
            && *final(cursor) == *old(cursor) - 1,
        *old(cursor) == 0 ==> final(text)@ == old(text)@ && *final(cursor) == *old(cursor),
{
    if *cursor > 0 {
        string_remove(text, *cursor - 1);
        *cursor = *cursor - 1;
    }
}

/// Removes the character at the cursor, when the cursor is before the end.
pub fn delete_at_cursor(text: &mut String, cursor: usize)
    requires
        cursor < byte_len(old(text)@) ==> is_boundary(old(text)@, cursor as int),
    ensures
        cursor < byte_len(old(text)@) ==> final(text)@ == remove_at_byte(old(text)@, cursor as int),
        cursor >= byte_len(old(text)@) ==> final(text)@ == old(text)@,
{
    if cursor < text_len(text.as_str()) {
        string_remove(text, cursor);
    }
}

/// Moves the cursor one byte on, at most to the end of the text.
pub fn cursor_right(text: &String, cursor: &mut usize)
    requires
        *old(cursor) < usize::MAX,
    ensures
        *final(cursor) == min_int(*old(cursor) + 1, byte_len(text@) as int),
{
    let next = *cursor + 1;
    let len = text_len(text.as_str());
    *cursor = if next < len { next } else { len };
}

/// The UTF-8 encoding of `s` is `byte_len(s)` bytes long.
pub proof fn lemma_encode_len(s: Seq<char>)
    ensures
        encode_utf8(s).len() == byte_len(s),
    decreases s.len(),
{
    if s.len() > 0 {
        char_is_scalar(s[0]);
        lemma_encode_len(s.drop_first());
    }
}

/// Byte length of a string slice, as `str::len` gives it.
pub fn text_len(s: &str) -> (n: usize)
    ensures
        n == byte_len(s@),
{
    let n = s.as_bytes().len();
    proof {
        lemma_encode_len(s@);
    }
    n
}

/// Calls `String::insert`, which puts `c` at byte offset `idx` and panics unless
/// `idx` is the start of a character or the end of the string. The contract claims
/// that the characters of the string become those before the offset, then `c`,
/// then those from the offset on. Running out of memory is not stated.
#[verifier::external_body]
pub(crate) fn string_insert(s: &mut String, idx: usize, c: char)
    requires
        is_boundary(old(s)@, idx as int),
    ensures
        final(s)@ == insert_at_byte(old(s)@, idx as int, c),
{
    s.insert(idx, c)
}

/// Calls `String::remove`, which takes out the character that starts at byte
/// offset `idx` and panics unless such a character starts there. The contract
/// claims that exactly that character leaves the string and is returned.
#[verifier::external_body]
pub(crate) fn string_remove(s: &mut String, idx: usize) -> (r: char)
    requires
        is_boundary(old(s)@, idx as int),
        idx < byte_len(old(s)@),
    ensures
        final(s)@ == remove_at_byte(old(s)@, idx as int),
        r == old(s)@[char_index(old(s)@, idx as int)],
{
    s.remove(idx)
}

/// Calls `String::split_off`, which keeps the bytes before offset `at` and returns
/// the rest, panicking unless `at` is a character boundary. The contract claims the
/// split falls between the characters before and after the offset.
#[verifier::external_body]
pub(crate) fn string_split_off(s: &mut String, at: usize) -> (rest: String)
    requires
        is_boundary(old(s)@, at as int),
    ensures
        final(s)@ == old(s)@.take(char_index(old(s)@, at as int)),
        rest@ == old(s)@.skip(char_index(old(s)@, at as int)),
{
    s.split_off(at)
}

pub proof fn lemma_encode_concat(a: Seq<char>, b: Seq<char>)
    ensures
        encode_utf8(a + b) == encode_utf8(a) + encode_utf8(b),
    decreases a.len(),
{
    if a.len() == 0 {
        assert(a + b =~= b);
        assert(encode_utf8(a) + encode_utf8(b) =~= encode_utf8(b));
    } else {
        assert((a + b).drop_first() =~= a.drop_first() + b);
        assert((a + b)[0] == a[0]);
        lemma_encode_concat(a.drop_first(), b);
        assert(encode_utf8(a + b) =~= encode_utf8(a) + encode_utf8(b));
    }
}

/// A boundary in the character model is a character boundary of the UTF-8 bytes.
pub proof fn lemma_boundary_is_char_boundary(s: Seq<char>, k: int)
    requires
        0 <= k <= s.len(),
    ensures
        is_char_boundary(encode_utf8(s), byte_len(s.take(k)) as int),
    decreases s.len(),
{
    let bytes = encode_utf8(s);
    encode_utf8_valid_utf8(s);
    if k == 0 {
        assert(s.take(0) =~= Seq::<char>::empty());
    } else {
        let t = s.drop_first();
        encode_utf8_first_scalar(s);
        lemma_encode_len(seq![s[0]]);
        lemma_byte_len_single(s[0]);
        assert(pop_first_scalar(bytes) =~= encode_utf8(t));
        assert(s.take(k) =~= seq![s[0]] + t.take(k - 1));
        lemma_byte_len_concat(seq![s[0]], t.take(k - 1));
        lemma_prefix_byte_len_le(s, k);
        lemma_encode_len(s);
        lemma_boundary_is_char_boundary(t, k - 1);
    }
}

/// Splits `s` at byte offset `at`, a character boundary, into the characters
/// before and after it.
pub fn split_text_at(s: &str, at: usize) -> (r: (&str, &str))
    requires
        is_boundary(s@, at as int),
    ensures
        r.0@ == s@.take(char_index(s@, at as int)),
        r.1@ == s@.skip(char_index(s@, at as int)),
{
    let ghost k = char_index(s@, at as int);
    proof {
        lemma_boundary_le_len(s@, at as int);
        lemma_boundary_is_char_boundary(s@, k);
    }
    let r = s.split_at(at);
    proof {
        let bytes = encode_utf8(s@);
        assert(s@ =~= s@.take(k) + s@.skip(k));
        lemma_encode_concat(s@.take(k), s@.skip(k));
        lemma_encode_len(s@.take(k));
        assert(bytes.subrange(0, at as int) =~= encode_utf8(s@.take(k)));
        assert(bytes.subrange(at as int, bytes.len() as int) =~= encode_utf8(s@.skip(k)));
        encode_utf8_decode_utf8(r.0@);
        encode_utf8_decode_utf8(r.1@);
        encode_utf8_decode_utf8(s@.take(k));
        encode_utf8_decode_utf8(s@.skip(k));
    }
    r
}

/// The first `n` characters of `s` (all of them when it has fewer), as
/// `s.chars().take(n).collect()` gives them.
pub fn take_chars(s: &str, n: usize) -> (r: String)
    ensures
        r@ == s@.take(min_int(n as int, s@.len() as int)),
{
    let len = s.unicode_len();
    let m = if n < len { n } else { len };
    let part = s.substring_char(0, m);
    part.to_owned()
}

/// The text that `String::from_utf8_lossy` makes of `bytes`.
pub uninterp spec fn utf8_lossy(bytes: Seq<u8>) -> Seq<char>;

/// Calls `String::from_utf8_lossy` and takes the text as a `String`. The contract
/// names the text, which depends on the bytes alone, and claims what the function's
/// documentation says of valid UTF-8: it is decoded unchanged. (Each invalid
/// sequence becomes U+FFFD; that is left unsaid.)
#[verifier::external_body]
pub(crate) fn lossy_text(bytes: &Vec<u8>) -> (r: String)
    ensures
        r@ == utf8_lossy(bytes@),
        valid_utf8(bytes@) ==> r@ == decode_utf8(bytes@),
{
    String::from_utf8_lossy(bytes).into_owned()
}

/// Calls `String::push`; the contract claims `c` is appended.
#[verifier::external_body]
pub(crate) fn push_char(s: &mut String, c: char)
    ensures
        final(s)@ == old(s)@.push(c),
{
    s.push(c)
}

/// Calls `String::into_bytes`; the contract claims the bytes are the UTF-8 encoding
/// of the characters.
#[verifier::external_body]
pub(crate) fn string_into_bytes(s: String) -> (v: Vec<u8>)
    ensures
        v@ == encode_utf8(s@),
{
    s.into_bytes()
}

/// `char::is_whitespace`: the Unicode `White_Space` property.
pub open spec fn is_whitespace(c: char) -> bool {
    let v = c as u32;
    ||| 0x09 <= v <= 0x0d
    ||| v == 0x20
    ||| v == 0x85
    ||| v == 0xa0
    ||| v == 0x1680
    ||| 0x2000 <= v <= 0x200a
    ||| v == 0x2028
    ||| v == 0x2029
    ||| v == 0x202f
    ||| v == 0x205f
    ||| v == 0x3000
}

pub open spec fn trim_start(s: Seq<char>) -> Seq<char>
    decreases s.len(),
{
    if s.len() > 0 && is_whitespace(s[0]) {
        trim_start(s.drop_first())
    } else {
        s
    }
}

pub open spec fn trim_end(s: Seq<char>) -> Seq<char>
    decreases s.len(),
{
    if s.len() > 0 && is_whitespace(s.last()) {
        trim_end(s.drop_last())
    } else {
        s
    }
}

/// Whether `s` holds nothing but whitespace (the empty text included).
pub open spec fn is_blank(s: Seq<char>) -> bool {
    forall|i: int| 0 <= i < s.len() ==> is_whitespace(#[trigger] s[i])
}

/// `s` without its leading and trailing whitespace.
pub open spec fn trimmed(s: Seq<char>) -> Seq<char> {
    trim_end(trim_start(s))
}

/// Whether `c` has the Unicode `White_Space` property, as `char::is_whitespace` says.
pub fn char_is_whitespace(c: char) -> (r: bool)
    ensures
        r == is_whitespace(c),
{
    let v = c as u32;
    (0x09 <= v && v <= 0x0d) || v == 0x20 || v == 0x85 || v == 0xa0 || v == 0x1680 || (0x2000
        <= v && v <= 0x200a) || v == 0x2028 || v == 0x2029 || v == 0x202f || v == 0x205f || v
        == 0x3000
}

pub proof fn lemma_trim_start_skip(s: Seq<char>, a: int)
    requires
        0 <= a <= s.len(),
        forall|i: int| 0 <= i < a ==> is_whitespace(#[trigger] s[i]),
        a == s.len() || !is_whitespace(s[a]),
    ensures
        trim_start(s) == s.skip(a),
    decreases a,
{
    if a == 0 {
        assert(s.skip(0) =~= s);
    } else {
        let t = s.drop_first();
        assert forall|i: int| 0 <= i < a - 1 implies is_whitespace(#[trigger] t[i]) by {
            assert(t[i] == s[i + 1]);
        }
        lemma_trim_start_skip(t, a - 1);
        assert(t.skip(a - 1) =~= s.skip(a));
    }
}

pub proof fn lemma_trim_end_take(t: Seq<char>, b: int)
    requires
        0 <= b <= t.len(),
        forall|i: int| b <= i < t.len() ==> is_whitespace(#[trigger] t[i]),
        b == 0 || !is_whitespace(t[b - 1]),
    ensures
        trim_end(t) == t.take(b),
    decreases t.len() - b,
{
    if b == t.len() {
        assert(t.take(b) =~= t);
    } else {
        let u = t.drop_last();
        assert(is_whitespace(t[t.len() - 1]));
        assert forall|i: int| b <= i < u.len() implies is_whitespace(#[trigger] u[i]) by {
            assert(u[i] == t[i]);
        }
        if b > 0 {
            assert(u[b - 1] == t[b - 1]);
        }
        lemma_trim_end_take(u, b);
        assert(u.take(b) =~= t.take(b));
    }
}

/// `s` without its leading and trailing whitespace, as `str::trim` gives it.
pub fn trim_text(s: &str) -> (r: &str)
    ensures
        r@ == trimmed(s@),
{
    let n = s.unicode_len();
    let mut a: usize = 0;
    while a < n
        invariant
            n == s@.len(),
            a <= n,
            forall|i: int| 0 <= i < a ==> is_whitespace(#[trigger] s@[i]),
        ensures
            a == n || !is_whitespace(s@[a as int]),
        decreases n - a,
    {
        if !char_is_whitespace(s.get_char(a)) {
            break;
        }
        a = a + 1;
    }
    let mut b: usize = n;
    while b > a
        invariant
            n == s@.len(),
            a <= b <= n,
            forall|i: int| b <= i < n ==> is_whitespace(#[trigger] s@[i]),
        ensures
            b == a || !is_whitespace(s@[b - 1]),
        decreases b,
    {
        if !char_is_whitespace(s.get_char(b - 1)) {
            break;
        }
        b = b - 1;
    }
    proof {
        lemma_trim_start_skip(s@, a as int);
        let t = s@.skip(a as int);
        assert forall|i: int| b - a <= i < t.len() implies is_whitespace(#[trigger] t[i]) by {
            assert(t[i] == s@[i + a]);
        }
        if b > a {
            assert(t[b - a - 1] == s@[b - 1]);
        }
        lemma_trim_end_take(t, b - a);
        assert(t.take(b - a) =~= s@.subrange(a as int, b as int));
    }
    s.substring_char(a, b)
}

/// The characters of `s` joined with `sep` between each two of them.
pub open spec fn join_with(parts: Seq<Seq<char>>, sep: Seq<char>) -> Seq<char>
    decreases parts.len(),
{
    if parts.len() == 0 {
        Seq::empty()
    } else if parts.len() == 1 {
        parts[0]
    } else {
        join_with(parts.drop_last(), sep) + sep + parts.last()
    }
}

pub open spec fn views_of(v: Seq<String>) -> Seq<Seq<char>> {
    v.map_values(|s: String| s@)
}

/// Joins `parts` with `sep`, as `[String]::join` does.
pub fn join_strings(parts: &Vec<String>, sep: &str) -> (r: String)
    ensures
        r@ == join_with(views_of(parts@), sep@),
{
    let mut r = String::new();
    let ghost all = views_of(parts@);
    let n = parts.len();
    let mut i: usize = 0;
    while i < n
        invariant
            n == parts@.len(),
            all == views_of(parts@),
            0 <= i <= n,
            r@ == join_with(all.take(i as int), sep@),
        decreases n - i,
    {
        if i > 0 {
            r.append(sep);
        }
        r.append(parts[i].as_str());
        proof {
            assert(all.take(i + 1).drop_last() =~= all.take(i as int));
            assert(all.take(i + 1).last() == parts@[i as int]@);
            if i == 0 {
                assert(r@ =~= all.take(1)[0]);
            }
        }
        i = i + 1;
    }
    proof {
        assert(all.take(n as int) =~= all);
    }
    r
}

/// The decimal digit character for `d`.
pub open spec fn digit_char(d: nat) -> char {
    if d == 0 {
        '0'
    } else if d == 1 {
        '1'
    } else if d == 2 {
        '2'
    } else if d == 3 {
        '3'
    } else if d == 4 {
        '4'
    } else if d == 5 {
        '5'
    } else if d == 6 {
        '6'
    } else if d == 7 {
        '7'
    } else if d == 8 {
        '8'
    } else {
        '9'
    }
}

/// The decimal notation of `n`, as `to_string` writes an unsigned integer.
pub open spec fn decimal(n: nat) -> Seq<char>
    decreases n,
{
    if n < 10 {
        seq![digit_char(n)]
    } else {
        decimal(n / 10).push(digit_char(n % 10))
    }
}

pub fn digit_to_char(d: u64) -> (c: char)
    requires
        d < 10,
    ensures
        c == digit_char(d as nat),
{
    if d == 0 {
        '0'
    } else if d == 1 {
        '1'
    } else if d == 2 {
        '2'
    } else if d == 3 {
        '3'
    } else if d == 4 {
        '4'
    } else if d == 5 {
        '5'
    } else if d == 6 {
        '6'
    } else if d == 7 {
        '7'
    } else if d == 8 {
        '8'
    } else {
        '9'
    }
}

/// Appends the decimal notation of `n` to `s`.
pub fn append_decimal(s: &mut String, n: u64)
    ensures
        final(s)@ == old(s)@ + decimal(n as nat),
    decreases n,
{
    if n >= 10 {
        append_decimal(s, n / 10);
    }
    push_char(s, digit_to_char(n % 10));
    proof {
        if n < 10 {
            assert(final(s)@ =~= old(s)@ + decimal(n as nat)) by {
                assert(decimal(n as nat) =~= seq![digit_char(n as nat)]);
            }
        }
    }
}

/// The decimal notation of `n` as a new string.
pub fn decimal_text(n: u64) -> (r: String)
    ensures
        r@ == decimal(n as nat),
{
    let mut r = String::new();
    append_decimal(&mut r, n);
    proof {
        assert(r@ =~= decimal(n as nat));
    }
    r
}

pub open spec fn is_digit(c: char) -> bool {
    '0' <= c <= '9'
}

pub proof fn lemma_decimal_digits(n: nat)
    ensures
        all_digits(decimal(n)),
        all_ascii(decimal(n)),
        decimal(n).len() >= 1,
    decreases n,
{
    if n >= 10 {
        lemma_decimal_digits(n / 10);
    }
}

/// Inserting a digit into a text of digits keeps it a text of digits.
pub proof fn lemma_insert_digit(s: Seq<char>, b: int, c: char)
    requires
        all_digits(s),
        is_digit(c),
        0 <= b <= s.len(),
    ensures
        all_digits(insert_at_byte(s, b, c)),
        all_ascii(insert_at_byte(s, b, c)),
        insert_at_byte(s, b, c).len() == s.len() + 1,
        char_index(s, b) == b,
        is_boundary(s, b),
{
    assert(all_ascii(s));
    lemma_ascii_boundary(s, b);
    let t = insert_at_byte(s, b, c);
    assert forall|i: int| 0 <= i < t.len() implies is_digit(#[trigger] t[i]) by {
        if i < b {
            assert(t[i] == s[i]);
        } else if i > b {
            assert(t[i] == s[i - 1]);
        }
    }
}

/// Removing a character from a text of digits keeps it a text of digits.
pub proof fn lemma_remove_digit(s: Seq<char>, b: int)
    requires
        all_digits(s),
        0 <= b < s.len(),
    ensures
        all_digits(remove_at_byte(s, b)),
        all_ascii(remove_at_byte(s, b)),
        remove_at_byte(s, b).len() == s.len() - 1,
        char_index(s, b) == b,
        is_boundary(s, b),
{
    assert(all_ascii(s));
    lemma_ascii_boundary(s, b);
    let t = remove_at_byte(s, b);
    assert forall|i: int| 0 <= i < t.len() implies is_digit(#[trigger] t[i]) by {
        if i < b {
            assert(t[i] == s[i]);
        } else {
            assert(t[i] == s[i + 1]);
        }
    }
}

pub open spec fn all_digits(s: Seq<char>) -> bool {
    forall|i: int| 0 <= i < s.len() ==> is_digit(#[trigger] s[i])
}

pub open spec fn digit_value(c: char) -> nat {
    (c as u32 - '0' as u32) as nat
}

/// The number that the digits of `s` write in decimal.
pub open spec fn digits_value(s: Seq<char>) -> nat
    decreases s.len(),
{
    if s.len() == 0 {
        0
    } else {
        digits_value(s.drop_last()) * 10 + digit_value(s.last())
    }
}

/// What `s.parse::<u16>()` gives on a text made of decimal digits: the number,
/// where the text is not empty and the number fits in a `u16`.
pub open spec fn parse_u16_digits(s: Seq<char>) -> Option<u16> {
    if s.len() > 0 && digits_value(s) <= 0xffff {
        Some(digits_value(s) as u16)
    } else {
        None
    }
}

/// Parses a text of decimal digits as a `u16`.
pub fn parse_u16(s: &str) -> (r: Option<u16>)
    requires
        all_digits(s@),
    ensures
        r == parse_u16_digits(s@),
{
    let n = s.unicode_len();
    let mut acc: u64 = 0;
    let mut i: usize = 0;
    while i < n
        invariant
            n == s@.len(),
            all_digits(s@),
            0 <= i <= n,
            digits_value(s@.take(i as int)) <= 0xffff ==> acc == digits_value(s@.take(i as int)),
            digits_value(s@.take(i as int)) > 0xffff ==> acc == 0x10000,
        decreases n - i,
    {
        let c = s.get_char(i);
        let d = (c as u32 - '0' as u32) as u64;
        proof {
            assert(is_digit(s@[i as int]));
            assert(s@.take(i + 1).drop_last() =~= s@.take(i as int));
            assert(s@.take(i + 1).last() == c);
        }
        if acc <= 0xffff {
            acc = acc * 10 + d;
            if acc > 0xffff {
                acc = 0x10000;
            }
        } else {
            proof {
                assert(digits_value(s@.take(i + 1)) >= digits_value(s@.take(i as int)) * 10);
            }
        }
        i = i + 1;
    }
    proof {
        assert(s@.take(n as int) =~= s@);
    }
    if n > 0 && acc <= 0xffff {
        Some(acc as u16)
    } else {
        None
    }
}

} // verus!
