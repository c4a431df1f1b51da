//! Text primitives shared by the library: conversions between `str`, `char`
//! sequences and their UTF-8 bytes, and byte-level search.
use vstd::prelude::*;
use vstd::utf8::*;
use vstd::string::StringSliceAdditionalSpecFns;

verus! {

broadcast use vstd::string::group_string_axioms;

/// The UTF-8 bytes of a character sequence.
pub open spec fn utf8(chars: Seq<char>) -> Seq<u8> {
    encode_utf8(chars)
}

/// `needle` occurs in `hay` starting at byte `i`.
pub open spec fn occurs_at<T>(hay: Seq<T>, needle: Seq<T>, i: int) -> bool {
    &&& 0 <= i
    &&& i + needle.len() <= hay.len()
    &&& hay.subrange(i, i + needle.len()) == needle
}

/// `needle` occurs somewhere in `hay`.
pub open spec fn contains_seq<T>(hay: Seq<T>, needle: Seq<T>) -> bool {
    exists|i: int| occurs_at(hay, needle, i)
}

/// `prefix` is a prefix of `s`.
pub open spec fn starts_with_seq<T>(s: Seq<T>, prefix: Seq<T>) -> bool {
    prefix.len() <= s.len() && s.subrange(0, prefix.len() as int) == prefix
}

/// The ASCII lower-case form of a byte: upper-case ASCII letters are mapped to
/// lower case, every other byte is kept.
pub open spec fn ascii_lower(b: u8) -> u8 {
    if 65 <= b <= 90 {
        (b + 32) as u8
    } else {
        b
    }
}

pub open spec fn ascii_lower_bytes(s: Seq<u8>) -> Seq<u8> {
    Seq::new(s.len(), |i: int| ascii_lower(s[i]))
}

/// The encoding of a concatenation is the concatenation of the encodings.
pub proof fn lemma_encode_concat(a: Seq<char>, b: Seq<char>)
    ensures
        encode_utf8(a + b) == encode_utf8(a) + encode_utf8(b),
    decreases a.len(),
{
    if a.len() == 0 {
        assert(a + b =~= b);
        assert(encode_utf8(a) =~= Seq::<u8>::empty());
        assert(encode_utf8(a) + encode_utf8(b) =~= encode_utf8(b));
    } else {
        assert((a + b).drop_first() =~= a.drop_first() + b);
        lemma_encode_concat(a.drop_first(), b);
        assert((a + b)[0] == a[0]);
        assert(encode_utf8(a + b) =~= encode_scalar(a[0] as u32) + encode_utf8((a + b).drop_first()));
        assert(encode_utf8(a + b) =~= encode_utf8(a) + encode_utf8(b));
    }
}

/// The encoding of a text with one more character.
pub proof fn lemma_encode_push(a: Seq<char>, c: char)
    ensures
        encode_utf8(a.push(c)) == encode_utf8(a) + encode_scalar(c as u32),
{
    lemma_encode_concat(a, seq![c]);
    assert(a.push(c) =~= a + seq![c]);
    assert(seq![c].drop_first() =~= Seq::<char>::empty());
    assert(encode_utf8(seq![c]) =~= encode_scalar(c as u32) + encode_utf8(Seq::<char>::empty()));
    assert(encode_utf8(seq![c]) =~= encode_scalar(c as u32));
}

/// A character takes one to four bytes.
pub proof fn lemma_encode_len_at_least(a: Seq<char>)
    ensures
        encode_utf8(a).len() >= a.len(),
        encode_utf8(a).len() <= 4 * a.len(),
    decreases a.len(),
{
    if a.len() > 0 {
        lemma_encode_len_at_least(a.drop_first());
    }
}

/// Appends the UTF-8 encoding of `c` to `out`.
pub fn push_char_utf8(out: &mut Vec<u8>, c: char)
    ensures
        final(out)@ == old(out)@ + encode_scalar(c as u32),
{
    let v: u32 = c as u32;
    proof {
        char_is_scalar(c);
    }
    if v <= 0x7f {
        out.push(v as u8);
        proof {
            assert(v & 0x7F == v) by (bit_vector)
                requires
                    v <= 0x7f,
            ;
        }
        assert(final(out)@ =~= old(out)@ + encode_scalar(v));
    } else if v <= 0x7ff {
        let b1: u8 = (0xC0u32 | ((v >> 6) & 0x1F)) as u8;
        let b2: u8 = (0x80u32 | (v & 0x3F)) as u8;
        proof {
            assert(b1 == (0xC0 | ((v >> 6) & 0x1F) as u8)) by (bit_vector)
                requires
                    b1 == (0xC0u32 | ((v >> 6) & 0x1F)) as u8,
            ;
            assert(b2 == (0x80 | (v & 0x3F) as u8)) by (bit_vector)
                requires
                    b2 == (0x80u32 | (v & 0x3F)) as u8,
            ;
        }
        out.push(b1);
        out.push(b2);
        assert(final(out)@ =~= old(out)@ + encode_scalar(v));
    } else if v <= 0xffff {
        let b1: u8 = (0xE0u32 | ((v >> 12) & 0x0F)) as u8;
        let b2: u8 = (0x80u32 | ((v >> 6) & 0x3F)) as u8;
        let b3: u8 = (0x80u32 | (v & 0x3F)) as u8;
        proof {
            assert(b1 == (0xE0 | ((v >> 12) & 0x0F) as u8)) by (bit_vector)
                requires
                    b1 == (0xE0u32 | ((v >> 12) & 0x0F)) as u8,
            ;
            assert(b2 == (0x80 | ((v >> 6) & 0x3F) as u8)) by (bit_vector)
                requires
                    b2 == (0x80u32 | ((v >> 6) & 0x3F)) as u8,
            ;
            assert(b3 == (0x80 | (v & 0x3F) as u8)) by (bit_vector)
                requires
                    b3 == (0x80u32 | (v & 0x3F)) as u8,
            ;
        }
        out.push(b1);
        out.push(b2);
        out.push(b3);
        assert(final(out)@ =~= old(out)@ + encode_scalar(v));
    } else {
        let b1: u8 = (0xF0u32 | ((v >> 18) & 0x7)) as u8;
        let b2: u8 = (0x80u32 | ((v >> 12) & 0x3F)) as u8;
        let b3: u8 = (0x80u32 | ((v >> 6) & 0x3F)) as u8;
        let b4: u8 = (0x80u32 | (v & 0x3F)) as u8;
        proof {
            assert(b1 == (0xF0 | ((v >> 18) & 0x7) as u8)) by (bit_vector)
                requires
                    b1 == (0xF0u32 | ((v >> 18) & 0x7)) as u8,
            ;
            assert(b2 == (0x80 | ((v >> 12) & 0x3F) as u8)) by (bit_vector)
                requires
                    b2 == (0x80u32 | ((v >> 12) & 0x3F)) as u8,
            ;
            assert(b3 == (0x80 | ((v >> 6) & 0x3F) as u8)) by (bit_vector)
                requires
                    b3 == (0x80u32 | ((v >> 6) & 0x3F)) as u8,
            ;
            assert(b4 == (0x80 | (v & 0x3F) as u8)) by (bit_vector)
                requires
                    b4 == (0x80u32 | (v & 0x3F)) as u8,
            ;
        }
        out.push(b1);
        out.push(b2);
        out.push(b3);
        out.push(b4);
        assert(final(out)@ =~= old(out)@ + encode_scalar(v));
    }
}

/// The characters of `s`, in order.
pub fn chars_of(s: &str) -> (r: Vec<char>)
    ensures
        r@ == s@,
{
    let mut r: Vec<char> = Vec::new();
    for c in it: s.chars()
        invariant
            r@ == it.seq().take(it.index() as int),
            it.seq() == s@,
    {
        r.push(c);
    }
    r
}

/// Appends the UTF-8 bytes of `s` to `out`.
pub fn push_str_utf8(out: &mut Vec<u8>, s: &str)
    ensures
        final(out)@ == old(out)@ + s.spec_bytes(),
{
    let bytes = s.as_bytes();
    let n = bytes.len();
    for i in 0..n
        invariant
            n == bytes@.len(),
            bytes@ == s.spec_bytes(),
            out@ == old(out)@ + bytes@.take(i as int),
    {
        out.push(bytes[i]);
        assert(bytes@.take(i + 1) =~= bytes@.take(i as int).push(bytes@[i as int]));
    }
    assert(bytes@.take(n as int) =~= bytes@);
}

/// Names the text of the error that `String::from_utf8` reports for invalid
/// bytes (its `Display` form, which says where decoding failed).
pub uninterp spec fn utf8_error_text(bytes: Seq<u8>) -> Seq<char>;

/// Builds a UTF-8 string from its bytes (`String::from_utf8`). Its contract
/// states what the standard library documents: the conversion succeeds
/// exactly when the bytes are valid UTF-8, and the string then holds the
/// characters that the bytes encode; otherwise the error's text is the named
/// `utf8_error_text` of the bytes.
#[verifier::external_body]
pub(crate) fn string_from_utf8(bytes: Vec<u8>) -> (res: Result<String, String>)
    ensures
        res is Ok <==> valid_utf8(bytes@),
        res matches Ok(s) ==> s@ == decode_utf8(bytes@),
        res matches Err(e) ==> e@ == utf8_error_text(bytes@),
{
    String::from_utf8(bytes).map_err(|error| error.to_string())
}

/// The string whose UTF-8 encoding is `bytes`.
pub fn string_from_valid_utf8(bytes: Vec<u8>) -> (s: String)
    requires
        valid_utf8(bytes@),
    ensures
        s@ == decode_utf8(bytes@),
        utf8(s@) == bytes@,
{
    proof {
        decode_utf8_encode_utf8(bytes@);
    }
    match string_from_utf8(bytes) {
        Ok(s) => s,
        Err(_) => String::new(),
    }
}

/// The decimal digits of `n`.
pub open spec fn decimal(n: nat) -> Seq<char>
    decreases n,
{
    if n < 10 {
        seq![digit_char(n)]
    } else {
        decimal(n / 10).push(digit_char(n % 10))
    }
}

pub open spec fn digit_char(d: nat) -> char {
    ((d + 48) as u8) as char
}

/// The decimal form of `n` (as `to_string` writes it).
pub fn decimal_string(n: u64) -> (s: String)
    ensures
        s@ == decimal(n as nat),
{
    let mut digits: Vec<char> = Vec::new();
    let mut m = n;
    while m >= 10
        invariant
            decimal(n as nat) == decimal(m as nat) + digits@,
        decreases m,
    {
        let d = (m % 10) as u8;
        let c = (48u8 + d) as char;
        let ghost before = digits@;
        assert(decimal(m as nat) == decimal((m / 10) as nat).push(digit_char((m % 10) as nat)));
        digits.insert(0, c);
        assert(digits@ =~= seq![c] + before);
        assert(decimal(m as nat) + before =~= decimal((m / 10) as nat) + digits@);
        m = m / 10;
    }
    let c = (48u8 + m as u8) as char;
    let ghost before = digits@;
    digits.insert(0, c);
    assert(digits@ =~= seq![c] + before);
    assert(decimal(m as nat) =~= seq![c]);
    string_from_chars(&digits)
}

/// Appends `piece` to the text.
pub fn append_str(out: &mut String, piece: &str)
    ensures
        final(out)@ == old(out)@ + piece@,
{
    out.append(piece);
}

/// The string holding the characters of `chars`.
pub fn string_from_chars(chars: &[char]) -> (s: String)
    ensures
        s@ == chars@,
{
    let mut out: Vec<u8> = Vec::new();
    let n = chars.len();
    for i in 0..n
        invariant
            n == chars@.len(),
            out@ == encode_utf8(chars@.take(i as int)),
    {
        proof {
            lemma_encode_push(chars@.take(i as int), chars@[i as int]);
            assert(chars@.take(i + 1) =~= chars@.take(i as int).push(chars@[i as int]));
        }
        push_char_utf8(&mut out, chars[i]);
    }
    proof {
        assert(chars@.take(n as int) =~= chars@);
        encode_utf8_valid_utf8(chars@);
        encode_utf8_decode_utf8(chars@);
    }
    string_from_valid_utf8(out)
}

/// Whether `needle` occurs in `hay` (byte search).
pub fn bytes_contain(hay: &[u8], needle: &[u8]) -> (r: bool)
    ensures
        r == contains_seq(hay@, needle@),
{
    if needle.len() > hay.len() {
        return false;
    }
    let last = hay.len() - needle.len();
    for i in 0..last
        invariant
            last == hay@.len() - needle@.len(),
            forall|j: int| 0 <= j < i ==> !occurs_at(hay@, needle@, j),
    {
        if bytes_occur_at(hay, needle, i) {
            return true;
        }
    }
    if bytes_occur_at(hay, needle, last) {
        return true;
    }
    proof {
        assert forall|j: int| !occurs_at(hay@, needle@, j) by {
            if 0 <= j < last {
            }
        }
    }
    false
}

/// Whether `needle` occurs in `hay` at byte `at`.
pub fn bytes_occur_at(hay: &[u8], needle: &[u8], at: usize) -> (r: bool)
    ensures
        r == occurs_at(hay@, needle@, at as int),
{
    if at > hay.len() || needle.len() > hay.len() - at {
        return false;
    }
    let n = needle.len();
    let hl = hay.len();
    let mut k: usize = 0;
    while k < n
        invariant
            n == needle@.len(),
            hl == hay@.len(),
            at + n <= hl,
            k <= n,
            forall|j: int| 0 <= j < k ==> hay@[at + j] == needle@[j],
        decreases n - k,
    {
        if hay[at + k] != needle[k] {
            assert(hay@.subrange(at as int, at + n)[k as int] != needle@[k as int]);
            return false;
        }
        k = k + 1;
    }
    assert(hay@.subrange(at as int, at + n) =~= needle@);
    true
}

/// Whether `s` begins with `prefix`.
pub fn bytes_start_with(s: &[u8], prefix: &[u8]) -> (r: bool)
    ensures
        r == starts_with_seq(s@, prefix@),
{
    let r = bytes_occur_at(s, prefix, 0);
    proof {
        if prefix@.len() <= s@.len() {
            assert(s@.subrange(0, prefix@.len() as int) == s@.subrange(0, 0 + prefix@.len() as int));
        }
    }
    r
}

/// Whether the text `hay` contains the text `needle`.
pub fn str_contains(hay: &str, needle: &str) -> (r: bool)
    ensures
        r == contains_seq(hay.spec_bytes(), needle.spec_bytes()),
{
    bytes_contain(hay.as_bytes(), needle.as_bytes())
}

/// Whether the two texts are equal.
pub fn str_eq(a: &str, b: &str) -> (r: bool)
    ensures
        r == (a@ == b@),
{
    let x = a.as_bytes();
    let y = b.as_bytes();
    let r = x.len() == y.len() && bytes_occur_at(x, y, 0);
    proof {
        encode_utf8_decode_utf8(a@);
        encode_utf8_decode_utf8(b@);
        if x@.len() == y@.len() {
            assert(x@.subrange(0, 0 + y@.len() as int) =~= x@);
        }
        if a@ == b@ {
            assert(x@ == y@);
        }
    }
    r
}

/// The ASCII lower-case form of the bytes (`to_ascii_lowercase`).
pub fn ascii_lowercase(s: &[u8]) -> (r: Vec<u8>)
    ensures
        r@ == ascii_lower_bytes(s@),
{
    let mut r: Vec<u8> = Vec::new();
    let n = s.len();
    for i in 0..n
        invariant
            n == s@.len(),
            r@ == ascii_lower_bytes(s@.take(i as int)),
    {
        let b = s[i];
        let l = if 65 <= b && b <= 90 {
            b + 32
        } else {
            b
        };
        r.push(l);
        assert(ascii_lower_bytes(s@.take(i + 1)) =~= ascii_lower_bytes(s@.take(i as int)).push(
            l,
        ));
    }
    assert(s@.take(n as int) =~= s@);
    r
}

/// Appends `src[from..to]` to `out`.
pub fn push_range(out: &mut Vec<u8>, src: &[u8], from: usize, to: usize)
    requires
        from <= to <= src@.len(),
    ensures
        final(out)@ == old(out)@ + src@.subrange(from as int, to as int),
{
    let mut i = from;
    while i < to
        invariant
            from <= i <= to <= src@.len(),
            out@ == old(out)@ + src@.subrange(from as int, i as int),
        decreases to - i,
    {
        out.push(src[i]);
        assert(src@.subrange(from as int, i + 1) =~= src@.subrange(from as int, i as int).push(
            src@[i as int],
        ));
        i = i + 1;
    }
}

/// Whether the byte occurs in the slice.
pub fn bytes_contain_byte(s: &[u8], b: u8) -> (r: bool)
    ensures
        r == s@.contains(b),
{
    let n = s.len();
    for i in 0..n
        invariant
            n == s@.len(),
            forall|j: int| 0 <= j < i ==> s@[j] != b,
    {
        if s[i] == b {
            assert(s@[i as int] == b);
            return true;
        }
    }
    false
}

/// Whether the two byte sequences are equal.
pub fn bytes_eq(a: &[u8], b: &[u8]) -> (r: bool)
    ensures
        r == (a@ == b@),
{
    let r = a.len() == b.len() && bytes_occur_at(a, b, 0);
    proof {
        if a@.len() == b@.len() {
            assert(a@.subrange(0, 0 + b@.len() as int) =~= a@);
        }
    }
    r
}

/// The largest character boundary of `b` at or before `i` (and at most the
/// length of `b`).
pub open spec fn floor_boundary(b: Seq<u8>, i: int) -> int
    decreases (if i > 0 { i } else { 0 }),
{
    if i > b.len() {
        floor_boundary(b, b.len() as int)
    } else if i <= 0 {
        0
    } else if is_char_boundary(b, i) {
        i
    } else {
        floor_boundary(b, i - 1)
    }
}

/// The smallest character boundary of `b` at or after `i` (capped at the
/// length of `b`).
pub open spec fn ceil_boundary(b: Seq<u8>, i: int) -> int
    decreases b.len() - i,
{
    if i >= b.len() {
        b.len() as int
    } else if i < 0 {
        ceil_boundary(b, 0)
    } else if is_char_boundary(b, i) {
        i
    } else {
        ceil_boundary(b, i + 1)
    }
}

/// The floor boundary is a character boundary at or before the index.
pub proof fn lemma_floor_boundary(b: Seq<u8>, i: int)
    requires
        valid_utf8(b),
    ensures
        0 <= floor_boundary(b, i) <= b.len(),
        floor_boundary(b, i) <= i || i < 0 && floor_boundary(b, i) == 0,
        is_char_boundary(b, floor_boundary(b, i)),
    decreases (if i > 0 { i } else { 0 }),
{
    is_char_boundary_start_end_of_seq(b);
    if i > b.len() {
        lemma_floor_boundary(b, b.len() as int);
    } else if i > 0 && !is_char_boundary(b, i) {
        lemma_floor_boundary(b, i - 1);
    }
}

/// The ceiling boundary is a character boundary at or after the index.
pub proof fn lemma_ceil_boundary(b: Seq<u8>, i: int)
    requires
        valid_utf8(b),
    ensures
        0 <= ceil_boundary(b, i) <= b.len(),
        i <= b.len() ==> i <= ceil_boundary(b, i),
        is_char_boundary(b, ceil_boundary(b, i)),
    decreases b.len() - i,
{
    is_char_boundary_start_end_of_seq(b);
    if i < 0 {
        lemma_ceil_boundary(b, 0);
    } else if i < b.len() && !is_char_boundary(b, i) {
        lemma_ceil_boundary(b, i + 1);
    }
}

/// The largest character boundary at or before `index`.
pub fn floor_char_boundary(s: &str, index: usize) -> (r: usize)
    ensures
        r == floor_boundary(s.spec_bytes(), index as int),
        r <= s.spec_bytes().len(),
        is_char_boundary(s.spec_bytes(), r as int),
{
    let n = s.as_bytes().len();
    proof {
        encode_utf8_valid_utf8(s@);
        is_char_boundary_start_end_of_seq(s.spec_bytes());
        lemma_floor_boundary(s.spec_bytes(), index as int);
    }
    let mut i = if index < n {
        index
    } else {
        n
    };
    while !s.is_char_boundary(i)
        invariant
            i <= n,
            n == s.spec_bytes().len(),
            floor_boundary(s.spec_bytes(), i as int) == floor_boundary(s.spec_bytes(), index as int),
            is_char_boundary(s.spec_bytes(), 0),
        decreases i,
    {
        i = i - 1;
    }
    i
}

/// The smallest character boundary at or after `index` (at most the length).
pub fn ceil_char_boundary(s: &str, index: usize) -> (r: usize)
    ensures
        r == ceil_boundary(s.spec_bytes(), index as int),
        r <= s.spec_bytes().len(),
        is_char_boundary(s.spec_bytes(), r as int),
{
    let n = s.as_bytes().len();
    proof {
        encode_utf8_valid_utf8(s@);
        is_char_boundary_start_end_of_seq(s.spec_bytes());
        lemma_ceil_boundary(s.spec_bytes(), index as int);
    }
    let mut i = if index < n {
        index
    } else {
        n
    };
    while !s.is_char_boundary(i)
        invariant
            i <= n,
            n == s.spec_bytes().len(),
            ceil_boundary(s.spec_bytes(), i as int) == ceil_boundary(s.spec_bytes(), index as int),
            is_char_boundary(s.spec_bytes(), n as int),
        decreases n - i,
    {
        i = i + 1;
    }
    i
}

/// The text of `s` before byte `end`, which must be a character boundary.
pub fn str_prefix(s: &str, end: usize) -> (r: &str)
    requires
        is_char_boundary(s.spec_bytes(), end as int),
    ensures
        r.spec_bytes() == s.spec_bytes().subrange(0, end as int),
        r@ == decode_utf8(s.spec_bytes().subrange(0, end as int)),
{
    let (head, _) = s.split_at(end);
    proof {
        encode_utf8_decode_utf8(head@);
    }
    head
}

/// The text of `s` from byte `start`, which must be a character boundary.
pub fn str_suffix(s: &str, start: usize) -> (r: &str)
    requires
        is_char_boundary(s.spec_bytes(), start as int),
    ensures
        r.spec_bytes() == s.spec_bytes().subrange(start as int, s.spec_bytes().len() as int),
        r@ == decode_utf8(s.spec_bytes().subrange(start as int, s.spec_bytes().len() as int)),
{
    let (_, tail) = s.split_at(start);
    proof {
        encode_utf8_decode_utf8(tail@);
    }
    tail
}

/// The line feed is the single byte 10.
pub proof fn lemma_newline_utf8()
    ensures
        utf8("\n"@) == seq![10u8],
{
    reveal_strlit("\n");
    assert("\n"@ =~= seq!['\n']);
    assert(('\n' as u32) == 10u32);
    assert((10u32 & 0x7F) as u8 == 10u8) by (bit_vector);
    let one = seq!['\n'];
    assert(one.drop_first() =~= Seq::<char>::empty());
    assert(encode_utf8(one.drop_first()) =~= Seq::<u8>::empty());
    assert(one[0] as u32 == 10u32);
    assert(has_width_1_encoding(10u32));
    assert(encode_scalar(10u32) =~= seq![10u8]);
    assert(encode_utf8(one) == encode_scalar(one[0] as u32) + encode_utf8(one.drop_first()));
    assert(utf8(one) =~= seq![10u8]);
}

} // verus!
