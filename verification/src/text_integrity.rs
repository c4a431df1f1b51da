//! Privacy-safe detection of text that was corrupted before it reached the
//! local machine. Only lengths and flags are retained, never the text.
use vstd::prelude::*;
use vstd::string::StringSliceAdditionalSpecFns;

use crate::text::{chars_of, contains_seq, occurs_at, str_contains};

verus! {

broadcast use vstd::string::group_string_axioms;

/// A privacy-safe description of suspicious text received from a model provider.
#[derive(Clone, Debug, Eq, PartialEq)]
pub struct TextIntegrityAnalysis {
    pub byte_count: usize,
    pub char_count: usize,
    pub flags: Vec<TextIntegrityFlag>,
}

impl TextIntegrityAnalysis {
    /// Whether any signal was raised.
    pub fn is_suspicious(&self) -> (r: bool)
        ensures
            r == (self.flags@.len() > 0),
    {
        self.flags.len() > 0
    }
}

/// Deterministic signals that text was corrupted before local execution.
#[derive(Clone, Copy, Debug, Eq, PartialEq, Structural)]
pub enum TextIntegrityFlag {
    ReplacementCharacter,
    NullCharacter,
    UnexpectedControlCharacter,
    BidirectionalControlCharacter,
    LikelyMojibake,
    MixedAlphabeticScripts,
}

pub open spec fn flag_name(flag: TextIntegrityFlag) -> &'static str {
    match flag {
        TextIntegrityFlag::ReplacementCharacter => "replacement_character",
        TextIntegrityFlag::NullCharacter => "null_character",
        TextIntegrityFlag::UnexpectedControlCharacter => "unexpected_control_character",
        TextIntegrityFlag::BidirectionalControlCharacter => "bidirectional_control_character",
        TextIntegrityFlag::LikelyMojibake => "likely_mojibake",
        TextIntegrityFlag::MixedAlphabeticScripts => "mixed_alphabetic_scripts",
    }
}

impl TextIntegrityFlag {
    /// The stable name of the flag.
    pub fn as_str(self) -> (s: &'static str)
        ensures
            s == flag_name(self),
    {
        match self {
            TextIntegrityFlag::ReplacementCharacter => "replacement_character",
            TextIntegrityFlag::NullCharacter => "null_character",
            TextIntegrityFlag::UnexpectedControlCharacter => "unexpected_control_character",
            TextIntegrityFlag::BidirectionalControlCharacter => "bidirectional_control_character",
            TextIntegrityFlag::LikelyMojibake => "likely_mojibake",
            TextIntegrityFlag::MixedAlphabeticScripts => "mixed_alphabetic_scripts",
        }
    }
}

/// The alphabetic scripts whose mixing inside one word is suspicious.
#[derive(Clone, Copy, Debug, Eq, PartialEq, Structural)]
pub enum AlphabeticScript {
    Latin,
    Cyrillic,
    Arabic,
    Devanagari,
}

/// Names the result of `char::is_alphabetic` (the Unicode `Alphabetic`
/// property, a table of the Unicode database).
pub uninterp spec fn unicode_alphabetic(c: char) -> bool;

/// Calls `char::is_alphabetic`. The contract claims only that the result is
/// the named `unicode_alphabetic` property of the character; which characters
/// have it is left to the Unicode tables of the standard library.
#[verifier::external_body]
fn is_alphabetic(c: char) -> (r: bool)
    ensures
        r == unicode_alphabetic(c),
{
    c.is_alphabetic()
}

/// The Unicode general category Cc (control codes): U+0000..U+001F and
/// U+007F..U+009F, which is what `char::is_control` tests.
pub open spec fn is_control_char(c: char) -> bool {
    (c as u32) <= 0x1f || (0x7f <= (c as u32) && (c as u32) <= 0x9f)
}

/// A control character other than line feed, carriage return and tab.
pub open spec fn is_unexpected_control(c: char) -> bool {
    is_control_char(c) && c != '\n' && c != '\r' && c != '\t'
}

/// Characters that change the direction in which text is rendered.
pub open spec fn is_bidi_control(c: char) -> bool {
    let u = c as u32;
    u == 0x061c || u == 0x200e || u == 0x200f || (0x202a <= u && u <= 0x202e) || (0x2066 <= u
        && u <= 0x2069)
}

/// The script of a character, for the scripts that are tracked.
pub open spec fn script_of(c: char) -> Option<AlphabeticScript> {
    let u = c as u32;
    if (0x41 <= u && u <= 0x5a) || (0x61 <= u && u <= 0x7a) || (0xc0 <= u && u <= 0x24f) {
        Some(AlphabeticScript::Latin)
    } else if 0x400 <= u && u <= 0x52f {
        Some(AlphabeticScript::Cyrillic)
    } else if (0x600 <= u && u <= 0x6ff) || (0x750 <= u && u <= 0x77f) || (0x8a0 <= u && u
        <= 0x8ff) {
        Some(AlphabeticScript::Arabic)
    } else if 0x900 <= u && u <= 0x97f {
        Some(AlphabeticScript::Devanagari)
    } else {
        None
    }
}

/// All characters of `cs` in `[from, to)` are alphabetic.
pub open spec fn all_alphabetic(cs: Seq<char>, from: int, to: int) -> bool {
    forall|m: int| from <= m < to ==> #[trigger] unicode_alphabetic(cs[m])
}

/// Two characters of one word (a run of alphabetic characters) belong to
/// different tracked scripts.
pub open spec fn has_mixed_script_word(cs: Seq<char>) -> bool {
    exists|i: int, j: int|
        #![trigger script_of(cs[i]), script_of(cs[j])]
        0 <= i < j < cs.len() && all_alphabetic(cs, i, j + 1) && script_of(cs[i]) is Some
            && script_of(cs[j]) is Some && script_of(cs[i]) != script_of(cs[j])
}

pub open spec fn has_char(cs: Seq<char>, c: char) -> bool {
    exists|i: int| 0 <= i < cs.len() && cs[i] == c
}

pub open spec fn has_unexpected_control(cs: Seq<char>) -> bool {
    exists|i: int| 0 <= i < cs.len() && #[trigger] is_unexpected_control(cs[i])
}

pub open spec fn has_bidi_control(cs: Seq<char>) -> bool {
    exists|i: int| 0 <= i < cs.len() && #[trigger] is_bidi_control(cs[i])
}

/// The byte sequences that typically appear when UTF-8 text was decoded with
/// a legacy code page.
pub open spec fn has_mojibake_marker(b: Seq<u8>) -> bool {
    ||| contains_seq(b, "Ã©".spec_bytes())
    ||| contains_seq(b, "Ã¨".spec_bytes())
    ||| contains_seq(b, "Ã¼".spec_bytes())
    ||| contains_seq(b, "Ã¶".spec_bytes())
    ||| contains_seq(b, "Ã¤".spec_bytes())
    ||| contains_seq(b, "Ã±".spec_bytes())
    ||| contains_seq(b, "Ã£".spec_bytes())
    ||| contains_seq(b, "Â ".spec_bytes())
    ||| contains_seq(b, "â€".spec_bytes())
    ||| contains_seq(b, "ðŸ".spec_bytes())
    ||| contains_seq(b, "锟斤拷".spec_bytes())
}

pub open spec fn flag_if(b: bool, flag: TextIntegrityFlag) -> Seq<TextIntegrityFlag> {
    if b {
        seq![flag]
    } else {
        Seq::empty()
    }
}

/// The flags raised for a text, in their fixed order.
pub open spec fn integrity_flags(text: &str) -> Seq<TextIntegrityFlag> {
    let cs = text@;
    flag_if(has_char(cs, '\u{fffd}'), TextIntegrityFlag::ReplacementCharacter) + flag_if(
        has_char(cs, '\0'),
        TextIntegrityFlag::NullCharacter,
    ) + flag_if(has_unexpected_control(cs), TextIntegrityFlag::UnexpectedControlCharacter)
        + flag_if(has_bidi_control(cs), TextIntegrityFlag::BidirectionalControlCharacter)
        + flag_if(has_mojibake_marker(text.spec_bytes()), TextIntegrityFlag::LikelyMojibake)
        + flag_if(has_mixed_script_word(cs), TextIntegrityFlag::MixedAlphabeticScripts)
}

fn is_bidirectional_control(c: char) -> (r: bool)
    ensures
        r == is_bidi_control(c),
{
    let u = c as u32;
    u == 0x061c || u == 0x200e || u == 0x200f || (0x202a <= u && u <= 0x202e) || (0x2066 <= u
        && u <= 0x2069)
}

fn alphabetic_script(c: char) -> (r: Option<AlphabeticScript>)
    ensures
        r == script_of(c),
{
    let u = c as u32;
    if (0x41 <= u && u <= 0x5a) || (0x61 <= u && u <= 0x7a) || (0xc0 <= u && u <= 0x24f) {
        Some(AlphabeticScript::Latin)
    } else if 0x400 <= u && u <= 0x52f {
        Some(AlphabeticScript::Cyrillic)
    } else if (0x600 <= u && u <= 0x6ff) || (0x750 <= u && u <= 0x77f) || (0x8a0 <= u && u
        <= 0x8ff) {
        Some(AlphabeticScript::Arabic)
    } else if 0x900 <= u && u <= 0x97f {
        Some(AlphabeticScript::Devanagari)
    } else {
        None
    }
}

fn contains_mixed_script_word(cs: &Vec<char>) -> (r: bool)
    ensures
        r == has_mixed_script_word(cs@),
{
    let n = cs.len();
    let mut word_script: Option<AlphabeticScript> = None;
    let mut start: usize = 0;
    for k in 0..n
        invariant
            n == cs@.len(),
            start <= k,
            all_alphabetic(cs@, start as int, k as int),
            start > 0 ==> !unicode_alphabetic(cs@[start - 1]),
            word_script is None ==> forall|m: int|
                start <= m < k ==> #[trigger] script_of(cs@[m]) is None,
            word_script matches Some(s) ==> forall|m: int|
                start <= m < k ==> #[trigger] script_of(cs@[m]) is None || script_of(cs@[m])
                    == Some(s),
            word_script matches Some(s) ==> exists|m: int|
                start <= m < k && #[trigger] script_of(cs@[m]) == Some(s),
            forall|i: int, j: int|
                #![trigger script_of(cs@[i]), script_of(cs@[j])]
                0 <= i < j < k && all_alphabetic(cs@, i, j + 1) && script_of(cs@[i]) is Some
                    && script_of(cs@[j]) is Some ==> script_of(cs@[i]) == script_of(cs@[j]),
    {
        let c = cs[k];
        if !is_alphabetic(c) {
            word_script = None;
            start = k + 1;
            proof {
                assert forall|i: int, j: int|
                    #![trigger script_of(cs@[i]), script_of(cs@[j])]
                    0 <= i < j < k + 1 && all_alphabetic(cs@, i, j + 1) && script_of(
                        cs@[i],
                    ) is Some && script_of(cs@[j]) is Some implies script_of(cs@[i])
                    == script_of(cs@[j]) by {
                    if j == k {
                        assert(unicode_alphabetic(cs@[j]));
                    }
                }
            }
        } else {
            match alphabetic_script(c) {
                None => {
                    proof {
                        assert forall|i: int, j: int|
                            #![trigger script_of(cs@[i]), script_of(cs@[j])]
                            0 <= i < j < k + 1 && all_alphabetic(cs@, i, j + 1) && script_of(
                                cs@[i],
                            ) is Some && script_of(cs@[j]) is Some implies script_of(cs@[i])
                            == script_of(cs@[j]) by {
                            if j == k {
                            } else {
                                assert(all_alphabetic(cs@, i, j + 1));
                            }
                        }
                    }
                },
                Some(script) => {
                    if let Some(previous) = word_script {
                        if previous != script {
                            proof {
                                let m = choose|m: int|
                                    start <= m < k && #[trigger] script_of(cs@[m]) == Some(
                                        previous,
                                    );
                                assert(all_alphabetic(cs@, m, k + 1));
                                assert(script_of(cs@[m]) is Some && script_of(cs@[k as int])
                                    is Some && script_of(cs@[m]) != script_of(cs@[k as int]));
                            }
                            return true;
                        }
                    }
                    proof {
                        assert forall|i: int, j: int|
                            #![trigger script_of(cs@[i]), script_of(cs@[j])]
                            0 <= i < j < k + 1 && all_alphabetic(cs@, i, j + 1) && script_of(
                                cs@[i],
                            ) is Some && script_of(cs@[j]) is Some implies script_of(cs@[i])
                            == script_of(cs@[j]) by {
                            if j == k {
                                if i < start {
                                    assert(unicode_alphabetic(cs@[start - 1]));
                                }
                            } else {
                                assert(all_alphabetic(cs@, i, j + 1));
                            }
                        }
                    }
                    word_script = Some(script);
                },
            }
        }
    }
    false
}

fn find_char(cs: &Vec<char>, target: char) -> (r: bool)
    ensures
        r == has_char(cs@, target),
{
    let n = cs.len();
    for k in 0..n
        invariant
            n == cs@.len(),
            forall|m: int| 0 <= m < k ==> cs@[m] != target,
    {
        if cs[k] == target {
            return true;
        }
    }
    false
}

fn find_unexpected_control(cs: &Vec<char>) -> (r: bool)
    ensures
        r == has_unexpected_control(cs@),
{
    let n = cs.len();
    for k in 0..n
        invariant
            n == cs@.len(),
            forall|m: int| 0 <= m < k ==> !#[trigger] is_unexpected_control(cs@[m]),
    {
        let c = cs[k];
        let u = c as u32;
        if (u <= 0x1f || (0x7f <= u && u <= 0x9f)) && c != '\n' && c != '\r' && c != '\t' {
            assert(is_unexpected_control(cs@[k as int]));
            return true;
        }
    }
    false
}

fn find_bidi_control(cs: &Vec<char>) -> (r: bool)
    ensures
        r == has_bidi_control(cs@),
{
    let n = cs.len();
    for k in 0..n
        invariant
            n == cs@.len(),
            forall|m: int| 0 <= m < k ==> !#[trigger] is_bidi_control(cs@[m]),
    {
        if is_bidirectional_control(cs[k]) {
            return true;
        }
    }
    false
}

fn find_mojibake(text: &str) -> (r: bool)
    ensures
        r == has_mojibake_marker(text.spec_bytes()),
{
    str_contains(text, "Ã©") || str_contains(text, "Ã¨") || str_contains(text, "Ã¼")
        || str_contains(text, "Ã¶") || str_contains(text, "Ã¤") || str_contains(text, "Ã±")
        || str_contains(text, "Ã£") || str_contains(text, "Â ") || str_contains(text, "â€")
        || str_contains(text, "ðŸ") || str_contains(text, "锟斤拷")
}

fn push_flag_if(flags: &mut Vec<TextIntegrityFlag>, b: bool, flag: TextIntegrityFlag)
    ensures
        final(flags)@ == old(flags)@ + flag_if(b, flag),
{
    if b {
        flags.push(flag);
        assert(final(flags)@ =~= old(flags)@ + flag_if(b, flag));
    } else {
        assert(old(flags)@ =~= old(flags)@ + flag_if(b, flag));
    }
}

/// Analyzes text for corruption signals: the byte and character counts, and
/// the flags that `integrity_flags` defines.
pub fn analyze_text_integrity(text: &str) -> (r: TextIntegrityAnalysis)
    ensures
        r.byte_count == text.spec_bytes().len(),
        r.char_count == text@.len(),
        r.flags@ == integrity_flags(text),
{
    let cs = chars_of(text);
    let mut flags: Vec<TextIntegrityFlag> = Vec::new();
    push_flag_if(&mut flags, find_char(&cs, '\u{fffd}'), TextIntegrityFlag::ReplacementCharacter);
    push_flag_if(&mut flags, find_char(&cs, '\0'), TextIntegrityFlag::NullCharacter);
    push_flag_if(
        &mut flags,
        find_unexpected_control(&cs),
        TextIntegrityFlag::UnexpectedControlCharacter,
    );
    push_flag_if(
        &mut flags,
        find_bidi_control(&cs),
        TextIntegrityFlag::BidirectionalControlCharacter,
    );
    push_flag_if(&mut flags, find_mojibake(text), TextIntegrityFlag::LikelyMojibake);
    push_flag_if(
        &mut flags,
        contains_mixed_script_word(&cs),
        TextIntegrityFlag::MixedAlphabeticScripts,
    );
    proof {
        assert(Seq::<TextIntegrityFlag>::empty() + flag_if(
            has_char(text@, '\u{fffd}'),
            TextIntegrityFlag::ReplacementCharacter,
        ) =~= flag_if(has_char(text@, '\u{fffd}'), TextIntegrityFlag::ReplacementCharacter));
    }
    TextIntegrityAnalysis { byte_count: text.as_bytes().len(), char_count: cs.len(), flags }
}

/// Whether a text with these characters and bytes raises the flag.
pub open spec fn raises(cs: Seq<char>, bytes: Seq<u8>, flag: TextIntegrityFlag) -> bool {
    match flag {
        TextIntegrityFlag::ReplacementCharacter => has_char(cs, '\u{fffd}'),
        TextIntegrityFlag::NullCharacter => has_char(cs, '\0'),
        TextIntegrityFlag::UnexpectedControlCharacter => has_unexpected_control(cs),
        TextIntegrityFlag::BidirectionalControlCharacter => has_bidi_control(cs),
        TextIntegrityFlag::LikelyMojibake => has_mojibake_marker(bytes),
        TextIntegrityFlag::MixedAlphabeticScripts => has_mixed_script_word(cs),
    }
}

proof fn lemma_add_contains(s1: Seq<TextIntegrityFlag>, s2: Seq<TextIntegrityFlag>, x: TextIntegrityFlag)
    ensures
        (s1 + s2).contains(x) == (s1.contains(x) || s2.contains(x)),
{
    let s = s1 + s2;
    if s.contains(x) {
        let i = choose|i: int| 0 <= i < s.len() && s[i] == x;
        if i < s1.len() {
            assert(s1[i] == x);
        } else {
            assert(s2[i - s1.len()] == x);
        }
    }
    if s1.contains(x) {
        let i = choose|i: int| 0 <= i < s1.len() && s1[i] == x;
        assert(s[i] == x);
    }
    if s2.contains(x) {
        let i = choose|i: int| 0 <= i < s2.len() && s2[i] == x;
        assert(s[i + s1.len()] == x);
    }
}

proof fn lemma_flag_if_contains(b: bool, f: TextIntegrityFlag, x: TextIntegrityFlag)
    ensures
        flag_if(b, f).contains(x) == (b && f == x),
{
    if b {
        assert(flag_if(b, f)[0] == f);
    }
}

/// A flag is raised exactly when its condition holds of the text.
proof fn lemma_flags_raised(text: &str, x: TextIntegrityFlag)
    ensures
        integrity_flags(text).contains(x) == raises(text@, text.spec_bytes(), x),
{
    let cs = text@;
    let f1 = flag_if(has_char(cs, '\u{fffd}'), TextIntegrityFlag::ReplacementCharacter);
    let f2 = flag_if(has_char(cs, '\0'), TextIntegrityFlag::NullCharacter);
    let f3 = flag_if(has_unexpected_control(cs), TextIntegrityFlag::UnexpectedControlCharacter);
    let f4 = flag_if(has_bidi_control(cs), TextIntegrityFlag::BidirectionalControlCharacter);
    let f5 = flag_if(has_mojibake_marker(text.spec_bytes()), TextIntegrityFlag::LikelyMojibake);
    let f6 = flag_if(has_mixed_script_word(cs), TextIntegrityFlag::MixedAlphabeticScripts);
    lemma_add_contains(f1, f2, x);
    lemma_add_contains(f1 + f2, f3, x);
    lemma_add_contains(f1 + f2 + f3, f4, x);
    lemma_add_contains(f1 + f2 + f3 + f4, f5, x);
    lemma_add_contains(f1 + f2 + f3 + f4 + f5, f6, x);
    lemma_flag_if_contains(has_char(cs, '\u{fffd}'), TextIntegrityFlag::ReplacementCharacter, x);
    lemma_flag_if_contains(has_char(cs, '\0'), TextIntegrityFlag::NullCharacter, x);
    lemma_flag_if_contains(has_unexpected_control(cs), TextIntegrityFlag::UnexpectedControlCharacter, x);
    lemma_flag_if_contains(has_bidi_control(cs), TextIntegrityFlag::BidirectionalControlCharacter, x);
    lemma_flag_if_contains(has_mojibake_marker(text.spec_bytes()), TextIntegrityFlag::LikelyMojibake, x);
    lemma_flag_if_contains(has_mixed_script_word(cs), TextIntegrityFlag::MixedAlphabeticScripts, x);
}

proof fn lemma_contains_seq_grows(x: Seq<u8>, y: Seq<u8>, needle: Seq<u8>)
    ensures
        contains_seq(x, needle) ==> contains_seq(x + y, needle),
        contains_seq(y, needle) ==> contains_seq(x + y, needle),
{
    let s = x + y;
    if contains_seq(x, needle) {
        let i = choose|i: int| occurs_at(x, needle, i);
        assert(s.subrange(i, i + needle.len()) =~= x.subrange(i, i + needle.len()));
        assert(occurs_at(s, needle, i));
    }
    if contains_seq(y, needle) {
        let i = choose|i: int| occurs_at(y, needle, i);
        let k = i + x.len();
        assert(s.subrange(k, k + needle.len()) =~= y.subrange(i, i + needle.len()));
        assert(occurs_at(s, needle, k));
    }
}

proof fn lemma_raises_grows(x: Seq<char>, xb: Seq<u8>, y: Seq<char>, yb: Seq<u8>, flag: TextIntegrityFlag)
    ensures
        raises(x, xb, flag) || raises(y, yb, flag) ==> raises(x + y, xb + yb, flag),
{
    let s = x + y;
    match flag {
        TextIntegrityFlag::LikelyMojibake => {
            lemma_contains_seq_grows(xb, yb, "Ã©".spec_bytes());
            lemma_contains_seq_grows(xb, yb, "Ã¨".spec_bytes());
            lemma_contains_seq_grows(xb, yb, "Ã¼".spec_bytes());
            lemma_contains_seq_grows(xb, yb, "Ã¶".spec_bytes());
            lemma_contains_seq_grows(xb, yb, "Ã¤".spec_bytes());
            lemma_contains_seq_grows(xb, yb, "Ã±".spec_bytes());
            lemma_contains_seq_grows(xb, yb, "Ã£".spec_bytes());
            lemma_contains_seq_grows(xb, yb, "Â ".spec_bytes());
            lemma_contains_seq_grows(xb, yb, "â€".spec_bytes());
            lemma_contains_seq_grows(xb, yb, "ðŸ".spec_bytes());
            lemma_contains_seq_grows(xb, yb, "锟斤拷".spec_bytes());
        },
        TextIntegrityFlag::MixedAlphabeticScripts => {
            if has_mixed_script_word(x) {
                let (i, j) = choose|i: int, j: int|
                    #![trigger script_of(x[i]), script_of(x[j])]
                    0 <= i < j < x.len() && all_alphabetic(x, i, j + 1) && script_of(x[i]) is Some
                        && script_of(x[j]) is Some && script_of(x[i]) != script_of(x[j]);
                assert(s[i] == x[i] && s[j] == x[j]);
                assert forall|m: int| i <= m < j + 1 implies #[trigger] unicode_alphabetic(s[m]) by {
                    assert(s[m] == x[m]);
                    assert(unicode_alphabetic(x[m]));
                }
                assert(script_of(s[i]) is Some && script_of(s[j]) is Some && script_of(s[i]) != script_of(s[j]));
            }
            if has_mixed_script_word(y) {
                let (i, j) = choose|i: int, j: int|
                    #![trigger script_of(y[i]), script_of(y[j])]
                    0 <= i < j < y.len() && all_alphabetic(y, i, j + 1) && script_of(y[i]) is Some
                        && script_of(y[j]) is Some && script_of(y[i]) != script_of(y[j]);
                let k = x.len() as int;
                assert(s[i + k] == y[i] && s[j + k] == y[j]);
                assert forall|m: int| i + k <= m < j + k + 1 implies #[trigger] unicode_alphabetic(s[m]) by {
                    assert(s[m] == y[m - k]);
                    assert(unicode_alphabetic(y[m - k]));
                }
                assert(script_of(s[i + k]) is Some && script_of(s[j + k]) is Some && script_of(s[i + k])
                    != script_of(s[j + k]));
            }
        },
        _ => {
            if raises(x, xb, flag) {
                let i = choose|i: int| 0 <= i < x.len() && match flag {
                    TextIntegrityFlag::ReplacementCharacter => x[i] == '\u{fffd}',
                    TextIntegrityFlag::NullCharacter => x[i] == '\0',
                    TextIntegrityFlag::UnexpectedControlCharacter => is_unexpected_control(x[i]),
                    _ => is_bidi_control(x[i]),
                };
                assert(s[i] == x[i]);
            }
            if raises(y, yb, flag) {
                let i = choose|i: int| 0 <= i < y.len() && match flag {
                    TextIntegrityFlag::ReplacementCharacter => y[i] == '\u{fffd}',
                    TextIntegrityFlag::NullCharacter => y[i] == '\0',
                    TextIntegrityFlag::UnexpectedControlCharacter => is_unexpected_control(y[i]),
                    _ => is_bidi_control(y[i]),
                };
                assert(s[i + x.len()] == y[i]);
            }
        },
    }
}

/// Law: no flag disappears when texts are joined: every flag raised for `a`
/// or for `b` is raised for their concatenation `c`. (`integrity_flags` is
/// what `analyze_text_integrity` reports, by its contract.)
pub proof fn lemma_flags_survive_concatenation(a: &str, b: &str, c: &str, flag: TextIntegrityFlag)
    requires
        c@ == a@ + b@,
    ensures
        integrity_flags(a).contains(flag) || integrity_flags(b).contains(flag) ==> integrity_flags(c).contains(flag),
{
    lemma_flags_raised(a, flag);
    lemma_flags_raised(b, flag);
    lemma_flags_raised(c, flag);
    crate::text::lemma_encode_concat(a@, b@);
    lemma_raises_grows(a@, a.spec_bytes(), b@, b.spec_bytes(), flag);
}

/// Law: the unexpected-control flag is about C0 and C1 control codes other
/// than line feed, carriage return and tab. A text whose every character is
/// one of those three or lies outside U+0000..U+001F and U+007F..U+009F
/// raises no such flag; a text holding any other code of those ranges
/// raises it.
pub proof fn lemma_control_flag_spares_line_breaks_and_tabs(text: &str)
    ensures
        (forall|i: int|
            0 <= i < text@.len() ==> {
                let c = #[trigger] text@[i];
                c == '\n' || c == '\r' || c == '\t' || (c as u32) > 0x9f || (0x1f < (c as u32) && (c as u32)
                    < 0x7f)
            }) ==> !integrity_flags(text).contains(TextIntegrityFlag::UnexpectedControlCharacter),
        (exists|i: int|
            0 <= i < text@.len() && {
                let c = #[trigger] text@[i];
                c != '\n' && c != '\r' && c != '\t' && ((c as u32) <= 0x1f || (0x7f <= (c as u32) && (c as u32)
                    <= 0x9f))
            }) ==> integrity_flags(text).contains(TextIntegrityFlag::UnexpectedControlCharacter),
{
    lemma_flags_raised(text, TextIntegrityFlag::UnexpectedControlCharacter);
    let cs = text@;
    if exists|i: int|
        0 <= i < cs.len() && {
            let c = #[trigger] cs[i];
            c != '\n' && c != '\r' && c != '\t' && ((c as u32) <= 0x1f || (0x7f <= (c as u32) && (c as u32)
                <= 0x9f))
        } {
        let i = choose|i: int|
            0 <= i < cs.len() && {
                let c = #[trigger] cs[i];
                c != '\n' && c != '\r' && c != '\t' && ((c as u32) <= 0x1f || (0x7f <= (c as u32) && (c as u32)
                    <= 0x9f))
            };
        assert(is_unexpected_control(cs[i]));
    }
}

} // verus!
