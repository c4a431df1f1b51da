//! Structured single-file edits (`edit_file`) and creations (`write_file`):
//! the validation and the byte-exact computation of the new file contents.
//! Reading and writing the file stays with the caller.
use vstd::prelude::*;
use vstd::string::StringSliceAdditionalSpecFns;
use vstd::utf8::{decode_utf8, encode_utf8_decode_utf8, valid_utf8};

use crate::line_endings::{
    endings_of, has_final_eol, has_final_line_ending, norm, normalize_line_endings,
    normalize_line_endings_with_offsets, preferred_ending, preferred_line_ending,
    preserve_final_line_ending, restore, restore_matched_line_endings, with_final_eol,
    LineEnding,
};
use crate::text::{
    lemma_encode_len_at_least,
    append_str, bytes_contain_byte, bytes_eq, bytes_occur_at, chars_of, decimal, decimal_string,
    occurs_at, push_range, starts_with_seq, str_eq, string_from_chars, string_from_utf8,
    utf8_error_text,
};

verus! {

broadcast use vstd::string::group_string_axioms;

/// The largest file that a structured mutation reads or writes.
pub const MAX_STRUCTURED_FILE_BYTES: usize = 8388608;

/// The most characters of a path that an error message shows.
pub const MAX_MODEL_VISIBLE_PATH_CHARS: usize = 256;

/// An error of a structured file mutation.
#[derive(Debug, PartialEq, Eq)]
pub enum ApplyPatchError {
    /// The mutation would not change the file.
    NoFilesModified,
    /// The mutation was refused; the message says why.
    StructuredFileMutation(String),
}

impl ApplyPatchError {
    /// The message of the error.
    pub fn to_string(&self) -> (s: String)
        ensures
            self matches ApplyPatchError::StructuredFileMutation(m) ==> s@ == m@,
            self is NoFilesModified ==> s@ == "No files were modified."@,
    {
        match self {
            ApplyPatchError::NoFilesModified => "No files were modified.".to_owned(),
            ApplyPatchError::StructuredFileMutation(m) => m.clone(),
        }
    }
}

/// The result is the refusal with exactly this message.
pub open spec fn refused<T>(r: Result<T, ApplyPatchError>, msg: Seq<char>) -> bool {
    r matches Err(ApplyPatchError::StructuredFileMutation(m)) && m@ == msg
}

/// Whether a mutation edits an existing file or creates a new one.
#[derive(Clone, Copy, Debug, Eq, PartialEq, Structural)]
pub enum StructuredFileMutationKind {
    Edit,
    Write,
}

/// A validated mutation, ready to be written.
#[derive(Debug)]
pub struct StructuredFileMutation {
    pub kind: StructuredFileMutationKind,
    pub path: String,
    pub expected_contents: Option<Vec<u8>>,
    pub original_content: Option<String>,
    pub new_contents: Vec<u8>,
    pub new_content: String,
    pub unified_diff: String,
}

/// A path as shown to the model: at most 255 characters, followed by an
/// ellipsis when the path was longer.
pub open spec fn visible(s: Seq<char>) -> Seq<char> {
    if s.len() <= 255 {
        s
    } else {
        s.take(255).push('\u{2026}')
    }
}

/// Truncates a text to what may be shown to the model (see `visible`).
pub fn truncate_visible(value: &str) -> (r: String)
    ensures
        r@ == visible(value@),
{
    let mut cs = chars_of(value);
    if cs.len() > 255 {
        cs.truncate(255);
        cs.push('\u{2026}');
    }
    string_from_chars(cs.as_slice())
}

/// The native path of a mutation target as error messages show it.
pub fn display_path(path: &str) -> (r: String)
    ensures
        r@ == visible(path@),
{
    truncate_visible(path)
}

/// Names the unified diff (three lines of context) that `similar` computes
/// between two texts.
pub uninterp spec fn line_diff(old: Seq<char>, new: Seq<char>) -> Seq<char>;

/// Calls `similar::TextDiff::from_lines(..).unified_diff().context_radius(3)`.
/// The contract claims only that the result is the named `line_diff` of the
/// two texts.
#[verifier::external_body]
fn unified_diff(old: &str, new: &str) -> (r: String)
    ensures
        r@ == line_diff(old@, new@),
{
    similar::TextDiff::from_lines(old, new).unified_diff().context_radius(3).to_string()
}

/// The start positions of the leftmost non-overlapping occurrences of `p` in
/// `t` at or after `from` (what `str::match_indices` yields).
pub open spec fn occurrences(t: Seq<u8>, p: Seq<u8>, from: int) -> Seq<int>
    decreases t.len() - from,
{
    if p.len() == 0 || from < 0 || from + p.len() > t.len() {
        Seq::empty()
    } else if occurs_at(t, p, from) {
        seq![from] + occurrences(t, p, from + p.len())
    } else {
        occurrences(t, p, from + 1)
    }
}

pub open spec fn usize_ints(v: Seq<usize>) -> Seq<int> {
    v.map_values(|x: usize| x as int)
}

/// The leftmost non-overlapping occurrences of `p` in `t`.
fn find_occurrences(t: &[u8], p: &[u8]) -> (r: Vec<usize>)
    ensures
        usize_ints(r@) == occurrences(t@, p@, 0),
        forall|k: int| 0 <= k < r@.len() ==> r@[k] + p@.len() <= t@.len(),
        forall|j: int, k: int| 0 <= j < k < r@.len() ==> r@[j] + p@.len() <= r@[k],
{
    let mut found: Vec<usize> = Vec::new();
    if p.len() == 0 {
        assert(usize_ints(found@) =~= occurrences(t@, p@, 0));
        return found;
    }
    let tl = t.len();
    let pl = p.len();
    let mut pos: usize = 0;
    assert(usize_ints(found@) + occurrences(t@, p@, 0) =~= occurrences(t@, p@, 0));
    while pos <= tl && pl <= tl - pos
        invariant
            tl == t@.len(),
            pl == p@.len(),
            pl > 0,
            pos <= tl,
            usize_ints(found@) + occurrences(t@, p@, pos as int) == occurrences(t@, p@, 0),
            forall|k: int| 0 <= k < found@.len() ==> found@[k] + pl <= pos,
            forall|j: int, k: int| 0 <= j < k < found@.len() ==> found@[j] + pl <= found@[k],
        decreases tl - pos,
    {
        let ghost before = found@;
        if bytes_occur_at(t, p, pos) {
            found.push(pos);
            assert(usize_ints(found@) =~= usize_ints(before) + seq![pos as int]);
            pos = pos + pl;
        } else {
            pos = pos + 1;
        }
    }
    assert(occurrences(t@, p@, pos as int) =~= Seq::<int>::empty());
    assert(usize_ints(found@) =~= occurrences(t@, p@, 0));
    found
}

/// The editable bytes with the selected matches replaced: each match's span
/// of the original bytes (found through the offset map `o`) is replaced by the
/// new text with the span's own line endings restored.
pub open spec fn splice_matches(e: Seq<u8>, o: Seq<int>, sel: Seq<int>, plen: int, repl: Seq<u8>, fallback: LineEnding, pos: int) -> Seq<u8>
    decreases sel.len(),
{
    if sel.len() == 0 {
        e.subrange(pos, e.len() as int)
    } else {
        let st = o[sel[0]];
        let en = o[sel[0] + plen];
        e.subrange(pos, st) + restore(repl, endings_of(e.subrange(st, en)), fallback)
            + splice_matches(e, o, sel.drop_first(), plen, repl, fallback, en)
    }
}

/// The UTF-8 byte order mark.
pub open spec fn bom() -> Seq<u8> {
    seq![0xefu8, 0xbbu8, 0xbfu8]
}

/// The length of the byte order mark that the file starts with (0 or 3).
pub open spec fn bom_len(original: Seq<u8>) -> int {
    if starts_with_seq(original, bom()) {
        3
    } else {
        0
    }
}

/// The file contents without its byte order mark.
pub open spec fn editable(original: Seq<u8>) -> Seq<u8> {
    original.skip(bom_len(original))
}

/// The match positions (in the normalised text) of the old text.
pub open spec fn edit_matches(original: Seq<u8>, old: Seq<u8>) -> Seq<int> {
    occurrences(norm(editable(original)), norm(old), 0)
}

/// The new contents of an edit: the byte order mark, then the editable text
/// with the selected matches replaced, made to end with a line ending exactly
/// when the original editable text did.
pub open spec fn edited_contents(original: Seq<u8>, old: Seq<u8>, new: Seq<u8>, replace_all: bool) -> Seq<u8> {
    let e = editable(original);
    let m = edit_matches(original, old);
    let sel = if replace_all {
        m
    } else {
        m.take(1)
    };
    let pref = preferred_ending(e);
    original.take(bom_len(original)) + with_final_eol(
        splice_matches(e, offsets_of(e), sel, norm(old).len() as int, norm(new), pref, 0),
        has_final_eol(e),
        pref,
    )
}

pub open spec fn offsets_of(e: Seq<u8>) -> Seq<int> {
    crate::line_endings::offsets(e)
}

pub open spec fn msg_old_empty() -> Seq<char> {
    "edit_file.old_string must not be empty"@
}

pub open spec fn msg_nul_in_new() -> Seq<char> {
    "edit_file only supports text files; new_string contains a NUL byte"@
}

pub open spec fn msg_target_too_large(p: Seq<char>) -> Seq<char> {
    "edit_file target exceeds the 8388608-byte limit: "@ + visible(p)
}

pub open spec fn msg_utf16(p: Seq<char>) -> Seq<char> {
    "edit_file supports UTF-8 text only; "@ + visible(p) + " is UTF-16"@
}

pub open spec fn msg_binary(p: Seq<char>) -> Seq<char> {
    "edit_file only supports text files; "@ + visible(p) + " appears to be binary"@
}

pub open spec fn msg_invalid_utf8(p: Seq<char>, bytes: Seq<u8>) -> Seq<char> {
    "edit_file supports UTF-8 text only for "@ + visible(p) + ": "@ + utf8_error_text(bytes)
}

pub open spec fn msg_not_found(p: Seq<char>) -> Seq<char> {
    "edit_file could not find old_string in "@ + visible(p)
        + ". Re-read the file and copy the exact text, including indentation."@
}

pub open spec fn msg_ambiguous(count: nat, p: Seq<char>) -> Seq<char> {
    "edit_file found old_string "@ + decimal(count) + " times in "@ + visible(p)
        + ". Include more surrounding context or set replace_all to true."@
}

pub open spec fn msg_result_too_large() -> Seq<char> {
    "edit_file result exceeds the 8388608-byte limit"@
}

pub open spec fn msg_produced_invalid(p: Seq<char>, bytes: Seq<u8>) -> Seq<char> {
    "edit_file produced invalid UTF-8 for "@ + visible(p) + ": "@ + utf8_error_text(bytes)
}

/// The file starts with a UTF-16 byte order mark.
pub open spec fn has_utf16_bom(b: Seq<u8>) -> bool {
    starts_with_seq(b, seq![0xffu8, 0xfeu8]) || starts_with_seq(b, seq![0xfeu8, 0xffu8])
}

/// The outcome of the checks that precede reading the file.
pub open spec fn is_request_check(old: &str, new: &str, r: Result<(), ApplyPatchError>) -> bool {
    if old@.len() == 0 {
        refused(r, msg_old_empty())
    } else if old@ == new@ {
        r == Err::<(), ApplyPatchError>(ApplyPatchError::NoFilesModified)
    } else if new@.contains('\0') {
        refused(r, msg_nul_in_new())
    } else {
        r is Ok
    }
}

/// The outcome of preparing an edit of a file whose current bytes are
/// `original`, in the order in which the checks are made.
pub open spec fn is_edit_outcome(path: &str, old: &str, new: &str, replace_all: bool, original: Seq<u8>, r: Result<StructuredFileMutation, ApplyPatchError>) -> bool {
    let p = path@;
    let result = edited_contents(original, old.spec_bytes(), new.spec_bytes(), replace_all);
    let count = edit_matches(original, old.spec_bytes()).len();
    if old@.len() == 0 || old@ == new@ || new@.contains('\0') {
        is_request_check(old, new, match r { Ok(_) => Ok(()), Err(e) => Err(e) })
    } else if original.len() > MAX_STRUCTURED_FILE_BYTES {
        refused(r, msg_target_too_large(p))
    } else if has_utf16_bom(original) {
        refused(r, msg_utf16(p))
    } else if original.contains(0u8) {
        refused(r, msg_binary(p))
    } else if !valid_utf8(original) {
        refused(r, msg_invalid_utf8(p, original))
    } else if count == 0 {
        refused(r, msg_not_found(p))
    } else if count > 1 && !replace_all {
        refused(r, msg_ambiguous(count, p))
    } else if result.len() > MAX_STRUCTURED_FILE_BYTES {
        refused(r, msg_result_too_large())
    } else if result == original {
        r == Err::<StructuredFileMutation, ApplyPatchError>(ApplyPatchError::NoFilesModified)
    } else if !valid_utf8(result) {
        refused(r, msg_produced_invalid(p, result))
    } else {
        r matches Ok(m) && {
            &&& m.kind == StructuredFileMutationKind::Edit
            &&& m.path@ == p
            &&& m.expected_contents matches Some(x) && x@ == original
            &&& m.original_content matches Some(x) && x@ == decode_utf8(original)
            &&& m.new_contents@ == result
            &&& m.new_content@ == decode_utf8(result)
            &&& m.unified_diff@ == line_diff(decode_utf8(original), decode_utf8(result))
        }
    }
}

fn refuse<T>(msg: String) -> (r: Result<T, ApplyPatchError>)
    ensures
        refused(r, msg@),
{
    Err(ApplyPatchError::StructuredFileMutation(msg))
}

/// The checks of an edit request that need no file: a non-empty old text, a
/// change, and no NUL in the new text.
pub fn validate_structured_edit(old_string: &str, new_string: &str) -> (r: Result<(), ApplyPatchError>)
    ensures
        is_request_check(old_string, new_string, r),
{
    proof {
        lemma_encode_len_at_least(old_string@);
    }
    if old_string.as_bytes().len() == 0 {
        return refuse("edit_file.old_string must not be empty".to_owned());
    }
    if str_eq(old_string, new_string) {
        return Err(ApplyPatchError::NoFilesModified);
    }
    if bytes_contain_byte(new_string.as_bytes(), 0) {
        proof {
            lemma_nul_byte_iff_nul_char(new_string@);
        }
        return refuse(
            "edit_file only supports text files; new_string contains a NUL byte".to_owned(),
        );
    }
    proof {
        lemma_nul_byte_iff_nul_char(new_string@);
    }
    Ok(())
}

/// A zero byte occurs in the UTF-8 encoding exactly where a NUL character
/// occurs in the text.
pub proof fn lemma_nul_byte_iff_nul_char(s: Seq<char>)
    ensures
        vstd::utf8::encode_utf8(s).contains(0u8) <==> s.contains('\0'),
    decreases s.len(),
{
    if s.len() > 0 {
        lemma_nul_byte_iff_nul_char(s.drop_first());
        let head = vstd::utf8::encode_scalar(s[0] as u32);
        let tail = vstd::utf8::encode_utf8(s.drop_first());
        vstd::utf8::char_is_scalar(s[0]);
        assert(vstd::utf8::encode_utf8(s) == head + tail);
        let v = s[0] as u32;
        assert(head.contains(0u8) <==> v == 0) by {
            if v == 0 {
                assert(head[0] == 0u8) by {
                    assert((v & 0x7F) as u8 == 0u8) by (bit_vector)
                        requires
                            v == 0,
                    ;
                }
            } else if v <= 0x7f {
                assert((v & 0x7F) as u8 != 0u8) by (bit_vector)
                    requires
                        0 < v <= 0x7f,
                ;
                assert(head =~= seq![(v & 0x7F) as u8]);
            } else if v <= 0x7ff {
                assert((0xC0 | ((v >> 6) & 0x1F) as u8) != 0u8 && (0x80 | (v & 0x3F) as u8) != 0u8)
                    by (bit_vector);
            } else if v <= 0xffff {
                assert((0xE0 | ((v >> 12) & 0x0F) as u8) != 0u8 && (0x80 | ((v >> 6) & 0x3F) as u8)
                    != 0u8 && (0x80 | (v & 0x3F) as u8) != 0u8) by (bit_vector);
            } else {
                assert((0xF0 | ((v >> 18) & 0x7) as u8) != 0u8 && (0x80 | ((v >> 12) & 0x3F) as u8)
                    != 0u8 && (0x80 | ((v >> 6) & 0x3F) as u8) != 0u8 && (0x80 | (v & 0x3F) as u8)
                    != 0u8) by (bit_vector);
            }
        }
        assert((head + tail).contains(0u8) <==> head.contains(0u8) || tail.contains(0u8)) by {
            if (head + tail).contains(0u8) {
                let i = choose|i: int| 0 <= i < (head + tail).len() && (head + tail)[i] == 0u8;
                if i < head.len() {
                    assert(head[i] == 0u8);
                } else {
                    assert(tail[i - head.len()] == 0u8);
                }
            }
            if head.contains(0u8) {
                let i = choose|i: int| 0 <= i < head.len() && head[i] == 0u8;
                assert((head + tail)[i] == 0u8);
            }
            if tail.contains(0u8) {
                let i = choose|i: int| 0 <= i < tail.len() && tail[i] == 0u8;
                assert((head + tail)[head.len() + i] == 0u8);
            }
        }
        assert(s.contains('\0') <==> s[0] == '\0' || s.drop_first().contains('\0')) by {
            if s.contains('\0') {
                let i = choose|i: int| 0 <= i < s.len() && s[i] == '\0';
                if i > 0 {
                    assert(s.drop_first()[i - 1] == '\0');
                }
            }
            if s.drop_first().contains('\0') {
                let i = choose|i: int| 0 <= i < s.drop_first().len() && s.drop_first()[i] == '\0';
                assert(s[i + 1] == '\0');
            }
        }
        assert(s[0] == '\0' <==> v == 0) by {
            vstd::utf8::char_u32_cast(s[0], v);
            if v == 0 {
                assert((0u32 as char) == '\0');
            }
        }
    }
}

/// `a` followed by `b`.
fn join2(a: &str, b: &str) -> (r: String)
    ensures
        r@ == a@ + b@,
{
    let mut out = a.to_owned();
    append_str(&mut out, b);
    out
}

/// `a`, `b` and `c` in order.
fn join3(a: &str, b: &str, c: &str) -> (r: String)
    ensures
        r@ == a@ + b@ + c@,
{
    let mut out = a.to_owned();
    append_str(&mut out, b);
    append_str(&mut out, c);
    out
}

fn starts_with_two(b: &[u8], x: u8, y: u8) -> (r: bool)
    ensures
        r == starts_with_seq(b@, seq![x, y]),
{
    let r = b.len() >= 2 && b[0] == x && b[1] == y;
    proof {
        if b@.len() >= 2 {
            if r {
                assert(b@.subrange(0, 2) =~= seq![x, y]);
            }
            if b@.subrange(0, 2) == seq![x, y] {
                assert(b@.subrange(0, 2)[0] == x);
                assert(b@.subrange(0, 2)[1] == y);
            }
        }
    }
    r
}

fn bom_length(b: &[u8]) -> (r: usize)
    ensures
        r == bom_len(b@),
{
    let r: usize = if b.len() >= 3 && b[0] == 0xef && b[1] == 0xbb && b[2] == 0xbf {
        3
    } else {
        0
    };
    proof {
        if b@.len() >= 3 {
            if r == 3 {
                assert(b@.subrange(0, 3) =~= bom());
            }
            if b@.subrange(0, 3) == bom() {
                assert(b@.subrange(0, 3)[0] == 0xef);
                assert(b@.subrange(0, 3)[1] == 0xbb);
                assert(b@.subrange(0, 3)[2] == 0xbf);
            }
        }
    }
    r
}

/// Prepares an edit of a file whose current bytes are `original_bytes`:
/// validates the request and the file, finds the old text after normalising
/// line endings on both sides, and computes the new bytes (see
/// `is_edit_outcome` for every outcome).
pub fn prepare_structured_edit(
    path: &str,
    old_string: &str,
    new_string: &str,
    replace_all: bool,
    original_bytes: Vec<u8>,
) -> (r: Result<StructuredFileMutation, ApplyPatchError>)
    ensures
        is_edit_outcome(path, old_string, new_string, replace_all, original_bytes@, r),
{
    match validate_structured_edit(old_string, new_string) {
        Err(error) => {
            return Err(error);
        },
        Ok(()) => {},
    }
    let display = display_path(path);
    let ob = original_bytes.as_slice();
    if ob.len() > MAX_STRUCTURED_FILE_BYTES {
        return refuse(join2("edit_file target exceeds the 8388608-byte limit: ", display.as_str()));
    }
    if starts_with_two(ob, 0xff, 0xfe) || starts_with_two(ob, 0xfe, 0xff) {
        return refuse(
            join3("edit_file supports UTF-8 text only; ", display.as_str(), " is UTF-16"),
        );
    }
    if bytes_contain_byte(ob, 0) {
        return refuse(
            join3(
                "edit_file only supports text files; ",
                display.as_str(),
                " appears to be binary",
            ),
        );
    }
    let original_content = match string_from_utf8(original_bytes.clone()) {
        Ok(text) => text,
        Err(error) => {
            return refuse(
                join3(
                    "edit_file supports UTF-8 text only for ",
                    display.as_str(),
                    ": ",
                ).concat(error.as_str()),
            );
        },
    };
    let total = ob.len();
    let bl = bom_length(ob);
    let mut e: Vec<u8> = Vec::new();
    push_range(&mut e, ob, bl, total);
    assert(e@ =~= editable(original_bytes@));
    let normalized = normalize_line_endings_with_offsets(e.as_slice());
    let old_n = normalize_line_endings(old_string.as_bytes());
    let new_n = normalize_line_endings(new_string.as_bytes());
    let matches = find_occurrences(normalized.text.as_slice(), old_n.as_slice());
    if matches.len() == 0 {
        return refuse(
            join3(
                "edit_file could not find old_string in ",
                display.as_str(),
                ". Re-read the file and copy the exact text, including indentation.",
            ),
        );
    }
    if matches.len() > 1 && !replace_all {
        let count = decimal_string(matches.len() as u64);
        return refuse(
            join3("edit_file found old_string ", count.as_str(), " times in ").concat(
                display.as_str(),
            ).concat(". Include more surrounding context or set replace_all to true."),
        );
    }
    let preferred = preferred_line_ending(e.as_slice());
    let count: usize = if replace_all {
        matches.len()
    } else {
        1
    };
    let plen = old_n.len();
    let tl = normalized.text.len();
    let offs = &normalized.original_offsets;
    let ghost o = usize_ints(offs@);
    let ghost sel = usize_ints(matches@).take(count as int);
    let ghost ee = e@;
    let ghost full = splice_matches(ee, o, sel, plen as int, new_n@, preferred, 0);
    let mut out: Vec<u8> = Vec::new();
    let mut pos: usize = 0;
    assert(sel.skip(0) =~= sel);
    assert(out@ + full =~= full);
    for k in 0..count
        invariant
            count <= matches@.len(),
            plen == old_n@.len(),
            tl == normalized.text@.len(),
            ee == e@,
            o == usize_ints(offs@),
            sel == usize_ints(matches@).take(count as int),
            offs@.len() == normalized.text@.len() + 1,
            offs@[0] == 0,
            offs@.last() == e@.len(),
            forall|i: int, j: int| 0 <= i < j < offs@.len() ==> offs@[i] < offs@[j],
            forall|i: int| 0 <= i < matches@.len() ==> matches@[i] + plen <= normalized.text@.len(),
            forall|i: int, j: int| 0 <= i < j < matches@.len() ==> matches@[i] + plen <= matches@[j],
            pos <= e@.len(),
            k == 0 ==> pos == 0,
            k > 0 ==> pos == offs@[matches@[k - 1] + plen],
            out@ + splice_matches(ee, o, sel.skip(k as int), plen as int, new_n@, preferred, pos as int) == full,
    {
        let mk = matches[k];
        let st = offs[mk];
        let en = offs[mk + plen];
        proof {
            if k > 0 {
                assert(matches@[k - 1] + plen <= matches@[k as int]);
                if matches@[k - 1] + plen < mk {
                    assert(offs@[matches@[k - 1] + plen] < offs@[mk as int]);
                }
            } else {
                if mk > 0 {
                    assert(offs@[0] < offs@[mk as int]);
                }
            }
            if plen > 0 {
                assert(offs@[mk as int] < offs@[mk + plen]);
            }
            if mk + plen < normalized.text@.len() {
                assert(offs@[mk + plen] < offs@[normalized.text@.len() as int]);
            }
        }
        let ghost before = out@;
        let ghost old_pos = pos as int;
        let ghost rest = sel.skip(k as int);
        assert(rest[0] == mk as int);
        assert(o[mk as int] == st as int);
        assert(o[mk + plen] == en as int);
        assert(rest.drop_first() =~= sel.skip(k + 1));
        push_range(&mut out, e.as_slice(), pos, st);
        let mut matched: Vec<u8> = Vec::new();
        push_range(&mut matched, e.as_slice(), st, en);
        let mut replacement = restore_matched_line_endings(new_n.as_slice(), matched.as_slice(), preferred);
        out.append(&mut replacement);
        pos = en;
        assert(out@ + splice_matches(ee, o, sel.skip(k + 1), plen as int, new_n@, preferred, pos as int) =~= before + splice_matches(ee, o, rest, plen as int, new_n@, preferred, old_pos));
    }
    assert(sel.skip(count as int) =~= Seq::<int>::empty());
    let el = e.len();
    push_range(&mut out, e.as_slice(), pos, el);
    assert(out@ == full);
    proof {
        assert(e@ == editable(original_bytes@));
        assert(normalized.text@ == norm(editable(original_bytes@)));
        assert(usize_ints(matches@) == edit_matches(original_bytes@, old_string.spec_bytes()));
        if replace_all {
            assert(usize_ints(matches@).take(count as int) =~= usize_ints(matches@));
        }
        assert(o == offsets_of(e@));
        assert(original_bytes@.subrange(0, bl as int) =~= original_bytes@.take(bom_len(original_bytes@)));
    }
    preserve_final_line_ending(&mut out, has_final_line_ending(e.as_slice()), preferred);
    let mut new_contents: Vec<u8> = Vec::new();
    push_range(&mut new_contents, ob, 0, bl);
    new_contents.append(&mut out);
    assert(new_contents@ =~= edited_contents(original_bytes@, old_string.spec_bytes(), new_string.spec_bytes(), replace_all));
    if new_contents.len() > MAX_STRUCTURED_FILE_BYTES {
        return refuse("edit_file result exceeds the 8388608-byte limit".to_owned());
    }
    if bytes_eq(new_contents.as_slice(), ob) {
        return Err(ApplyPatchError::NoFilesModified);
    }
    let new_content = match string_from_utf8(new_contents.clone()) {
        Ok(text) => text,
        Err(error) => {
            return refuse(
                join3("edit_file produced invalid UTF-8 for ", display.as_str(), ": ").concat(
                    error.as_str(),
                ),
            );
        },
    };
    let unified_diff = unified_diff(original_content.as_str(), new_content.as_str());
    Ok(
        StructuredFileMutation {
            kind: StructuredFileMutationKind::Edit,
            path: path.to_owned(),
            expected_contents: Some(original_bytes),
            original_content: Some(original_content),
            new_contents,
            new_content,
            unified_diff,
        },
    )
}

pub open spec fn msg_write_too_large() -> Seq<char> {
    "write_file content exceeds the 8388608-byte limit"@
}

pub open spec fn msg_write_nul() -> Seq<char> {
    "write_file only supports text files; content contains a NUL byte"@
}

pub open spec fn msg_will_not_overwrite(p: Seq<char>) -> Seq<char> {
    "write_file will not overwrite existing path "@ + visible(p) + ". Use edit_file instead."@
}

pub open spec fn msg_io(context: Seq<char>, p: Seq<char>, kind: Seq<char>) -> Seq<char> {
    context + " "@ + visible(p) + " ("@ + kind + ")"@
}

pub open spec fn msg_stale(p: Seq<char>) -> Seq<char> {
    visible(p)
        + " changed after edit_file validation; no changes were written. Re-read the file and retry."@
}

pub open spec fn msg_write_failed(p: Seq<char>) -> Seq<char> {
    "Failed to write file "@ + visible(p) + ". No changes were committed."@
}

/// What looking up the target of a `write_file` found.
pub enum MetadataProbe {
    /// Something exists at the path.
    Exists,
    /// Nothing exists at the path.
    NotFound,
    /// The lookup failed with the I/O error kind of this name.
    Failed(String),
}

/// The error for an I/O failure: the context, the visible path and the name of
/// the error kind, never the error's own text.
pub fn structured_io_error(context: &str, path: &str, kind: &str) -> (r: ApplyPatchError)
    ensures
        r matches ApplyPatchError::StructuredFileMutation(m) && m@ == msg_io(context@, path@, kind@),
{
    let display = display_path(path);
    let m = join3(context, " ", display.as_str()).concat(" (").concat(kind).concat(")");
    ApplyPatchError::StructuredFileMutation(m)
}

/// The outcome of the checks of a `write_file` request that need no file.
pub open spec fn is_write_check(content: &str, r: Result<(), ApplyPatchError>) -> bool {
    if content.spec_bytes().len() > MAX_STRUCTURED_FILE_BYTES {
        refused(r, msg_write_too_large())
    } else if content@.contains('\0') {
        refused(r, msg_write_nul())
    } else {
        r is Ok
    }
}

/// The checks of a `write_file` request that need no file: the size limit and
/// no NUL character.
pub fn validate_structured_write(content: &str) -> (r: Result<(), ApplyPatchError>)
    ensures
        is_write_check(content, r),
{
    let bytes = content.as_bytes();
    if bytes.len() > MAX_STRUCTURED_FILE_BYTES {
        return refuse("write_file content exceeds the 8388608-byte limit".to_owned());
    }
    proof {
        lemma_nul_byte_iff_nul_char(content@);
    }
    if bytes_contain_byte(bytes, 0) {
        return refuse("write_file only supports text files; content contains a NUL byte".to_owned());
    }
    Ok(())
}

/// The outcome of preparing the creation of a file.
pub open spec fn is_write_outcome(path: &str, content: Seq<char>, probe: MetadataProbe, r: Result<StructuredFileMutation, ApplyPatchError>) -> bool {
    let text_bytes = vstd::utf8::encode_utf8(content);
    if text_bytes.len() > MAX_STRUCTURED_FILE_BYTES {
        refused(r, msg_write_too_large())
    } else if content.contains('\0') {
        refused(r, msg_write_nul())
    } else {
        match probe {
            MetadataProbe::Exists => refused(r, msg_will_not_overwrite(path@)),
            MetadataProbe::Failed(kind) => refused(
                r,
                msg_io("Failed to inspect file to create"@, path@, kind@),
            ),
            MetadataProbe::NotFound => r matches Ok(m) && {
                &&& m.kind == StructuredFileMutationKind::Write
                &&& m.path@ == path@
                &&& m.expected_contents is None
                &&& m.original_content is None
                &&& m.new_contents@ == text_bytes
                &&& m.new_content@ == content
                &&& m.unified_diff@ == line_diff(Seq::empty(), content)
            },
        }
    }
}

/// Prepares the creation of a new file with exactly `content`, given what
/// looking up the path found: an existing path is never overwritten.
pub fn prepare_structured_write(path: &str, content: String, probe: MetadataProbe) -> (r: Result<StructuredFileMutation, ApplyPatchError>)
    ensures
        is_write_outcome(path, content@, probe, r),
{
    match validate_structured_write(content.as_str()) {
        Err(error) => {
            return Err(error);
        },
        Ok(()) => {},
    }
    match probe {
        MetadataProbe::Exists => {
            let display = display_path(path);
            return refuse(
                join3(
                    "write_file will not overwrite existing path ",
                    display.as_str(),
                    ". Use edit_file instead.",
                ),
            );
        },
        MetadataProbe::Failed(kind) => {
            return Err(structured_io_error("Failed to inspect file to create", path, kind.as_str()));
        },
        MetadataProbe::NotFound => {},
    }
    let empty = String::new();
    let unified_diff = unified_diff(empty.as_str(), content.as_str());
    let mut new_contents: Vec<u8> = Vec::new();
    let bytes = content.as_str().as_bytes();
    push_range(&mut new_contents, bytes, 0, bytes.len());
    assert(bytes@.subrange(0, bytes@.len() as int) =~= bytes@);
    Ok(
        StructuredFileMutation {
            kind: StructuredFileMutationKind::Write,
            path: path.to_owned(),
            expected_contents: None,
            original_content: None,
            new_contents,
            new_content: content,
            unified_diff,
        },
    )
}

/// Refuses to write when the file changed since the edit was validated.
pub fn check_unchanged(path: &str, expected: &[u8], current: &[u8]) -> (r: Result<(), ApplyPatchError>)
    ensures
        expected@ == current@ ==> r is Ok,
        expected@ != current@ ==> refused(r, msg_stale(path@)),
{
    if bytes_eq(current, expected) {
        Ok(())
    } else {
        let display = display_path(path);
        refuse(join2(
            display.as_str(),
            " changed after edit_file validation; no changes were written. Re-read the file and retry.",
        ))
    }
}

/// The error reported when writing the new contents failed.
pub fn write_failed_error(path: &str) -> (r: ApplyPatchError)
    ensures
        r matches ApplyPatchError::StructuredFileMutation(m) && m@ == msg_write_failed(path@),
{
    let display = display_path(path);
    ApplyPatchError::StructuredFileMutation(
        join3("Failed to write file ", display.as_str(), ". No changes were committed."),
    )
}

/// What a mutation does to its file, as a patch change.
#[derive(Clone, Debug, PartialEq, Eq)]
pub enum ApplyPatchFileChange {
    Update { unified_diff: String, move_path: Option<String>, new_content: String },
    Add { content: String },
}

/// A mutation as a patch action on one file.
#[derive(Clone, Debug)]
pub struct ApplyPatchAction {
    pub changes: Vec<(String, ApplyPatchFileChange)>,
    pub update_file_mode: crate::seek_sequence::ApplyPatchFileUpdateMode,
    pub patch: String,
    pub cwd: String,
}

/// How a mutation writes its file.
#[derive(Clone, Copy, Debug, PartialEq, Eq)]
pub enum WriteDisposition {
    /// Replace the existing file.
    Overwrite,
    /// Create the file; fail if it exists.
    CreateNew,
}

/// A committed change, as the turn's record of applied changes holds it.
#[derive(Clone, Debug, PartialEq, Eq)]
pub enum AppliedPatchFileChange {
    Update { old_content: String, new_content: String },
    Add { content: String },
}

impl StructuredFileMutation {
    /// The mutation as a patch action: an update with its diff for an edit,
    /// an addition for a new file; line endings are preserved.
    pub fn action(&self, cwd: &str) -> (r: ApplyPatchAction)
        ensures
            r.changes@.len() == 1,
            r.changes@[0].0@ == self.path@,
            match self.kind {
                StructuredFileMutationKind::Edit => r.changes@[0].1 matches ApplyPatchFileChange::Update {
                    unified_diff,
                    move_path,
                    new_content,
                } && unified_diff@ == self.unified_diff@ && move_path is None && new_content@
                    == self.new_content@,
                StructuredFileMutationKind::Write => r.changes@[0].1 matches ApplyPatchFileChange::Add {
                    content,
                } && content@ == self.new_content@,
            },
            r.update_file_mode == crate::seek_sequence::ApplyPatchFileUpdateMode::PreserveLineEndings,
            r.patch@ == self.unified_diff@,
            r.cwd@ == cwd@,
    {
        let change = match self.kind {
            StructuredFileMutationKind::Edit => ApplyPatchFileChange::Update {
                unified_diff: self.unified_diff.clone(),
                move_path: None,
                new_content: self.new_content.clone(),
            },
            StructuredFileMutationKind::Write => ApplyPatchFileChange::Add { content: self.new_content.clone() },
        };
        ApplyPatchAction {
            changes: vec![(self.path.clone(), change)],
            update_file_mode: crate::seek_sequence::ApplyPatchFileUpdateMode::PreserveLineEndings,
            patch: self.unified_diff.clone(),
            cwd: cwd.to_owned(),
        }
    }

    /// How the mutation writes its file: an edit overwrites, a new file is
    /// created only where nothing exists.
    pub fn write_disposition(&self) -> (r: WriteDisposition)
        ensures
            r == match self.kind {
                StructuredFileMutationKind::Edit => WriteDisposition::Overwrite,
                StructuredFileMutationKind::Write => WriteDisposition::CreateNew,
            },
    {
        match self.kind {
            StructuredFileMutationKind::Edit => WriteDisposition::Overwrite,
            StructuredFileMutationKind::Write => WriteDisposition::CreateNew,
        }
    }

    /// The committed change: the old and new text of an edit (the old text
    /// empty where none was kept), or the text of a new file.
    pub fn applied_change(&self) -> (r: AppliedPatchFileChange)
        ensures
            match self.kind {
                StructuredFileMutationKind::Edit => r matches AppliedPatchFileChange::Update {
                    old_content,
                    new_content,
                } && old_content@ == match self.original_content {
                    Some(o) => o@,
                    None => Seq::<char>::empty(),
                } && new_content@ == self.new_content@,
                StructuredFileMutationKind::Write => r matches AppliedPatchFileChange::Add { content } && content@
                    == self.new_content@,
            },
    {
        match self.kind {
            StructuredFileMutationKind::Edit => AppliedPatchFileChange::Update {
                old_content: match &self.original_content {
                    Some(o) => o.clone(),
                    None => String::new(),
                },
                new_content: self.new_content.clone(),
            },
            StructuredFileMutationKind::Write => AppliedPatchFileChange::Add { content: self.new_content.clone() },
        }
    }
}

/// The line reported when a mutation was written.
pub fn success_message(path: &str) -> (r: String)
    ensures
        r@ == "Success. Updated "@ + visible(path@),
{
    let display = display_path(path);
    join2("Success. Updated ", display.as_str())
}

/// What the caller reports to the application of a mutation.
pub enum MutationEvent {
    /// The application starts.
    Begin,
    /// The file was re-read: its bytes, or the name of the I/O error kind.
    Reread(Result<Vec<u8>, String>),
    /// The new contents were written, or writing them failed.
    Written(bool),
}

/// What the application of a mutation asks for next, or how it ended.
#[derive(Debug, PartialEq, Eq)]
pub enum MutationStep {
    /// Re-read the file and report its bytes.
    Reread,
    /// Write the mutation's new contents with this disposition and report
    /// whether that succeeded.
    Write(WriteDisposition),
    /// The application ended: its outcome, the changes committed, whether that
    /// record is exact, and the line to report (on standard output after a
    /// success, on standard error after a failure).
    Done {
        result: Result<(), ApplyPatchError>,
        changes: Vec<AppliedPatchFileChange>,
        exact: bool,
        report: String,
    },
}

/// The change an applied mutation commits.
pub open spec fn committed_change(m: StructuredFileMutation, c: AppliedPatchFileChange) -> bool {
    match m.kind {
        StructuredFileMutationKind::Edit => c matches AppliedPatchFileChange::Update {
            old_content,
            new_content,
        } && old_content@ == match m.original_content {
            Some(o) => o@,
            None => Seq::<char>::empty(),
        } && new_content@ == m.new_content@,
        StructuredFileMutationKind::Write => c matches AppliedPatchFileChange::Add { content } && content@
            == m.new_content@,
    }
}

/// The write a mutation performs.
pub open spec fn disposition_of(m: StructuredFileMutation) -> WriteDisposition {
    match m.kind {
        StructuredFileMutationKind::Edit => WriteDisposition::Overwrite,
        StructuredFileMutationKind::Write => WriteDisposition::CreateNew,
    }
}

/// A failed application: the error, nothing committed, and the error's
/// message as the report.
pub open spec fn failed_with(step: MutationStep, msg: Seq<char>, exact: bool) -> bool {
    step matches MutationStep::Done { result, changes, exact: e, report } && refused(result, msg)
        && changes@.len() == 0 && e == exact && report@ == msg
}

/// Applies a prepared mutation one step at a time. An edit first re-reads
/// the file and refuses to write when it changed since it was validated;
/// then the new contents are written (overwriting for an edit, creating for a
/// new file). A failed write leaves the record of changes inexact.
pub fn apply_structured_file_mutation(mutation: &StructuredFileMutation, event: MutationEvent) -> (r: MutationStep)
    ensures
        match event {
            MutationEvent::Begin => if mutation.expected_contents is Some {
                r == MutationStep::Reread
            } else {
                r == MutationStep::Write(disposition_of(*mutation))
            },
            MutationEvent::Reread(Err(kind)) => failed_with(
                r,
                msg_io("Failed to re-read file before edit"@, mutation.path@, kind@),
                true,
            ),
            MutationEvent::Reread(Ok(current)) => match mutation.expected_contents {
                Some(expected) if expected@ != current@ => failed_with(r, msg_stale(mutation.path@), true),
                _ => r == MutationStep::Write(disposition_of(*mutation)),
            },
            MutationEvent::Written(false) => failed_with(r, msg_write_failed(mutation.path@), false),
            MutationEvent::Written(true) => r matches MutationStep::Done { result, changes, exact, report }
                && result is Ok && changes@.len() == 1 && committed_change(*mutation, changes@[0]) && exact
                && report@ == "Success. Updated "@ + visible(mutation.path@),
        },
{
    match event {
        MutationEvent::Begin => {
            if mutation.expected_contents.is_some() {
                MutationStep::Reread
            } else {
                MutationStep::Write(mutation.write_disposition())
            }
        },
        MutationEvent::Reread(Err(kind)) => {
            let error = structured_io_error(
                "Failed to re-read file before edit",
                mutation.path.as_str(),
                kind.as_str(),
            );
            let report = error.to_string();
            MutationStep::Done { result: Err(error), changes: Vec::new(), exact: true, report }
        },
        MutationEvent::Reread(Ok(current)) => {
            match &mutation.expected_contents {
                Some(expected) => {
                    match check_unchanged(mutation.path.as_str(), expected.as_slice(), current.as_slice()) {
                        Err(error) => {
                            let report = error.to_string();
                            return MutationStep::Done {
                                result: Err(error),
                                changes: Vec::new(),
                                exact: true,
                                report,
                            };
                        },
                        Ok(()) => {},
                    }
                },
                None => {},
            }
            MutationStep::Write(mutation.write_disposition())
        },
        MutationEvent::Written(false) => {
            let error = write_failed_error(mutation.path.as_str());
            let report = error.to_string();
            MutationStep::Done { result: Err(error), changes: Vec::new(), exact: false, report }
        },
        MutationEvent::Written(true) => {
            let mut changes = Vec::new();
            changes.push(mutation.applied_change());
            MutationStep::Done {
                result: Ok(()),
                changes,
                exact: true,
                report: success_message(mutation.path.as_str()),
            }
        },
    }
}

/// Law: an edit keeps the file's UTF-8 byte order mark: the new contents
/// begin with exactly the mark the original began with.
pub proof fn lemma_edit_keeps_bom(original: Seq<u8>, old: Seq<u8>, new: Seq<u8>, replace_all: bool)
    ensures
        edited_contents(original, old, new, replace_all).take(bom_len(original)) == original.take(
            bom_len(original),
        ),
{
    let r = edited_contents(original, old, new, replace_all);
    let k = bom_len(original);
    if k == 3 {
        assert(original.len() >= 3);
    }
    assert(r.take(k) =~= original.take(k));
}

/// Law: an edit keeps whether the file ends with a line ending.
pub proof fn lemma_edit_keeps_final_line_ending(original: Seq<u8>, old: Seq<u8>, new: Seq<u8>, replace_all: bool)
    ensures
        has_final_eol(edited_contents(original, old, new, replace_all).skip(bom_len(original)))
            == has_final_eol(editable(original)),
{
    let e = editable(original);
    let m = edit_matches(original, old);
    let sel = if replace_all {
        m
    } else {
        m.take(1)
    };
    let pref = preferred_ending(e);
    let body = with_final_eol(
        splice_matches(e, offsets_of(e), sel, norm(old).len() as int, norm(new), pref, 0),
        has_final_eol(e),
        pref,
    );
    let k = bom_len(original);
    if k == 3 {
        assert(original.len() >= 3);
    }
    crate::line_endings::lemma_with_final_eol(
        splice_matches(e, offsets_of(e), sel, norm(old).len() as int, norm(new), pref, 0),
        has_final_eol(e),
        pref,
    );
    assert(edited_contents(original, old, new, replace_all).skip(k) =~= body);
}

/// Law: a planned edit writes exactly the edited contents, so it keeps the
/// byte order mark and the final line ending of the file.
pub proof fn lemma_planned_edit_preserves_file_shape(
    path: &str,
    old: &str,
    new: &str,
    replace_all: bool,
    original: Seq<u8>,
    r: Result<StructuredFileMutation, ApplyPatchError>,
)
    requires
        is_edit_outcome(path, old, new, replace_all, original, r),
        r is Ok,
    ensures
        r matches Ok(m) && {
            &&& m.new_contents@.take(bom_len(original)) == original.take(bom_len(original))
            &&& has_final_eol(m.new_contents@.skip(bom_len(original))) == has_final_eol(editable(original))
            &&& m.expected_contents matches Some(x) && x@ == original
        },
{
    lemma_edit_keeps_bom(original, old.spec_bytes(), new.spec_bytes(), replace_all);
    lemma_edit_keeps_final_line_ending(original, old.spec_bytes(), new.spec_bytes(), replace_all);
}

proof fn lemma_first_occurrence(t: Seq<u8>, p: Seq<u8>, from: int)
    requires
        occurrences(t, p, from).len() > 0,
    ensures
        from <= occurrences(t, p, from)[0],
        occurs_at(t, p, occurrences(t, p, from)[0]),
    decreases t.len() - from,
{
    if !(p.len() == 0 || from < 0 || from + p.len() > t.len()) && !occurs_at(t, p, from) {
        lemma_first_occurrence(t, p, from + 1);
    }
}

/// The text with the first occurrence of `old` replaced by `new`.
pub open spec fn replaced_first(original: Seq<u8>, old: Seq<u8>, new: Seq<u8>) -> Seq<u8> {
    let p = occurrences(original, old, 0)[0];
    original.take(p) + new + original.skip(p + old.len())
}

/// Law: in a file with LF line endings and no byte order mark, an edit with
/// LF texts replaces the first occurrence of the old text by the new text
/// and changes nothing else, where the replacement keeps whether the file
/// ends with a line ending (else that is restored).
pub proof fn lemma_edit_replaces_first_occurrence(original: Seq<u8>, old: Seq<u8>, new: Seq<u8>)
    requires
        crate::line_endings::no_cr(original),
        crate::line_endings::no_cr(old),
        crate::line_endings::no_cr(new),
        !starts_with_seq(original, bom()),
        occurrences(original, old, 0).len() > 0,
        has_final_eol(replaced_first(original, old, new)) == has_final_eol(original),
    ensures
        edited_contents(original, old, new, false) == replaced_first(original, old, new),
{
    let e = editable(original);
    assert(bom_len(original) == 0);
    assert(e =~= original);
    crate::line_endings::lemma_lf_text(original);
    crate::line_endings::lemma_lf_text(old);
    crate::line_endings::lemma_lf_text(new);
    let m = edit_matches(original, old);
    assert(m == occurrences(original, old, 0));
    let p = m[0];
    lemma_first_occurrence(original, old, 0);
    let sel = m.take(1);
    assert(sel =~= seq![p]);
    let o = offsets_of(e);
    assert(o[p] == p);
    assert(o[p + old.len()] == p + old.len());
    let span = e.subrange(p, p + old.len());
    assert forall|i: int| 0 <= i < span.len() implies span[i] != 13u8 by {
        assert(span[i] == e[p + i]);
    }
    crate::line_endings::lemma_lf_text(span);
    let pref = preferred_ending(e);
    assert(pref == LineEnding::Lf);
    crate::line_endings::lemma_restore_lf(new, endings_of(span));
    let spliced = splice_matches(e, o, sel, old.len() as int, new, pref, 0);
    assert(sel.drop_first() =~= Seq::<int>::empty());
    assert(splice_matches(e, o, sel.drop_first(), old.len() as int, new, pref, p + old.len())
        == e.subrange(p + old.len(), e.len() as int));
    assert(sel[0] == p);
    assert(restore(new, endings_of(e.subrange(o[p], o[p + old.len()])), pref) == new);
    assert(spliced == e.subrange(0, p) + restore(new, endings_of(e.subrange(o[p], o[p + old.len()])), pref)
        + splice_matches(e, o, sel.drop_first(), old.len() as int, new, pref, o[p + old.len()]));
    assert(spliced =~= e.subrange(0, p) + new + e.subrange(p + old.len(), e.len() as int));
    assert(spliced =~= replaced_first(original, old, new));
    assert(original.take(0) =~= Seq::<u8>::empty());
    if !has_final_eol(original) {
        assert(crate::line_endings::strip_final_eols(spliced) == spliced);
    }
    assert(edited_contents(original, old, new, false) =~= replaced_first(original, old, new));
}

/// Law: `write_file` never plans to overwrite something that exists.
pub proof fn lemma_write_never_overwrites(
    path: &str,
    content: Seq<char>,
    r: Result<StructuredFileMutation, ApplyPatchError>,
)
    requires
        is_write_outcome(path, content, MetadataProbe::Exists, r),
    ensures
        r is Err,
{
}

/// What looking up the target of an `edit_file` found.
pub enum EditTargetProbe {
    /// The lookup failed with the I/O error kind of this name.
    Failed(String),
    /// Something exists: whether it is a file, and its size in bytes.
    Found { is_file: bool, size: u64 },
}

/// The checks of an edit target before it is read: the lookup succeeded,
/// the target is a file, and its size is within the limit.
pub fn check_edit_target(path: &str, probe: EditTargetProbe) -> (r: Result<(), ApplyPatchError>)
    ensures
        match probe {
            EditTargetProbe::Failed(kind) => refused(r, msg_io("Failed to inspect file to edit"@, path@, kind@)),
            EditTargetProbe::Found { is_file, size } => if !is_file {
                refused(r, "edit_file target is not a file: "@ + visible(path@))
            } else if size > MAX_STRUCTURED_FILE_BYTES {
                refused(r, msg_target_too_large(path@))
            } else {
                r is Ok
            },
        },
{
    match probe {
        EditTargetProbe::Failed(kind) => Err(structured_io_error("Failed to inspect file to edit", path, kind.as_str())),
        EditTargetProbe::Found { is_file, size } => {
            if !is_file {
                let display = display_path(path);
                return refuse(join2("edit_file target is not a file: ", display.as_str()));
            }
            if size > MAX_STRUCTURED_FILE_BYTES as u64 {
                let display = display_path(path);
                return refuse(join2("edit_file target exceeds the 8388608-byte limit: ", display.as_str()));
            }
            Ok(())
        },
    }
}

/// Law: the matches an edit looks for are the leftmost non-overlapping
/// occurrences of a non-empty `p` in `t` at or after `from`, as
/// `str::match_indices` yields them: each is an occurrence, each starts at
/// or after the end of the one before, and every occurrence of `p` at or
/// after `from` is either one of them or starts inside one of them.
pub proof fn lemma_occurrences_leftmost_non_overlapping(t: Seq<u8>, p: Seq<u8>, from: int)
    requires
        p.len() > 0,
        0 <= from,
    ensures
        forall|i: int| 0 <= i < occurrences(t, p, from).len() ==> from <= #[trigger] occurrences(t, p, from)[i]
            && occurs_at(t, p, occurrences(t, p, from)[i]),
        forall|i: int| 0 <= i < occurrences(t, p, from).len() - 1 ==> #[trigger] occurrences(t, p, from)[i] + p.len()
            <= occurrences(t, p, from)[i + 1],
        forall|q: int| from <= q && #[trigger] occurs_at(t, p, q) ==> exists|i: int| 0 <= i < occurrences(t, p, from).len()
            && #[trigger] occurrences(t, p, from)[i] <= q < occurrences(t, p, from)[i] + p.len(),
    decreases t.len() - from,
{
    let r = occurrences(t, p, from);
    if from + p.len() > t.len() {
        assert(r.len() == 0);
    } else if occurs_at(t, p, from) {
        let n = from + p.len();
        lemma_occurrences_leftmost_non_overlapping(t, p, n);
        let rest = occurrences(t, p, n);
        assert(r == seq![from] + rest);
        assert forall|i: int| 0 <= i < r.len() implies from <= #[trigger] r[i] && occurs_at(t, p, r[i]) by {
            if i > 0 {
                assert(r[i] == rest[i - 1]);
            }
        }
        assert forall|i: int| 0 <= i < r.len() - 1 implies #[trigger] r[i] + p.len() <= r[i + 1] by {
            assert(r[i + 1] == rest[i]);
            if i > 0 {
                assert(r[i] == rest[i - 1]);
            }
        }
        assert forall|q: int| from <= q && #[trigger] occurs_at(t, p, q) implies exists|i: int| 0 <= i < r.len()
            && #[trigger] r[i] <= q < r[i] + p.len() by {
            if q < n {
                assert(r[0] == from);
            } else {
                let k = choose|k: int| 0 <= k < rest.len() && #[trigger] rest[k] <= q < rest[k] + p.len();
                assert(r[k + 1] == rest[k]);
            }
        }
    } else {
        lemma_occurrences_leftmost_non_overlapping(t, p, from + 1);
        assert(r == occurrences(t, p, from + 1));
        assert forall|q: int| from <= q && #[trigger] occurs_at(t, p, q) implies exists|i: int| 0 <= i < r.len()
            && #[trigger] r[i] <= q < r[i] + p.len() by {
            assert(q != from);
        }
    }
}

/// Law: a text made of `k` copies of a non-empty `p` holds exactly `k`
/// matches of `p`, one at the start of each copy.
pub proof fn lemma_repeated_text_matches_every_copy(p: Seq<u8>, k: nat)
    requires
        p.len() > 0,
    ensures
        occurrences(repeat_seq(p, k), p, 0).len() == k,
        forall|i: int| 0 <= i < k ==> #[trigger] occurrences(repeat_seq(p, k), p, 0)[i] == i * p.len(),
{
    lemma_repeat_occurrences(p, k, 0);
    assert forall|i: int| 0 <= i < k implies #[trigger] occurrences(repeat_seq(p, k), p, 0)[i] == i * p.len() by {
        assert(0 * p.len() == 0);
    }
}

/// `k` copies of `p`.
pub open spec fn repeat_seq(p: Seq<u8>, k: nat) -> Seq<u8>
    decreases k,
{
    if k == 0 {
        Seq::empty()
    } else {
        p + repeat_seq(p, (k - 1) as nat)
    }
}

proof fn lemma_repeat_len(p: Seq<u8>, k: nat)
    ensures
        repeat_seq(p, k).len() == k * p.len(),
    decreases k,
{
    if k > 0 {
        lemma_repeat_len(p, (k - 1) as nat);
        assert(k * p.len() == p.len() + (k - 1) * p.len()) by (nonlinear_arith);
    } else {
        assert(k * p.len() == 0) by (nonlinear_arith)
            requires
                k == 0,
        ;
    }
}

/// Copy `j` of `p` sits at `j * p.len()`.
proof fn lemma_repeat_copy(p: Seq<u8>, k: nat, j: int)
    requires
        0 <= j < k,
    ensures
        (j + 1) * p.len() <= repeat_seq(p, k).len(),
        occurs_at(repeat_seq(p, k), p, j * p.len()),
    decreases k,
{
    lemma_repeat_len(p, k);
    lemma_repeat_len(p, (k - 1) as nat);
    let t = repeat_seq(p, k);
    let rest = repeat_seq(p, (k - 1) as nat);
    assert(t == p + rest);
    assert((j + 1) * p.len() <= k * p.len()) by (nonlinear_arith)
        requires
            j + 1 <= k,
    ;
    if j == 0 {
        assert(t.subrange(0, p.len() as int) =~= p);
        assert(0 * p.len() == 0);
    } else {
        lemma_repeat_copy(p, (k - 1) as nat, j - 1);
        assert(j * p.len() == p.len() + (j - 1) * p.len()) by (nonlinear_arith);
        let a = (j - 1) * p.len();
        assert(t.subrange(p.len() + a, p.len() + a + p.len()) =~= rest.subrange(a, a + p.len()));
    }
}

/// From the start of copy `j`, the matches are the starts of copies `j`,
/// `j + 1`, .. `k - 1`.
proof fn lemma_repeat_occurrences(p: Seq<u8>, k: nat, j: int)
    requires
        p.len() > 0,
        0 <= j <= k,
    ensures
        occurrences(repeat_seq(p, k), p, j * p.len()).len() == k - j,
        forall|i: int| 0 <= i < k - j ==> #[trigger] occurrences(repeat_seq(p, k), p, j * p.len())[i] == (j + i)
            * p.len(),
    decreases k - j,
{
    let t = repeat_seq(p, k);
    lemma_repeat_len(p, k);
    let from = j * p.len();
    if j == k {
        assert(from + p.len() > t.len());
    } else {
        lemma_repeat_copy(p, k, j);
        lemma_repeat_occurrences(p, k, j + 1);
        assert((j + 1) * p.len() == from + p.len()) by (nonlinear_arith)
            requires
                from == j * p.len(),
        ;
        let rest = occurrences(t, p, (j + 1) * p.len());
        assert(occurrences(t, p, from) == seq![from] + rest);
        assert forall|i: int| 0 <= i < k - j implies #[trigger] occurrences(t, p, from)[i] == (j + i) * p.len() by {
            if i > 0 {
                assert(occurrences(t, p, from)[i] == rest[i - 1]);
                assert(j + 1 + (i - 1) == j + i);
            }
        }
    }
}

} // verus!
