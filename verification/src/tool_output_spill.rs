//! Large tool outputs are saved to a file and replaced, in the model context,
//! by a bounded preview: a notice, the head and the tail of the output.
use vstd::prelude::*;
use vstd::string::StringSliceAdditionalSpecFns;
use vstd::utf8::{decode_utf8, encode_utf8_decode_utf8, encode_utf8_valid_utf8, is_char_boundary, valid_utf8};

use crate::digest::{hex_lower, sha1, sha1_of, to_hex_lower};
use crate::text::{
    append_str, ceil_boundary, ceil_char_boundary, decimal, decimal_string, floor_boundary,
    floor_char_boundary, lemma_encode_concat, push_str_utf8, str_prefix, str_suffix, utf8,
};

verus! {

broadcast use vstd::string::group_string_axioms;

/// The notice that opens a preview.
pub open spec fn preview_notice(original_bytes: nat, path: Seq<char>) -> Seq<char> {
    "[Full tool output: "@ + decimal(original_bytes) + " bytes; saved to "@ + path + "]\n"@
}

/// The separator between the head and the tail of a preview.
pub open spec fn separator() -> Seq<char> {
    "\n\u{2026}\n"@
}

/// The UTF-8 bytes of a preview, which never exceed `max_bytes`: the notice
/// alone (cut at a character boundary) when it does not fit; the notice and
/// the separator cut at a character boundary when only the notice fits; else
/// the notice, the head of the text that fits in three quarters of the
/// remaining budget, the separator and the tail that fits in the rest.
pub open spec fn preview_bytes(text: Seq<u8>, notice: Seq<u8>, sep: Seq<u8>, max_bytes: int) -> Seq<u8> {
    if notice.len() >= max_bytes {
        notice.take(floor_boundary(notice, max_bytes))
    } else if notice.len() + sep.len() > max_bytes {
        (notice + sep).take(floor_boundary(notice + sep, max_bytes))
    } else {
        let remaining = max_bytes - notice.len() - sep.len();
        let tripled = if remaining * 3 <= usize::MAX {
            remaining * 3
        } else {
            usize::MAX as int
        };
        let head_budget = tripled / 4;
        let tail_budget = remaining - head_budget;
        let tail_from = if tail_budget <= text.len() {
            text.len() - tail_budget
        } else {
            0
        };
        notice + text.take(floor_boundary(text, head_budget)) + sep + text.skip(
            ceil_boundary(text, tail_from),
        )
    }
}

/// Builds the preview that replaces a spilled output.
pub fn build_preview(text: &str, original_bytes: usize, path: &str, max_bytes: usize) -> (r: String)
    ensures
        utf8(r@) == preview_bytes(
            text.spec_bytes(),
            utf8(preview_notice(original_bytes as nat, path@)),
            utf8(separator()),
            max_bytes as int,
        ),
        utf8(r@).len() <= max_bytes,
{
    let mut notice = "[Full tool output: ".to_owned();
    let count = decimal_string(original_bytes as u64);
    append_str(&mut notice, count.as_str());
    append_str(&mut notice, " bytes; saved to ");
    append_str(&mut notice, path);
    append_str(&mut notice, "]\n");
    let nlen = notice.as_str().as_bytes().len();
    let ghost nb = utf8(notice@);
    proof {
        encode_utf8_valid_utf8(notice@);
        encode_utf8_decode_utf8(notice@);
        encode_utf8_valid_utf8(text@);
        encode_utf8_valid_utf8(separator());
        lemma_preview_fits(text.spec_bytes(), nb, utf8(separator()), max_bytes as int);
    }
    if nlen >= max_bytes {
        let end = floor_char_boundary(notice.as_str(), max_bytes);
        let head = str_prefix(notice.as_str(), end);
        proof {
            vstd::utf8::valid_utf8_split(nb, end as int);
            vstd::utf8::decode_utf8_encode_utf8(nb.subrange(0, end as int));
            assert(nb.take(end as int) =~= nb.subrange(0, end as int));
        }
        return head.to_owned();
    }
    let separator = "\n\u{2026}\n";
    let slen = separator.as_bytes().len();
    if slen > max_bytes - nlen {
        let mut both = notice;
        append_str(&mut both, separator);
        let ghost bb = utf8(both@);
        proof {
            lemma_encode_concat(notice@, separator@);
            encode_utf8_valid_utf8(both@);
            encode_utf8_decode_utf8(both@);
        }
        let end = floor_char_boundary(both.as_str(), max_bytes);
        let cut = str_prefix(both.as_str(), end);
        proof {
            vstd::utf8::valid_utf8_split(bb, end as int);
            vstd::utf8::decode_utf8_encode_utf8(bb.subrange(0, end as int));
            assert(bb.take(end as int) =~= bb.subrange(0, end as int));
        }
        return cut.to_owned();
    }
    let remaining: usize = max_bytes - nlen - slen;
    let tripled: usize = if remaining <= usize::MAX / 3 {
        remaining * 3
    } else {
        usize::MAX
    };
    let head_budget = tripled / 4;
    let tail_budget = remaining - head_budget;
    let tlen = text.as_bytes().len();
    let tail_from = if tail_budget <= tlen {
        tlen - tail_budget
    } else {
        0
    };
    let head_end = floor_char_boundary(text, head_budget);
    let tail_start = ceil_char_boundary(text, tail_from);
    let head = str_prefix(text, head_end);
    let tail = str_suffix(text, tail_start);
    let mut out = notice;
    append_str(&mut out, head);
    append_str(&mut out, separator);
    append_str(&mut out, tail);
    proof {
        let tb = text.spec_bytes();
        encode_utf8_valid_utf8(text@);
        vstd::utf8::valid_utf8_split(tb, head_end as int);
        vstd::utf8::valid_utf8_split(tb, tail_start as int);
        vstd::utf8::decode_utf8_encode_utf8(tb.subrange(0, head_end as int));
        vstd::utf8::decode_utf8_encode_utf8(tb.subrange(tail_start as int, tb.len() as int));
        lemma_encode_concat(notice@, head@);
        lemma_encode_concat(notice@ + head@, separator@);
        lemma_encode_concat(notice@ + head@ + separator@, tail@);
        assert(tb.take(head_end as int) =~= tb.subrange(0, head_end as int));
        assert(tb.skip(tail_start as int) =~= tb.subrange(tail_start as int, tb.len() as int));
        assert(head.spec_bytes() == utf8(head@));
    }
    out
}

/// The name of the file that holds a spilled output: the lower-case SHA-1 of
/// the call id, a zero byte and the output, with a `.txt` extension.
pub fn spill_file_name(call_id: &str, text: &str) -> (r: String)
    ensures
        r@ == hex_lower(sha1_of(call_id.spec_bytes() + seq![0u8] + text.spec_bytes())) + ".txt"@,
{
    let mut data: Vec<u8> = Vec::new();
    push_str_utf8(&mut data, call_id);
    data.push(0);
    push_str_utf8(&mut data, text);
    assert(data@ =~= call_id.spec_bytes() + seq![0u8] + text.spec_bytes());
    let digest = sha1(data.as_slice());
    let mut name = to_hex_lower(digest.as_slice());
    append_str(&mut name, ".txt");
    name
}

/// The call id under which a function output is spilled (outputs without
/// one share a fixed id).
pub fn spill_call_id(call_id: Option<&str>) -> (r: &str)
    ensures
        match call_id {
            Some(c) => r@ == c@,
            None => r@ == "function-call-output"@,
        },
{
    match call_id {
        Some(c) => c,
        None => "function-call-output",
    }
}

/// Whether an output of `text_bytes` bytes is spilled: spilling is enabled
/// and the output exceeds the threshold.
pub fn should_spill(enabled: bool, text_bytes: usize, threshold_bytes: usize) -> (r: bool)
    ensures
        r == (enabled && text_bytes > threshold_bytes),
{
    enabled && text_bytes > threshold_bytes
}

/// A spill file that already exists is reused only when it has the output's
/// exact size.
pub fn check_existing_spill(existing_bytes: u64, text_bytes: usize) -> (r: Result<(), String>)
    ensures
        r is Ok <==> existing_bytes == text_bytes,
        r matches Err(m) ==> m@ == "existing tool output spill has an unexpected size"@,
{
    if existing_bytes == text_bytes as u64 {
        Ok(())
    } else {
        Err("existing tool output spill has an unexpected size".to_owned())
    }
}

/// The path of a spill file as the preview names it: relative to the Codex
/// home directory.
pub fn spill_display_path(relative_path: &str) -> (r: String)
    ensures
        r@ == "$CODEX_HOME/"@ + relative_path@,
{
    let mut r = "$CODEX_HOME/".to_owned();
    append_str(&mut r, relative_path);
    r
}

/// The observation recorded for a spill: a success with the preview's size,
/// or a failure that keeps the output inline, with the error to classify.
pub fn spill_event_input<'a>(
    representation: crate::compatibility::ToolRepresentation,
    input_bytes: usize,
    outcome: Result<usize, &'a str>,
    duration_ms: u128,
) -> (r: crate::compatibility::CompatibilityEventInput<'a>)
    ensures
        r.phase@ == "tool.output_spill"@,
        r.tool_name is None,
        r.tool_namespace is None,
        r.representation == representation,
        r.duration_ms == duration_ms,
        r.input_bytes == input_bytes,
        match outcome {
            Ok(preview_bytes) => r.outcome == crate::compatibility::CompatibilityOutcome::Success
                && r.output_bytes == preview_bytes && r.error is None,
            Err(e) => r.outcome == crate::compatibility::CompatibilityOutcome::Failure && r.output_bytes
                == input_bytes && r.error == Some(e),
        },
{
    let (outcome_kind, output_bytes, error) = match outcome {
        Ok(preview_bytes) => (crate::compatibility::CompatibilityOutcome::Success, preview_bytes, None),
        Err(e) => (crate::compatibility::CompatibilityOutcome::Failure, input_bytes, Some(e)),
    };
    crate::compatibility::CompatibilityEventInput {
        phase: "tool.output_spill",
        outcome: outcome_kind,
        tool_name: None,
        tool_namespace: None,
        representation,
        duration_ms,
        input_bytes,
        output_bytes,
        error,
    }
}

/// Law: a preview never exceeds its byte budget.
pub proof fn lemma_preview_fits(text: Seq<u8>, notice: Seq<u8>, sep: Seq<u8>, max_bytes: int)
    requires
        valid_utf8(text),
        valid_utf8(notice),
        valid_utf8(sep),
        0 <= max_bytes <= usize::MAX,
    ensures
        preview_bytes(text, notice, sep, max_bytes).len() <= max_bytes,
{
    if notice.len() >= max_bytes {
        crate::text::lemma_floor_boundary(notice, max_bytes);
    } else if notice.len() + sep.len() > max_bytes {
        vstd::utf8::valid_utf8_concat(notice, sep);
        crate::text::lemma_floor_boundary(notice + sep, max_bytes);
    } else {
        let remaining = max_bytes - notice.len() - sep.len();
        let tripled = if remaining * 3 <= usize::MAX {
            remaining * 3
        } else {
            usize::MAX as int
        };
        let head_budget = tripled / 4;
        assert(head_budget <= remaining) by (nonlinear_arith)
            requires
                tripled <= remaining * 3,
                remaining >= 0,
                head_budget == tripled / 4,
                tripled >= 0,
        ;
        let tail_budget = remaining - head_budget;
        let tail_from = if tail_budget <= text.len() {
            text.len() - tail_budget
        } else {
            0
        };
        crate::text::lemma_floor_boundary(text, head_budget);
        crate::text::lemma_ceil_boundary(text, tail_from);
    }
}

} // verus!
