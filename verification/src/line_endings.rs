//! Line-ending aware text surgery: normalising CRLF/CR to LF while keeping a
//! map back to the original bytes, and restoring the original endings in
//! replacement text.
use vstd::prelude::*;

verus! {

/// A line terminator.
#[derive(Clone, Copy, Debug, PartialEq, Eq, Structural)]
pub enum LineEnding {
    CrLf,
    Cr,
    Lf,
}

pub open spec fn ending_bytes(e: LineEnding) -> Seq<u8> {
    match e {
        LineEnding::CrLf => seq![13u8, 10u8],
        LineEnding::Cr => seq![13u8],
        LineEnding::Lf => seq![10u8],
    }
}

/// Appends the bytes of a terminator.
pub fn push_ending(out: &mut Vec<u8>, e: LineEnding)
    ensures
        final(out)@ == old(out)@ + ending_bytes(e),
{
    match e {
        LineEnding::CrLf => {
            out.push(13u8);
            out.push(10u8);
        },
        LineEnding::Cr => {
            out.push(13u8);
        },
        LineEnding::Lf => {
            out.push(10u8);
        },
    }
    assert(final(out)@ =~= old(out)@ + ending_bytes(e));
}

/// The text with every CRLF pair and every lone CR replaced by LF.
pub open spec fn norm(b: Seq<u8>) -> Seq<u8>
    decreases b.len(),
{
    if b.len() == 0 {
        Seq::empty()
    } else if b[0] == 13 && b.len() >= 2 && b[1] == 10 {
        seq![10u8] + norm(b.skip(2))
    } else if b[0] == 13 {
        seq![10u8] + norm(b.skip(1))
    } else {
        seq![b[0]] + norm(b.skip(1))
    }
}

/// For each byte of `norm(b)`, the offset in `base + b` just after the bytes
/// that produced it.
pub open spec fn offs(b: Seq<u8>, base: int) -> Seq<int>
    decreases b.len(),
{
    if b.len() == 0 {
        Seq::empty()
    } else if b[0] == 13 && b.len() >= 2 && b[1] == 10 {
        seq![base + 2] + offs(b.skip(2), base + 2)
    } else {
        seq![base + 1] + offs(b.skip(1), base + 1)
    }
}

/// Maps each byte position of `norm(b)` (and its end) to the matching
/// position of `b`.
pub open spec fn offsets(b: Seq<u8>) -> Seq<int> {
    seq![0int] + offs(b, 0)
}

/// The line endings of `b`, in order.
pub open spec fn endings_of(b: Seq<u8>) -> Seq<LineEnding>
    decreases b.len(),
{
    if b.len() == 0 {
        Seq::empty()
    } else if b[0] == 13 && b.len() >= 2 && b[1] == 10 {
        seq![LineEnding::CrLf] + endings_of(b.skip(2))
    } else if b[0] == 13 {
        seq![LineEnding::Cr] + endings_of(b.skip(1))
    } else if b[0] == 10 {
        seq![LineEnding::Lf] + endings_of(b.skip(1))
    } else {
        endings_of(b.skip(1))
    }
}

/// The first line ending of `b`, or LF when there is none.
pub open spec fn preferred_ending(b: Seq<u8>) -> LineEnding {
    if endings_of(b).len() > 0 {
        endings_of(b)[0]
    } else {
        LineEnding::Lf
    }
}

/// `input` (LF-terminated lines) with its k-th LF replaced by the k-th of
/// `endings`, or by `fallback` once those run out.
pub open spec fn restore(input: Seq<u8>, endings: Seq<LineEnding>, fallback: LineEnding) -> Seq<u8>
    decreases input.len(),
{
    if input.len() == 0 {
        Seq::empty()
    } else if input[0] == 10 {
        if endings.len() > 0 {
            ending_bytes(endings[0]) + restore(input.skip(1), endings.drop_first(), fallback)
        } else {
            ending_bytes(fallback) + restore(input.skip(1), endings, fallback)
        }
    } else {
        seq![input[0]] + restore(input.skip(1), endings, fallback)
    }
}

pub open spec fn is_eol(b: u8) -> bool {
    b == 13 || b == 10
}

/// The text ends with CR or LF.
pub open spec fn has_final_eol(b: Seq<u8>) -> bool {
    b.len() > 0 && is_eol(b.last())
}

/// `b` without its trailing CR and LF bytes.
pub open spec fn strip_final_eols(b: Seq<u8>) -> Seq<u8>
    decreases b.len(),
{
    if has_final_eol(b) {
        strip_final_eols(b.drop_last())
    } else {
        b
    }
}

/// `b` made to end with a line ending exactly when `terminated` holds.
pub open spec fn with_final_eol(b: Seq<u8>, terminated: bool, preferred: LineEnding) -> Seq<u8> {
    if terminated && !has_final_eol(b) {
        b + ending_bytes(preferred)
    } else if !terminated {
        strip_final_eols(b)
    } else {
        b
    }
}

/// A text normalised to LF endings, with the map back to the original bytes.
pub struct NormalizedText {
    pub text: Vec<u8>,
    pub original_offsets: Vec<usize>,
}

pub open spec fn usize_ints(v: Seq<usize>) -> Seq<int> {
    v.map_values(|x: usize| x as int)
}

/// Normalises line endings and records, for every normalised position, the
/// matching position in `input`. The map starts at 0, ends at the input's
/// length and strictly increases.
pub fn normalize_line_endings_with_offsets(input: &[u8]) -> (r: NormalizedText)
    ensures
        r.text@ == norm(input@),
        usize_ints(r.original_offsets@) == offsets(input@),
        r.original_offsets@.len() == r.text@.len() + 1,
        r.original_offsets@[0] == 0,
        r.original_offsets@.last() == input@.len(),
        forall|i: int, j: int|
            0 <= i < j < r.original_offsets@.len() ==> r.original_offsets@[i]
                < r.original_offsets@[j],
{
    let n = input.len();
    let mut text: Vec<u8> = Vec::new();
    let mut original_offsets: Vec<usize> = Vec::new();
    original_offsets.push(0);
    let mut index: usize = 0;
    assert(input@.skip(0) =~= input@);
    assert(text@ + norm(input@) =~= norm(input@));
    assert(usize_ints(original_offsets@) =~= seq![0int]);
    while index < n
        invariant
            n == input@.len(),
            index <= n,
            text@ + norm(input@.skip(index as int)) == norm(input@),
            usize_ints(original_offsets@) + offs(input@.skip(index as int), index as int)
                == offsets(input@),
            original_offsets@.len() == text@.len() + 1,
            original_offsets@[0] == 0,
            original_offsets@.last() == index,
            forall|i: int, j: int|
                0 <= i < j < original_offsets@.len() ==> original_offsets@[i]
                    < original_offsets@[j],
        decreases n - index,
    {
        let ghost rest = input@.skip(index as int);
        let ghost old_text = text@;
        let ghost old_offs = original_offsets@;
        if input[index] == 13 {
            if index + 1 < n && input[index + 1] == 10 {
                assert(rest.skip(2) =~= input@.skip(index + 2));
                text.push(10);
                index = index + 2;
            } else {
                assert(rest.skip(1) =~= input@.skip(index + 1));
                text.push(10);
                index = index + 1;
            }
        } else {
            assert(rest.skip(1) =~= input@.skip(index + 1));
            text.push(input[index]);
            index = index + 1;
        }
        original_offsets.push(index);
        assert(text@ =~= old_text + seq![text@.last()]);
        assert(usize_ints(original_offsets@) =~= usize_ints(old_offs) + seq![index as int]);
        assert(text@ + norm(input@.skip(index as int)) =~= old_text + norm(rest));
        assert(usize_ints(original_offsets@) + offs(input@.skip(index as int), index as int)
            =~= usize_ints(old_offs) + offs(rest, old_offs.last() as int));
    }
    assert(input@.skip(n as int) =~= Seq::<u8>::empty());
    assert(text@ =~= norm(input@));
    assert(usize_ints(original_offsets@) =~= offsets(input@));
    NormalizedText { text, original_offsets }
}

/// The text with every CRLF pair and every lone CR replaced by LF.
pub fn normalize_line_endings(input: &[u8]) -> (r: Vec<u8>)
    ensures
        r@ == norm(input@),
{
    normalize_line_endings_with_offsets(input).text
}

/// The line endings of a text, in order.
pub fn line_endings(input: &[u8]) -> (r: Vec<LineEnding>)
    ensures
        r@ == endings_of(input@),
{
    let n = input.len();
    let mut endings: Vec<LineEnding> = Vec::new();
    let mut index: usize = 0;
    assert(input@.skip(0) =~= input@);
    assert(endings@ + endings_of(input@) =~= endings_of(input@));
    while index < n
        invariant
            n == input@.len(),
            index <= n,
            endings@ + endings_of(input@.skip(index as int)) == endings_of(input@),
        decreases n - index,
    {
        let ghost rest = input@.skip(index as int);
        let ghost before = endings@;
        if input[index] == 13 && index + 1 < n && input[index + 1] == 10 {
            assert(rest.skip(2) =~= input@.skip(index + 2));
            endings.push(LineEnding::CrLf);
            index = index + 2;
            assert(endings@ + endings_of(input@.skip(index as int)) =~= before + endings_of(rest));
        } else if input[index] == 13 {
            assert(rest.skip(1) =~= input@.skip(index + 1));
            endings.push(LineEnding::Cr);
            index = index + 1;
            assert(endings@ + endings_of(input@.skip(index as int)) =~= before + endings_of(rest));
        } else if input[index] == 10 {
            assert(rest.skip(1) =~= input@.skip(index + 1));
            endings.push(LineEnding::Lf);
            index = index + 1;
            assert(endings@ + endings_of(input@.skip(index as int)) =~= before + endings_of(rest));
        } else {
            assert(rest.skip(1) =~= input@.skip(index + 1));
            index = index + 1;
        }
    }
    assert(input@.skip(n as int) =~= Seq::<u8>::empty());
    assert(endings@ =~= endings_of(input@));
    endings
}

/// The first line ending of the text, or LF when it has none.
pub fn preferred_line_ending(input: &[u8]) -> (r: LineEnding)
    ensures
        r == preferred_ending(input@),
{
    let n = input.len();
    let mut index: usize = 0;
    assert(input@.skip(0) =~= input@);
    while index < n
        invariant
            n == input@.len(),
            index <= n,
            endings_of(input@.skip(index as int)) == endings_of(input@),
        decreases n - index,
    {
        let ghost rest = input@.skip(index as int);
        if input[index] == 13 && index + 1 < n && input[index + 1] == 10 {
            return LineEnding::CrLf;
        } else if input[index] == 13 {
            return LineEnding::Cr;
        } else if input[index] == 10 {
            return LineEnding::Lf;
        }
        assert(rest.skip(1) =~= input@.skip(index + 1));
        index = index + 1;
    }
    assert(input@.skip(n as int) =~= Seq::<u8>::empty());
    LineEnding::Lf
}

/// The replacement text with its LF line breaks turned back into the endings
/// that the replaced text used, in order, then `fallback`.
pub fn restore_matched_line_endings(input: &[u8], matched: &[u8], fallback: LineEnding) -> (r: Vec<u8>)
    ensures
        r@ == restore(input@, endings_of(matched@), fallback),
{
    let endings = line_endings(matched);
    let n = input.len();
    let mut output: Vec<u8> = Vec::new();
    let mut used: usize = 0;
    assert(input@.skip(0) =~= input@);
    assert(endings@.skip(0) =~= endings@);
    assert(output@ + restore(input@, endings@, fallback) =~= restore(input@, endings@, fallback));
    for i in 0..n
        invariant
            n == input@.len(),
            used <= endings@.len(),
            output@ + restore(input@.skip(i as int), endings@.skip(used as int), fallback)
                == restore(input@, endings@, fallback),
    {
        let ghost rest = input@.skip(i as int);
        let ghost before = output@;
        let ghost es = endings@.skip(used as int);
        assert(rest.skip(1) =~= input@.skip(i + 1));
        if input[i] == 10 {
            if used < endings.len() {
                push_ending(&mut output, endings[used]);
                assert(es.drop_first() =~= endings@.skip(used + 1));
                used = used + 1;
            } else {
                push_ending(&mut output, fallback);
            }
        } else {
            output.push(input[i]);
        }
        assert(output@ + restore(input@.skip(i + 1), endings@.skip(used as int), fallback)
            =~= before + restore(rest, es, fallback));
    }
    assert(input@.skip(n as int) =~= Seq::<u8>::empty());
    assert(endings@.skip(0) =~= endings@);
    assert(output@ =~= restore(input@, endings@, fallback));
    output
}

/// Whether the text ends with CR or LF.
pub fn has_final_line_ending(bytes: &[u8]) -> (r: bool)
    ensures
        r == has_final_eol(bytes@),
{
    bytes.len() > 0 && (bytes[bytes.len() - 1] == 13 || bytes[bytes.len() - 1] == 10)
}

/// Makes the text end with a line ending exactly when `terminated` holds:
/// appends `preferred_ending` to a text that lacks one, or strips all
/// trailing CR and LF bytes.
pub fn preserve_final_line_ending(bytes: &mut Vec<u8>, terminated: bool, preferred: LineEnding)
    ensures
        final(bytes)@ == with_final_eol(old(bytes)@, terminated, preferred),
{
    if terminated && !has_final_line_ending(bytes.as_slice()) {
        push_ending(bytes, preferred);
    } else if !terminated {
        while has_final_line_ending(bytes.as_slice())
            invariant
                strip_final_eols(bytes@) == strip_final_eols(old(bytes)@),
            decreases bytes@.len(),
        {
            bytes.pop();
        }
    }
}

/// Law: restoring the line endings of a text into its normalised form gives
/// back the text itself.
pub proof fn lemma_restore_normalized(b: Seq<u8>, fallback: LineEnding)
    ensures
        restore(norm(b), endings_of(b), fallback) == b,
    decreases b.len(),
{
    if b.len() > 0 {
        let n = norm(b);
        let e = endings_of(b);
        if b[0] == 13 && b.len() >= 2 && b[1] == 10 {
            lemma_restore_normalized(b.skip(2), fallback);
            assert(n.skip(1) =~= norm(b.skip(2)));
            assert(e.drop_first() =~= endings_of(b.skip(2)));
            assert(b =~= seq![13u8, 10u8] + b.skip(2));
        } else if b[0] == 13 {
            lemma_restore_normalized(b.skip(1), fallback);
            assert(n.skip(1) =~= norm(b.skip(1)));
            assert(e.drop_first() =~= endings_of(b.skip(1)));
            assert(b =~= seq![13u8] + b.skip(1));
        } else if b[0] == 10 {
            lemma_restore_normalized(b.skip(1), fallback);
            assert(n.skip(1) =~= norm(b.skip(1)));
            assert(e.drop_first() =~= endings_of(b.skip(1)));
            assert(b =~= seq![10u8] + b.skip(1));
        } else {
            lemma_restore_normalized(b.skip(1), fallback);
            assert(n.skip(1) =~= norm(b.skip(1)));
            assert(e == endings_of(b.skip(1)));
            assert(b =~= seq![b[0]] + b.skip(1));
        }
    }
}

/// Law: normalising leaves no carriage return.
pub proof fn lemma_norm_has_no_cr(b: Seq<u8>)
    ensures
        !norm(b).contains(13u8),
    decreases b.len(),
{
    if b.len() > 0 {
        if b[0] == 13 && b.len() >= 2 && b[1] == 10 {
            lemma_norm_has_no_cr(b.skip(2));
        } else {
            lemma_norm_has_no_cr(b.skip(1));
        }
        let n = norm(b);
        assert forall|i: int| 0 <= i < n.len() implies n[i] != 13u8 by {
            if i > 0 {
                if b[0] == 13 && b.len() >= 2 && b[1] == 10 {
                    assert(n[i] == norm(b.skip(2))[i - 1]);
                } else {
                    assert(n[i] == norm(b.skip(1))[i - 1]);
                }
            }
        }
    }
}

/// Law: a text made to end with a line ending ends with one exactly when
/// asked to.
pub proof fn lemma_with_final_eol(b: Seq<u8>, terminated: bool, preferred: LineEnding)
    ensures
        has_final_eol(with_final_eol(b, terminated, preferred)) == terminated,
{
    if !terminated {
        lemma_strip_final_eols(b);
    } else if !has_final_eol(b) {
        let r = b + ending_bytes(preferred);
        assert(r.last() == ending_bytes(preferred).last());
    }
}

proof fn lemma_strip_final_eols(b: Seq<u8>)
    ensures
        !has_final_eol(strip_final_eols(b)),
    decreases b.len(),
{
    if has_final_eol(b) {
        lemma_strip_final_eols(b.drop_last());
    }
}

/// The bytes hold no carriage return.
pub open spec fn no_cr(b: Seq<u8>) -> bool {
    forall|i: int| 0 <= i < b.len() ==> b[i] != 13u8
}

/// Text without carriage returns is already normalised, each of its
/// positions maps to itself, and all its line endings are LF.
pub(crate) proof fn lemma_lf_text(b: Seq<u8>)
    requires
        no_cr(b),
    ensures
        norm(b) == b,
        offsets(b).len() == b.len() + 1,
        forall|i: int| 0 <= i <= b.len() ==> #[trigger] offsets(b)[i] == i,
        forall|k: int| 0 <= k < endings_of(b).len() ==> #[trigger] endings_of(b)[k] == LineEnding::Lf,
{
    lemma_lf_prefix(b, 0);
    assert(offsets(b) =~= seq![0int] + offs(b, 0));
    assert forall|i: int| 0 <= i <= b.len() implies #[trigger] offsets(b)[i] == i by {
        if i > 0 {
            assert(offsets(b)[i] == offs(b, 0)[i - 1]);
        }
    }
}

proof fn lemma_lf_prefix(b: Seq<u8>, base: int)
    requires
        no_cr(b),
    ensures
        norm(b) == b,
        offs(b, base).len() == b.len(),
        forall|i: int| 0 <= i < b.len() ==> #[trigger] offs(b, base)[i] == base + i + 1,
        forall|k: int| 0 <= k < endings_of(b).len() ==> #[trigger] endings_of(b)[k] == LineEnding::Lf,
    decreases b.len(),
{
    if b.len() > 0 {
        let rest = b.skip(1);
        assert forall|i: int| 0 <= i < rest.len() implies rest[i] != 13u8 by {
            assert(rest[i] == b[i + 1]);
        }
        lemma_lf_prefix(rest, base + 1);
        assert(b[0] != 13u8);
        assert(norm(b) =~= b) by {
            assert(b =~= seq![b[0]] + rest);
        }
        assert forall|i: int| 0 <= i < b.len() implies #[trigger] offs(b, base)[i] == base + i + 1 by {
            if i > 0 {
                assert(offs(b, base)[i] == offs(rest, base + 1)[i - 1]);
            }
        }
        assert forall|k: int| 0 <= k < endings_of(b).len() implies #[trigger] endings_of(b)[k] == LineEnding::Lf by {
            if b[0] == 10 {
                if k > 0 {
                    assert(endings_of(b)[k] == endings_of(rest)[k - 1]);
                }
            } else {
                assert(endings_of(b) == endings_of(rest));
            }
        }
    }
}

/// Restoring only LF endings changes nothing.
pub(crate) proof fn lemma_restore_lf(input: Seq<u8>, endings: Seq<LineEnding>)
    requires
        forall|k: int| 0 <= k < endings.len() ==> #[trigger] endings[k] == LineEnding::Lf,
    ensures
        restore(input, endings, LineEnding::Lf) == input,
    decreases input.len(),
{
    if input.len() > 0 {
        if input[0] == 10 && endings.len() > 0 {
            assert forall|k: int| 0 <= k < endings.drop_first().len() implies #[trigger] endings.drop_first()[k]
                == LineEnding::Lf by {
                assert(endings.drop_first()[k] == endings[k + 1]);
            }
            lemma_restore_lf(input.skip(1), endings.drop_first());
        } else {
            lemma_restore_lf(input.skip(1), endings);
        }
        assert(input =~= seq![input[0]] + input.skip(1));
    }
}

} // verus!
