//! Mapping compiler errors to per-file diagnostics.
//!
//! The shader compiler reports error locations as packed spans: offsets into
//! its internal concatenated multi-file buffer, with the owning module's
//! index in the bits above the low 21.  Decoding takes the low 21 bits and
//! subtracts the byte offset at which the erroring file's own text begins in
//! that buffer, saturating at zero.  The decoded byte offsets are then
//! converted to line/character positions against that file's text.

use vstd::prelude::*;

verus! {

use vstd::arithmetic::div_mod::lemma_mod_multiples_vanish;
use vstd::arithmetic::power2::lemma2_to64;
use vstd::arithmetic::power2::pow2;
use vstd::bits::lemma_low_bits_mask_values;
use vstd::bits::lemma_usize_low_bits_mask_is_mod;
use vstd::bits::low_bits_mask;
use vstd::utf8::encode_utf8;

use crate::text::clamped_range_at;
use crate::text::calc_range;
use crate::text::Position;
use crate::text::SrcRange;

/// One reported location attached to a compiler error, with its own note.
/// The offsets are still packed when the error's shape says so.
#[derive(Debug)]
pub struct SpanLabel {
    pub start: usize,
    pub end: usize,
    pub message: String,
}

/// How a compiler error reports its location.
#[derive(Debug)]
pub enum ErrorShape {
    /// No usable location: the diagnostic lands on the document start.
    NoSpan,
    /// One span whose offsets are already local to the erroring file.
    Local { start: usize, end: usize },
    /// One span whose offsets are packed into the concatenated buffer.
    Packed { start: usize, end: usize },
    /// Several labeled spans, all packed.
    Labeled { labels: Vec<SpanLabel> },
}

/// A compiler error reduced to plain values: the file it lies in, that
/// file's text as the compiler saw it, the byte offset of that text within
/// the compiler's concatenated buffer, the rendered message, and the shape
/// of its location report.
#[derive(Debug)]
pub struct CompilerError {
    pub path: String,
    pub source: String,
    pub offset: usize,
    pub message: String,
    pub shape: ErrorShape,
}

/// A location in another file that contributes to a diagnostic.
#[derive(Debug)]
pub struct RelatedInfo {
    pub uri: String,
    pub range: SrcRange,
    pub message: String,
}

/// One diagnostic: a range in the file it is published for, a message, and
/// optionally the list of contributing locations.
#[derive(Debug)]
pub struct Diagnostic {
    pub range: SrcRange,
    pub message: String,
    pub related_information: Option<Vec<RelatedInfo>>,
}

/// Everything to be published for one file, replacing what was published
/// for it before.  An empty list clears the file's diagnostics.
#[derive(Debug)]
pub struct PublishSet {
    pub uri: String,
    pub diagnostics: Vec<Diagnostic>,
}

/// Mathematical model of `RelatedInfo`.
pub struct SpecRelated {
    pub uri: Seq<char>,
    pub range: SrcRange,
    pub message: Seq<char>,
}

/// Mathematical model of `Diagnostic`.
pub struct SpecDiagnostic {
    pub range: SrcRange,
    pub message: Seq<char>,
    pub related_information: Option<Seq<SpecRelated>>,
}

/// Mathematical model of `PublishSet`.
pub struct SpecPublish {
    pub uri: Seq<char>,
    pub diagnostics: Seq<SpecDiagnostic>,
}

impl View for RelatedInfo {
    type V = SpecRelated;

    open spec fn view(&self) -> SpecRelated {
        SpecRelated { uri: self.uri@, range: self.range, message: self.message@ }
    }
}

impl View for Diagnostic {
    type V = SpecDiagnostic;

    open spec fn view(&self) -> SpecDiagnostic {
        SpecDiagnostic {
            range: self.range,
            message: self.message@,
            related_information: match self.related_information {
                Option::None => Option::None,
                Option::Some(v) => Option::Some(v@.map_values(|ri: RelatedInfo| ri@)),
            },
        }
    }
}

impl View for PublishSet {
    type V = SpecPublish;

    open spec fn view(&self) -> SpecPublish {
        SpecPublish {
            uri: self.uri@,
            diagnostics: self.diagnostics@.map_values(|d: Diagnostic| d@),
        }
    }
}

/// The UTF-8 bytes of a document's text, which compiler spans index into.
pub open spec fn text_bytes(s: Seq<char>) -> Seq<u8> {
    encode_utf8(s)
}

/// Decode one packed offset against the erroring file's base offset:
/// low 21 bits, minus the base, saturating at zero.
pub open spec fn decode_offset(packed: usize, source_offset: usize) -> usize {
    let m = packed & 0x1FFFFFusize;
    if m >= source_offset {
        (m - source_offset) as usize
    } else {
        0usize
    }
}

/// Decode one packed offset of a compiler span.
pub fn decode_span_offset(packed: usize, source_offset: usize) -> (r: usize)
    ensures
        r == decode_offset(packed, source_offset),
{
    let m = packed & 0x1FFFFF;
    if m >= source_offset {
        m - source_offset
    } else {
        0
    }
}

/// Law: span decoding round-trips.  A packed span built from a local offset
/// by adding the file's base offset and any module index in the high bits
/// decodes back to exactly the local offset it was built from.
pub proof fn lemma_span_decode_round_trip(local: usize, source_offset: usize, module_index: usize)
    requires
        local + source_offset < 0x200000,
        module_index * 0x200000 + local + source_offset <= usize::MAX,
    ensures
        decode_offset(
            (module_index * 0x200000 + local + source_offset) as usize,
            source_offset,
        ) == local,
{
    let packed = (module_index * 0x200000 + local + source_offset) as usize;
    lemma_usize_low_bits_mask_is_mod(packed, 21);
    lemma_low_bits_mask_values();
    lemma2_to64();
    assert(low_bits_mask(21) == 0x1FFFFF);
    assert(pow2(21) == 0x200000);
    lemma_mod_multiples_vanish(module_index as int, (local + source_offset) as int, 0x200000);
    assert(packed as int % 0x200000 == (local + source_offset) as int) by {
        assert(packed as int == module_index as int * 0x200000 + (local + source_offset) as int);
    }
    assert(packed & 0x1FFFFFusize == ((local + source_offset) as int) as usize);
}

/// Length of a label's span, zero when the ends are crossed.
pub open spec fn span_len(l: SpanLabel) -> int {
    if l.end >= l.start {
        l.end - l.start
    } else {
        0
    }
}

/// A label with both offsets decoded against the file's base offset.
pub open spec fn decode_label(l: SpanLabel, off: usize) -> SpanLabel {
    SpanLabel {
        start: decode_offset(l.start, off),
        end: decode_offset(l.end, off),
        message: l.message,
    }
}

/// All labels decoded.
pub open spec fn decode_labels(ls: Seq<SpanLabel>, off: usize) -> Seq<SpanLabel> {
    ls.map_values(|l: SpanLabel| decode_label(l, off))
}

/// The index of the widest label; on ties, the last of the widest ones.
pub open spec fn widest_idx(ls: Seq<SpanLabel>) -> int
    decreases ls.len(),
{
    if ls.len() <= 1 {
        0
    } else {
        let p = widest_idx(ls.drop_last());
        if span_len(ls.last()) >= span_len(ls[p]) {
            ls.len() - 1
        } else {
            p
        }
    }
}

proof fn lemma_widest_idx_bound(ls: Seq<SpanLabel>)
    requires
        ls.len() > 0,
    ensures
        0 <= widest_idx(ls) < ls.len(),
    decreases ls.len(),
{
    if ls.len() > 1 {
        lemma_widest_idx_bound(ls.drop_last());
    }
}

/// True when label `i` is strictly inside label `w`'s bounds without being
/// the same span.
pub open spec fn is_contained(ls: Seq<SpanLabel>, w: int, i: int) -> bool {
    &&& !(ls[i].start == ls[w].start && ls[i].end == ls[w].end)
    &&& ls[w].start <= ls[i].start
    &&& ls[w].end >= ls[i].end
}

/// The first label at index `i` or later that is contained in label `w`.
pub open spec fn contained_from(ls: Seq<SpanLabel>, w: int, i: int) -> Option<int>
    decreases ls.len() - i,
{
    if i < 0 || i >= ls.len() {
        Option::None
    } else if is_contained(ls, w, i) {
        Option::Some(i)
    } else {
        contained_from(ls, w, i + 1)
    }
}

proof fn lemma_contained_from_spec(ls: Seq<SpanLabel>, w: int, i: int)
    requires
        0 <= i,
    ensures
        match contained_from(ls, w, i) {
            Option::Some(j) => i <= j < ls.len() && is_contained(ls, w, j) && forall|k: int|
                i <= k < j ==> !is_contained(ls, w, k),
            Option::None => forall|k: int| i <= k < ls.len() ==> !is_contained(ls, w, k),
        },
    decreases ls.len() - i,
{
    if i < ls.len() && !is_contained(ls, w, i) {
        lemma_contained_from_spec(ls, w, i + 1);
    }
}

/// The index of the label whose span becomes the diagnostic's primary
/// range: the first label contained in the widest one, if any, else the
/// widest one itself.
pub open spec fn primary_idx(ls: Seq<SpanLabel>) -> int {
    let w = widest_idx(ls);
    match contained_from(ls, w, 0) {
        Option::Some(j) => j,
        Option::None => w,
    }
}

/// The position at the very start of a document.
pub open spec fn zero_range() -> SrcRange {
    SrcRange {
        start: Position { line: 0, character: 0 },
        end: Position { line: 0, character: 0 },
    }
}

/// The diagnostic that a compiler error maps to, over the error's own
/// file text.
pub open spec fn error_diagnostic(e: CompilerError) -> SpecDiagnostic {
    let src = text_bytes(e.source@);
    match e.shape {
        ErrorShape::NoSpan => SpecDiagnostic {
            range: zero_range(),
            message: e.message@,
            related_information: Option::None,
        },
        ErrorShape::Local { start, end } => SpecDiagnostic {
            range: clamped_range_at(src, start as int, end as int),
            message: e.message@,
            related_information: Option::None,
        },
        ErrorShape::Packed { start, end } => SpecDiagnostic {
            range: clamped_range_at(
                src,
                decode_offset(start, e.offset) as int,
                decode_offset(end, e.offset) as int,
            ),
            message: e.message@,
            related_information: Option::None,
        },
        ErrorShape::Labeled { labels } => {
            if labels@.len() == 0 {
                SpecDiagnostic {
                    range: zero_range(),
                    message: e.message@,
                    related_information: Option::None,
                }
            } else {
                let dls = decode_labels(labels@, e.offset);
                let p = dls[primary_idx(dls)];
                SpecDiagnostic {
                    range: clamped_range_at(src, p.start as int, p.end as int),
                    message: e.message@,
                    related_information: Option::Some(
                        dls.map_values(
                            |dl: SpanLabel|
                                SpecRelated {
                                    uri: e.path@,
                                    range: clamped_range_at(src, dl.start as int, dl.end as int),
                                    message: dl.message@,
                                },
                        ),
                    ),
                }
            }
        },
    }
}

/// The publish set that a compiler error maps to: one diagnostic on the
/// file the error lies in.
pub open spec fn error_publish(e: CompilerError) -> SpecPublish {
    SpecPublish { uri: e.path@, diagnostics: seq![error_diagnostic(e)] }
}

pub(crate) fn zero_range_exec() -> (r: SrcRange)
    ensures
        r == zero_range(),
{
    SrcRange {
        start: Position { line: 0, character: 0 },
        end: Position { line: 0, character: 0 },
    }
}

fn span_len_exec(l: &SpanLabel) -> (r: usize)
    ensures
        r == span_len(*l),
{
    if l.end >= l.start {
        l.end - l.start
    } else {
        0
    }
}

/// Build the diagnostic set for one compiler error, attributed to the file
/// the error's span falls inside of — which may differ from the file whose
/// validation produced it.
pub fn composer_error_to_diagnostic(e: &CompilerError) -> (r: PublishSet)
    ensures
        r@ == error_publish(*e),
{
    let src: &[u8] = e.source.as_str().as_bytes();
    proof {
        assert(src@ == text_bytes(e.source@));
    }
    let diagnostic: Diagnostic = match &e.shape {
        ErrorShape::NoSpan => Diagnostic {
            range: zero_range_exec(),
            message: e.message.clone(),
            related_information: None,
        },
        ErrorShape::Local { start, end } => Diagnostic {
            range: calc_range(src, *start, *end),
            message: e.message.clone(),
            related_information: None,
        },
        ErrorShape::Packed { start, end } => Diagnostic {
            range: calc_range(
                src,
                decode_span_offset(*start, e.offset),
                decode_span_offset(*end, e.offset),
            ),
            message: e.message.clone(),
            related_information: None,
        },
        ErrorShape::Labeled { labels } => {
            if labels.len() == 0 {
                Diagnostic {
                    range: zero_range_exec(),
                    message: e.message.clone(),
                    related_information: None,
                }
            } else {
                labeled_diagnostic(src, labels, e.offset, &e.message, &e.path)
            }
        },
    };
    let mut diagnostics: Vec<Diagnostic> = Vec::new();
    diagnostics.push(diagnostic);
    proof {
        assert(diagnostics@.map_values(|d: Diagnostic| d@) =~= seq![error_diagnostic(*e)]);
    }
    PublishSet { uri: e.path.clone(), diagnostics }
}

/// Build the diagnostic for an error with several labeled spans: decode
/// every label, pick the widest as the primary range unless another label
/// is fully contained in it (then the first such contained label wins),
/// and attach every label as a related location.
fn labeled_diagnostic(
    src: &[u8],
    labels: &Vec<SpanLabel>,
    offset: usize,
    message: &String,
    path: &String,
) -> (r: Diagnostic)
    requires
        labels@.len() > 0,
    ensures
        ({
            let dls = decode_labels(labels@, offset);
            let p = dls[primary_idx(dls)];
            r@ == SpecDiagnostic {
                range: clamped_range_at(src@, p.start as int, p.end as int),
                message: message@,
                related_information: Option::Some(
                    dls.map_values(
                        |dl: SpanLabel|
                            SpecRelated {
                                uri: path@,
                                range: clamped_range_at(src@, dl.start as int, dl.end as int),
                                message: dl.message@,
                            },
                    ),
                ),
            }
        }),
{
    let ghost dls_spec = decode_labels(labels@, offset);
    let mut dls: Vec<SpanLabel> = Vec::new();
    let mut i: usize = 0;
    while i < labels.len()
        invariant
            0 <= i <= labels@.len(),
            dls@ =~= dls_spec.take(i as int),
            dls_spec == decode_labels(labels@, offset),
        decreases labels@.len() - i,
    {
        let l = &labels[i];
        dls.push(
            SpanLabel {
                start: decode_span_offset(l.start, offset),
                end: decode_span_offset(l.end, offset),
                message: l.message.clone(),
            },
        );
        proof {
            assert(dls@ =~= dls_spec.take(i + 1));
        }
        i = i + 1;
    }
    proof {
        assert(dls@ =~= dls_spec);
    }
    let mut w: usize = 0;
    let mut i: usize = 1;
    while i < dls.len()
        invariant
            1 <= i <= dls@.len(),
            dls@.len() == labels@.len(),
            w < i,
            w == widest_idx(dls@.take(i as int)),
        decreases dls@.len() - i,
    {
        proof {
            assert(dls@.take(i + 1).drop_last() =~= dls@.take(i as int));
            assert(dls@.take(i + 1).last() == dls@[i as int]);
            lemma_widest_idx_bound(dls@.take(i as int));
        }
        if span_len_exec(&dls[i]) >= span_len_exec(&dls[w]) {
            w = i;
        }
        i = i + 1;
    }
    proof {
        assert(dls@.take(dls@.len() as int) =~= dls@);
        lemma_widest_idx_bound(dls@);
    }
    let mut contained: Option<usize> = None;
    let mut j: usize = 0;
    while j < dls.len() && contained.is_none()
        invariant
            0 <= j <= dls@.len(),
            w < dls@.len(),
            w == widest_idx(dls@),
            match contained {
                Option::Some(c) => c < dls@.len() && is_contained(dls@, w as int, c as int)
                    && forall|k: int| 0 <= k < c ==> !is_contained(dls@, w as int, k),
                Option::None => forall|k: int| 0 <= k < j ==> !is_contained(dls@, w as int, k),
            },
        decreases dls@.len() - j,
    {
        let lj = &dls[j];
        let lw = &dls[w];
        if !(lj.start == lw.start && lj.end == lw.end) && lw.start <= lj.start && lw.end
            >= lj.end {
            contained = Some(j);
        }
        j = j + 1;
    }
    let p: usize = match contained {
        Some(c) => c,
        None => w,
    };
    proof {
        lemma_contained_from_spec(dls@, w as int, 0);
        assert(p as int == primary_idx(dls@));
    }
    let primary = &dls[p];
    let range = calc_range(src, primary.start, primary.end);
    let mut related: Vec<RelatedInfo> = Vec::new();
    let mut i: usize = 0;
    while i < dls.len()
        invariant
            0 <= i <= dls@.len(),
            range == clamped_range_at(
                src@,
                dls@[primary_idx(dls@)].start as int,
                dls@[primary_idx(dls@)].end as int,
            ),
            related@.len() == i,
            forall|k: int|
                0 <= k < i ==> related@[k]@ == (SpecRelated {
                    uri: path@,
                    range: clamped_range_at(src@, dls@[k].start as int, dls@[k].end as int),
                    message: dls@[k].message@,
                }),
        decreases dls@.len() - i,
    {
        let dl = &dls[i];
        related.push(
            RelatedInfo {
                uri: path.clone(),
                range: calc_range(src, dl.start, dl.end),
                message: dl.message.clone(),
            },
        );
        i = i + 1;
    }
    proof {
        assert(related@.map_values(|ri: RelatedInfo| ri@) =~= dls@.map_values(
            |dl: SpanLabel|
                SpecRelated {
                    uri: path@,
                    range: clamped_range_at(src@, dl.start as int, dl.end as int),
                    message: dl.message@,
                },
        ));
    }
    Diagnostic { range, message: message.clone(), related_information: Some(related) }
}

} // verus!
