//! The validation pipeline.
//!
//! A validation request for one file evicts that file's cache entry —
//! dropping its name binding and rebuilding the compiler state, which
//! realizes the cascading removal of its composed module and keeps the
//! compiler's span bookkeeping intact — re-extracts its name and
//! dependency list, resolves every dependency to a bound location and
//! composes it dependency-first into the composer's state, composes the
//! file itself, builds its compiled module once for the cache, and then
//! re-runs the build with full semantic validation.  The cache entry is
//! written whenever the file composes structurally, even when the
//! semantic pass fails, so that secondary consumers keep working against
//! the last structurally sound build.  Every failure path ends in a
//! published diagnostic, attributed to the file the error lies in; when
//! that is not the file that was being validated, a second marker
//! diagnostic is published on the validated file at the failing module's
//! name.

use vstd::prelude::*;

verus! {

use vstd::string::StringExecFns;

use naga::Module;
use naga_oil::compose::Composer;
use naga_oil::compose::ComposerError;

use crate::compose::build_module;
use crate::compose::build_module_validated;
use crate::compose::build_result;
use crate::compose::build_verdict;
use crate::compose::built_module;
use crate::compose::compose_module;
use crate::compose::compose_verdict;
use crate::compose::composed_names;
use crate::compose::composed_result;
use crate::compose::composer_new;
use crate::compose::error_identifier_span;
use crate::compose::error_local_range;
use crate::compose::error_message;
use crate::compose::error_offset;
use crate::compose::error_parse_labels;
use crate::compose::error_path;
use crate::compose::error_point;
use crate::compose::error_source;
use crate::compose::error_validation_labels;
use crate::compose::identifier_span_of;
use crate::compose::is_composed;
use crate::compose::local_range_of;
use crate::compose::message_of;
use crate::compose::offset_of;
use crate::compose::parse_labels_of;
use crate::compose::path_of;
use crate::compose::point_of;
use crate::compose::source_of;
use crate::compose::validation_labels_of;
use crate::compose::module_count;
use crate::compose::module_source;
use crate::compose::preprocessor_data;
use crate::compose::preprocessor_output;
use crate::compose::registered_source;
use crate::compose::validate_verdict;
use crate::diagnostics::composer_error_to_diagnostic;
use crate::diagnostics::error_diagnostic;
use crate::diagnostics::zero_range;
use crate::diagnostics::zero_range_exec;
use crate::diagnostics::text_bytes;
use crate::diagnostics::CompilerError;
use crate::diagnostics::Diagnostic;
use crate::diagnostics::ErrorShape;
use crate::diagnostics::PublishSet;
use crate::diagnostics::SpanLabel;
use crate::diagnostics::SpecDiagnostic;
use crate::document::OpenDocument;
use crate::server::WgslServerState;
use crate::text::clamp_offset;
use crate::text::clamped_range_at;
use crate::text::calc_range;
use crate::text::find_first;
use crate::text::find_in;
use crate::text::SrcRange;

pub assume_specification[ String::push ](s: &mut String, ch: char)
    ensures
        final(s)@ == old(s)@.push(ch),
;

/// Relies on std's `str::chars`: the characters of the text, in order.
#[verifier::external_body]
fn chars_vec(s: &str) -> (r: Vec<char>)
    ensures
        r@ == s@,
{
    s.chars().collect()
}

/// A structurally successful build of one document.
pub struct CachedModule {
    /// The compiled module.
    pub module: Module,
    /// The name it was registered under: a declared name, or the
    /// document's own location if the source declares none.
    pub module_name: String,
    /// Module names of dependencies, in declaration order.
    pub dependencies: Vec<String>,
    /// The exact text the module was compiled from, as the compiler saw
    /// it.  Compiled spans are only valid against this snapshot, not the
    /// live document text.
    pub source: String,
}

/// Why a validation pass failed.
#[derive(Debug)]
pub enum ValidationError {
    /// The compile failed structurally: the module could not be parsed or
    /// composed.  Nothing is cached for the document afterwards.
    ComposerError(CompilerError),
    /// The module composed, but the full semantic checks failed.  The
    /// structurally sound build is still cached.
    SemanticError(CompilerError),
    /// An imported name has no bound location: the importing file, the
    /// range of the name's first occurrence there, and the name.
    ImportNotFound(String, SrcRange, String),
    /// Resolving imports returned to a file already on the resolution
    /// path: the importing file, the range of the imported name's first
    /// occurrence there, and the name.
    ImportCycle(String, SrcRange, String),
    /// The compiler's limit on registered modules would be exceeded by
    /// composing the named file's module.  Reported rather than letting
    /// the compiler abort the process.
    TooManyModules(String),
}

/// The name the document's module is registered under: the name a source
/// directive declares, or the document's own location.
pub open spec fn module_name_spec(docs: Map<Seq<char>, OpenDocument>, uri: Seq<char>) -> Seq<
    char,
> {
    match preprocessor_output(docs[uri].text()).0 {
        Option::Some(n) => n,
        Option::None => uri,
    }
}

/// The document's dependency names, in declaration order, each unquoted if
/// it was written as a quoted literal.
pub open spec fn dependencies_spec(docs: Map<Seq<char>, OpenDocument>, uri: Seq<char>) -> Seq<
    Seq<char>,
> {
    preprocessor_output(docs[uri].text()).1.map_values(|n: Seq<char>| unquoted(n))
}

/// The characters before the first `"`.
pub open spec fn take_until_quote(s: Seq<char>) -> Seq<char>
    decreases s.len(),
{
    if s.len() == 0 || s[0] == '"' {
        Seq::empty()
    } else {
        seq![s[0]] + take_until_quote(s.drop_first())
    }
}

/// An import token, unquoted: for a token starting with `"`, the content
/// between that quote and the next one; any other token stands as written.
pub open spec fn unquoted(s: Seq<char>) -> Seq<char> {
    if s.len() > 0 && s[0] == '"' {
        take_until_quote(s.drop_first())
    } else {
        s
    }
}

proof fn lemma_take_until_quote(s: Seq<char>, q: int)
    requires
        0 <= q <= s.len(),
        forall|k: int| 0 <= k < q ==> s[k] != '"',
        q < s.len() ==> s[q] == '"',
    ensures
        take_until_quote(s) == s.take(q),
    decreases s.len(),
{
    if s.len() == 0 {
        assert(s.take(q) =~= Seq::empty());
    } else if s[0] == '"' {
        assert(q == 0);
        assert(s.take(0) =~= Seq::<char>::empty());
    } else {
        assert(q >= 1);
        lemma_take_until_quote(s.drop_first(), q - 1);
        assert(seq![s[0]] + s.drop_first().take(q - 1) =~= s.take(q));
    }
}

/// Unquote one import token.
pub fn unquote_import(name: &String) -> (r: String)
    ensures
        r@ == unquoted(name@),
{
    let cs = chars_vec(name.as_str());
    if cs.len() == 0 {
        return name.clone();
    }
    if cs[0] != '"' {
        return name.clone();
    }
    let mut out = String::new();
    let mut i: usize = 1;
    while i < cs.len()
        invariant
            cs@ == name@,
            1 <= i <= cs@.len(),
            cs@.len() >= 1,
            cs@[0] == '"',
            forall|k: int| 1 <= k < i ==> cs@[k] != '"',
            out@ == cs@.subrange(1, i as int),
        decreases cs@.len() - i,
    {
        if cs[i] == '"' {
            proof {
                lemma_take_until_quote(cs@.drop_first(), i - 1);
                assert(cs@.drop_first().take(i - 1) =~= cs@.subrange(1, i as int));
            }
            return out;
        }
        out.push(cs[i]);
        proof {
            assert(out@ =~= cs@.subrange(1, i + 1));
        }
        i = i + 1;
    }
    proof {
        lemma_take_until_quote(cs@.drop_first(), cs@.len() - 1);
        assert(cs@.drop_first().take(cs@.len() - 1) =~= cs@.subrange(1, cs@.len() as int));
    }
    out
}

/// The range of the first occurrence of `name` in `source`, as byte
/// offsets converted to positions; the document start if it does not
/// occur.
pub open spec fn name_range(source: Seq<char>, name: Seq<char>) -> SrcRange {
    let sb = text_bytes(source);
    let nb = text_bytes(name);
    let start = match find_first(sb, nb) {
        Option::Some(i) => i,
        Option::None => 0,
    };
    clamped_range_at(sb, start, start + nb.len())
}

/// Locate the first occurrence of `name` in `source`.
fn make_name_range(source: &String, name: &String) -> (r: SrcRange)
    ensures
        r == name_range(source@, name@),
{
    let sb = source.as_str().as_bytes();
    let nb = name.as_str().as_bytes();
    let start: usize = match find_in(sb, nb) {
        Some(i) => i,
        None => 0,
    };
    let nlen = nb.len();
    let slen = sb.len();
    if start <= slen && nlen <= slen - start {
        calc_range(sb, start, start + nlen)
    } else {
        proof {
            assert(clamp_offset(sb@, slen as int) == clamp_offset(sb@, start + nb@.len()));
        }
        calc_range(sb, start, slen)
    }
}

/// The message of an unresolved-import diagnostic.
pub open spec fn import_not_found_message(name: Seq<char>) -> Seq<char> {
    "Import not found: "@ + name
}

/// The message of an import-cycle diagnostic.
pub open spec fn import_cycle_message(name: Seq<char>) -> Seq<char> {
    "Import cycle: "@ + name
}

/// The message of the marker published on the validated file when the
/// error lies in another module.
pub open spec fn module_error_message(name: Seq<char>) -> Seq<char> {
    "Error in module: "@ + name
}

/// The message published when the compiler's module limit is reached.
pub open spec fn module_limit_message() -> Seq<char> {
    "Too many composed modules"@
}

fn import_not_found_message_exec(name: &String) -> (r: String)
    ensures
        r@ == import_not_found_message(name@),
{
    let mut m = "Import not found: ".to_owned();
    m.append(name.as_str());
    m
}

fn import_cycle_message_exec(name: &String) -> (r: String)
    ensures
        r@ == import_cycle_message(name@),
{
    let mut m = "Import cycle: ".to_owned();
    m.append(name.as_str());
    m
}

fn module_error_message_exec(name: &String) -> (r: String)
    ensures
        r@ == module_error_message(name@),
{
    let mut m = "Error in module: ".to_owned();
    m.append(name.as_str());
    m
}

fn module_limit_message_exec() -> (r: String)
    ensures
        r@ == module_limit_message(),
{
    "Too many composed modules".to_owned()
}

/// A diagnostic with a range and a message and nothing else.
pub open spec fn simple_diag(rng: SrcRange, msg: Seq<char>) -> SpecDiagnostic {
    SpecDiagnostic { range: rng, message: msg, related_information: Option::None }
}

/// The diagnostics most recently published for `uri` in `out`, if any.
pub open spec fn published_for(out: Seq<PublishSet>, uri: Seq<char>) -> Option<
    Seq<SpecDiagnostic>,
>
    decreases out.len(),
{
    if out.len() == 0 {
        Option::None
    } else if out.last().uri@ == uri {
        Option::Some(out.last()@.diagnostics)
    } else {
        published_for(out.drop_last(), uri)
    }
}

/// Publishing `p` overrides the record for its own file and leaves every
/// other file's record as it was.
pub proof fn lemma_published_for_push(out: Seq<PublishSet>, p: PublishSet, uri: Seq<char>)
    ensures
        published_for(out.push(p), uri) == if p.uri@ == uri {
            Option::Some(p@.diagnostics)
        } else {
            published_for(out, uri)
        },
{
    assert(out.push(p).drop_last() =~= out);
    assert(out.push(p).last() == p);
}

/// An unresolved-import error for `name`, located at its first occurrence
/// in the importing file's text.
fn import_error(uri: &String, source: &String, name: &String) -> (r: ValidationError)
    ensures
        r == ValidationError::ImportNotFound(*uri, name_range(source@, name@), *name),
{
    ValidationError::ImportNotFound(
        uri.clone(),
        make_name_range(source, name),
        name.clone(),
    )
}

/// An import-cycle error for `name`, located at its first occurrence in
/// the importing file's text.
fn cycle_error(uri: &String, source: &String, name: &String) -> (r: ValidationError)
    ensures
        r == ValidationError::ImportCycle(*uri, name_range(source@, name@), *name),
{
    ValidationError::ImportCycle(
        uri.clone(),
        make_name_range(source, name),
        name.clone(),
    )
}

/// How a label list is carried into a shape: each label's packed span,
/// with an absent span becoming the empty span at the document start, as
/// the compiler's own reporting treats it, plus the label's note.
pub open spec fn labels_match(
    raw: Seq<(Option<(usize, usize)>, Seq<char>)>,
    ls: Seq<SpanLabel>,
) -> bool {
    &&& ls.len() == raw.len()
    &&& forall|k: int|
        0 <= k < raw.len() ==> (#[trigger] ls[k]).start == (match raw[k].0 {
            Option::Some(p) => p.0,
            Option::None => 0,
        }) && ls[k].end == (match raw[k].0 {
            Option::Some(p) => p.1,
            Option::None => 0,
        }) && ls[k].message@ == raw[k].1
}

/// The location shape that a compiler error's kind selects: the local
/// range of a decoration error, the one packed span of an invalid
/// identifier, the plain point of a preprocessor or directive error, the
/// packed labels of a validation or parse error, and no span otherwise.
pub open spec fn shape_matches(e: ComposerError, shape: ErrorShape) -> bool {
    if local_range_of(e) is Some {
        shape == (ErrorShape::Local { start: (local_range_of(e)->0).0, end: (local_range_of(e)->0).1 })
    } else if identifier_span_of(e) is Some {
        shape == (match identifier_span_of(e)->0 {
            Option::Some(p) => ErrorShape::Packed { start: p.0, end: p.1 },
            Option::None => ErrorShape::Packed { start: 0, end: 0 },
        })
    } else if point_of(e) is Some {
        shape == (ErrorShape::Local { start: point_of(e)->0, end: point_of(e)->0 })
    } else if validation_labels_of(e) is Some {
        shape matches ErrorShape::Labeled { labels } && labels_match(
            validation_labels_of(e)->0,
            labels@,
        )
    } else if parse_labels_of(e) is Some {
        shape matches ErrorShape::Labeled { labels } && labels_match(
            parse_labels_of(e)->0,
            labels@,
        )
    } else {
        shape == ErrorShape::NoSpan
    }
}

/// Classify a composer error's location report by its kind.
fn shape_of(e: &ComposerError) -> (r: ErrorShape)
    ensures
        shape_matches(*e, r),
{
    if let Some(rg) = error_local_range(e) {
        return ErrorShape::Local { start: rg.0, end: rg.1 };
    }
    match error_identifier_span(e) {
        Some(Some(rg)) => {
            return ErrorShape::Packed { start: rg.0, end: rg.1 };
        },
        Some(None) => {
            return ErrorShape::Packed { start: 0, end: 0 };
        },
        None => {},
    }
    if let Some(p) = error_point(e) {
        return ErrorShape::Local { start: p, end: p };
    }
    let from_validation: bool;
    let raw_opt: Option<Vec<(Option<(usize, usize)>, String)>> = match error_validation_labels(
        e,
    ) {
        Some(v) => {
            from_validation = true;
            Some(v)
        },
        None => {
            from_validation = false;
            error_parse_labels(e)
        },
    };
    match raw_opt {
        Some(raw) => {
            let ghost raw_spec = if from_validation {
                validation_labels_of(*e)->0
            } else {
                parse_labels_of(*e)->0
            };
            proof {
                assert(raw@.map_values(|p: (Option<(usize, usize)>, String)| (p.0, p.1@))
                    == raw_spec);
            }
            let mut labels: Vec<SpanLabel> = Vec::new();
            let mut i: usize = 0;
            while i < raw.len()
                invariant
                    raw@.map_values(|p: (Option<(usize, usize)>, String)| (p.0, p.1@))
                        == raw_spec,
                    0 <= i <= raw@.len(),
                    labels@.len() == i,
                    forall|k: int|
                        0 <= k < i ==> (#[trigger] labels@[k]).start == (match raw_spec[k].0 {
                            Option::Some(p) => p.0,
                            Option::None => 0,
                        }) && labels@[k].end == (match raw_spec[k].0 {
                            Option::Some(p) => p.1,
                            Option::None => 0,
                        }) && labels@[k].message@ == raw_spec[k].1,
                decreases raw@.len() - i,
            {
                proof {
                    assert(raw@.map_values(
                        |p: (Option<(usize, usize)>, String)| (p.0, p.1@),
                    )[i as int] == (raw@[i as int].0, raw@[i as int].1@));
                }
                let (rg, msg) = (&raw[i].0, &raw[i].1);
                let (s, en): (usize, usize) = match rg {
                    Some(p) => (p.0, p.1),
                    None => (0, 0),
                };
                labels.push(SpanLabel { start: s, end: en, message: msg.clone() });
                i = i + 1;
            }
            ErrorShape::Labeled { labels }
        },
        None => ErrorShape::NoSpan,
    }
}

/// Reduce a composer error to plain values: its file, that file's text as
/// the compiler saw it, the file's base offset in the concatenated buffer,
/// the message, and the location shape selected by its kind.  An error
/// blaming a module that is no longer registered — which the pipeline's
/// call pattern does not produce — falls back to the file whose
/// validation raised it, with no text to decode against.
fn extract_error(e: &ComposerError, c: &Composer, fallback_path: &String) -> (r: CompilerError)
    ensures
        r.message@ == message_of(*e),
        r.offset == offset_of(*e),
        path_of(*e, *c) is Some ==> r.path@ == path_of(*e, *c)->0,
        path_of(*e, *c) is None ==> r.path == *fallback_path,
        source_of(*e, *c) is Some ==> r.source@ == source_of(*e, *c)->0,
        source_of(*e, *c) is None ==> r.source@ == Seq::<char>::empty(),
        shape_matches(*e, r.shape),
{
    let path: String = match error_path(e, c) {
        Some(p) => p,
        None => fallback_path.clone(),
    };
    let source: String = match error_source(e, c) {
        Some(s) => s,
        None => String::new(),
    };
    CompilerError {
        path,
        source,
        offset: error_offset(e),
        message: error_message(e),
        shape: shape_of(e),
    }
}

/// One document's extracted name and dependency list.
struct Frame {
    uri: String,
    source: String,
    module_name: String,
    deps: Vec<String>,
}

/// True when some element of `v` views like `x`.
fn contains_string(v: &Vec<String>, x: &String) -> (r: bool)
    ensures
        r == exists|i: int| 0 <= i < v@.len() && v@[i]@ == x@,
{
    let mut i: usize = 0;
    while i < v.len()
        invariant
            0 <= i <= v@.len(),
            forall|j: int| 0 <= j < i ==> v@[j]@ != x@,
        decreases v@.len() - i,
    {
        if v[i].eq(x) {
            return true;
        }
        i = i + 1;
    }
    false
}

/// A sequence of pairwise distinct elements of a finite set is no longer
/// than the set.
proof fn lemma_distinct_bound(s: Seq<Seq<char>>, m: Set<Seq<char>>)
    requires
        m.finite(),
        forall|i: int, j: int| 0 <= i < j < s.len() ==> s[i] != s[j],
        forall|i: int| 0 <= i < s.len() ==> m.contains(s[i]),
    ensures
        s.len() <= m.len(),
    decreases s.len(),
{
    if s.len() > 0 {
        let m2 = m.remove(s.last());
        assert(forall|i: int| 0 <= i < s.len() - 1 ==> s.drop_last()[i] == s[i]);
        lemma_distinct_bound(s.drop_last(), m2);
        assert(m2.len() == m.len() - 1);
    }
}

/// The views of the elements of a vector of strings.
pub open spec fn views_of(v: Seq<String>) -> Seq<Seq<char>> {
    v.map_values(|s: String| s@)
}

impl WgslServerState {
    /// Extract the document's module name and dependency names, and record
    /// the name binding for this location, overwriting any prior binding
    /// for that name.  Returns the text, the module name, and the
    /// dependency names.  This step cannot fail: unparsable import syntax
    /// is omitted here and left to the compiler's stricter parse.
    pub fn preprocess(&mut self, uri: &String) -> (r: (String, String, Vec<String>))
        requires
            old(self).wf(),
            old(self).open_documents@.contains_key(uri@),
        ensures
            final(self).wf(),
            final(self).open_documents == old(self).open_documents,
            final(self).cached_modules == old(self).cached_modules,
            final(self).composer == old(self).composer,
            final(self).should_validate == old(self).should_validate,
            r.0@ == old(self).open_documents@[uri@].text(),
            r.1@ == module_name_spec(old(self).open_documents@, uri@),
            r.2@.map_values(|s: String| s@) == dependencies_spec(old(self).open_documents@, uri@),
            final(self).module_lookup@ == old(self).module_lookup@.insert(r.1@, *uri),
    {
        let doc = self.open_documents.get(uri).unwrap();
        let source = doc.source();
        let (declared, imports) = preprocessor_data(source.as_str());
        let module_name: String = match declared {
            Some(n) => n,
            None => uri.clone(),
        };
        let mut deps: Vec<String> = Vec::new();
        let mut i: usize = 0;
        while i < imports.len()
            invariant
                0 <= i <= imports@.len(),
                deps@.len() == i,
                forall|k: int| 0 <= k < i ==> deps@[k]@ == unquoted(imports@[k]@),
            decreases imports@.len() - i,
        {
            let d = unquote_import(&imports[i]);
            deps.push(d);
            i = i + 1;
        }
        proof {
            let text = old(self).open_documents@[uri@].text();
            let outp = preprocessor_output(text).1;
            assert(imports@.map_values(|s: String| s@) == outp);
            assert(deps@.map_values(|s: String| s@) =~= outp.map_values(
                |n: Seq<char>| unquoted(n),
            ));
        }
        self.module_lookup.insert(module_name.clone(), uri.clone());
        proof {
            assert forall|n: Seq<char>| #[trigger] self.module_lookup@.contains_key(
                n,
            ) implies self.open_documents@.contains_key(self.module_lookup@[n]@) by {
                if n != module_name@ {
                    assert(old(self).module_lookup@.contains_key(n));
                }
            }
        }
        (source, module_name, deps)
    }

    /// Preprocess a document into a fresh frame.
    fn make_frame(&mut self, uri: &String) -> (f: Frame)
        requires
            old(self).wf(),
            old(self).open_documents@.contains_key(uri@),
        ensures
            final(self).wf(),
            final(self).open_documents == old(self).open_documents,
            final(self).cached_modules == old(self).cached_modules,
            final(self).composer == old(self).composer,
            final(self).should_validate == old(self).should_validate,
            final(self).module_lookup@ == old(self).module_lookup@.insert(
                module_name_spec(old(self).open_documents@, uri@),
                *uri,
            ),
            f.uri == *uri,
            f.source@ == old(self).open_documents@[uri@].text(),
            f.module_name@ == module_name_spec(old(self).open_documents@, uri@),
            f.deps@.map_values(|s: String| s@) == dependencies_spec(
                old(self).open_documents@,
                uri@,
            ),
    {
        let (source, module_name, deps) = self.preprocess(uri);
        Frame { uri: uri.clone(), source, module_name, deps }
    }

    /// Compose one resolved frame's module, unless a module of that name
    /// is already registered — composition is idempotent per name — and
    /// publish the cleared diagnostic set for the frame's file on success.
    /// Fails with the compiler's own error, surfaced as-is, or with a
    /// module-limit error when registering one more module would hit the
    /// compiler's cap; on failure nothing is published here.
    fn compose_one(&mut self, f: &Frame, out: &mut Vec<PublishSet>) -> (r: Result<
        (),
        ValidationError,
    >)
        requires
            old(self).wf(),
        ensures
            final(self).wf(),
            final(self).open_documents == old(self).open_documents,
            final(self).module_lookup == old(self).module_lookup,
            final(self).cached_modules == old(self).cached_modules,
            final(self).should_validate == old(self).should_validate,
            r is Ok <==> (composed_names(old(self).composer).contains(f.module_name@) || (
            composed_names(old(self).composer).len() < 2047 && compose_verdict(
                old(self).composer,
                f.module_name@,
                f.uri@,
                f.source@,
            ))),
            r is Ok ==> composed_names(final(self).composer).contains(f.module_name@),
            composed_names(old(self).composer).contains(f.module_name@) ==> final(self).composer
                == old(self).composer,
            (r is Ok && !composed_names(old(self).composer).contains(f.module_name@)) ==> final(self).composer == composed_result(old(self).composer, f.module_name@, f.uri@, f.source@),
            r is Ok ==> (final(out)@.len() == old(out)@.len() + 1 && final(out)@.drop_last()
                == old(out)@ && final(out)@.last().uri@ == f.uri@ && final(out)@.last()@.diagnostics == Seq::<SpecDiagnostic>::empty()),
            r is Err ==> (final(out)@ == old(out)@ && composed_names(final(self).composer)
                == composed_names(old(self).composer)),
            r is Err ==> (r matches Err(ValidationError::ComposerError(_)) || r matches Err(
                ValidationError::TooManyModules(_),
            )),
    {
        if !is_composed(&self.composer, &f.module_name) {
            if module_count(&self.composer) >= 2047 {
                return Err(ValidationError::TooManyModules(f.uri.clone()));
            }
            match compose_module(&mut self.composer, &f.module_name, &f.uri, &f.source) {
                Ok(()) => {},
                Err(e) => {
                    let info = extract_error(&e, &self.composer, &f.uri);
                    return Err(ValidationError::ComposerError(info));
                },
            }
        }
        let ghost out0 = out@;
        out.push(PublishSet { uri: f.uri.clone(), diagnostics: Vec::new() });
        proof {
            assert(out@.drop_last() =~= out0);
            assert(out@.last()@.diagnostics =~= Seq::<SpecDiagnostic>::empty());
        }
        Ok(())
    }

    /// Resolve and compose every transitive dependency of the document at
    /// `uri`, dependency-first as the composer requires, and give back the
    /// document's own frame, not yet composed.  `path` holds the locations
    /// currently being resolved, outermost first and ending with `uri`; an
    /// import that leads back to one of them is reported as a cycle
    /// instead of being recursed into.  The first failure anywhere —
    /// graph error or compiler error — aborts the whole resolution; later
    /// siblings are not attempted.
    fn resolve_deps(&mut self, uri: &String, path: &Vec<String>, out: &mut Vec<PublishSet>) -> (r:
        Result<Frame, ValidationError>)
        requires
            old(self).wf(),
            old(self).open_documents@.contains_key(uri@),
            forall|i: int, j: int|
                0 <= i < j < path@.len() ==> views_of(path@)[i] != views_of(path@)[j],
            forall|i: int|
                0 <= i < path@.len() ==> old(self).open_documents@.contains_key(path@[i]@),
        ensures
            final(self).wf(),
            final(self).open_documents == old(self).open_documents,
            final(self).cached_modules == old(self).cached_modules,
            final(self).should_validate == old(self).should_validate,
            forall|n: Seq<char>|
                #[trigger] old(self).module_lookup@.contains_key(n) ==> final(self).module_lookup@.contains_key(n),
            final(out)@.len() >= old(out)@.len(),
            final(out)@.take(old(out)@.len() as int) == old(out)@,
            (r matches Ok(f) ==> f.uri == *uri && f.source@ == old(self).open_documents@[uri@].text() && f.module_name@ == module_name_spec(
                old(self).open_documents@,
                uri@,
            ) && f.deps@.map_values(|s: String| s@) == dependencies_spec(
                old(self).open_documents@,
                uri@,
            )),
            (r matches Ok(f) ==> forall|k: int|
                0 <= k < f.deps@.len() ==> final(self).module_lookup@.contains_key(
                    #[trigger] f.deps@[k]@,
                )),
            r is Err ==> !(r matches Err(ValidationError::SemanticError(_))),
            dependencies_spec(old(self).open_documents@, uri@).len() == 0 ==> (final(out)@ == old(out)@ && r is Ok && final(self).composer == old(self).composer),
            ({
                let deps = dependencies_spec(old(self).open_documents@, uri@);
                let name = module_name_spec(old(self).open_documents@, uri@);
                deps.len() > 0 && deps[0] != name && !old(self).module_lookup@.contains_key(
                    deps[0],
                )
            }) ==> (final(out)@ == old(out)@ && (r matches Err(ValidationError::ImportNotFound(
                u,
                rng,
                n,
            )) && u == *uri && n@ == dependencies_spec(old(self).open_documents@, uri@)[0] && rng
                == name_range(
                old(self).open_documents@[uri@].text(),
                dependencies_spec(old(self).open_documents@, uri@)[0],
            ))),
        decreases old(self).open_documents@.dom().len() - path@.len(),
    {
        proof {
            old(self).open_documents.lemma_dom_finite();
            lemma_distinct_bound(views_of(path@), old(self).open_documents@.dom());
        }
        let f = self.make_frame(uri);
        let ghost docs = old(self).open_documents@;
        let ghost deps_spec = dependencies_spec(docs, uri@);
        let ghost name_spec = module_name_spec(docs, uri@);
        let mut i: usize = 0;
        while i < f.deps.len()
            invariant
                self.wf(),
                self.open_documents == old(self).open_documents,
                self.cached_modules == old(self).cached_modules,
                self.should_validate == old(self).should_validate,
                docs == old(self).open_documents@,
                deps_spec == dependencies_spec(docs, uri@),
                name_spec == module_name_spec(docs, uri@),
                f.uri == *uri,
                f.source@ == docs[uri@].text(),
                f.module_name@ == name_spec,
                f.deps@.map_values(|s: String| s@) == deps_spec,
                self.open_documents@.contains_key(uri@),
                forall|k: int, j: int|
                    0 <= k < j < path@.len() ==> views_of(path@)[k] != views_of(path@)[j],
                forall|k: int| 0 <= k < path@.len() ==> docs.contains_key(path@[k]@),
                0 <= i <= f.deps@.len(),
                out@.len() >= old(out)@.len(),
                out@.take(old(out)@.len() as int) == old(out)@,
                forall|n: Seq<char>|
                    #[trigger] old(self).module_lookup@.contains_key(n)
                        ==> self.module_lookup@.contains_key(n),
                forall|k: int|
                    0 <= k < i ==> self.module_lookup@.contains_key(#[trigger] f.deps@[k]@),
                i == 0 ==> (out@ == old(out)@ && self.composer == old(self).composer
                    && self.module_lookup@ == old(self).module_lookup@.insert(name_spec, *uri)),
                i > 0 ==> (deps_spec.len() == 0 || deps_spec[0] == name_spec || old(self).module_lookup@.contains_key(deps_spec[0])),
            decreases f.deps@.len() - i,
        {
            let dep = f.deps[i].clone();
            proof {
                assert(f.deps@.map_values(|s: String| s@)[i as int] == f.deps@[i as int]@);
            }
            let dep_uri: String = match self.module_lookup.get(&dep) {
                Some(u) => u.clone(),
                None => {
                    let e = import_error(&f.uri, &f.source, &dep);
                    return Err(e);
                },
            };
            if contains_string(path, &dep_uri) {
                let e = cycle_error(&f.uri, &f.source, &dep);
                return Err(e);
            }
            let mut child_path: Vec<String> = path.clone();
            child_path.push(dep_uri.clone());
            proof {
                assert(forall|k: int|
                    0 <= k < path@.len() ==> child_path@[k] == path@[k]);
                assert forall|k: int, j: int|
                    0 <= k < j < child_path@.len() implies views_of(child_path@)[k] != views_of(
                    child_path@,
                )[j] by {
                    assert(views_of(child_path@)[k] == child_path@[k]@);
                    assert(views_of(child_path@)[j] == child_path@[j]@);
                    if j < child_path@.len() - 1 {
                        assert(views_of(path@)[k] == path@[k]@);
                        assert(views_of(path@)[j] == path@[j]@);
                    } else {
                        assert(child_path@[j]@ == dep_uri@);
                    }
                }
                self.open_documents.lemma_dom_finite();
                lemma_distinct_bound(views_of(child_path@), self.open_documents@.dom());
            }
            let ghost out_a = out@;
            let sub = match self.resolve_deps(&dep_uri, &child_path, out) {
                Ok(s) => s,
                Err(e) => {
                    proof {
                        lemma_prefix_trans(old(out)@, out_a, out@);
                    }
                    return Err(e);
                },
            };
            let ghost out_b = out@;
            match self.compose_one(&sub, out) {
                Ok(()) => {},
                Err(e) => {
                    proof {
                        lemma_prefix_trans(old(out)@, out_a, out@);
                    }
                    return Err(e);
                },
            }
            proof {
                assert(out@.take(out_b.len() as int) =~= out_b);
                lemma_prefix_trans(out_a, out_b, out@);
                lemma_prefix_trans(old(out)@, out_a, out@);
            }
            i = i + 1;
        }
        Ok(f)
    }

    /// Compose the module at `uri` together with its transitive
    /// dependencies, dependency-first, publishing a cleared diagnostic set
    /// for each module that composes.  The first failure aborts the pass
    /// and is surfaced as the result: an unbound import name, a cycle, or
    /// the compiler's own composition error.
    pub fn add_module(&mut self, uri: &String, out: &mut Vec<PublishSet>) -> (r: Result<
        (),
        ValidationError,
    >)
        requires
            old(self).wf(),
            old(self).open_documents@.contains_key(uri@),
        ensures
            final(self).wf(),
            final(self).open_documents == old(self).open_documents,
            final(self).cached_modules == old(self).cached_modules,
            final(self).should_validate == old(self).should_validate,
            forall|n: Seq<char>|
                #[trigger] old(self).module_lookup@.contains_key(n) ==> final(self).module_lookup@.contains_key(n),
            final(out)@.len() >= old(out)@.len(),
            final(out)@.take(old(out)@.len() as int) == old(out)@,
            r is Err ==> !(r matches Err(ValidationError::SemanticError(_))),
            r is Ok ==> composed_names(final(self).composer).contains(
                module_name_spec(old(self).open_documents@, uri@),
            ),
            r is Ok ==> published_for(final(out)@, uri@) == Option::Some(
                Seq::<SpecDiagnostic>::empty(),
            ),
            dependencies_spec(old(self).open_documents@, uri@).len() == 0 ==> (r is Ok <==> (
            composed_names(old(self).composer).contains(
                module_name_spec(old(self).open_documents@, uri@),
            ) || (composed_names(old(self).composer).len() < 2047 && compose_verdict(
                old(self).composer,
                module_name_spec(old(self).open_documents@, uri@),
                uri@,
                old(self).open_documents@[uri@].text(),
            )))),
            ({
                let deps = dependencies_spec(old(self).open_documents@, uri@);
                let name = module_name_spec(old(self).open_documents@, uri@);
                deps.len() > 0 && deps[0] != name && !old(self).module_lookup@.contains_key(
                    deps[0],
                )
            }) ==> (final(out)@ == old(out)@ && (r matches Err(ValidationError::ImportNotFound(
                u,
                rng,
                n,
            )) && u == *uri && n@ == dependencies_spec(old(self).open_documents@, uri@)[0] && rng
                == name_range(
                old(self).open_documents@[uri@].text(),
                dependencies_spec(old(self).open_documents@, uri@)[0],
            ))),
    {
        let mut path: Vec<String> = Vec::new();
        path.push(uri.clone());
        let top = match self.resolve_deps(uri, &path, out) {
            Ok(t) => t,
            Err(e) => {
                return Err(e);
            },
        };
        let ghost out_mid = out@;
        match self.compose_one(&top, out) {
            Ok(()) => {},
            Err(e) => {
                return Err(e);
            },
        }
        proof {
            assert(out@.take(out_mid.len() as int) =~= out_mid);
            lemma_prefix_trans(old(out)@, out_mid, out@);
            lemma_published_for_push(out_mid, out@.last(), uri@);
            assert(out@ == out_mid.push(out@.last())) by {
                assert(out@ =~= out_mid.push(out@.last()));
            }
        }
        Ok(())
    }
}

/// Prefix preservation is transitive.
proof fn lemma_prefix_trans(a: Seq<PublishSet>, b: Seq<PublishSet>, c: Seq<PublishSet>)
    requires
        a.len() <= b.len() <= c.len(),
        b.take(a.len() as int) == a,
        c.take(b.len() as int) == b,
    ensures
        c.take(a.len() as int) == a,
{
    assert(c.take(a.len() as int) =~= a) by {
        assert forall|k: int| 0 <= k < a.len() implies c.take(a.len() as int)[k] == a[k] by {
            assert(c.take(b.len() as int)[k] == c[k]);
            assert(b.take(a.len() as int)[k] == b[k]);
        }
    }
}

/// The name bindings as they stand after a validation pass evicts the
/// document's old cache entry: the old module name's binding is dropped
/// with the entry.
pub open spec fn bindings_after_evict(s: WgslServerState, uri: Seq<char>) -> Map<Seq<char>, String> {
    if s.cached_modules@.contains_key(uri) {
        s.module_lookup@.remove(s.cached_modules@[uri].module_name@)
    } else {
        s.module_lookup@
    }
}

/// True when some module name is bound to the location `target`.
pub open spec fn has_binding_to(st: WgslServerState, target: Seq<char>) -> bool {
    exists|nm: Seq<char>|
        #[trigger] st.module_lookup@.contains_key(nm) && st.module_lookup@[nm]@ == target
}

/// True when the last publish on `uri` in `out` is a marker naming a
/// module bound to `target`, placed at that name's first occurrence in
/// `uri`'s text.
pub open spec fn marker_published(
    out: Seq<PublishSet>,
    st: WgslServerState,
    uri: Seq<char>,
    target: Seq<char>,
) -> bool {
    exists|nm: Seq<char>|
        #[trigger] st.module_lookup@.contains_key(nm) && st.module_lookup@[nm]@ == target
            && published_for(out, uri) == Option::Some(
            seq![
                simple_diag(
                    name_range(st.open_documents@[uri].text(), nm),
                    module_error_message(nm),
                ),
            ],
        )
}

/// The outcome of the structural stage of a pass that, starting from
/// compiler state `c0`, composes nothing but the document itself: its
/// registration and the non-validating build that follows.
pub open spec fn pass_structural(c0: Composer, name: Seq<char>, uri: Seq<char>, text: Seq<char>) -> bool {
    compose_verdict(c0, name, uri, text) && build_verdict(
        composed_result(c0, name, uri, text),
        uri,
        text,
    )
}

/// The outcome of the semantic stage of the same pass: the validating
/// re-build after the structural stage succeeded.
pub open spec fn pass_semantic(c0: Composer, name: Seq<char>, uri: Seq<char>, text: Seq<char>) -> bool {
    validate_verdict(
        build_result(composed_result(c0, name, uri, text), uri, text),
        uri,
        text,
    )
}

/// One validation pass over the document at `uri`, with the publishes it
/// owes still pending: evict the old cache entry — dropping its name
/// binding and rebuilding the compiler state from scratch, which realizes
/// the cascading removal of the module and everything depending on it
/// while keeping the compiler's span bookkeeping intact — re-extract the
/// name and dependencies, resolve and compose the dependencies, compose
/// the document, build its module for the cache, and re-run the build
/// with semantic validation.  The cache entry is written exactly when the
/// document composes structurally, whatever the semantic pass says;
/// entries of other documents are never touched.
fn validate_document_inner(
    st: &mut WgslServerState,
    uri: &String,
    out: &mut Vec<PublishSet>,
) -> (r: Result<(), ValidationError>)
    requires
        old(st).wf(),
        old(st).open_documents@.contains_key(uri@),
    ensures
        final(st).wf(),
        final(st).open_documents == old(st).open_documents,
        final(st).should_validate == old(st).should_validate,
        final(st).cached_modules@.remove(uri@) == old(st).cached_modules@.remove(uri@),
        (r is Ok || r matches Err(ValidationError::SemanticError(_))) <==> final(st).cached_modules@.contains_key(uri@),
        final(st).cached_modules@.contains_key(uri@) ==> ({
            let e = final(st).cached_modules@[uri@];
            let docs = old(st).open_documents@;
            &&& e.module_name@ == module_name_spec(docs, uri@)
            &&& e.dependencies@.map_values(|s: String| s@) == dependencies_spec(docs, uri@)
            &&& exists|c: Composer| e.module == #[trigger] built_module(c, uri@, docs[uri@].text())
            &&& ((exists|c: Composer|
                #[trigger] registered_source(c, e.module_name@) == Option::Some(e.source@))
                || e.source@ == docs[uri@].text())
        }),
        (r is Ok || r matches Err(ValidationError::SemanticError(_))) ==> composed_names(
            final(st).composer,
        ).contains(module_name_spec(old(st).open_documents@, uri@)),
        (r is Ok || r matches Err(ValidationError::SemanticError(_))) ==> (forall|k: int|
            0 <= k < dependencies_spec(old(st).open_documents@, uri@).len() ==> final(st).module_lookup@.contains_key(
                #[trigger] dependencies_spec(old(st).open_documents@, uri@)[k],
            )),
        forall|n: Seq<char>|
            #[trigger] bindings_after_evict(*old(st), uri@).contains_key(n) ==> final(st).module_lookup@.contains_key(n),
        final(out)@.len() >= old(out)@.len(),
        final(out)@.take(old(out)@.len() as int) == old(out)@,
        dependencies_spec(old(st).open_documents@, uri@).len() == 0 ==> final(out)@ == old(out)@,
        ({
            let deps = dependencies_spec(old(st).open_documents@, uri@);
            let name = module_name_spec(old(st).open_documents@, uri@);
            deps.len() > 0 && deps[0] != name && !bindings_after_evict(
                *old(st),
                uri@,
            ).contains_key(deps[0])
        }) ==> (final(out)@ == old(out)@ && (r matches Err(ValidationError::ImportNotFound(
            u,
            rng,
            n,
        )) && u == *uri && n@ == dependencies_spec(old(st).open_documents@, uri@)[0] && rng
            == name_range(
            old(st).open_documents@[uri@].text(),
            dependencies_spec(old(st).open_documents@, uri@)[0],
        ))),
        ({
            let docs = old(st).open_documents@;
            dependencies_spec(docs, uri@).len() == 0 && !old(st).cached_modules@.contains_key(
                uri@,
            ) && !composed_names(old(st).composer).contains(module_name_spec(docs, uri@))
                && composed_names(old(st).composer).len() < 2047
        }) ==> ({
            let docs = old(st).open_documents@;
            let name = module_name_spec(docs, uri@);
            let text = docs[uri@].text();
            let c0 = old(st).composer;
            &&& (r is Ok <==> pass_structural(c0, name, uri@, text) && pass_semantic(
                c0,
                name,
                uri@,
                text,
            ))
            &&& ((r matches Err(ValidationError::SemanticError(_))) <==> pass_structural(
                c0,
                name,
                uri@,
                text,
            ) && !pass_semantic(c0, name, uri@, text))
        }),
{
    let ghost docs = old(st).open_documents@;
    let old_name: Option<String> = match st.cached_modules.get(uri) {
        Some(cm) => Some(cm.module_name.clone()),
        None => None,
    };
    st.cached_modules.remove(uri);
    match &old_name {
        Some(n) => {
            st.module_lookup.remove(n);
            // rebuilding the compiler state from scratch evicts the old
            // module together with everything depending on it, and keeps
            // the span bookkeeping dense for the passes to come
            st.composer = composer_new();
        },
        None => {},
    }
    proof {
        assert forall|nm: Seq<char>| #[trigger] st.module_lookup@.contains_key(
            nm,
        ) implies st.open_documents@.contains_key(st.module_lookup@[nm]@) by {
            assert(old(st).module_lookup@.contains_key(nm));
        }
        assert(st.module_lookup@ == bindings_after_evict(*old(st), uri@));
    }
    let mut path: Vec<String> = Vec::new();
    path.push(uri.clone());
    let top = match st.resolve_deps(uri, &path, out) {
        Ok(t) => t,
        Err(e) => {
            proof {
                assert(st.cached_modules@.remove(uri@) =~= old(st).cached_modules@.remove(uri@));
            }
            return Err(e);
        },
    };
    let ghost c0 = st.composer;
    if !is_composed(&st.composer, &top.module_name) {
        if module_count(&st.composer) >= 2047 {
            proof {
                assert(st.cached_modules@.remove(uri@) =~= old(st).cached_modules@.remove(uri@));
            }
            return Err(ValidationError::TooManyModules(uri.clone()));
        }
        match compose_module(&mut st.composer, &top.module_name, &top.uri, &top.source) {
            Ok(()) => {},
            Err(e) => {
                let info = extract_error(&e, &st.composer, uri);
                proof {
                    assert(st.cached_modules@.remove(uri@) =~= old(st).cached_modules@.remove(uri@));
                }
                return Err(ValidationError::ComposerError(info));
            },
        }
    }
    let snapshot: String = match module_source(&st.composer, &top.module_name) {
        Some(s) => s,
        None => top.source.clone(),
    };
    let ghost c1 = st.composer;
    let module: Module = match build_module(&mut st.composer, uri, &top.source) {
        Ok(m) => m,
        Err(e) => {
            let info = extract_error(&e, &st.composer, uri);
            proof {
                assert(st.cached_modules@.remove(uri@) =~= old(st).cached_modules@.remove(uri@));
            }
            return Err(ValidationError::ComposerError(info));
        },
    };
    let vres = build_module_validated(&mut st.composer, uri, &top.source);
    st.cached_modules.insert(
        uri.clone(),
        CachedModule {
            module,
            module_name: top.module_name,
            dependencies: top.deps,
            source: snapshot,
        },
    );
    proof {
        assert(st.cached_modules@.remove(uri@) =~= old(st).cached_modules@.remove(uri@));
        let e = st.cached_modules@[uri@];
        assert(e.module == built_module(c1, uri@, docs[uri@].text()));
        if registered_source(c1, e.module_name@) is Some {
            assert(registered_source(c1, e.module_name@) == Option::Some(e.source@));
        } else {
            assert(e.source@ == docs[uri@].text());
        }
    }
    match vres {
        Ok(_) => Ok(()),
        Err(e) => {
            let info = extract_error(&e, &st.composer, uri);
            Err(ValidationError::SemanticError(info))
        },
    }
}


/// Validate one document and publish the outcome: a cleared diagnostic
/// set on success, the mapped diagnostics on failure — published on the
/// file the error lies in — and, when that file is not the one being
/// validated, a marker on the validated file at the failing module's
/// name.  Also turns validation of later document events on.
pub fn validate_document(
    st: &mut WgslServerState,
    uri: &String,
    out: &mut Vec<PublishSet>,
) -> (r: Result<(), ValidationError>)
    requires
        old(st).wf(),
        old(st).open_documents@.contains_key(uri@),
    ensures
        final(st).wf(),
        final(st).should_validate,
        final(st).open_documents == old(st).open_documents,
        final(st).cached_modules@.remove(uri@) == old(st).cached_modules@.remove(uri@),
        ((r is Ok || r matches Err(ValidationError::SemanticError(_))) <==> final(st).cached_modules@.contains_key(uri@)),
        final(st).cached_modules@.contains_key(uri@) ==> ({
            let e = final(st).cached_modules@[uri@];
            let docs = old(st).open_documents@;
            &&& e.module_name@ == module_name_spec(docs, uri@)
            &&& e.dependencies@.map_values(|s: String| s@) == dependencies_spec(docs, uri@)
            &&& exists|c: Composer| e.module == #[trigger] built_module(c, uri@, docs[uri@].text())
            &&& ((exists|c: Composer|
                #[trigger] registered_source(c, e.module_name@) == Option::Some(e.source@))
                || e.source@ == docs[uri@].text())
        }),
        (r is Ok || r matches Err(ValidationError::SemanticError(_))) ==> composed_names(
            final(st).composer,
        ).contains(module_name_spec(old(st).open_documents@, uri@)),
        (r is Ok || r matches Err(ValidationError::SemanticError(_))) ==> (forall|k: int|
            0 <= k < dependencies_spec(old(st).open_documents@, uri@).len() ==> final(st).module_lookup@.contains_key(
                #[trigger] dependencies_spec(old(st).open_documents@, uri@)[k],
            )),
        forall|n: Seq<char>|
            #[trigger] bindings_after_evict(*old(st), uri@).contains_key(n) ==> final(st).module_lookup@.contains_key(n),
        final(out)@.len() > old(out)@.len(),
        final(out)@.take(old(out)@.len() as int) == old(out)@,
        r is Ok ==> published_for(final(out)@, uri@) == Option::Some(
            Seq::<SpecDiagnostic>::empty(),
        ),
        (r is Ok && dependencies_spec(old(st).open_documents@, uri@).len() == 0) ==> (final(out)@.len() == old(out)@.len() + 1 && final(out)@.drop_last() == old(out)@),
        r matches Err(ValidationError::ImportNotFound(u, rng, n)) ==> published_for(
            final(out)@,
            u@,
        ) == Option::Some(seq![simple_diag(rng, import_not_found_message(n@))]),
        r matches Err(ValidationError::ImportCycle(u, rng, n)) ==> published_for(final(out)@, u@)
            == Option::Some(seq![simple_diag(rng, import_cycle_message(n@))]),
        r matches Err(ValidationError::ComposerError(ce)) ==> published_for(
            final(out)@,
            ce.path@,
        ) == Option::Some(seq![error_diagnostic(ce)]),
        r matches Err(ValidationError::SemanticError(ce)) ==> published_for(
            final(out)@,
            ce.path@,
        ) == Option::Some(seq![error_diagnostic(ce)]),
        r matches Err(ValidationError::ImportNotFound(u, rng, n)) ==> (u@ != uri@ ==> (
        marker_published(final(out)@, *final(st), uri@, u@) || !has_binding_to(*final(st), u@))),
        r matches Err(ValidationError::ImportCycle(u, rng, n)) ==> (u@ != uri@ ==> (
        marker_published(final(out)@, *final(st), uri@, u@) || !has_binding_to(*final(st), u@))),
        r matches Err(ValidationError::ComposerError(ce)) ==> (ce.path@ != uri@ ==> (
        marker_published(final(out)@, *final(st), uri@, ce.path@) || !has_binding_to(
            *final(st),
            ce.path@,
        ))),
        r matches Err(ValidationError::SemanticError(ce)) ==> (ce.path@ != uri@ ==> (
        marker_published(final(out)@, *final(st), uri@, ce.path@) || !has_binding_to(
            *final(st),
            ce.path@,
        ))),
        r matches Err(ValidationError::TooManyModules(u)) ==> published_for(final(out)@, u@)
            == Option::Some(seq![simple_diag(zero_range(), module_limit_message())]),
        r matches Err(ValidationError::TooManyModules(u)) ==> (u@ != uri@ ==> (
        marker_published(final(out)@, *final(st), uri@, u@) || !has_binding_to(*final(st), u@))),
        ({
            let deps = dependencies_spec(old(st).open_documents@, uri@);
            let name = module_name_spec(old(st).open_documents@, uri@);
            deps.len() > 0 && deps[0] != name && !bindings_after_evict(
                *old(st),
                uri@,
            ).contains_key(deps[0])
        }) ==> (final(out)@.len() == old(out)@.len() + 1 && final(out)@.drop_last() == old(out)@
            && published_for(final(out)@, uri@) == Option::Some(
            seq![
                simple_diag(
                    name_range(
                        old(st).open_documents@[uri@].text(),
                        dependencies_spec(old(st).open_documents@, uri@)[0],
                    ),
                    import_not_found_message(dependencies_spec(old(st).open_documents@, uri@)[0]),
                ),
            ],
        )),
        ({
            let docs = old(st).open_documents@;
            dependencies_spec(docs, uri@).len() == 0 && !old(st).cached_modules@.contains_key(
                uri@,
            ) && !composed_names(old(st).composer).contains(module_name_spec(docs, uri@))
                && composed_names(old(st).composer).len() < 2047
        }) ==> ({
            let docs = old(st).open_documents@;
            let name = module_name_spec(docs, uri@);
            let text = docs[uri@].text();
            let c0 = old(st).composer;
            &&& (r is Ok <==> pass_structural(c0, name, uri@, text) && pass_semantic(
                c0,
                name,
                uri@,
                text,
            ))
            &&& ((r matches Err(ValidationError::SemanticError(_))) <==> pass_structural(
                c0,
                name,
                uri@,
                text,
            ) && !pass_semantic(c0, name, uri@, text))
        }),
{
    st.should_validate = true;
    let ghost st1 = *st;
    let res = validate_document_inner(st, uri, out);
    proof {
        assert(bindings_after_evict(st1, uri@) == bindings_after_evict(*old(st), uri@));
        assert forall|n: Seq<char>|
            #[trigger] bindings_after_evict(*old(st), uri@).contains_key(
                n,
            ) implies st.module_lookup@.contains_key(n) by {
            assert(bindings_after_evict(st1, uri@).contains_key(n));
        }
    }
    let ghost out_mid = out@;
    match &res {
        Ok(()) => {
            let clear = PublishSet { uri: uri.clone(), diagnostics: Vec::new() };
            proof {
                lemma_published_for_push(out_mid, clear, uri@);
                assert(clear@.diagnostics =~= Seq::<SpecDiagnostic>::empty());
            }
            out.push(clear);
            proof {
                assert(out@.drop_last() =~= out_mid);
                assert(out@.take(out_mid.len() as int) =~= out_mid);
                lemma_prefix_trans(old(out)@, out_mid, out@);
            }
        },
        Err(err) => {
            let publish: PublishSet = match err {
                ValidationError::ImportNotFound(u, rng, n) => {
                    let mut ds: Vec<Diagnostic> = Vec::new();
                    ds.push(
                        Diagnostic {
                            range: *rng,
                            message: import_not_found_message_exec(n),
                            related_information: None,
                        },
                    );
                    proof {
                        assert(ds@.map_values(|d: Diagnostic| d@) =~= seq![
                            simple_diag(*rng, import_not_found_message(n@)),
                        ]);
                    }
                    PublishSet { uri: u.clone(), diagnostics: ds }
                },
                ValidationError::ImportCycle(u, rng, n) => {
                    let mut ds: Vec<Diagnostic> = Vec::new();
                    ds.push(
                        Diagnostic {
                            range: *rng,
                            message: import_cycle_message_exec(n),
                            related_information: None,
                        },
                    );
                    proof {
                        assert(ds@.map_values(|d: Diagnostic| d@) =~= seq![
                            simple_diag(*rng, import_cycle_message(n@)),
                        ]);
                    }
                    PublishSet { uri: u.clone(), diagnostics: ds }
                },
                ValidationError::ComposerError(ce) => composer_error_to_diagnostic(ce),
                ValidationError::SemanticError(ce) => composer_error_to_diagnostic(ce),
                ValidationError::TooManyModules(u) => {
                    let mut ds: Vec<Diagnostic> = Vec::new();
                    ds.push(
                        Diagnostic {
                            range: zero_range_exec(),
                            message: module_limit_message_exec(),
                            related_information: None,
                        },
                    );
                    proof {
                        assert(ds@.map_values(|d: Diagnostic| d@) =~= seq![
                            simple_diag(zero_range(), module_limit_message()),
                        ]);
                    }
                    PublishSet { uri: u.clone(), diagnostics: ds }
                },
            };
            if !publish.uri.eq(uri) {
                match st.module_lookup.key_of_value(&publish.uri) {
                    Some(nm_ref) => {
                        let nm = nm_ref.clone();
                        let doc = st.open_documents.get(uri).unwrap();
                        let doc_src = doc.source();
                        let rng = make_name_range(&doc_src, &nm);
                        let mut ds: Vec<Diagnostic> = Vec::new();
                        ds.push(
                            Diagnostic {
                                range: rng,
                                message: module_error_message_exec(&nm),
                                related_information: None,
                            },
                        );
                        proof {
                            assert(ds@.map_values(|d: Diagnostic| d@) =~= seq![
                                simple_diag(
                                    name_range(st.open_documents@[uri@].text(), nm@),
                                    module_error_message(nm@),
                                ),
                            ]);
                        }
                        let marker = PublishSet { uri: uri.clone(), diagnostics: ds };
                        proof {
                            lemma_published_for_push(out@, marker, uri@);
                            lemma_published_for_push(out@, marker, publish.uri@);
                        }
                        out.push(marker);
                    },
                    None => {},
                }
            }
            let ghost out_b = out@;
            proof {
                lemma_published_for_push(out_b, publish, uri@);
                lemma_published_for_push(out_b, publish, publish.uri@);
            }
            out.push(publish);
            proof {
                assert(out@.take(out_b.len() as int) =~= out_b);
                assert(out_b.take(out_mid.len() as int) =~= out_mid);
                lemma_prefix_trans(out_mid, out_b, out@);
                lemma_prefix_trans(old(out)@, out_mid, out@);
            }
        },
    }
    res
}

/// Law: the cached description of a document is a function of its text
/// alone.  Any two passes over the same open documents cache the same
/// module name and the same dependency list for a location, so validating
/// again with no intervening edit leaves the entry's description
/// unchanged.  (Equality of the compiled module itself is not stated: it
/// is the compiler's output.)
pub proof fn lemma_cache_entry_deterministic(
    docs: Map<Seq<char>, OpenDocument>,
    uri: Seq<char>,
    e1: CachedModule,
    e2: CachedModule,
)
    requires
        e1.module_name@ == module_name_spec(docs, uri),
        e1.dependencies@.map_values(|s: String| s@) == dependencies_spec(docs, uri),
        e2.module_name@ == module_name_spec(docs, uri),
        e2.dependencies@.map_values(|s: String| s@) == dependencies_spec(docs, uri),
    ensures
        e1.module_name@ == e2.module_name@,
        e1.dependencies@.map_values(|s: String| s@) == e2.dependencies@.map_values(
            |s: String| s@,
        ),
{
}

} // verus!
