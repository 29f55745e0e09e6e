//! The trusted boundary to the shader compiler.
//!
//! The `naga_oil` composer owns the process-wide set of composed modules.
//! Everything the validation pipeline needs from it goes through the items
//! here: the composer and its error type are declared opaque, the contents
//! of its module set, its span bookkeeping, and the outcomes of its calls
//! are given names, and each call the pipeline makes is wrapped with a
//! contract stating what the composer's source shows of it.
//!
//! The composer tags every span with the owning module's index, assigned at
//! registration as one past the current module count.  Removing a module
//! and registering another therefore reuses indices while spans tagged with
//! the old assignment survive, and the composer's error reporting panics
//! when a reused index leads it to a module without a built form.  The
//! wrappers below demand, through `span_indices_dense`, that every call is
//! made on a composer whose indices are exactly one through its module
//! count — the state in which no reuse has happened — and the pipeline
//! maintains that by starting from a fresh composer whenever it evicts and
//! by registering each name at most once.

use vstd::prelude::*;

verus! {

use naga::Module;
use naga_oil::compose::Composer;
use naga_oil::compose::ComposerError;
use naga_oil::compose::ComposerErrorInner as Inner;
use naga_oil::compose::ErrSource;

#[verifier::external_type_specification]
#[verifier::external_body]
pub struct ExComposer(Composer);

#[verifier::external_type_specification]
#[verifier::external_body]
pub struct ExComposerError(ComposerError);

#[verifier::external_type_specification]
#[verifier::external_body]
pub struct ExModule(Module);

/// The names of the modules currently composed into the composer's
/// multi-module state.
pub uninterp spec fn composed_names(c: Composer) -> Set<Seq<char>>;

/// True when the composer's span bookkeeping is intact: the module indices
/// in use are exactly one through the module count, so no index has been
/// reassigned while spans tagged with its old owner survive.
pub uninterp spec fn span_indices_dense(c: Composer) -> bool;

/// What the composer's preprocessor extracts from one source text: the
/// module name declared by a directive, if any, and the declared import
/// names in order, exactly as written (quoted imports still quoted).
pub uninterp spec fn preprocessor_output(source: Seq<char>) -> (Option<Seq<char>>, Seq<Seq<char>>);

/// Whether registering `source` as a composable module named `name` under
/// file `path` succeeds on composer state `c`.  The outcome is a function
/// of the composer value and the arguments alone.
pub uninterp spec fn compose_verdict(
    c: Composer,
    name: Seq<char>,
    path: Seq<char>,
    source: Seq<char>,
) -> bool;

/// The composer state after that registration succeeds.
pub uninterp spec fn composed_result(
    c: Composer,
    name: Seq<char>,
    path: Seq<char>,
    source: Seq<char>,
) -> Composer;

/// Whether linking `source` under file `path` against the modules
/// registered in `c` builds a compiled module.
pub uninterp spec fn build_verdict(c: Composer, path: Seq<char>, source: Seq<char>) -> bool;

/// The compiled module that a successful build yields.
pub uninterp spec fn built_module(c: Composer, path: Seq<char>, source: Seq<char>) -> Module;

/// The composer state after a successful build.
pub uninterp spec fn build_result(c: Composer, path: Seq<char>, source: Seq<char>) -> Composer;

/// Whether the same link passes the compiler's full semantic checks.
pub uninterp spec fn validate_verdict(c: Composer, path: Seq<char>, source: Seq<char>) -> bool;

/// The sanitized text the named module is registered from, which compiled
/// spans index into; nothing when no module of that name is registered.
pub uninterp spec fn registered_source(c: Composer, name: Seq<char>) -> Option<Seq<char>>;

/// The local range a decoration error carries; nothing for other kinds.
pub uninterp spec fn local_range_of(e: ComposerError) -> Option<(usize, usize)>;

/// The packed span an invalid-identifier error carries, possibly empty;
/// nothing for other kinds.
pub uninterp spec fn identifier_span_of(e: ComposerError) -> Option<Option<(usize, usize)>>;

/// The plain offset a preprocessor, conditional-directive or override
/// error carries; nothing for other kinds.
pub uninterp spec fn point_of(e: ComposerError) -> Option<usize>;

/// The packed labels a header or shader validation error carries; nothing
/// for other kinds.
pub uninterp spec fn validation_labels_of(e: ComposerError) -> Option<
    Seq<(Option<(usize, usize)>, Seq<char>)>,
>;

/// The packed labels a WGSL or GLSL parse error carries; nothing for
/// other kinds.
pub uninterp spec fn parse_labels_of(e: ComposerError) -> Option<
    Seq<(Option<(usize, usize)>, Seq<char>)>,
>;

/// The error's rendered message.
pub uninterp spec fn message_of(e: ComposerError) -> Seq<char>;

/// The byte offset at which the erroring module's text begins within the
/// composer's concatenated buffer.
pub uninterp spec fn offset_of(e: ComposerError) -> usize;

/// The file identifier of the module the error lies in, resolved against
/// the composer's registry; nothing when that module is gone.
pub uninterp spec fn path_of(e: ComposerError, c: Composer) -> Option<Seq<char>>;

/// The text of the module the error lies in, as the compiler saw it;
/// nothing when that module is gone.
pub uninterp spec fn source_of(e: ComposerError, c: Composer) -> Option<Seq<char>>;

/// Relies on `Composer::non_validating` and `Composer::with_capabilities`:
/// a freshly built composer has no composed modules, its span bookkeeping
/// is trivially intact, and semantic validation is left off until a call
/// asks for it.
#[verifier::external_body]
pub(crate) fn composer_new() -> (c: Composer)
    ensures
        composed_names(c) == Set::<Seq<char>>::empty(),
        span_indices_dense(c),
{
    Composer::non_validating().with_capabilities(naga::valid::Capabilities::all())
}

/// Relies on `naga_oil::compose::get_preprocessor_data`: the declared name
/// and import list are a function of the source text alone; errors yield
/// the empty outcome rather than failing.
#[verifier::external_body]
pub(crate) fn preprocessor_data(source: &str) -> (r: (Option<String>, Vec<String>))
    ensures
        (r.0 is Some) == (preprocessor_output(source@).0 is Some),
        r.0 is Some ==> r.0->0@ == preprocessor_output(source@).0->0,
        r.1@.map_values(|s: String| s@) == preprocessor_output(source@).1,
{
    let (name, imports, _) = naga_oil::compose::get_preprocessor_data(source);
    (name, imports.into_iter().map(|def| def.import).collect())
}

/// Relies on `Composer::contains_module`: whether a module of that name is
/// registered.
#[verifier::external_body]
pub(crate) fn is_composed(c: &Composer, name: &String) -> (r: bool)
    ensures
        r == composed_names(*c).contains(name@),
{
    c.contains_module(name)
}

/// Relies on the composer's `module_sets` map: how many modules are
/// registered.
#[verifier::external_body]
pub(crate) fn module_count(c: &Composer) -> (r: usize)
    ensures
        r == composed_names(*c).len(),
{
    c.module_sets.len()
}

/// Relies on `Composer::add_composable_module`: registering a module whose
/// name is not yet taken succeeds exactly when the compiler's own checks
/// accept it; every error path returns before the module set is touched.
/// The name must be fresh and the count below the compiler's limit of 2047
/// registered modules, since a re-registration reuses a span index and an
/// over-full set aborts the process.
#[verifier::external_body]
pub(crate) fn compose_module(
    c: &mut Composer,
    name: &String,
    path: &String,
    source: &String,
) -> (r: Result<(), ComposerError>)
    requires
        span_indices_dense(*old(c)),
        !composed_names(*old(c)).contains(name@),
        composed_names(*old(c)).len() < 2047,
    ensures
        r is Ok <==> compose_verdict(*old(c), name@, path@, source@),
        r is Ok ==> *final(c) == composed_result(*old(c), name@, path@, source@),
        r is Ok ==> composed_names(*final(c)) == composed_names(*old(c)).insert(name@),
        r is Err ==> composed_names(*final(c)) == composed_names(*old(c)),
        span_indices_dense(*final(c)),
{
    let desc = naga_oil::compose::ComposableModuleDescriptor {
        as_name: Some(name.clone()),
        file_path: path.as_str(),
        source: source.as_str(),
        ..Default::default()
    };
    match c.add_composable_module(desc) {
        Ok(_) => Ok(()),
        Err(e) => Err(e),
    }
}

/// Relies on `Composer::make_naga_module` with the composer's semantic
/// validation left off: links the given source against the registered
/// modules into a compiled module.  The registered name set and the span
/// bookkeeping are left as they were; the outcome and the module built
/// are functions of the composer value and the arguments.
#[verifier::external_body]
pub(crate) fn build_module(c: &mut Composer, path: &String, source: &String) -> (r: Result<
    Module,
    ComposerError,
>)
    requires
        span_indices_dense(*old(c)),
    ensures
        r is Ok <==> build_verdict(*old(c), path@, source@),
        r is Ok ==> r->Ok_0 == built_module(*old(c), path@, source@),
        r is Ok ==> *final(c) == build_result(*old(c), path@, source@),
        composed_names(*final(c)) == composed_names(*old(c)),
        span_indices_dense(*final(c)),
{
    c.make_naga_module(naga_oil::compose::NagaModuleDescriptor {
        source: source.as_str(),
        file_path: path.as_str(),
        ..Default::default()
    })
}

/// Relies on the same entry point with the composer's `validate` flag
/// raised around the one call: the same build, with the full semantic
/// checks turned on.  Reporting a semantic error decodes each span's
/// module index; with the indices intact (the requires) every decoded
/// index leads to the module it was assigned to, and every module a span
/// can blame was built within this very call, so the reporting cannot
/// fall into the compiler's missing-module panic.
#[verifier::external_body]
pub(crate) fn build_module_validated(c: &mut Composer, path: &String, source: &String) -> (r: Result<
    Module,
    ComposerError,
>)
    requires
        span_indices_dense(*old(c)),
    ensures
        r is Ok <==> validate_verdict(*old(c), path@, source@),
        composed_names(*final(c)) == composed_names(*old(c)),
        span_indices_dense(*final(c)),
{
    c.validate = true;
    let r = c.make_naga_module(naga_oil::compose::NagaModuleDescriptor {
        source: source.as_str(),
        file_path: path.as_str(),
        ..Default::default()
    });
    c.validate = false;
    r
}

/// Relies on the public fields of `ErrSource`: the file identifier of the
/// module the error's location lies in — directly for an error raised
/// while constructing a module, through the registry for one raised inside
/// an already-registered module, and nothing when that module is no longer
/// registered.
#[verifier::external_body]
pub(crate) fn error_path(e: &ComposerError, c: &Composer) -> (r: Option<String>)
    ensures
        (r is Some) == (path_of(*e, *c) is Some),
        r is Some ==> r->0@ == path_of(*e, *c)->0,
{
    match &e.source {
        ErrSource::Constructing { path, .. } => Some(path.clone()),
        ErrSource::Module { name, .. } => c.module_sets.get(name).map(|m| m.file_path.clone()),
    }
}

/// Relies on `ErrSource::source` behind a registration check on the same
/// public fields: the text of the module the error lies in, as the
/// compiler saw it, which the error's decoded offsets index into; nothing
/// when that module is no longer registered, so the lookup inside the
/// compiler cannot panic.
#[verifier::external_body]
pub(crate) fn error_source(e: &ComposerError, c: &Composer) -> (r: Option<String>)
    ensures
        (r is Some) == (source_of(*e, *c) is Some),
        r is Some ==> r->0@ == source_of(*e, *c)->0,
{
    match &e.source {
        ErrSource::Constructing { .. } => Some(e.source.source(c).into_owned()),
        ErrSource::Module { name, .. } => {
            if c.module_sets.contains_key(name) {
                Some(e.source.source(c).into_owned())
            } else {
                None
            }
        },
    }
}

/// Relies on `ErrSource::offset`: the byte offset at which that module's
/// text begins within the composer's concatenated buffer.
#[verifier::external_body]
pub(crate) fn error_offset(e: &ComposerError) -> (r: usize)
    ensures
        r == offset_of(*e),
{
    e.source.offset()
}

/// Relies on the `Display` rendering of `ComposerErrorInner`: the error's
/// message text.
#[verifier::external_body]
pub(crate) fn error_message(e: &ComposerError) -> (r: String)
    ensures
        r@ == message_of(*e),
{
    e.inner.to_string()
}

/// Relies on the error kind: a decoration error carries one range that is
/// already local to the module's text.
#[verifier::external_body]
pub(crate) fn error_local_range(e: &ComposerError) -> (r: Option<(usize, usize)>)
    ensures
        r == local_range_of(*e),
{
    match &e.inner {
        Inner::DecorationInSource(range) => Some((range.start, range.end)),
        _ => None,
    }
}

/// Relies on the error kind: an invalid-identifier error carries one packed
/// span, which the compiler may also leave empty.
#[verifier::external_body]
pub(crate) fn error_identifier_span(e: &ComposerError) -> (r: Option<Option<(usize, usize)>>)
    ensures
        r == identifier_span_of(*e),
{
    match &e.inner {
        Inner::InvalidIdentifier { at, .. } => Some(at.to_range().map(|rg| (rg.start, rg.end))),
        _ => None,
    }
}

/// Relies on the error kinds that carry one plain offset into the module's
/// own text (preprocessor, conditional-directive and override errors).
#[verifier::external_body]
pub(crate) fn error_point(e: &ComposerError) -> (r: Option<usize>)
    ensures
        r == point_of(*e),
{
    match &e.inner {
        Inner::ImportNotFound(_, pos) | Inner::ImportParseError(_, pos) => Some(*pos),
        Inner::NotEnoughEndIfs(pos) | Inner::TooManyEndIfs(pos) => Some(*pos),
        Inner::ElseWithoutCondition(pos) | Inner::GlslInvalidVersion(pos) => Some(*pos),
        Inner::DefineInModule(pos) => Some(*pos),
        Inner::UnknownShaderDef { pos, .. } | Inner::UnknownShaderDefOperator { pos, .. } => Some(
            *pos,
        ),
        Inner::InvalidShaderDefComparisonValue { pos, .. } => Some(*pos),
        Inner::InvalidShaderDefDefinitionValue { pos, .. } => Some(*pos),
        Inner::OverrideNotVirtual { pos, .. } => Some(*pos),
        _ => None,
    }
}

/// Relies on the error kinds that carry labeled spans (header and shader
/// validation errors): each label is a packed span, possibly absent, plus
/// its own note.
#[verifier::external_body]
pub(crate) fn error_validation_labels(e: &ComposerError) -> (r: Option<
    Vec<(Option<(usize, usize)>, String)>,
>)
    ensures
        (r is Some) == (validation_labels_of(*e) is Some),
        r is Some ==> r->0@.map_values(
            |p: (Option<(usize, usize)>, String)| (p.0, p.1@),
        ) == validation_labels_of(*e)->0,
{
    match &e.inner {
        Inner::HeaderValidationError(v) | Inner::ShaderValidationError(v) => Some(
            v.spans().map(
                |sc| (sc.0.to_range().map(|rg| (rg.start, rg.end)), sc.1.clone()),
            ).collect(),
        ),
        _ => None,
    }
}

/// Relies on the error kinds that carry parse labels (WGSL and GLSL parse
/// errors): each label is a packed span, possibly absent, plus its note.
#[verifier::external_body]
pub(crate) fn error_parse_labels(e: &ComposerError) -> (r: Option<
    Vec<(Option<(usize, usize)>, String)>,
>)
    ensures
        (r is Some) == (parse_labels_of(*e) is Some),
        r is Some ==> r->0@.map_values(
            |p: (Option<(usize, usize)>, String)| (p.0, p.1@),
        ) == parse_labels_of(*e)->0,
{
    match &e.inner {
        Inner::WgslParseError(err) => Some(
            err.labels().map(
                |(span, msg)| (span.to_range().map(|rg| (rg.start, rg.end)), msg.to_string()),
            ).collect(),
        ),
        Inner::GlslParseError(errs) => Some(
            errs.errors.iter().map(
                |err| (err.meta.to_range().map(|rg| (rg.start, rg.end)), err.kind.to_string()),
            ).collect(),
        ),
        _ => None,
    }
}

/// Relies on the composer's `module_sets` map: the sanitized text that the
/// named module was registered from, which compiled spans index into.
#[verifier::external_body]
pub(crate) fn module_source(c: &Composer, name: &String) -> (r: Option<String>)
    ensures
        (r is Some) == (registered_source(*c, name@) is Some),
        r is Some ==> r->0@ == registered_source(*c, name@)->0,
{
    c.module_sets.get(name).map(|m| m.sanitized_source.clone())
}

} // verus!
