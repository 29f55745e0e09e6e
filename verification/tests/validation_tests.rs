use wgsl_lsp::diagnostics::PublishSet;
use wgsl_lsp::server::WgslServerState;
use wgsl_lsp::validate::unquote_import;
use wgsl_lsp::validate::validate_document;
use wgsl_lsp::validate::ValidationError;

fn uri(s: &str) -> String {
    s.to_string()
}

#[test]
fn unquote_strips_quoted_literals() {
    assert_eq!(unquote_import(&"\"abc\"tail".to_string()), "abc");
    assert_eq!(unquote_import(&"plain_name".to_string()), "plain_name");
    assert_eq!(unquote_import(&"\"unterminated".to_string()), "unterminated");
    assert_eq!(unquote_import(&"".to_string()), "");
}

#[test]
fn valid_document_publishes_empty_set() {
    let mut st = WgslServerState::new();
    let a = uri("a.wgsl");
    st.open_client_document(a.clone(), "fn f() -> f32 { return 1.0; }".to_string());
    let mut out: Vec<PublishSet> = Vec::new();
    let res = validate_document(&mut st, &a, &mut out);
    assert!(res.is_ok());
    assert_eq!(out.len(), 1);
    assert_eq!(out[0].uri, a);
    assert!(out[0].diagnostics.is_empty());
    assert!(st.get_cached_module(&a).is_some());
}

#[test]
fn unbound_import_publishes_one_diagnostic_at_name() {
    let mut st = WgslServerState::new();
    let a = uri("a.wgsl");
    let src = "#import my_mod\nfn f() -> f32 { return my_mod::one(); }";
    st.open_client_document(a.clone(), src.to_string());
    let mut out: Vec<PublishSet> = Vec::new();
    let res = validate_document(&mut st, &a, &mut out);
    match res {
        Err(ValidationError::ImportNotFound(u, rng, n)) => {
            assert_eq!(u, a);
            assert_eq!(n, "my_mod");
            // the name starts at byte 8 of line 0 and is 6 characters long
            assert_eq!(rng.start.line, 0);
            assert_eq!(rng.start.character, 8);
            assert_eq!(rng.end.line, 0);
            assert_eq!(rng.end.character, 14);
        },
        other => panic!("expected an unresolved import, got {:?}", other.is_ok()),
    }
    assert_eq!(out.len(), 1);
    assert_eq!(out[0].uri, a);
    assert_eq!(out[0].diagnostics.len(), 1);
    assert_eq!(out[0].diagnostics[0].message, "Import not found: my_mod");
    assert_eq!(out[0].diagnostics[0].range.start.character, 8);
    assert_eq!(out[0].diagnostics[0].range.end.character, 14);
    assert!(st.get_cached_module(&a).is_none());
}

#[test]
fn validation_is_idempotent_without_edits() {
    let mut st = WgslServerState::new();
    let a = uri("a.wgsl");
    st.open_client_document(a.clone(), "fn f() -> f32 { return 2.5; }".to_string());
    let mut out1: Vec<PublishSet> = Vec::new();
    let res1 = validate_document(&mut st, &a, &mut out1);
    let (name1, deps1) = {
        let (_, name, _) = st.get_cached_module(&a).expect("cached after first pass");
        (name.clone(), ())
    };
    let mut out2: Vec<PublishSet> = Vec::new();
    let res2 = validate_document(&mut st, &a, &mut out2);
    let (name2, deps2) = {
        let (_, name, _) = st.get_cached_module(&a).expect("cached after second pass");
        (name.clone(), ())
    };
    assert_eq!(res1.is_ok(), res2.is_ok());
    assert_eq!(out1.len(), out2.len());
    for (p1, p2) in out1.iter().zip(out2.iter()) {
        assert_eq!(p1.uri, p2.uri);
        assert_eq!(p1.diagnostics.len(), p2.diagnostics.len());
        for (d1, d2) in p1.diagnostics.iter().zip(p2.diagnostics.iter()) {
            assert_eq!(d1.message, d2.message);
            assert_eq!(d1.range, d2.range);
        }
    }
    assert_eq!(name1, name2);
    assert_eq!(deps1, deps2);
}

#[test]
fn edit_invalidates_cache_and_structural_failure_leaves_none() {
    let mut st = WgslServerState::new();
    let a = uri("a.wgsl");
    st.open_client_document(a.clone(), "fn f() { }".to_string());
    let mut out: Vec<PublishSet> = Vec::new();
    assert!(validate_document(&mut st, &a, &mut out).is_ok());
    assert!(st.get_cached_module(&a).is_some());

    // a no-op-like edit still re-validates from scratch; a structurally
    // broken text must leave no cache entry behind
    st.open_client_document(a.clone(), "fn f() {".to_string());
    let mut out2: Vec<PublishSet> = Vec::new();
    let res = validate_document(&mut st, &a, &mut out2);
    assert!(matches!(res, Err(ValidationError::ComposerError(_))));
    assert!(st.get_cached_module(&a).is_none());
    assert!(!out2.is_empty());
}

#[test]
fn dependency_error_is_attributed_across_files() {
    let mut st = WgslServerState::new();
    let b = uri("b.wgsl");
    let a = uri("a.wgsl");
    st.open_server_document(b.clone(), "#define_import_path b_mod\nfn broken( {".to_string());
    st.preprocess(&b);
    st.open_server_document(a.clone(), "#import b_mod\nfn g() -> f32 { return b_mod::one(); }".to_string());
    let mut out: Vec<PublishSet> = Vec::new();
    let res = validate_document(&mut st, &a, &mut out);
    assert!(res.is_err());
    // the true location: a non-empty diagnostic set published on b
    assert!(out.iter().any(|p| p.uri == b && !p.diagnostics.is_empty()));
    // and a marker on a naming the failing module, at its occurrence
    let marker = out
        .iter()
        .filter(|p| p.uri == a && !p.diagnostics.is_empty())
        .last()
        .expect("a marker diagnostic on the validated file");
    let d = &marker.diagnostics[0];
    assert_eq!(d.message, "Error in module: b_mod");
    assert_eq!(d.range.start.line, 0);
    assert_eq!(d.range.start.character, 8);
    assert_eq!(d.range.end.character, 13);
}

#[test]
fn semantic_error_still_caches_the_module() {
    let mut st = WgslServerState::new();
    let a = uri("a.wgsl");
    let src = "fn f() -> f32 { return true; }";
    st.open_client_document(a.clone(), src.to_string());
    let mut out: Vec<PublishSet> = Vec::new();
    let res = validate_document(&mut st, &a, &mut out);
    assert!(matches!(res, Err(ValidationError::SemanticError(_))));
    // the structurally sound build is retrievable despite the type error
    let (_, name, text) = st.get_cached_module(&a).expect("module cached");
    assert_eq!(name, &a);
    assert!(text.contains("fn f"));
    // exactly one diagnostic on the document, pointing into the
    // return-statement span
    let p = out.iter().filter(|p| p.uri == a).last().expect("diagnostics on a");
    assert_eq!(p.diagnostics.len(), 1);
    let d = &p.diagnostics[0];
    assert_eq!(d.range.start.line, 0);
    assert!(d.range.start.character >= 14, "starts at {}", d.range.start.character);
    assert!(d.range.end.character <= 30, "ends at {}", d.range.end.character);
    assert!(d.range.end.character > d.range.start.character);
}

#[test]
fn import_cycle_fails_boundedly() {
    let mut st = WgslServerState::new();
    let a = uri("a.wgsl");
    let b = uri("b.wgsl");
    st.open_server_document(
        a.clone(),
        "#define_import_path a_mod\n#import b_mod\nfn f() -> f32 { return b_mod::g(); }".to_string(),
    );
    st.preprocess(&a);
    st.open_server_document(
        b.clone(),
        "#define_import_path b_mod\n#import a_mod\nfn g() -> f32 { return a_mod::f(); }".to_string(),
    );
    st.preprocess(&b);
    let mut out: Vec<PublishSet> = Vec::new();
    let res = validate_document(&mut st, &a, &mut out);
    match res {
        Err(ValidationError::ImportCycle(u, _, n)) => {
            assert_eq!(u, b);
            assert_eq!(n, "a_mod");
        },
        other => panic!("expected a cycle error, got ok = {}", other.is_ok()),
    }
    // the cycle diagnostic lands on the importing file of the closing edge
    let p = out.iter().filter(|p| !p.diagnostics.is_empty()).last().expect("a diagnostic");
    assert_eq!(p.uri, b);
    assert_eq!(p.diagnostics[0].message, "Import cycle: a_mod");
}

#[test]
fn self_import_is_a_cycle() {
    let mut st = WgslServerState::new();
    let a = uri("a.wgsl");
    st.open_server_document(
        a.clone(),
        "#define_import_path a_mod\n#import a_mod\nfn f() -> f32 { return a_mod::g(); }".to_string(),
    );
    st.preprocess(&a);
    let mut out: Vec<PublishSet> = Vec::new();
    let res = validate_document(&mut st, &a, &mut out);
    assert!(matches!(res, Err(ValidationError::ImportCycle(..))));
}

#[test]
fn add_module_composes_and_clears_diagnostics() {
    let mut st = WgslServerState::new();
    let b = uri("b.wgsl");
    st.open_server_document(
        b.clone(),
        "#define_import_path b_mod\nfn one() -> f32 { return 1.0; }".to_string(),
    );
    let mut out: Vec<PublishSet> = Vec::new();
    let res = st.add_module(&b, &mut out);
    assert!(res.is_ok());
    assert_eq!(out.len(), 1);
    assert_eq!(out[0].uri, b);
    assert!(out[0].diagnostics.is_empty());
}

#[test]
fn rebinding_a_name_evicts_the_previous_provider() {
    let mut st = WgslServerState::new();
    let old_p = uri("old.wgsl");
    let new_p = uri("new.wgsl");
    let a = uri("a.wgsl");
    // the name first points at a file that cannot provide it
    st.open_server_document(old_p.clone(), "#define_import_path m\nfn broken( {".to_string());
    st.preprocess(&old_p);
    // re-binding the same name silently evicts the previous binding
    st.open_server_document(new_p.clone(), "#define_import_path m\nfn one() -> f32 { return 1.0; }".to_string());
    st.preprocess(&new_p);
    st.open_server_document(a.clone(), "#import m\nfn g() -> f32 { return m::one(); }".to_string());
    let mut out: Vec<PublishSet> = Vec::new();
    let res = validate_document(&mut st, &a, &mut out);
    assert!(res.is_ok(), "the name must resolve to its latest provider");
}

#[test]
fn recomposing_a_name_is_idempotent() {
    let mut st = WgslServerState::new();
    let b = uri("b.wgsl");
    st.open_server_document(
        b.clone(),
        "#define_import_path b_mod\nfn one() -> f32 { return 1.0; }".to_string(),
    );
    let mut out: Vec<PublishSet> = Vec::new();
    assert!(st.add_module(&b, &mut out).is_ok());
    // the name is already composed: the second pass skips the compose and
    // still publishes the cleared set
    assert!(st.add_module(&b, &mut out).is_ok());
    assert_eq!(out.len(), 2);
    assert!(out.iter().all(|p| p.uri == b && p.diagnostics.is_empty()));
}
