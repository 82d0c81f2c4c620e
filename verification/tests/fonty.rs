use fonty::catalog::{collect_invalid_fonts, download_list_url, is_valid_font_response, specimen_url};
use fonty::errors::FontError;
use fonty::manifest::{apply_prefix_policy, FontManifest, ManifestFile, ManifestFileRef};
use fonty::materialize::{
    classify_response, plan_inline_writes, plan_ref_downloads, InlineRun, RefRun, RefStage,
    WriteStage,
};
use fonty::parse::parse_manifest;
use fonty::paths::{get_font_base_path, parent_of};
use std::collections::HashMap;

fn sample_manifest() -> FontManifest {
    FontManifest {
        files: vec![
            ManifestFile { filename: "LICENSE.txt".to_string(), contents: "MIT".to_string() },
            ManifestFile { filename: "README.md".to_string(), contents: "hello".to_string() },
        ],
        file_refs: vec![ManifestFileRef {
            filename: "Font.ttf".to_string(),
            url: "http://example.com/f.ttf".to_string(),
        }],
    }
}

#[test]
fn parse_simple_payload() {
    let text =
        "{\"zipName\":\"fonts.zip\",\"manifest\":{\"files\":[{\"filename\":\"a/b.txt\",\"contents\":\"hi\"}],\"fileRefs\":[]}}";
    let m = parse_manifest(text).unwrap();
    assert_eq!(m.files.len(), 1);
    assert_eq!(m.files[0].filename, "a/b.txt");
    assert_eq!(m.files[0].contents, "hi");
    assert_eq!(m.file_refs.len(), 0);
}

#[test]
fn parse_strips_hijack_prefix() {
    let payload =
        "{\"zipName\":\"z\",\"manifest\":{\"files\":[{\"filename\":\"f\",\"contents\":\"c\"}],\"fileRefs\":[{\"filename\":\"g\",\"url\":\"http://u\"}]}}";
    let prefixed = format!(")]}}'\n{}", payload);
    assert!(prefixed.starts_with(")]}'\n"));
    let with_prefix = parse_manifest(&prefixed).unwrap();
    let without_prefix = parse_manifest(payload).unwrap();
    assert_eq!(with_prefix, without_prefix);
    assert_eq!(with_prefix.file_refs[0].url, "http://u");
}

#[test]
fn parse_rejects_bad_payloads() {
    assert_eq!(parse_manifest("not json at all"), Err(FontError::InvalidManifest));
    // Missing zipName.
    assert_eq!(
        parse_manifest("{\"manifest\":{\"files\":[],\"fileRefs\":[]}}"),
        Err(FontError::InvalidManifest)
    );
    // zipName of the wrong type.
    assert_eq!(
        parse_manifest("{\"zipName\":3,\"manifest\":{\"files\":[],\"fileRefs\":[]}}"),
        Err(FontError::InvalidManifest)
    );
    // Missing fileRefs.
    assert_eq!(
        parse_manifest("{\"zipName\":\"z\",\"manifest\":{\"files\":[]}}"),
        Err(FontError::InvalidManifest)
    );
    // A file entry whose contents is not a string.
    assert_eq!(
        parse_manifest(
            "{\"zipName\":\"z\",\"manifest\":{\"files\":[{\"filename\":\"f\",\"contents\":7}],\"fileRefs\":[]}}"
        ),
        Err(FontError::InvalidManifest)
    );
    // An empty payload.
    assert_eq!(parse_manifest(""), Err(FontError::InvalidManifest));
    // The prefix alone is not JSON.
    assert_eq!(parse_manifest(")]}'\n"), Err(FontError::InvalidManifest));
}

#[test]
fn parse_empty_manifest() {
    let m = parse_manifest("{\"zipName\":\"z\",\"manifest\":{\"files\":[],\"fileRefs\":[]}}")
        .unwrap();
    assert!(m.files.is_empty());
    assert!(m.file_refs.is_empty());
}

#[test]
fn prefix_rewrites_every_entry() {
    let m = sample_manifest();
    let p = m.prepand_path_to_files("Open_Sans");
    assert_eq!(p.files[0].filename, "Open_Sans/LICENSE.txt");
    assert_eq!(p.files[0].contents, "MIT");
    assert_eq!(p.files[1].filename, "Open_Sans/README.md");
    assert_eq!(p.file_refs[0].filename, "Open_Sans/Font.ttf");
    assert_eq!(p.file_refs[0].url, "http://example.com/f.ttf");
}

#[test]
fn distinct_prefixes_stay_distinct() {
    let a = sample_manifest().prepand_path_to_files("A");
    let b = sample_manifest().prepand_path_to_files("B");
    assert_ne!(a, b);
    assert_ne!(a.files[0].filename, b.files[0].filename);
}

#[test]
fn policy_prefixes_single_font() {
    let names = vec!["Open Sans".to_string()];
    let m = apply_prefix_policy(sample_manifest(), &names);
    assert_eq!(m.files[0].filename, "Open_Sans/LICENSE.txt");
    assert_eq!(m.file_refs[0].filename, "Open_Sans/Font.ttf");
}

#[test]
fn policy_passes_multiple_fonts_through() {
    let names = vec!["Open Sans".to_string(), "Roboto".to_string()];
    let m = apply_prefix_policy(sample_manifest(), &names);
    assert_eq!(m, sample_manifest());
}

#[test]
fn every_invalid_font_is_reported() {
    let names = vec!["Alpha".to_string(), "Beta".to_string(), "Gamma".to_string()];
    let valid = vec![false, true, false];
    let invalid = collect_invalid_fonts(&names, &valid);
    assert_eq!(invalid, vec!["Alpha".to_string(), "Gamma".to_string()]);
}

#[test]
fn no_invalid_fonts_reported_when_all_valid() {
    let names = vec!["Alpha".to_string(), "Beta".to_string()];
    let valid = vec![true, true];
    assert!(collect_invalid_fonts(&names, &valid).is_empty());
}

#[test]
fn validity_verdict_follows_status() {
    assert!(is_valid_font_response(Some(200)));
    assert!(is_valid_font_response(Some(299)));
    assert!(!is_valid_font_response(Some(300)));
    assert!(!is_valid_font_response(Some(404)));
    assert!(!is_valid_font_response(None));
}

#[test]
fn specimen_url_replaces_spaces_with_plus() {
    assert_eq!(specimen_url("Open Sans"), "https://fonts.google.com/specimen/Open+Sans");
    assert_eq!(specimen_url("Roboto"), "https://fonts.google.com/specimen/Roboto");
}

#[test]
fn download_list_url_joins_names_with_commas() {
    let names = vec!["Open Sans".to_string(), "Roboto".to_string()];
    assert_eq!(
        download_list_url(&names),
        "https://fonts.google.com/download/list?family=Open Sans,Roboto"
    );
    let one = vec!["Lato".to_string()];
    assert_eq!(download_list_url(&one), "https://fonts.google.com/download/list?family=Lato");
}

#[test]
fn base_path_resolution() {
    assert_eq!(get_font_base_path(Some("/base".to_string()), None, None), "/base");
    assert_eq!(
        get_font_base_path(None, Some("/xdg".to_string()), Some("/home/u".to_string())),
        "/xdg/fonts/Google"
    );
    assert_eq!(
        get_font_base_path(None, None, Some("/home/u".to_string())),
        "/home/u/.local/share/fonts/Google"
    );
    assert_eq!(get_font_base_path(None, None, None), "~/.local/share/fonts/Google");
}

#[test]
fn specimen_url_keeps_unicode_names() {
    assert_eq!(specimen_url("Café Brygada"), "https://fonts.google.com/specimen/Café+Brygada");
}

#[test]
fn parse_and_prefix_unicode_payload() {
    let text =
        "{\"zipName\":\"z\",\"manifest\":{\"files\":[{\"filename\":\"Lizenz ü.txt\",\"contents\":\"schön\"}],\"fileRefs\":[]}}";
    let m = parse_manifest(text).unwrap();
    assert_eq!(m.files[0].contents, "schön");
    let names = vec!["Café Brygada".to_string()];
    let p = apply_prefix_policy(m, &names);
    assert_eq!(p.files[0].filename, "Café_Brygada/Lizenz ü.txt");
}

#[test]
fn parent_of_splits_at_last_slash() {
    assert_eq!(parent_of("D/a/b.txt"), Some("D/a".to_string()));
    assert_eq!(parent_of("a/b"), Some("a".to_string()));
    assert_eq!(parent_of("/x"), Some("".to_string()));
    assert_eq!(parent_of("plain"), None);
}

#[test]
fn inline_plan_matches_manifest() {
    let text =
        "{\"zipName\":\"fonts.zip\",\"manifest\":{\"files\":[{\"filename\":\"a/b.txt\",\"contents\":\"hi\"}],\"fileRefs\":[]}}";
    let m = parse_manifest(text).unwrap();
    let ops = plan_inline_writes(&m, "D").unwrap();
    assert_eq!(ops.len(), 1);
    assert_eq!(ops[0].path, "D/a/b.txt");
    assert_eq!(ops[0].parent, "D/a");
    assert_eq!(ops[0].contents, "hi");
    // Run the plan against a model of the tree: exactly one file results.
    let mut tree: HashMap<String, String> = HashMap::new();
    for op in &ops {
        tree.insert(op.path.clone(), op.contents.clone());
    }
    assert_eq!(tree.len(), 1);
    assert_eq!(tree.get("D/a/b.txt"), Some(&"hi".to_string()));
}

#[test]
fn empty_contents_still_planned_as_zero_byte_write() {
    let m = FontManifest {
        files: vec![ManifestFile { filename: "empty.txt".to_string(), contents: String::new() }],
        file_refs: vec![],
    };
    let ops = plan_inline_writes(&m, "base").unwrap();
    assert_eq!(ops.len(), 1);
    assert_eq!(ops[0].path, "base/empty.txt");
    assert_eq!(ops[0].contents, "");
    let mut tree: HashMap<String, String> = HashMap::new();
    for op in &ops {
        tree.insert(op.path.clone(), op.contents.clone());
    }
    assert_eq!(tree.get("base/empty.txt").map(|c| c.len()), Some(0));
}

#[test]
fn same_destination_keeps_last_contents() {
    let m = FontManifest {
        files: vec![
            ManifestFile { filename: "x.txt".to_string(), contents: "first".to_string() },
            ManifestFile { filename: "x.txt".to_string(), contents: "second".to_string() },
        ],
        file_refs: vec![],
    };
    let ops = plan_inline_writes(&m, "D").unwrap();
    assert_eq!(ops.len(), 2);
    let mut tree: HashMap<String, String> = HashMap::new();
    for op in &ops {
        tree.insert(op.path.clone(), op.contents.clone());
    }
    assert_eq!(tree.len(), 1);
    assert_eq!(tree.get("D/x.txt"), Some(&"second".to_string()));
}

#[test]
fn ref_plan_carries_urls_and_paths() {
    let m = sample_manifest();
    let ops = plan_ref_downloads(&m, "D").unwrap();
    assert_eq!(ops.len(), 1);
    assert_eq!(ops[0].url, "http://example.com/f.ttf");
    assert_eq!(ops[0].filename, "Font.ttf");
    assert_eq!(ops[0].path, "D/Font.ttf");
    assert_eq!(ops[0].parent, "D");
}

#[test]
fn status_classification() {
    assert!(classify_response("http://u", Some(200)).is_ok());
    assert!(classify_response("http://u", Some(204)).is_ok());
    assert_eq!(
        classify_response("http://u", Some(404)),
        Err(FontError::NetworkError { url: "http://u".to_string(), status: Some(404) })
    );
    assert_eq!(
        classify_response("http://u", Some(500)),
        Err(FontError::NetworkError { url: "http://u".to_string(), status: Some(500) })
    );
    assert_eq!(
        classify_response("http://u", None),
        Err(FontError::NetworkError { url: "http://u".to_string(), status: None })
    );
}

#[test]
fn download_run_completes_in_order() {
    let m = FontManifest {
        files: vec![],
        file_refs: vec![
            ManifestFileRef { filename: "a.ttf".to_string(), url: "http://a".to_string() },
            ManifestFileRef { filename: "b.ttf".to_string(), url: "http://b".to_string() },
        ],
    };
    let ops = plan_ref_downloads(&m, "D").unwrap();
    let mut run = RefRun::new(ops);
    assert_eq!(run.total(), 2);
    assert_eq!(run.index(), 0);
    assert_eq!(run.current().unwrap().url, "http://a");
    assert_eq!(run.current_stage(), RefStage::Fetching);
    run.record_fetched();
    assert_eq!(run.current_stage(), RefStage::EnsuringDir);
    run.record_dir_ensured();
    assert_eq!(run.current_stage(), RefStage::CreatingFile);
    run.record_file_created();
    assert_eq!(run.current_stage(), RefStage::Writing);
    run.record_written();
    assert_eq!(run.index(), 1);
    assert_eq!(run.current().unwrap().url, "http://b");
    assert_eq!(run.current_stage(), RefStage::Fetching);
    run.record_fetched();
    run.record_dir_ensured();
    run.record_file_created();
    run.record_written();
    assert!(run.current().is_none());
    assert!(run.take_failure().is_none());
}

#[test]
fn inline_run_steps_through_stages() {
    let m = sample_manifest();
    let ops = plan_inline_writes(&m, "D").unwrap();
    let mut run = InlineRun::new(ops);
    assert_eq!(run.current().unwrap().path, "D/LICENSE.txt");
    assert_eq!(run.current_stage(), WriteStage::EnsuringDir);
    run.record_dir_ensured();
    assert_eq!(run.current_stage(), WriteStage::CreatingFile);
    run.record_file_created();
    assert_eq!(run.current_stage(), WriteStage::Writing);
    run.record_written();
    assert_eq!(run.current().unwrap().path, "D/README.md");
    run.record_dir_ensured();
    run.record_file_created();
    run.record_written();
    assert!(run.current().is_none());
    assert!(run.take_failure().is_none());
}

#[test]
fn failed_inline_write_aborts_remaining_files() {
    let m = sample_manifest();
    let ops = plan_inline_writes(&m, "D").unwrap();
    let mut run = InlineRun::new(ops);
    let path = run.current().unwrap().path.clone();
    run.fail(FontError::FileWriteFailed { path: path.clone() });
    assert!(run.current().is_none());
    assert_eq!(run.take_failure(), Some(FontError::FileWriteFailed { path }));
}

#[test]
fn failed_download_aborts_remaining_refs() {
    let m = FontManifest {
        files: vec![],
        file_refs: vec![
            ManifestFileRef { filename: "a.ttf".to_string(), url: "http://a".to_string() },
            ManifestFileRef { filename: "b.ttf".to_string(), url: "http://b".to_string() },
        ],
    };
    let ops = plan_ref_downloads(&m, "D").unwrap();
    let mut run = RefRun::new(ops);
    let first = run.current().unwrap();
    let url = first.url.clone();
    // The first reference comes back with HTTP 404: the run must abort.
    let err = classify_response(&url, Some(404)).unwrap_err();
    run.fail(err);
    assert!(run.current().is_none());
    assert_eq!(
        run.take_failure(),
        Some(FontError::NetworkError { url: "http://a".to_string(), status: Some(404) })
    );
}
