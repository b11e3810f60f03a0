use nupatch::{
    bak_path, checksums_all_match, component_status, display_name, fix_checksums, fully_applied, replace_ehp_hash,
    revert_all, revert_targets, sha256_base64_stripped, sha256_hex, tab_indent, verify_checksums, CursorPaths,
    AnchorSet, FixStatus, PatchPlan, StepResult,
};

fn anchors() -> AnchorSet {
    AnchorSet::new().ok().unwrap()
}

fn entries(v: &[(&str, &str)]) -> Vec<(String, String)> {
    v.iter().map(|(a, b)| (a.to_string(), b.to_string())).collect()
}

#[test]
fn sha256_hex_of_abc() {
    assert_eq!(
        sha256_hex(b"abc"),
        "ba7816bf8f01cfea414140de5dae2223b00361a396177a9cb410ff61f20015ad"
    );
    assert_eq!(
        sha256_hex(b""),
        "e3b0c44298fc1c149afbf4c8996fb92427ae41e4649b934ca495991b7852b855"
    );
}

#[test]
fn sha256_base64_without_padding() {
    assert_eq!(sha256_base64_stripped(b"abc"), "ungWv48Bz+pBQUDeXa4iI7ADYaOWF3qctBD/YfIAFa0");
    assert_eq!(sha256_base64_stripped(b""), "47DEQpj8HBSa+/TImW+5JCeuQeRkm5NMpJWZG3hSuFU");
}

#[test]
fn tab_indent_converts_leading_pairs_only() {
    assert_eq!(tab_indent("{\n  \"a\": \"x  y\",\n    \"b\": 1\n}"), "{\n\t\"a\": \"x  y\",\n\t\t\"b\": 1\n}");
    assert_eq!(tab_indent("   odd"), "\t odd");
    assert_eq!(tab_indent("a\r\nb\n"), "a\nb");
    assert_eq!(tab_indent(""), "");
    assert_eq!(tab_indent("\n\n  x"), "\n\n\tx");
}

#[test]
fn verify_checksums_marks_each_entry() {
    let c = entries(&[("a.js", "h1"), ("b.js", "h2"), ("c.js", "h3")]);
    let actual = vec![Some("h1".to_string()), Some("zz".to_string()), None];
    let r = verify_checksums(&c, &actual);
    assert!(!r.all_match);
    assert_eq!(r.entries.len(), 3);
    assert!(r.entries[0].matches && !r.entries[0].missing);
    assert!(!r.entries[1].matches && !r.entries[1].missing);
    assert_eq!(r.entries[1].actual, "zz");
    assert!(!r.entries[2].matches && r.entries[2].missing);
    assert_eq!(r.entries[2].actual, "");
    assert_eq!(r.entries[2].expected, "h3");
    let ok = verify_checksums(&c[..1].to_vec(), &actual[..1].to_vec());
    assert!(ok.all_match);
    assert!(verify_checksums(&vec![], &vec![]).all_match);
}

#[test]
fn all_match_ignores_missing_files() {
    let c = entries(&[("a.js", "h1"), ("c.js", "h3")]);
    assert_eq!(checksums_all_match(&c, &vec![Some("h1".to_string()), None]), Some(true));
    assert_eq!(checksums_all_match(&c, &vec![Some("h1".to_string()), Some("x".to_string())]), Some(false));
    assert_eq!(checksums_all_match(&vec![], &vec![]), None);
}

#[test]
fn fix_checksums_counts_updates() {
    let c = entries(&[("a.js", "h1"), ("b.js", "h2"), ("c.js", "h3"), ("d.js", "h4")]);
    let actual = vec![Some("h1".to_string()), Some("n2".to_string()), None, Some("n4".to_string())];
    let r = fix_checksums(&c, &actual);
    assert_eq!(r.changed_count, 2);
    let st: Vec<FixStatus> = r.entries.iter().map(|e| e.status).collect();
    assert_eq!(st, vec![FixStatus::Unchanged, FixStatus::Updated, FixStatus::Missing, FixStatus::Updated]);
    assert_eq!(r.entries[3].rel_path, "d.js");
}

#[test]
fn ehp_hash_replaced_in_table() {
    let old = "a".repeat(64);
    let code = format!("x={{\"cursor-agent-exec\":{{dist:{{\"main.js\":\"{old}\"}}}}}};y=\"{old}\"");
    let (new, step) = replace_ehp_hash(&code, "NEW", &None, &anchors());
    assert!(step.ok);
    assert_eq!(step.message, "Replaced hash in extensionHostProcess.js");
    assert_eq!(new.unwrap(), format!("x={{\"cursor-agent-exec\":{{dist:{{\"main.js\":\"NEW\"}}}}}};y=\"{old}\""));
}

#[test]
fn ehp_hash_fallback_to_backup_hash() {
    let code = "table=[\"0123\"]";
    let (new, step) = replace_ehp_hash(code, "NEW", &Some(Ok("0123".to_string())), &anchors());
    assert!(step.ok);
    assert_eq!(step.message, "Replaced hash via backup comparison");
    assert_eq!(new.unwrap(), "table=[\"NEW\"]");
    let (new, step) = replace_ehp_hash("0123 0123", "NEW", &Some(Ok("0123".to_string())), &anchors());
    assert!(new.is_none() && !step.ok);
    assert_eq!(step.message, "Old hash found 2 time(s) (expected 1)");
    let (_, step) = replace_ehp_hash("none", "NEW", &Some(Ok("0123".to_string())), &anchors());
    assert_eq!(step.message, "Old hash found 0 time(s) (expected 1)");
    let (_, step) = replace_ehp_hash("none", "NEW", &None, &anchors());
    assert_eq!(step.message, "Cannot find hash map pattern or backup file");
    let (_, step) = replace_ehp_hash("none", "NEW", &Some(Err("io".to_string())), &anchors());
    assert_eq!(step.message, "Failed to hash backup: io");
}

#[test]
fn backup_path_appends_suffix() {
    assert_eq!(bak_path("dir/index.js"), "dir/index.js.bak");
    assert_eq!(bak_path("main.js"), "main.js.bak");
    assert_eq!(bak_path("/"), "/");
    assert_eq!(display_name("/a/b/main.js"), "main.js");
    assert_eq!(display_name("/"), "/");
}

#[test]
fn step_result_constructors() {
    let s = StepResult::ok("A", "fine").with_detail("d");
    assert!(s.ok && !s.skipped);
    assert_eq!((s.name.as_str(), s.message.as_str(), s.detail.as_str()), ("A", "fine", "d"));
    let f = StepResult::fail("B", "bad");
    assert!(!f.ok && !f.skipped && f.detail.is_empty());
    let k = StepResult::skipped("C", "later");
    assert!(k.ok && k.skipped);
}

#[test]
fn component_status_lists_plan_markers() {
    let text = "t.includes(\"zsh\")?O.Zsh;t.includes(\"nu\")?O.Naive;case O.Naive:";
    let c = component_status(&PatchPlan::cli(), "/x/index.js", true, Some(text), &anchors());
    assert!(c.exists && c.backup_exists);
    assert_eq!(c.path.as_deref(), Some("index.js"));
    assert_eq!(
        c.patches,
        vec![
            ("Nu detection".to_string(), true),
            ("System nu detection".to_string(), false),
            ("Naive case".to_string(), true)
        ]
    );
    assert!(!fully_applied(&c));
    let unread = component_status(&PatchPlan::ide(), "/x/main.js", false, None, &anchors());
    assert!(unread.patches.is_empty());
    assert!(!fully_applied(&unread));
}

#[test]
fn revert_lists_known_targets() {
    let paths = CursorPaths {
        cli_index: Some("/c/index.js".to_string()),
        ehp: Some("/e/extensionHostProcess.js".to_string()),
        ..Default::default()
    };
    let t = revert_targets(&paths);
    assert_eq!(t, vec!["/c/index.js".to_string(), "/e/extensionHostProcess.js".to_string()]);
    let r = revert_all(&t, &vec![Ok(true), Err("x".to_string())]);
    assert_eq!(r.files.len(), 2);
    assert_eq!(r.files[0].filename, "index.js");
    assert!(r.files[0].restored);
    assert!(!r.files[1].restored);
}
