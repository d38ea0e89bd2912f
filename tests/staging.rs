use run_pipeline::names::{resolve_unique_name, split_name_ext, stage_names, StagingPass};

fn strings(v: &[&str]) -> Vec<String> {
    v.iter().map(|s| s.to_string()).collect()
}

#[test]
fn same_basename_into_empty_dir() {
    let r = stage_names(&strings(&["photo.jpg", "photo.jpg"]), &vec![]);
    assert_eq!(r, strings(&["photo.jpg", "photo_1.jpg"]));
}

#[test]
fn many_same_names_avoid_existing_files() {
    let existing = strings(&["photo.jpg", "photo_2.jpg"]);
    let r = stage_names(&strings(&["photo.jpg"; 5]), &existing);
    assert_eq!(r, strings(&["photo_1.jpg", "photo_3.jpg", "photo_4.jpg", "photo_5.jpg", "photo_6.jpg"]));
    for (i, a) in r.iter().enumerate() {
        assert!(!existing.contains(a));
        for b in &r[i + 1..] {
            assert_ne!(a, b);
        }
    }
}

#[test]
fn numbering_passes_ten() {
    let r = stage_names(&strings(&["x.png"; 12]), &vec![]);
    assert_eq!(r[0], "x.png");
    assert_eq!(r[10], "x_10.png");
    assert_eq!(r[11], "x_11.png");
}

#[test]
fn free_name_is_kept() {
    let r = resolve_unique_name(&"a.jpg".to_string(), &strings(&["b.jpg"]), &strings(&["c.jpg"]));
    assert_eq!(r, "a.jpg");
}

#[test]
fn claimed_and_existing_both_count() {
    let r = resolve_unique_name(&"a.jpg".to_string(), &strings(&["a.jpg"]), &strings(&["a_1.jpg"]));
    assert_eq!(r, "a_2.jpg");
}

#[test]
fn name_without_extension_is_numbered_at_end() {
    let r = resolve_unique_name(&"README".to_string(), &strings(&["README"]), &vec![]);
    assert_eq!(r, "README_1");
}

#[test]
fn split_cases() {
    let cases = [
        ("photo.jpg", "photo", ".jpg"),
        ("a.tar.gz", "a.tar", ".gz"),
        (".bashrc", ".bashrc", ""),
        ("noext", "noext", ""),
        ("..", "..", ""),
        (".", ".", ""),
        ("a.", "a", "."),
        ("", "", ""),
    ];
    for (name, stem, ext) in cases {
        let (s, e) = split_name_ext(name);
        assert_eq!(s, stem, "stem of {name}");
        assert_eq!(e, ext, "extension of {name}");
    }
}

#[test]
fn pass_counts_only_committed_copies() {
    let mut pass = StagingPass::new(strings(&["sub"]));
    let first = pass.destination_for(&"p.jpg".to_string());
    assert_eq!(first, "p.jpg");
    // the copy failed: nothing is committed, the same name is offered again
    let again = pass.destination_for(&"p.jpg".to_string());
    assert_eq!(again, "p.jpg");
    assert!(pass.commit(again));
    assert_eq!(pass.destination_for(&"p.jpg".to_string()), "p_1.jpg");
    assert!(!pass.commit("p.jpg".to_string()));
    assert!(!pass.commit("sub".to_string()));
    assert_eq!(pass.staged_count(), 1);
}
