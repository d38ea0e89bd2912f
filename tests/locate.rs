use run_pipeline::locate::find_bbox_image_path;
use run_pipeline::workspace::DirEntry;

fn entry(name: &str, is_file: bool) -> DirEntry {
    DirEntry { name: name.to_string(), is_file }
}

fn find(name: &str, listing: &Vec<DirEntry>) -> Option<String> {
    find_bbox_image_path(&name.to_string(), listing, false)
}

#[test]
fn tiers_on_a_single_png() {
    let listing = vec![entry("foo.png", true)];
    assert_eq!(find("foo.jpg", &listing), Some("foo.png".to_string()));
    assert_eq!(find("foo.png", &listing), Some("foo.png".to_string()));
    assert_eq!(find("missing.jpg", &listing), None);
}

#[test]
fn exact_name_wins_over_extensions() {
    let listing = vec![entry("foo.jpg", true), entry("foo.tif", true)];
    assert_eq!(find("foo.tif", &listing), Some("foo.tif".to_string()));
}

#[test]
fn extensions_are_tried_in_order() {
    let listing = vec![entry("foo.bmp", true), entry("foo.webp", true), entry("foo.jpeg", true)];
    assert_eq!(find("foo.gif", &listing), Some("foo.jpeg".to_string()));
}

#[test]
fn scan_finds_other_extensions_by_stem() {
    let listing = vec![entry("foo", false), entry("bar.tif", true), entry("foo.tif", true), entry("foo.gif", true)];
    assert_eq!(find("foo.jpg", &listing), Some("foo.tif".to_string()));
}

#[test]
fn directories_do_not_match_by_stem() {
    let listing = vec![entry("foo.d", false)];
    assert_eq!(find("foo.jpg", &listing), None);
}

#[test]
fn names_without_a_stem_find_nothing() {
    let listing = vec![entry("foo.png", true), entry("x", true)];
    assert_eq!(find("", &listing), None);
    assert_eq!(find(".", &listing), None);
    assert_eq!(find("..", &listing), None);
    assert_eq!(find("x/", &listing), None);
    assert_eq!(find("x/..", &listing), None);
}

#[test]
fn directory_part_is_ignored_for_the_stem() {
    let listing = vec![entry("b.png", true)];
    assert_eq!(find("a/b.png", &listing), Some("b.png".to_string()));
    assert_eq!(find("a/b.jpg", &listing), Some("b.png".to_string()));
    let listing = vec![entry("b.tif", true)];
    assert_eq!(find("deep/er/b.jpg", &listing), Some("b.tif".to_string()));
}

#[test]
fn nested_name_that_exists_is_found_as_given() {
    let listing = vec![entry("sub", false), entry("x.jpg", true)];
    let r = find_bbox_image_path(&"sub/x.png".to_string(), &listing, true);
    assert_eq!(r, Some("sub/x.png".to_string()));
    let r = find_bbox_image_path(&"sub/x.png".to_string(), &listing, false);
    assert_eq!(r, Some("x.jpg".to_string()));
}

#[test]
fn existence_flag_is_ignored_for_plain_names() {
    let listing = vec![entry("y.png", true)];
    let r = find_bbox_image_path(&"z.png".to_string(), &listing, true);
    assert_eq!(r, None);
}
