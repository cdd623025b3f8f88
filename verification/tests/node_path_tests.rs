use gdmarshal::node_path::{NodePath, PathBound};
use gdmarshal::strings::{GString, StringName};

#[test]
fn run_self_checks() {
    assert!(gdmarshal::run());
}

#[test]
fn from_and_display_round_trip() {
    let p = NodePath::from("a/b");
    assert_eq!(p.to_display_string().as_str(), "a/b");

    let q = NodePath::from("a/b\0ignored");
    assert_eq!(q.to_display_string().as_str(), "a/b");
}

#[test]
fn name_and_subname_counts() {
    let p = NodePath::from("a/b/c:prop:sub");
    assert_eq!(p.get_name_count(), 3);
    assert_eq!(p.get_subname_count(), 2);
    assert_eq!(p.get_name(0).unwrap().as_str(), "a");
    assert_eq!(p.get_name(1).unwrap().as_str(), "b");
    assert_eq!(p.get_name(2).unwrap().as_str(), "c");
    assert_eq!(p.get_subname(0).unwrap().as_str(), "prop");
    assert_eq!(p.get_subname(1).unwrap().as_str(), "sub");
}

#[test]
fn get_name_out_of_range_is_absent() {
    let p = NodePath::from("a/b");
    assert!(p.get_name(2).is_none());
    assert!(p.get_name(100).is_none());
    assert!(p.get_subname(0).is_none());

    let empty = NodePath::from("");
    assert_eq!(empty.get_name_count(), 0);
    assert!(empty.get_name(0).is_none());
    assert!(empty.get_subname(0).is_none());
}

#[test]
fn slice_from_one_drops_first_name() {
    let p = NodePath::from("a/b/c");
    let s = p.slice(PathBound::Included(1), PathBound::Unbounded);
    assert_eq!(s.get_name_count(), 2);
    assert_eq!(s.get_name(0).unwrap().as_str(), "b");
    assert_eq!(s.get_name(1).unwrap().as_str(), "c");
    assert_eq!(s.to_display_string().as_str(), "b/c");
}

#[test]
fn slice_through_included_minus_one_keeps_whole_path() {
    let p = NodePath::from("a/b/c");
    let s = p.slice(PathBound::Unbounded, PathBound::Included(-1));
    assert_eq!(s.get_name_count(), 3);
    assert_eq!(s.to_display_string().as_str(), "a/b/c");
    assert!(s == p);
}

#[test]
fn slice_negative_start_counts_from_end() {
    let p = NodePath::from("a/b/c");
    let s = p.slice(PathBound::Included(-2), PathBound::Unbounded);
    assert_eq!(s.get_name_count(), 2);
    assert_eq!(s.to_display_string().as_str(), "b/c");
}

#[test]
fn slice_keeps_subnames_in_window() {
    let p = NodePath::from("a/b:prop:sub");
    let s = p.slice(PathBound::Included(2), PathBound::Unbounded);
    assert_eq!(s.get_name_count(), 0);
    assert_eq!(s.get_subname_count(), 2);
    assert_eq!(s.get_subname(0).unwrap().as_str(), "prop");
    assert_eq!(s.get_subname(1).unwrap().as_str(), "sub");
    assert_eq!(s.to_display_string().as_str(), ":prop:sub");
}

#[test]
fn terminator_equivalent_texts_are_equal_and_hash_identically() {
    let p1 = NodePath::from("x");
    let p2 = NodePath::from("x\0y");
    assert!(p1 == p2);
    assert_eq!(p1.hash(), p2.hash());
}

#[test]
fn hash_is_the_documented_fold() {
    let empty = NodePath::from("");
    assert_eq!(empty.hash(), 5381);
    let x = NodePath::from("x");
    assert_eq!(x.hash(), 5381u32.wrapping_mul(33).wrapping_add('x' as u32));
}

#[test]
fn different_canonical_texts_are_unequal() {
    let p1 = NodePath::from("a/b");
    let p2 = NodePath::from("a//b");
    assert!(!(p1 == p2));
}

#[test]
fn debug_form_wraps_in_path_literal_syntax() {
    let p = NodePath::from("a/b");
    assert_eq!(p.to_debug_string().as_str(), "^\"a/b\"");
}

#[test]
fn default_is_the_empty_path() {
    let p = NodePath::default();
    assert_eq!(p.get_name_count(), 0);
    assert_eq!(p.get_subname_count(), 0);
    assert_eq!(p.to_display_string().as_str(), "");
    assert!(p == NodePath::from(""));
}

#[test]
fn conversions_route_through_canonical_text() {
    let g = GString::from_str("scene/child:prop");
    let p = NodePath::from_gstring(&g);
    assert_eq!(p.get_name_count(), 2);
    assert_eq!(p.get_subname_count(), 1);

    let n = StringName::from_str("scene/child\0rest");
    let q = NodePath::from_string_name(&n);
    assert_eq!(q.to_display_string().as_str(), "scene/child");

    let back = n.to_gstring();
    assert_eq!(back.as_str(), "scene/child\0rest");
    assert!(g == g.clone());
}

#[test]
fn owned_text_and_string_like_round_trips() {
    let p = NodePath::from_owned("a/b:c".to_string());
    assert_eq!(p.to_gstring().as_str(), "a/b:c");
    assert_eq!(p.to_string_name().as_str(), "a/b:c");
    assert!(NodePath::from_gstring(&p.to_gstring()) == p);
}

#[test]
fn clone_keeps_text_and_components() {
    let p = NodePath::from("a/b:c");
    let q = p.clone();
    assert!(p == q);
    assert_eq!(q.get_name_count(), 2);
    assert_eq!(q.get_subname_count(), 1);
}
