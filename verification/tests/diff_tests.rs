//! Tests of the public-item diff engine.

use public_api::diff::PublicItemsDiff;
use public_api::item::PublicItem;
use public_api::item::Token;
use public_api::item::TokenKind;

fn item_with_path(path: &str) -> PublicItem {
    PublicItem {
        prefix: String::from("prefix "),
        path: String::from(path),
        suffix: String::from(" suffix"),
        tokens: None,
    }
}

#[test]
fn single_and_only_item_removed() {
    let old = vec![item_with_path("foo")];
    let new = vec![];

    let actual = PublicItemsDiff::between(old, new);
    let expected = PublicItemsDiff {
        removed: vec![item_with_path("foo")],
        changed: vec![],
        added: vec![],
    };
    assert_eq!(actual, expected);
}

#[test]
fn single_and_only_item_added() {
    let old = vec![];
    let new = vec![item_with_path("foo")];

    let actual = PublicItemsDiff::between(old, new);
    let expected = PublicItemsDiff {
        removed: vec![],
        changed: vec![],
        added: vec![item_with_path("foo")],
    };
    assert_eq!(actual, expected);
}

#[test]
fn middle_item_added() {
    let old = vec![item_with_path("1"), item_with_path("3")];
    let new = vec![item_with_path("1"), item_with_path("2"), item_with_path("3")];

    let actual = PublicItemsDiff::between(old, new);
    let expected = PublicItemsDiff {
        removed: vec![],
        changed: vec![],
        added: vec![item_with_path("2")],
    };
    assert_eq!(actual, expected);
}

#[test]
fn middle_item_removed() {
    let old = vec![item_with_path("1"), item_with_path("2"), item_with_path("3")];
    let new = vec![item_with_path("1"), item_with_path("3")];

    let actual = PublicItemsDiff::between(old, new);
    let expected = PublicItemsDiff {
        removed: vec![item_with_path("2")],
        changed: vec![],
        added: vec![],
    };
    assert_eq!(actual, expected);
}

#[test]
fn same_collection_with_duplicates_diffs_empty() {
    let x = vec![
        item_with_path("a"),
        item_with_path("a"),
        item_with_path("b"),
    ];
    let actual = PublicItemsDiff::between(x.clone(), x);
    assert!(actual.removed.is_empty());
    assert!(actual.changed.is_empty());
    assert!(actual.added.is_empty());
}

#[test]
fn changed_item_is_paired_by_path() {
    let old_form = PublicItem {
        prefix: String::from("pub fn "),
        path: String::from("m::f"),
        suffix: String::from("(x: u8)"),
        tokens: None,
    };
    let new_form = PublicItem {
        prefix: String::from("pub fn "),
        path: String::from("m::f"),
        suffix: String::from("(x: u16)"),
        tokens: None,
    };
    let actual = PublicItemsDiff::between(vec![old_form.clone()], vec![new_form.clone()]);
    assert!(actual.removed.is_empty());
    assert!(actual.added.is_empty());
    assert_eq!(actual.changed.len(), 1);
    assert_eq!(actual.changed[0].old, old_form);
    assert_eq!(actual.changed[0].new, new_form);
}

#[test]
fn counts_split_both_collections() {
    // Of the old side: one removed ("gone"), one changed ("f"), one
    // unchanged ("same"). Of the new side: one added ("extra"), the same
    // changed and unchanged items.
    let unchanged = item_with_path("same");
    let old_f = PublicItem {
        prefix: String::from("pub fn "),
        path: String::from("f"),
        suffix: String::from("(x: u8)"),
        tokens: None,
    };
    let new_f = PublicItem {
        prefix: String::from("pub fn "),
        path: String::from("f"),
        suffix: String::from("(x: u16)"),
        tokens: None,
    };
    let old = vec![item_with_path("gone"), old_f.clone(), unchanged.clone()];
    let new = vec![new_f.clone(), unchanged.clone(), item_with_path("extra")];
    let diff = PublicItemsDiff::between(old.clone(), new.clone());
    let unchanged_count_old = old.len() - diff.removed.len() - diff.changed.len();
    let unchanged_count_new = new.len() - diff.added.len() - diff.changed.len();
    assert_eq!(unchanged_count_old, unchanged_count_new);
    assert_eq!(unchanged_count_old, 1);
    assert_eq!(diff.removed.len(), 1);
    assert_eq!(diff.changed.len(), 1);
    assert_eq!(diff.added.len(), 1);
}

#[test]
fn reversed_diff_swaps_added_and_removed() {
    let old = vec![item_with_path("gone"), item_with_path("kept")];
    let new = vec![item_with_path("kept"), item_with_path("fresh")];
    let forward = PublicItemsDiff::between(old.clone(), new.clone());
    let backward = PublicItemsDiff::between(new, old);
    assert_eq!(forward.removed, backward.added);
    assert_eq!(forward.added, backward.removed);
    assert_eq!(forward.changed.len(), backward.changed.len());
    for (f, b) in forward.changed.iter().zip(backward.changed.iter()) {
        assert_eq!(f.old, b.new);
        assert_eq!(f.new, b.old);
    }
}

#[test]
fn outputs_are_sorted_regardless_of_input_order() {
    let old = vec![item_with_path("c"), item_with_path("a"), item_with_path("b")];
    let new = vec![];
    let diff = PublicItemsDiff::between(old, new);
    let paths: Vec<&str> = diff.removed.iter().map(|i| i.path.as_str()).collect();
    assert_eq!(paths, vec!["a", "b", "c"]);
}

#[test]
fn print_with_headers_renders_all_sections() {
    let diff = PublicItemsDiff::between(
        vec![item_with_path("gone")],
        vec![item_with_path("fresh")],
    );
    let mut out = String::new();
    diff.print_with_headers(&mut out, "Removed items", "Changed items", "Added items");
    assert_eq!(
        out,
        "Removed items\n\
         -prefix gone suffix\n\
         \n\
         Changed items\n\
         (nothing)\n\
         \n\
         Added items\n\
         +prefix fresh suffix\n\
         \n"
    );
}

#[test]
fn print_with_headers_renders_changed_pairs() {
    let old_form = PublicItem {
        prefix: String::from("pub fn "),
        path: String::from("m::f"),
        suffix: String::from("(x: u8)"),
        tokens: None,
    };
    let new_form = PublicItem {
        prefix: String::from("pub fn "),
        path: String::from("m::f"),
        suffix: String::from("(x: u16)"),
        tokens: None,
    };
    let diff = PublicItemsDiff::between(vec![old_form], vec![new_form]);
    let mut out = String::new();
    diff.print_with_headers(&mut out, "Removed items", "Changed items", "Added items");
    assert_eq!(
        out,
        "Removed items\n\
         (nothing)\n\
         \n\
         Changed items\n\
         -pub fn m::f(x: u8)\n\
         +pub fn m::f(x: u16)\n\
         \n\
         Added items\n\
         (nothing)\n\
         \n"
    );
}

#[test]
fn tokens_participate_in_equality() {
    // Two items rendering identically but differing in their classified
    // fragments are structurally unequal: with the same path they pair up
    // as a changed item rather than passing as unchanged.
    let with_tokens = PublicItem {
        prefix: String::from("pub fn "),
        path: String::from("m::f"),
        suffix: String::from("()"),
        tokens: Some(vec![Token { kind: TokenKind::Function, text: String::from("f") }]),
    };
    let without_tokens = PublicItem {
        prefix: String::from("pub fn "),
        path: String::from("m::f"),
        suffix: String::from("()"),
        tokens: None,
    };
    let diff = PublicItemsDiff::between(vec![with_tokens], vec![without_tokens]);
    assert!(diff.removed.is_empty());
    assert!(diff.added.is_empty());
    assert_eq!(diff.changed.len(), 1);
}

#[test]
fn list_public_items() {
    // List mode prints one item per line, sorted by the total order.
    let items = vec![item_with_path("b"), item_with_path("a"), item_with_path("c")];
    let listing = public_api::diff::render_item_list(items);
    assert_eq!(
        listing,
        "prefix a suffix\n\
         prefix b suffix\n\
         prefix c suffix\n"
    );
}

#[test]
fn rendered_text_joins_prefix_path_suffix() {
    let item = item_with_path("x");
    assert_eq!(item.rendered_text(), "prefix x suffix");
}
