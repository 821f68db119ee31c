use jumpy_core::ui::{DisableMenuInput, WidgetId, HASH_SEED};

#[test]
fn widget_ids_are_deterministic() {
    assert_eq!(WidgetId::new("player-select"), WidgetId::new("player-select"));
    assert_ne!(WidgetId::new("player-select"), WidgetId::new("map-select"));
}

#[test]
fn empty_name_hashes_to_the_seed() {
    assert_eq!(WidgetId::new("").0, HASH_SEED);
}

#[test]
fn child_id_equals_hash_of_rendered_parent_and_name() {
    let parent = WidgetId::new("menu");
    let child = parent.with("slot");
    assert_eq!(child, WidgetId::new(&format!("{}{}", parent.0, "slot")));
    // Different children of one parent differ.
    assert_ne!(parent.with("slot"), parent.with("tab"));
}

#[test]
fn child_ids_chain() {
    let a = WidgetId::new("root").with("a").with("b");
    let b = WidgetId::new("root").with("a").with("b");
    assert_eq!(a, b);
}

#[test]
fn menu_input_starts_enabled() {
    assert_eq!(DisableMenuInput::default().0, false);
}
