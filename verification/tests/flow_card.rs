use denpie_frontend::ui::repeatable_stack_layers;

#[test]
fn repeatable_stack_matches_pending_card_count() {
    assert_eq!(repeatable_stack_layers("repeatable_tip", 0, false), 0);
    assert_eq!(repeatable_stack_layers("repeatable_tip", 1, false), 1);
    assert_eq!(repeatable_stack_layers("repeatable_tip", 2, false), 2);
    assert_eq!(repeatable_stack_layers("repeatable_tip", 8, false), 3);
}

#[test]
fn repeatable_stack_is_hidden_for_fullscreen_and_other_types() {
    assert_eq!(repeatable_stack_layers("repeatable_tip", 3, true), 0);
    assert_eq!(repeatable_stack_layers("casual_tip", 3, false), 0);
}
