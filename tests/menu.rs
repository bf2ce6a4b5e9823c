use tieng_viet::menu::{menu_step, MenuAction, MenuKey};

#[test]
fn up_and_down_wrap_around() {
    assert_eq!(menu_step(0, 3, MenuKey::Up), MenuAction::Redraw(2));
    assert_eq!(menu_step(2, 3, MenuKey::Up), MenuAction::Redraw(1));
    assert_eq!(menu_step(2, 3, MenuKey::Down), MenuAction::Redraw(0));
    assert_eq!(menu_step(0, 3, MenuKey::Down), MenuAction::Redraw(1));
    assert_eq!(menu_step(0, 1, MenuKey::Down), MenuAction::Redraw(0));
    assert_eq!(menu_step(0, 1, MenuKey::Up), MenuAction::Redraw(0));
}

#[test]
fn enter_selects_and_other_keys_keep_the_selection() {
    assert_eq!(menu_step(1, 3, MenuKey::Enter), MenuAction::Select(1));
    assert_eq!(menu_step(1, 3, MenuKey::Other), MenuAction::Redraw(1));
}
