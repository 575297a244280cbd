use mctool::state::key::contains_key;
use mctool::state::key::Bindings;
use mctool::state::key::Key;
use mctool::state::key::Keys;

#[test]
fn press_and_release_are_one_shot() {
    let mut key = Key::single(0x42);
    assert!(!key.is_pressed() && !key.is_released() && !key.is_down());
    key.update(&vec![0x42], false);
    assert!(key.is_pressed() && !key.is_released() && key.is_down());
    key.update(&vec![0x42], false);
    assert!(!key.is_pressed() && !key.is_released() && key.is_down());
    key.update(&vec![], false);
    assert!(!key.is_pressed() && key.is_released() && !key.is_down());
    key.update(&vec![], false);
    assert!(!key.is_pressed() && !key.is_released());
}

#[test]
fn other_keys_do_not_count() {
    let mut key = Key::single(0x42);
    key.update(&vec![0x41, 0x43], false);
    assert!(!key.is_pressed() && !key.is_down());
}

#[test]
fn disabled_key_is_up() {
    let mut key = Key::single(0x42);
    key.update(&vec![0x42], true);
    assert!(!key.is_pressed() && !key.is_down());
    key.update(&vec![0x42], false);
    assert!(key.is_pressed());
    key.update(&vec![0x42], true);
    assert!(key.is_released() && !key.is_down());
}

#[test]
fn combination_needs_all_keys() {
    let mut key = Key::multiple(vec![0xA2, 0x04]);
    key.update(&vec![0xA2], false);
    assert!(!key.is_pressed());
    key.update(&vec![0x04], false);
    assert!(!key.is_pressed());
    key.update(&vec![0x04, 0x10, 0xA2], false);
    assert!(key.is_pressed());
    key.update(&vec![0x04], false);
    assert!(key.is_released());
}

#[test]
fn empty_combination_is_down_unless_disabled() {
    let mut key = Key::multiple(vec![]);
    key.update(&vec![], true);
    assert!(!key.is_down());
    key.update(&vec![], false);
    assert!(key.is_pressed());
}

#[test]
fn contains_key_finds_members() {
    assert!(contains_key(&vec![1, 2, 3], 3));
    assert!(!contains_key(&vec![1, 2, 3], 4));
    assert!(!contains_key(&vec![], 0));
}

#[test]
fn standard_bindings() {
    let b = Bindings::default();
    assert_eq!(b.left, 0x5A);
    assert_eq!(b.right, 0x58);
    assert_eq!(b.space, 0x43);
    assert_eq!(b.record, 0x42);
    assert_eq!(b.play, 0x47);
    assert_eq!(b.click, 0x01);
    assert_eq!(b.right_click, 0x02);
    assert_eq!(b.prev, 0x06);
    assert_eq!(b.next, 0x05);
    assert_eq!(b.double_click, 0x09);
    assert_eq!(b.begin_trade, 0x52);
    assert_eq!(b.end_trade, 0xA0);
    assert_eq!(b.abort, 0xC0);
    assert_eq!(b.lock, 0x04);
    assert_eq!(b.modifier, 0xA2);
    assert_eq!(b.confirm, 0x0D);
    assert_eq!(b.delete, 0x2E);
    assert_eq!(b.rename, 0x71);
    assert_eq!(b.spam_key, 0x20);
}

#[test]
fn lock_disables_all_but_the_live_keys() {
    let b = Bindings::default();
    let mut keys = Keys::new(&b);
    let all = vec![
        b.left, b.right, b.space, b.record, b.play, b.click, b.right_click, b.prev, b.next,
        b.double_click, b.begin_trade, b.end_trade, b.abort, b.lock, b.modifier, b.confirm,
        b.delete, b.rename,
    ];
    let redraw = keys.update(&all, true);
    assert!(redraw);
    assert!(keys.click.is_pressed());
    assert!(keys.right_click.is_pressed());
    assert!(keys.abort.is_pressed());
    assert!(keys.lock.is_pressed());
    assert!(keys.cancel_dc.is_pressed());
    assert!(keys.confirm.is_pressed());
    assert!(!keys.left.is_pressed());
    assert!(!keys.right.is_pressed());
    assert!(!keys.space.is_pressed());
    assert!(!keys.record.is_pressed());
    assert!(!keys.play.is_pressed());
    assert!(!keys.prev.is_pressed());
    assert!(!keys.next.is_pressed());
    assert!(!keys.double_click.is_pressed());
    assert!(!keys.begin_trade.is_pressed());
    assert!(!keys.end_trade.is_pressed());
    assert!(!keys.prev_skip.is_pressed());
    assert!(!keys.next_skip.is_pressed());
    assert!(!keys.delete.is_pressed());
    assert!(!keys.rename.is_pressed());
}

#[test]
fn physical_buttons_ask_for_no_redraw() {
    let b = Bindings::default();
    let mut keys = Keys::new(&b);
    assert!(!keys.update(&vec![b.click, b.right_click], false));
    assert!(keys.click.is_pressed() && keys.right_click.is_pressed());
    assert!(!keys.update(&vec![], false));
    assert!(keys.update(&vec![b.play], false));
    assert!(!keys.update(&vec![b.play], false));
}

#[test]
fn skip_needs_the_modifier() {
    let b = Bindings::default();
    let mut keys = Keys::new(&b);
    keys.update(&vec![b.next], false);
    assert!(keys.next.is_pressed() && !keys.next_skip.is_pressed());
    keys.update(&vec![], false);
    keys.update(&vec![b.modifier, b.prev], false);
    assert!(keys.prev.is_pressed() && keys.prev_skip.is_pressed());
    assert!(!keys.next_skip.is_pressed());
}
