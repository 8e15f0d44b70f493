use bazed::popups::PopupBoard;
use bazed::stew::Stew;

#[test]
fn registered_function_is_found_under_its_path() {
    let mut stew: Stew<u32> = Stew::new();
    stew.register("fake_plugin::open_popup".to_string(), 1);
    stew.register("core::buffer::get_line".to_string(), 2);
    assert_eq!(stew.registered(&"fake_plugin::open_popup".to_string()), Some(&1));
    assert_eq!(stew.registered(&"core::buffer::get_line".to_string()), Some(&2));
}

#[test]
fn unregistered_path_is_not_found() {
    let mut stew: Stew<u32> = Stew::new();
    assert_eq!(stew.registered(&"x".to_string()), None);
    stew.register("y".to_string(), 3);
    assert_eq!(stew.registered(&"x".to_string()), None);
}

#[test]
fn registering_a_path_again_replaces_the_function() {
    let mut stew: Stew<u32> = Stew::new();
    stew.register("p".to_string(), 1);
    stew.register("p".to_string(), 5);
    assert_eq!(stew.registered(&"p".to_string()), Some(&5));
}

#[test]
fn opened_popup_is_shown_under_its_id() {
    let mut board = PopupBoard::new();
    let id = board.open_popup("hello".to_string());
    let other = board.open_popup("world".to_string());
    assert_eq!(board.popup(id), Some("hello".to_string()));
    assert_eq!(board.popup(other), Some("world".to_string()));
    assert_eq!(uuid::Uuid::from_u128(id).get_version_num(), 4);
}

#[test]
fn popup_under_same_id_is_replaced() {
    let mut board = PopupBoard::new();
    board.open_popup_as(3, "one".to_string());
    board.open_popup_as(3, "two".to_string());
    assert_eq!(board.popup(3), Some("two".to_string()));
    assert_eq!(board.popup(4), None);
}

#[test]
fn empty_board_shows_nothing() {
    let board = PopupBoard::new();
    assert_eq!(board.popup(0), None);
}

#[test]
fn registered_slot_keeps_what_is_written_into_it() {
    let mut stew: Stew<(u32, u64)> = Stew::new();
    stew.register("counter".to_string(), (1, 0));
    {
        let slot = stew.registered_mut(&"counter".to_string()).unwrap();
        assert_eq!(*slot, (1, 0));
        slot.1 += 5;
    }
    {
        let slot = stew.registered_mut(&"counter".to_string()).unwrap();
        slot.1 += 2;
    }
    assert_eq!(stew.registered(&"counter".to_string()), Some(&(1, 7)));
    assert!(stew.registered_mut(&"other".to_string()).is_none());
}
