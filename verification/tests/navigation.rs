use voxel_quest::menu::{
    CameraSettingsMenu, DebugMenu, EscAction, EscapeMenu, GameState, MainMenu, MenuId, MenuStack,
    NoMenu, SettingsMenu, ViewMenu,
};
use const_siphasher::sip::SipHasher;

#[test]
fn menu_ids_hash_their_names() {
    let h = SipHasher::new().hash(b"main_menu");
    assert_eq!(MainMenu::id(), MenuId(h << 1));
    assert_eq!(MenuId::default(), MainMenu::id());
    assert_eq!(SettingsMenu::id(), MenuId(SipHasher::new().hash(b"settings_menu") << 1));
    assert_eq!(CameraSettingsMenu::id(), MenuId(SipHasher::new().hash(b"camera_settings_menu") << 1));
    assert_eq!(DebugMenu::id(), MenuId(SipHasher::new().hash(b"debug_menu") << 1));
    assert_eq!(ViewMenu::id(), MenuId(SipHasher::new().hash(b"view_menu") << 1));
    assert_eq!(EscapeMenu::id(), MenuId((SipHasher::new().hash(b"esc_menu") << 1) | 1));
    assert_eq!(NoMenu::id(), MenuId(0));
    assert_ne!(MainMenu::id(), SettingsMenu::id());
}

#[test]
fn auto_close_flag() {
    assert!(!MainMenu::id().auto_close());
    assert!(EscapeMenu::id().auto_close());
    assert!(MenuId::new_auto_close("x").auto_close());
    assert_eq!(MenuId::new_auto_close("x").0 & !1, MenuId::new("x").0);
}

#[test]
fn escape_goes_back_through_opened_menus() {
    let mut stack = MenuStack::new();
    let next = stack.open_menu(EscapeMenu::id(), SettingsMenu::id());
    assert_eq!(next, SettingsMenu::id());
    let next = stack.open_menu(SettingsMenu::id(), CameraSettingsMenu::id());
    assert_eq!(next, CameraSettingsMenu::id());
    let a = stack.on_esc(GameState::InMenu, Some(CameraSettingsMenu::id()));
    assert_eq!(a, EscAction { next_menu: Some(SettingsMenu::id()), next_state: None });
    let a = stack.on_esc(GameState::InMenu, Some(SettingsMenu::id()));
    assert_eq!(a, EscAction { next_menu: Some(EscapeMenu::id()), next_state: None });
    let a = stack.on_esc(GameState::InMenu, Some(EscapeMenu::id()));
    assert_eq!(a, EscAction { next_menu: None, next_state: Some(GameState::Playing) });
}

#[test]
fn escape_in_a_plain_menu_stays() {
    let mut stack = MenuStack::new();
    let a = stack.on_esc(GameState::InMenu, Some(MainMenu::id()));
    assert_eq!(a, EscAction { next_menu: None, next_state: None });
    let a = stack.on_esc(GameState::InMenu, None);
    assert_eq!(a, EscAction { next_menu: None, next_state: Some(GameState::Playing) });
}

#[test]
fn escape_while_playing_opens_a_menu() {
    let mut stack = MenuStack::new();
    let a = stack.on_esc(GameState::Playing, None);
    assert_eq!(a, EscAction { next_menu: Some(EscapeMenu::id()), next_state: Some(GameState::InMenu) });
    stack.open_menu(EscapeMenu::id(), DebugMenu::id());
    let a = stack.on_esc(GameState::Playing, None);
    assert_eq!(a, EscAction { next_menu: Some(EscapeMenu::id()), next_state: Some(GameState::InMenu) });
    assert_eq!(stack.0.len(), 1);
    stack.clear_stack();
    assert!(stack.0.is_empty());
    assert_eq!(GameState::default(), GameState::InMenu);
}
