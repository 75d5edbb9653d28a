use atomcad_scene::menu::{
    setup_menu_bar, Action, Blueprint, Item, Shortcut, SystemAction, SystemShortcut, APP_NAME,
};

fn entry(item: &Item) -> (&str, Shortcut, Action) {
    match item {
        Item::Entry { title, shortcut, action } => (title.as_str(), *shortcut, *action),
        _ => panic!("not an entry"),
    }
}

#[test]
fn blueprint_new_is_empty() {
    let b = Blueprint::new("File");
    assert_eq!(b.title, "File");
    assert!(b.items.is_empty());
}

#[test]
fn menu_bar_has_application_menu() {
    let bar = setup_menu_bar();
    assert_eq!(bar.title, APP_NAME);
    assert_eq!(bar.title, "atomCAD");
    assert_eq!(bar.items.len(), 1);
    let menu = match &bar.items[0] {
        Item::SubMenu(m) => m,
        _ => panic!("expected a submenu"),
    };
    assert_eq!(menu.title, "");
    assert_eq!(menu.items.len(), 11);
    assert_eq!(
        entry(&menu.items[0]),
        ("About atomCAD", Shortcut::NoShortcut, Action::System(SystemAction::LaunchAboutWindow))
    );
    assert!(matches!(menu.items[1], Item::Separator));
    assert_eq!(
        entry(&menu.items[2]),
        (
            "Settings...",
            Shortcut::System(SystemShortcut::Preferences),
            Action::System(SystemAction::LaunchPreferences)
        )
    );
    assert_eq!(entry(&menu.items[6]).0, "Hide atomCAD");
    assert_eq!(entry(&menu.items[7]).1, Shortcut::System(SystemShortcut::HideOthers));
    assert_eq!(entry(&menu.items[8]).2, Action::System(SystemAction::ShowAll));
    assert!(matches!(menu.items[9], Item::Separator));
    assert_eq!(
        entry(&menu.items[10]),
        ("Quit atomCAD", Shortcut::System(SystemShortcut::QuitApp), Action::System(SystemAction::Terminate))
    );
}
