//! The application's menu bar, described as a platform-independent blueprint.

use vstd::prelude::*;
use vstd::string::StringExecFns;

verus! {

/// The application's name, as menus show it.
pub const APP_NAME: &'static str = "atomCAD";

/// A menubar is a hierarchical list of actions with attached titles and/or
/// keyboard shortcuts. It is attached to the application instance (macOS) or
/// to the main window (Windows/Linux), or fully emulated (mobile/web).
pub struct Blueprint {
    pub title: String,
    pub items: Vec<Item>,
}

/// A menu item is an action (with an optional keyboard shortcut), a submenu,
/// or a separator: a visual divider between groups of related items.
pub enum Item {
    Separator,
    Entry { title: String, shortcut: Shortcut, action: Action },
    SubMenu(Blueprint),
}

/// A keyboard shortcut: none, or one of the shortcuts that the platform
/// defines for common actions.
#[derive(Clone, Copy, Debug, PartialEq, Eq, Structural)]
pub enum Shortcut {
    NoShortcut,
    System(SystemShortcut),
}

/// Shortcuts for common actions, which vary from platform to platform but
/// stay the same across all applications on one platform.
#[derive(Clone, Copy, Debug, PartialEq, Eq, Structural)]
pub enum SystemShortcut {
    Preferences,
    HideApp,
    HideOthers,
    QuitApp,
}

/// What selecting a menu item does.
#[derive(Clone, Copy, Debug, PartialEq, Eq, Structural)]
pub enum Action {
    System(SystemAction),
}

/// Actions that the operating system implements.
#[derive(Clone, Copy, Debug, PartialEq, Eq, Structural)]
pub enum SystemAction {
    LaunchAboutWindow,
    LaunchPreferences,
    ServicesMenu,
    HideApp,
    HideOthers,
    ShowAll,
    Terminate,
}

impl Blueprint {
    /// An empty menu with the given title.
    pub fn new(title: &str) -> (r: Blueprint)
        ensures
            r.title@ == title@,
            r.items@.len() == 0,
    {
        Blueprint { title: title.to_owned(), items: Vec::new() }
    }
}

/// Whether `item` is an entry with this title, shortcut and action.
pub open spec fn is_entry(item: Item, title: Seq<char>, shortcut: Shortcut, action: Action) -> bool {
    match item {
        Item::Entry { title: t, shortcut: s, action: a } => t@ == title && s == shortcut && a
            == action,
        _ => false,
    }
}

/// The application menu's items, in order.
pub open spec fn app_menu_matches(items: Seq<Item>) -> bool {
    &&& items.len() == 11
    &&& is_entry(
        items[0],
        "About "@ + APP_NAME@,
        Shortcut::NoShortcut,
        Action::System(SystemAction::LaunchAboutWindow),
    )
    &&& items[1] is Separator
    &&& is_entry(
        items[2],
        "Settings..."@,
        Shortcut::System(SystemShortcut::Preferences),
        Action::System(SystemAction::LaunchPreferences),
    )
    &&& items[3] is Separator
    &&& is_entry(items[4], "Services"@, Shortcut::NoShortcut, Action::System(SystemAction::ServicesMenu))
    &&& items[5] is Separator
    &&& is_entry(
        items[6],
        "Hide "@ + APP_NAME@,
        Shortcut::System(SystemShortcut::HideApp),
        Action::System(SystemAction::HideApp),
    )
    &&& is_entry(
        items[7],
        "Hide Others"@,
        Shortcut::System(SystemShortcut::HideOthers),
        Action::System(SystemAction::HideOthers),
    )
    &&& is_entry(items[8], "Show All"@, Shortcut::NoShortcut, Action::System(SystemAction::ShowAll))
    &&& items[9] is Separator
    &&& is_entry(
        items[10],
        "Quit "@ + APP_NAME@,
        Shortcut::System(SystemShortcut::QuitApp),
        Action::System(SystemAction::Terminate),
    )
}

fn entry(title: String, shortcut: Shortcut, action: Action) -> (r: Item)
    ensures
        is_entry(r, title@, shortcut, action),
{
    Item::Entry { title, shortcut, action }
}

/// The menu bar of the application: one untitled application menu, with the
/// about, settings, services, hide and quit entries.
pub fn setup_menu_bar() -> (r: Blueprint)
    ensures
        r.title@ == APP_NAME@,
        r.items@.len() == 1,
        r.items@[0] is SubMenu,
        r.items@[0]->SubMenu_0.title@ == ""@,
        app_menu_matches(r.items@[0]->SubMenu_0.items@),
{
    let mut items: Vec<Item> = Vec::new();
    items.push(
        entry(
            "About ".to_owned().concat(APP_NAME),
            Shortcut::NoShortcut,
            Action::System(SystemAction::LaunchAboutWindow),
        ),
    );
    items.push(Item::Separator);
    items.push(
        entry(
            "Settings...".to_owned(),
            Shortcut::System(SystemShortcut::Preferences),
            Action::System(SystemAction::LaunchPreferences),
        ),
    );
    items.push(Item::Separator);
    items.push(
        entry("Services".to_owned(), Shortcut::NoShortcut, Action::System(SystemAction::ServicesMenu)),
    );
    items.push(Item::Separator);
    items.push(
        entry(
            "Hide ".to_owned().concat(APP_NAME),
            Shortcut::System(SystemShortcut::HideApp),
            Action::System(SystemAction::HideApp),
        ),
    );
    items.push(
        entry(
            "Hide Others".to_owned(),
            Shortcut::System(SystemShortcut::HideOthers),
            Action::System(SystemAction::HideOthers),
        ),
    );
    items.push(
        entry("Show All".to_owned(), Shortcut::NoShortcut, Action::System(SystemAction::ShowAll)),
    );
    items.push(Item::Separator);
    items.push(
        entry(
            "Quit ".to_owned().concat(APP_NAME),
            Shortcut::System(SystemShortcut::QuitApp),
            Action::System(SystemAction::Terminate),
        ),
    );
    let mut bar: Vec<Item> = Vec::new();
    bar.push(Item::SubMenu(Blueprint { title: "".to_owned(), items }));
    Blueprint { title: APP_NAME.to_owned(), items: bar }
}

} // verus!
