//! The tray icon's identity and menu. Activating a menu entry hands its
//! action to the user interface through the tray's sender.
use vstd::prelude::*;

verus! {

/// What the user asked for from the tray menu.
#[derive(Clone, Copy, Debug, PartialEq, Eq, Structural)]
pub enum TrayAction {
    ShowWindow,
    Quit,
}

/// An entry of the tray menu.
#[derive(Debug)]
pub enum MenuEntry {
    /// A clickable entry: its label, its icon (empty for none) and the
    /// action it sends.
    Item { label: String, icon_name: String, action: TrayAction },
    Separator,
}

/// The mathematical content of a [`MenuEntry`].
pub enum MenuEntryView {
    Item { label: Seq<char>, icon_name: Seq<char>, action: TrayAction },
    Separator,
}

impl View for MenuEntry {
    type V = MenuEntryView;

    open spec fn view(&self) -> MenuEntryView {
        match self {
            MenuEntry::Item { label, icon_name, action } => MenuEntryView::Item {
                label: label@,
                icon_name: icon_name@,
                action: *action,
            },
            MenuEntry::Separator => MenuEntryView::Separator,
        }
    }
}

/// The views of a menu.
pub open spec fn menu_view(m: Seq<MenuEntry>) -> Seq<MenuEntryView> {
    m.map_values(|e: MenuEntry| e@)
}

/// The tray menu: show the window, a separator, quit.
pub open spec fn tray_menu() -> Seq<MenuEntryView> {
    seq![
        MenuEntryView::Item { label: "Show"@, icon_name: Seq::empty(), action: TrayAction::ShowWindow },
        MenuEntryView::Separator,
        MenuEntryView::Item { label: "Quit"@, icon_name: "application-exit"@, action: TrayAction::Quit },
    ]
}

/// The tray icon, holding the sender through which its menu hands actions
/// to the user interface.
#[derive(Debug)]
pub struct BlabbergraphTray<S> {
    pub gtk_sender: S,
}

impl<S> BlabbergraphTray<S> {
    /// A tray that sends its actions through `gtk_sender`.
    pub fn new(gtk_sender: S) -> (r: Self)
        ensures
            r.gtk_sender == gtk_sender,
    {
        BlabbergraphTray { gtk_sender }
    }

    /// The identifier the tray registers under.
    pub fn id(&self) -> (r: String)
        ensures
            r@ == "blabbergraph"@,
    {
        String::from_str("blabbergraph")
    }

    /// The title of the tray icon.
    pub fn title(&self) -> (r: String)
        ensures
            r@ == "Blabbergraph"@,
    {
        String::from_str("Blabbergraph")
    }

    /// The themed icon the tray shows.
    pub fn icon_name(&self) -> (r: String)
        ensures
            r@ == "audio-volume-high"@,
    {
        String::from_str("audio-volume-high")
    }

    /// The tray menu.
    pub fn menu(&self) -> (r: Vec<MenuEntry>)
        ensures
            menu_view(r@) == tray_menu(),
    {
        let mut r: Vec<MenuEntry> = Vec::new();
        r.push(
            MenuEntry::Item {
                label: String::from_str("Show"),
                icon_name: String::new(),
                action: TrayAction::ShowWindow,
            },
        );
        r.push(MenuEntry::Separator);
        r.push(
            MenuEntry::Item {
                label: String::from_str("Quit"),
                icon_name: String::from_str("application-exit"),
                action: TrayAction::Quit,
            },
        );
        proof {
            assert(menu_view(r@) =~= tray_menu());
        }
        r
    }
}

} // verus!
