use blabbergraph::tray::service::{BlabbergraphTray, MenuEntry, TrayAction};

#[test]
fn tray_identity() {
    let tray = BlabbergraphTray::new(());
    assert_eq!(tray.id(), "blabbergraph");
    assert_eq!(tray.title(), "Blabbergraph");
    assert_eq!(tray.icon_name(), "audio-volume-high");
}

#[test]
fn tray_menu_shows_and_quits() {
    let tray = BlabbergraphTray::new(0u8);
    let menu = tray.menu();
    assert_eq!(menu.len(), 3);
    match &menu[0] {
        MenuEntry::Item { label, icon_name, action } => {
            assert_eq!(label, "Show");
            assert_eq!(icon_name, "");
            assert_eq!(*action, TrayAction::ShowWindow);
        },
        other => panic!("unexpected {:?}", other),
    }
    assert!(matches!(menu[1], MenuEntry::Separator));
    match &menu[2] {
        MenuEntry::Item { label, icon_name, action } => {
            assert_eq!(label, "Quit");
            assert_eq!(icon_name, "application-exit");
            assert_eq!(*action, TrayAction::Quit);
        },
        other => panic!("unexpected {:?}", other),
    }
}
