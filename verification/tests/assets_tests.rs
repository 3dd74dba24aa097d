use zenvi::assets::{Asset, Assets};

#[test]
fn test_assets_load_panel_icons() {
    let assets = Assets;
    assert!(assets.load("icons/panel-left.svg").is_some());
    assert!(assets.load("assets/icons/panel-left.svg").is_some());
    assert!(assets.load("icons/panel-left-open.svg").is_some());
    assert!(assets.load("assets/icons/panel-left-open.svg").is_some());
}

#[test]
fn test_assets_list_includes_panel_icons() {
    let assets = Assets;
    let list = assets.list("icons/panel-left");
    assert_eq!(list.len(), 2);
}

#[test]
fn unknown_assets_and_full_listing() {
    let assets = Assets;
    assert_eq!(assets.load("icons/none.svg"), None);
    assert_eq!(assets.load("assets/zenvi-icon.svg"), Some(Asset::AppIcon));
    assert_eq!(assets.load("icons/menu.svg"), Some(Asset::MenuIcon));
    assert_eq!(assets.list("").len(), 4);
    assert_eq!(assets.list("zen"), vec!["zenvi-icon.svg".to_string()]);
}
