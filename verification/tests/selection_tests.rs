use app_inventory_generator::resolver::Resolution;
use app_inventory_generator::scanner::{Package, PackageList, Source};
use app_inventory_generator::selection::{
    resolution_badge, search_result_package, Tab,
};

fn pkg(name: &str, display: &str, selected: bool, resolution: Option<Resolution>) -> Package {
    Package {
        name: name.to_string(),
        display_name: display.to_string(),
        version: String::new(),
        source: Source::Apt,
        flatpak_id: None,
        config_path: None,
        resolution,
        selected,
    }
}

fn sample() -> PackageList {
    PackageList {
        menu: vec![
            pkg("gimp", "GIMP", true, Some(Resolution::Native("gimp".into()))),
            pkg("zoom", "Zoom", false, None),
        ],
        terminal: vec![
            pkg("htop", "htop", true, None),
            pkg("gimp", "gimp (cli)", true, Some(Resolution::Unresolved)),
        ],
        flatpak: vec![pkg("org.x.App", "App", true, Some(Resolution::Flatpak("org.x.App".into())))],
        snap: vec![pkg("code", "code", false, Some(Resolution::Snap { name: "code".into(), classic: true }))],
    }
}

#[test]
fn all_packages_tab_after_tab() {
    let list = sample();
    let names: Vec<&str> = list.all_packages().iter().map(|p| p.name.as_str()).collect();
    assert_eq!(names, vec!["gimp", "zoom", "htop", "gimp", "org.x.App", "code"]);
    assert!(PackageList::default().all_packages().is_empty());
}

#[test]
fn counts_selected() {
    let list = sample();
    assert_eq!(list.selected_in_tab(Tab::MenuApps), 1);
    assert_eq!(list.selected_in_tab(Tab::TerminalApps), 2);
    assert_eq!(list.selected_in_tab(Tab::FlatpakApps), 1);
    assert_eq!(list.selected_in_tab(Tab::SnapApps), 0);
    assert_eq!(list.total_selected(), 4);
}

#[test]
fn total_is_sum_of_tabs() {
    let list = sample();
    let sum: usize = [Tab::MenuApps, Tab::TerminalApps, Tab::FlatpakApps, Tab::SnapApps]
        .iter()
        .map(|t| list.selected_in_tab(*t))
        .sum();
    assert_eq!(list.total_selected(), sum);
}

#[test]
fn select_and_deselect_all_in_one_tab() {
    let mut list = sample();
    list.set_selected_for_tab(Tab::MenuApps, true);
    assert_eq!(list.selected_in_tab(Tab::MenuApps), list.menu.len());
    assert_eq!(list.selected_in_tab(Tab::TerminalApps), 2);
    list.set_selected_for_tab(Tab::TerminalApps, false);
    assert_eq!(list.selected_in_tab(Tab::TerminalApps), 0);
    assert_eq!(list.menu[1].name, "zoom");
    assert_eq!(list.total_selected(), 3);
}

#[test]
fn generation_dedupes_by_name_and_marks_unresolved() {
    let list = sample();
    let got = list.selected_for_generation();
    let shown: Vec<(&str, &Resolution)> =
        got.iter().map(|r| (r.display_name.as_str(), &r.resolution)).collect();
    assert_eq!(
        shown,
        vec![
            ("GIMP", &Resolution::Native("gimp".into())),
            ("htop", &Resolution::Unresolved),
            ("App", &Resolution::Flatpak("org.x.App".into())),
        ]
    );
    assert!(got.len() <= list.total_selected());
    assert!(PackageList::default().selected_for_generation().is_empty());
}

#[test]
fn badges() {
    assert_eq!(resolution_badge(&pkg("vlc", "VLC", false, Some(Resolution::Native("vlc".into())))), None);
    assert_eq!(
        resolution_badge(&pkg("vlc", "VLC", false, Some(Resolution::Native("vlc-bin".into())))),
        Some("\u{2192} vlc-bin".to_string())
    );
    assert_eq!(
        resolution_badge(&pkg("a", "A", false, Some(Resolution::Flatpak("org.a".into())))),
        Some("(Flatpak)".to_string())
    );
    assert_eq!(
        resolution_badge(&pkg("c", "C", false, Some(Resolution::Snap { name: "c".into(), classic: true }))),
        Some("(Snap \u{b7} classic)".to_string())
    );
    assert_eq!(
        resolution_badge(&pkg("c", "C", false, Some(Resolution::Snap { name: "c".into(), classic: false }))),
        Some("(Snap)".to_string())
    );
    assert_eq!(
        resolution_badge(&pkg("u", "U", false, Some(Resolution::Unresolved))),
        Some("\u{26a0} not available on target".to_string())
    );
    assert_eq!(resolution_badge(&pkg("n", "N", false, None)), None);
}

#[test]
fn search_result_is_selected_native_package() {
    let p = search_result_package("neovim");
    assert_eq!(p.name, "neovim");
    assert_eq!(p.display_name, "neovim");
    assert_eq!(p.version, "latest");
    assert_eq!(p.source, Source::Apt);
    assert_eq!(p.resolution, Some(Resolution::Native("neovim".into())));
    assert!(p.selected);
}
