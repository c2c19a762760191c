use app_inventory_generator::config::{
    config_candidates, config_dirs, config_path_from_probes, flatpak_config_path, snap_config_dir,
    ConfigProbe,
};
use app_inventory_generator::desktop::{
    desktop_stem, dpkg_owner, dpkg_owner_step, dpkg_query_paths, exec_binary, first_dpkg_owner,
    is_listed, menu_package, menu_package_name, menu_tab, parse_desktop_entry,
    select_menu_packages, try_exec_binary, MenuCandidate, OwnerQuery,
};
use app_inventory_generator::scanner::{Package, Source};

const GIMP: &str = "[Desktop Entry]\n\
Version=1.0\n\
Type=Application\n\
Name=GNU Image Manipulation Program\n\
Name[de]=GNU-Bildbearbeitungsprogramm\n\
TryExec=gimp-2.10\n\
Exec=gimp-2.10 %U\n\
Icon=gimp\n\
\n\
[Desktop Action new]\n\
Name=New Window\n\
Exec=gimp-2.10 --new\n";

#[test]
fn parses_desktop_entry_group_only() {
    let e = parse_desktop_entry(GIMP);
    assert_eq!(e.display_name, Some("GNU Image Manipulation Program".to_string()));
    assert_eq!(e.try_exec, Some("gimp-2.10".to_string()));
    assert_eq!(e.exec_line, Some("gimp-2.10 %U".to_string()));
    assert_eq!(e.icon, Some("gimp".to_string()));
    assert_eq!(e.flatpak_id, None);
    assert!(!e.no_display);
    assert!(!e.only_show_in);
    assert!(is_listed(&e));
}

#[test]
fn hidden_and_flatpak_entries_are_not_listed() {
    let hidden = parse_desktop_entry("[Desktop Entry]\nName=X\nNoDisplay=true\n");
    assert!(hidden.no_display);
    assert!(!is_listed(&hidden));
    let only = parse_desktop_entry("[Desktop Entry]\nName=X\nOnlyShowIn=XFCE;\n");
    assert!(!is_listed(&only));
    let flat = parse_desktop_entry("[Desktop Entry]\nName=X\nX-Flatpak=org.x.X\n");
    assert_eq!(flat.flatpak_id, Some("org.x.X".to_string()));
    assert!(!is_listed(&flat));
    let unnamed = parse_desktop_entry("[Desktop Entry]\nExec=x\n");
    assert!(!is_listed(&unnamed));
    let outside = parse_desktop_entry("Name=Loose\n[Desktop Entry]\n");
    assert_eq!(outside.display_name, None);
}

#[test]
fn binaries_to_look_up() {
    let e = parse_desktop_entry(GIMP);
    assert_eq!(try_exec_binary(&e), Some("gimp-2.10".to_string()));
    assert_eq!(exec_binary(&e), Some("gimp-2.10".to_string()));
    let f = parse_desktop_entry("[Desktop Entry]\nName=F\nExec=  /usr/bin/firefox %u\n");
    assert_eq!(try_exec_binary(&f), None);
    assert_eq!(exec_binary(&f), Some("/usr/bin/firefox".to_string()));
    let g = parse_desktop_entry("[Desktop Entry]\nName=G\nExec=\n");
    assert_eq!(exec_binary(&g), None);
}

#[test]
fn menu_name_priorities() {
    let e = parse_desktop_entry(GIMP);
    assert_eq!(menu_package_name(&e, "gimp", true, Some("x".into()), None), "gimp");
    assert_eq!(
        menu_package_name(&e, "gimp", false, Some("gimp".into()), Some("other".into())),
        "gimp"
    );
    assert_eq!(menu_package_name(&e, "stem", false, None, Some("exec-owner".into())), "exec-owner");
    assert_eq!(menu_package_name(&e, "stem", false, None, None), "gimp");
    let dotted = parse_desktop_entry("[Desktop Entry]\nName=D\nIcon=org.x.Icon\n");
    assert_eq!(menu_package_name(&dotted, "stem", false, None, None), "stem");
}

#[test]
fn menu_package_fields() {
    let e = parse_desktop_entry(GIMP);
    let p = menu_package(&e, "gimp".to_string(), false, Some("~/.config/GIMP".to_string())).unwrap();
    assert_eq!(p.name, "gimp");
    assert_eq!(p.display_name, "GNU Image Manipulation Program");
    assert_eq!(p.version, "");
    assert_eq!(p.source, Source::Apt);
    assert_eq!(p.config_path, Some("~/.config/GIMP".to_string()));
    assert!(!p.selected);
    let local = menu_package(&e, "mine".to_string(), true, None).unwrap();
    assert_eq!(local.source, Source::Local);
    let hidden = parse_desktop_entry("[Desktop Entry]\nName=X\nNoDisplay=true\n");
    assert!(menu_package(&hidden, "x".to_string(), false, None).is_none());
}

#[test]
fn desktop_file_stems() {
    assert_eq!(desktop_stem("firefox.desktop"), Some("firefox".to_string()));
    assert_eq!(desktop_stem("org.gnome.Calculator.desktop"), Some("org.gnome.Calculator".to_string()));
    assert_eq!(desktop_stem(".desktop"), None);
    assert_eq!(desktop_stem("notes.txt"), None);
    assert_eq!(desktop_stem("desktop"), None);
}

#[test]
fn dpkg_paths() {
    assert!(dpkg_query_paths("/home/me/bin/tool").is_empty());
    assert!(dpkg_query_paths("").is_empty());
    assert!(dpkg_query_paths("/usr/bin/").is_empty());
    assert_eq!(
        dpkg_query_paths("/usr/bin/gimp"),
        vec!["/usr/bin/gimp", "/usr/libexec/gimp", "/usr/local/bin/gimp", "/bin/gimp"]
    );
    assert_eq!(
        dpkg_query_paths("gimp-2.10"),
        vec!["/usr/bin/gimp-2.10", "/usr/libexec/gimp-2.10", "/usr/local/bin/gimp-2.10", "/bin/gimp-2.10"]
    );
    assert_eq!(dpkg_query_paths("/opt/app/run")[0], "/usr/bin/run");
}

#[test]
fn dpkg_owner_output() {
    assert_eq!(dpkg_owner("gimp: /usr/bin/gimp-2.10\n"), Some("gimp".to_string()));
    assert_eq!(dpkg_owner("coreutils: /bin/ls\nother: x\n"), Some("coreutils".to_string()));
    assert_eq!(dpkg_owner("org.gnome.Foo: /usr/bin/foo\n"), None);
    assert_eq!(dpkg_owner("a.b: /usr/bin/ab\n"), Some("a.b".to_string()));
    assert_eq!(dpkg_owner(""), None);
    assert_eq!(dpkg_owner(": nothing\n"), None);
}

fn pkg(name: &str, display: &str) -> Package {
    Package {
        name: name.to_string(),
        display_name: display.to_string(),
        version: String::new(),
        source: Source::Apt,
        flatpak_id: None,
        config_path: None,
        resolution: None,
        selected: false,
    }
}

#[test]
fn menu_tab_selection() {
    let candidates = vec![
        pkg("zoom", "Zoom"),
        pkg("gimp", "GIMP"),
        pkg("spotify", "Spotify"),
        pkg("nvidia-settings", "NVIDIA"),
        pkg("gimp", "GIMP again"),
        pkg("abiword", "AbiWord"),
    ];
    let ids = vec!["com.spotify.Client".to_string()];
    let menu = select_menu_packages(candidates, &ids);
    let shown: Vec<(&str, &str)> =
        menu.iter().map(|p| (p.name.as_str(), p.display_name.as_str())).collect();
    assert_eq!(shown, vec![("abiword", "AbiWord"), ("gimp", "GIMP"), ("zoom", "Zoom")]);
}

#[test]
fn config_candidate_names() {
    assert_eq!(config_candidates("transmission-gtk"), vec!["transmission-gtk", "transmission"]);
    assert_eq!(config_candidates("libreoffice-7.2"), vec!["libreoffice-7.2", "libreoffice"]);
    assert_eq!(config_candidates("gnome-calculator"), vec!["gnome-calculator"]);
    assert_eq!(config_candidates("vim"), vec!["vim"]);
    assert_eq!(config_candidates("foo-common-2"), vec!["foo-common-2", "foo-common"]);
    assert_eq!(config_candidates("tool-"), vec!["tool-"]);
}

#[test]
fn config_path_choice() {
    let probes = vec![
        ConfigProbe { candidate: "transmission-gtk".into(), in_config: false, in_share: false },
        ConfigProbe { candidate: "transmission".into(), in_config: false, in_share: true },
    ];
    assert_eq!(config_path_from_probes(&probes), Some("~/.local/share/transmission".to_string()));
    let probes = vec![ConfigProbe { candidate: "gimp".into(), in_config: true, in_share: true }];
    assert_eq!(config_path_from_probes(&probes), Some("~/.config/gimp".to_string()));
    assert_eq!(config_path_from_probes(&Vec::new()), None);
}

#[test]
fn config_directories() {
    assert_eq!(
        config_dirs("/home/me", "gimp"),
        ("/home/me/.config/gimp".to_string(), "/home/me/.local/share/gimp".to_string())
    );
    assert_eq!(flatpak_config_path("org.gimp.GIMP"), "~/.var/app/org.gimp.GIMP/config");
    assert_eq!(snap_config_dir("/home/me", "code"), "/home/me/snap/code/current");
}

fn candidate(stem: &str, name: &str, display: &str) -> MenuCandidate {
    let entry = parse_desktop_entry(&format!("[Desktop Entry]\nName={}\nExec={}\n", display, name));
    MenuCandidate { stem: stem.to_string(), entry, name: name.to_string(), config_path: None }
}

#[test]
fn system_entry_wins_over_local_one() {
    let system = vec![candidate("gimp", "gimp", "GIMP")];
    let local = vec![candidate("gimp-local", "gimp", "My GIMP"), candidate("notes", "notes", "Notes")];
    let menu = menu_tab(system, local, &Vec::new());
    let shown: Vec<(&str, &str, Source)> =
        menu.iter().map(|p| (p.name.as_str(), p.display_name.as_str(), p.source)).collect();
    assert_eq!(shown, vec![("gimp", "GIMP", Source::Apt), ("notes", "Notes", Source::Local)]);
}

#[test]
fn blacklisted_stems_are_dropped() {
    let system = vec![candidate("cinnamon-settings", "cinnamon", "Settings"), candidate("vlc", "vlc", "VLC")];
    let menu = menu_tab(system, Vec::new(), &Vec::new());
    assert_eq!(menu.len(), 1);
    assert_eq!(menu[0].name, "vlc");
}

#[test]
fn first_qualifying_dpkg_answer_wins() {
    let answers = vec![
        None,
        Some("org.gnome.Foo.Bar: /usr/libexec/foo\n".to_string()),
        Some("foo: /usr/local/bin/foo\n".to_string()),
        Some("other: /bin/foo\n".to_string()),
    ];
    assert_eq!(first_dpkg_owner(&answers), Some("foo".to_string()));
    assert_eq!(first_dpkg_owner(&vec![None, None]), None);
}

#[test]
fn dpkg_owner_steps() {
    assert_eq!(dpkg_owner_step("foo", &Vec::new()), OwnerQuery::Ask("/usr/bin/foo".to_string()));
    assert_eq!(dpkg_owner_step("foo", &vec![None]), OwnerQuery::Ask("/usr/libexec/foo".to_string()));
    assert_eq!(
        dpkg_owner_step("foo", &vec![None, Some("foo-bin: /usr/libexec/foo\n".to_string())]),
        OwnerQuery::Known(Some("foo-bin".to_string()))
    );
    assert_eq!(dpkg_owner_step("foo", &vec![None, None, None, None]), OwnerQuery::Known(None));
    assert_eq!(dpkg_owner_step("/home/me/bin/foo", &Vec::new()), OwnerQuery::Known(None));
}
