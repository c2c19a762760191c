use app_inventory_generator::resolver::Resolution;
use app_inventory_generator::scanner::{
    apt_mark_showmanual, dnf_userinstalled, dpkg_version_map, is_blacklisted_desktop,
    is_blacklisted_package, is_snap_base, is_system_noise, pacman_explicit, pacman_version_map,
    host_packages, scan_flatpak, scan_snap, scan_system, scan_terminal, snap_names,
    zypper_installed, Distro, HostListing, Package, Source,
};
use app_inventory_generator::desktop::{parse_desktop_entry, MenuCandidate};
use app_inventory_generator::versions::VersionMap;

fn pkg(name: &str, display: &str) -> Package {
    Package {
        name: name.to_string(),
        display_name: display.to_string(),
        version: String::new(),
        source: Source::Apt,
        flatpak_id: None,
        config_path: None,
        resolution: None,
        selected: false,
    }
}

#[test]
fn package_blacklist_is_prefix_based() {
    assert!(is_blacklisted_package("nvidia-driver-535"));
    assert!(is_blacklisted_package("mint-meta-cinnamon"));
    assert!(is_blacklisted_package("lightdm"));
    assert!(is_blacklisted_package("calamares-settings"));
    assert!(!is_blacklisted_package("firefox"));
    assert!(!is_blacklisted_package("mint"));
    assert!(!is_blacklisted_package(""));
}

#[test]
fn desktop_blacklist() {
    assert!(is_blacklisted_desktop("cinnamon-settings-users"));
    assert!(is_blacklisted_desktop("ibus-setup"));
    assert!(is_blacklisted_desktop("nm-connection-editor"));
    assert!(!is_blacklisted_desktop("org.gnome.Calculator"));
    assert!(!is_blacklisted_desktop("gimp"));
}

#[test]
fn system_noise() {
    assert!(is_system_noise("libc6"));
    assert!(is_system_noise("python3-apt"));
    assert!(is_system_noise("perl-base"));
    assert!(is_system_noise("r-base"));
    assert!(is_system_noise("libreoffice"));
    assert!(!is_system_noise("htop"));
    assert!(!is_system_noise("neovim"));
}

#[test]
fn snap_bases() {
    assert!(is_snap_base("snapd"));
    assert!(is_snap_base("core"));
    assert!(is_snap_base("bare"));
    assert!(is_snap_base("core18"));
    assert!(is_snap_base("core22"));
    assert!(is_snap_base("gtk-common-themes"));
    assert!(is_snap_base("kde-frameworks-5-qt-5-15-core20"));
    assert!(is_snap_base("mesa-2404"));
    assert!(is_snap_base("gnome-46-2404"));
    assert!(!is_snap_base("gnome-calculator"));
    assert!(!is_snap_base("gnome-"));
    assert!(!is_snap_base("coreutils"));
    assert!(!is_snap_base("firefox"));
}

#[test]
fn version_map_later_entries_override() {
    let mut m = VersionMap::new();
    m.insert("vim".to_string(), "1".to_string());
    m.insert("git".to_string(), "2".to_string());
    m.insert("vim".to_string(), "3".to_string());
    assert_eq!(m.get(&"vim".to_string()), Some(&"3".to_string()));
    assert_eq!(m.get(&"git".to_string()), Some(&"2".to_string()));
    assert_eq!(m.get(&"nano".to_string()), None);
    assert_eq!(m.version_of(&"nano".to_string()), "");
}

#[test]
fn dpkg_versions_only_installed() {
    let out = "vim\t2:9.1\tinstalled\nold\t1.0\tconfig-files\n git \t 2.43 \t installed \nbad line\n";
    let m = dpkg_version_map(out);
    assert_eq!(m.version_of(&"vim".to_string()), "2:9.1");
    assert_eq!(m.version_of(&"git".to_string()), "2.43");
    assert_eq!(m.get(&"old".to_string()), None);
    assert_eq!(m.get(&"bad line".to_string()), None);
}

#[test]
fn pacman_versions() {
    let out = "vim 9.1.0-1\nsolo\nfirefox 128.0 extra\n";
    let m = pacman_version_map(out);
    assert_eq!(m.version_of(&"vim".to_string()), "9.1.0-1");
    assert_eq!(m.version_of(&"firefox".to_string()), "128.0 extra");
    assert_eq!(m.get(&"solo".to_string()), None);
}

#[test]
fn apt_manual_packages() {
    let versions = dpkg_version_map("htop\t3.3.0\tinstalled\n");
    let ps = apt_mark_showmanual("htop\n\nneovim\r\n", &versions);
    assert_eq!(ps.len(), 2);
    assert_eq!(ps[0].name, "htop");
    assert_eq!(ps[0].display_name, "htop");
    assert_eq!(ps[0].version, "3.3.0");
    assert_eq!(ps[0].source, Source::Apt);
    assert!(!ps[0].selected);
    assert_eq!(ps[1].name, "neovim");
    assert_eq!(ps[1].version, "");
}

#[test]
fn pacman_explicit_packages() {
    let versions = pacman_version_map("vim 9.1\n");
    let ps = pacman_explicit("vim\ngit\n", &versions);
    assert_eq!(ps.len(), 2);
    assert_eq!(ps[0].version, "9.1");
    assert_eq!(ps[0].source, Source::Pacman);
    assert_eq!(ps[1].name, "git");
}

#[test]
fn dnf_packages() {
    let out = "Last metadata expiration check: 0:01:00 ago.\nvim-enhanced\t9.1\ntmux\n\n";
    let ps = dnf_userinstalled(out);
    assert_eq!(ps.len(), 2);
    assert_eq!(ps[0].name, "vim-enhanced");
    assert_eq!(ps[0].version, "9.1");
    assert_eq!(ps[0].source, Source::Dnf);
    assert_eq!(ps[1].name, "tmux");
    assert_eq!(ps[1].version, "");
}

#[test]
fn zypper_packages() {
    let out = "Loading repository data...\nReading installed packages...\n\nS  | Name | Summary | Type\n\
               ---+------+---------+--------\n\
               i+ | vim  | Vi IMproved | 9.1 | package\n\
               i  | git  | Git | 2.43 | package\n\
               v  | old  | Old | 1.0 | package\n\
               i  | short | x\n";
    let ps = zypper_installed(out);
    assert_eq!(ps.len(), 2);
    assert_eq!(ps[0].name, "vim");
    assert_eq!(ps[0].version, "9.1");
    assert_eq!(ps[0].source, Source::Zypper);
    assert_eq!(ps[1].name, "git");
    assert!(zypper_installed("a\nb\nc\n").is_empty());
}

#[test]
fn flatpak_tab_sorted_with_config_paths() {
    let out = "org.gimp.GIMP\tGIMP\t2.10.38\ncom.spotify.Client\tSpotify\nbroken\n";
    let ps = scan_flatpak(out, true);
    assert_eq!(ps.len(), 2);
    assert_eq!(ps[0].display_name, "GIMP");
    assert_eq!(ps[0].name, "org.gimp.GIMP");
    assert_eq!(ps[0].flatpak_id, Some("org.gimp.GIMP".to_string()));
    assert_eq!(ps[0].config_path, Some("~/.var/app/org.gimp.GIMP/config".to_string()));
    assert_eq!(ps[0].version, "2.10.38");
    assert_eq!(ps[0].source, Source::Flatpak);
    assert_eq!(ps[1].display_name, "Spotify");
    assert_eq!(ps[1].version, "");
    let no_home = scan_flatpak(out, false);
    assert_eq!(no_home[0].config_path, None);
}

#[test]
fn flatpak_sort_is_stable() {
    let out = "b.id\tSame\na.id\tSame\nc.id\tAlpha\n";
    let ps = scan_flatpak(out, false);
    let names: Vec<&str> = ps.iter().map(|p| p.name.as_str()).collect();
    assert_eq!(names, vec!["c.id", "b.id", "a.id"]);
}

#[test]
fn snap_tab() {
    let out = "Name      Version  Rev   Tracking  Publisher  Notes\n\
               core22    2024     1380  latest    canonical  base\n\
               firefox   128.0    4451  latest    mozilla    -\n\
               code      1.90     160   latest    vscode     classic\n\
               snapd     2.63     21759 latest    canonical  snapd\n";
    assert_eq!(snap_names(out), vec!["firefox".to_string(), "code".to_string()]);
    let ps = scan_snap(out, &vec!["firefox".to_string()]);
    assert_eq!(ps.len(), 2);
    assert_eq!(ps[0].name, "code");
    assert_eq!(ps[0].version, "1.90");
    assert_eq!(
        ps[0].resolution,
        Some(Resolution::Snap { name: "code".to_string(), classic: true })
    );
    assert_eq!(ps[0].config_path, None);
    assert_eq!(ps[1].name, "firefox");
    assert_eq!(
        ps[1].resolution,
        Some(Resolution::Snap { name: "firefox".to_string(), classic: false })
    );
    assert_eq!(ps[1].config_path, Some("~/snap/firefox/current".to_string()));
    assert_eq!(ps[1].source, Source::Snap);
    assert!(ps.iter().all(|p| !p.selected));
}

#[test]
fn terminal_tab_excludes_other_tabs_and_noise() {
    let raw = vec![
        pkg("htop", "htop"),
        pkg("gimp", "gimp"),
        pkg("org.gimp.GIMP", "x"),
        pkg("libfoo", "libfoo"),
        pkg("nvidia-settings", "n"),
        pkg("tmux", "tmux"),
    ];
    let menu = vec!["gimp".to_string()];
    let flat = vec!["org.gimp.GIMP".to_string()];
    let t = scan_terminal(raw, &menu, &flat);
    let names: Vec<&str> = t.iter().map(|p| p.name.as_str()).collect();
    assert_eq!(names, vec!["htop", "tmux"]);
}

fn candidate(stem: &str, name: &str, display: &str) -> MenuCandidate {
    let entry = parse_desktop_entry(&format!("[Desktop Entry]\nName={}\nExec={}\n", display, name));
    MenuCandidate { stem: stem.to_string(), entry, name: name.to_string(), config_path: None }
}

#[test]
fn whole_scan_assembly() {
    let system = vec![candidate("gimp", "gimp", "GIMP"), candidate("cinnamon-settings", "cs", "CS")];
    let local = vec![candidate("gimp", "gimp", "My GIMP"), candidate("notes", "notes", "Notes")];
    let host = HostListing::Apt {
        status: "curl\t8.5\tinstalled\ngimp\t2.10\tinstalled\n".to_string(),
        manual: "curl\ngimp\norg.x.App\nlibfoo\n".to_string(),
    };
    let list = scan_system(
        Distro::Debian,
        system,
        local,
        Some("org.x.App\tApp\t1.0\n".to_string()),
        true,
        host,
        Some("Name Version Rev Tracking Publisher Notes\ncode 1.9 1 latest vscode classic\n".to_string()),
        &Vec::new(),
    );
    let menu: Vec<(&str, &str, Source)> =
        list.menu.iter().map(|p| (p.name.as_str(), p.display_name.as_str(), p.source)).collect();
    assert_eq!(menu, vec![("gimp", "GIMP", Source::Apt), ("notes", "Notes", Source::Local)]);
    assert_eq!(list.flatpak.len(), 1);
    assert_eq!(list.flatpak[0].flatpak_id.as_deref(), Some("org.x.App"));
    assert_eq!(list.snap.len(), 1);
    assert_eq!(list.snap[0].name, "code");
    assert_eq!(list.terminal.len(), 1);
    assert_eq!(list.terminal[0].name, "curl");
    assert_eq!(list.terminal[0].version, "8.5");
    assert!(list.all_packages().iter().all(|p| !p.selected));
}

#[test]
fn unknown_host_has_empty_terminal_tab() {
    let list = scan_system(
        Distro::Unknown,
        Vec::new(),
        Vec::new(),
        None,
        false,
        HostListing::Dnf("htop\t3.0\n".to_string()),
        None,
        &Vec::new(),
    );
    assert!(list.terminal.is_empty());
    assert!(list.flatpak.is_empty());
    assert!(list.snap.is_empty());
}

#[test]
fn host_listing_of_each_family() {
    assert_eq!(
        host_packages(Distro::Fedora, HostListing::Dnf("htop\t3.0\n".to_string()))[0].source,
        Source::Dnf
    );
    let arch = host_packages(
        Distro::Arch,
        HostListing::Pacman { installed: "vim 9.0-1\n".to_string(), explicit: "vim\n".to_string() },
    );
    assert_eq!((arch[0].name.as_str(), arch[0].version.as_str(), arch[0].source), ("vim", "9.0-1", Source::Pacman));
    assert!(host_packages(Distro::Debian, HostListing::Missing).is_empty());
    assert!(host_packages(Distro::Debian, HostListing::Dnf("htop\n".to_string())).is_empty());
}
