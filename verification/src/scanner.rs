//! Installed packages: their model, the rules that keep system packages out
//! of the inventory, and the parsing of package manager listings.

use vstd::prelude::*;

use crate::resolver::{opt_resolution_view, Resolution, ResolutionModel};
use crate::order::{is_display_sort_of, sort_by_display_name};
use crate::desktop::{first_of_each_name, menu_entries, menu_keeps, menu_tab, MenuCandidate};
use crate::text::{
    chars_of, contains_str, eq_str, has_substring, lines, lines_of, split_by, split_chars,
    split_whitespace, split_ws, splitn, splitn_chars, starts_with, string_of, string_views, trim,
    trim_ws, views, CharClass,
};
use crate::versions::{version_in, VersionMap};

verus! {

// ---------------------------------------------------------------------------
// Types
// ---------------------------------------------------------------------------

/// The package manager (or format) a package came from.
#[derive(Debug, Clone, Copy, PartialEq, Eq, Structural)]
pub enum Source {
    Apt,
    Dnf,
    Pacman,
    Zypper,
    Flatpak,
    Snap,
    Local,
}

/// One installed application.
#[derive(Debug, Clone)]
pub struct Package {
    /// Actual package name used for resolution and script generation.
    pub name: String,
    /// Human-readable display name shown in the UI.
    pub display_name: String,
    pub version: String,
    pub source: Source,
    pub flatpak_id: Option<String>,
    /// Detected config path for this app.
    pub config_path: Option<String>,
    /// Resolution result for the selected target distro; `None` until resolved.
    pub resolution: Option<Resolution>,
    pub selected: bool,
}

/// What a `Package` holds, with its strings as character sequences.
pub struct PackageModel {
    pub name: Seq<char>,
    pub display_name: Seq<char>,
    pub version: Seq<char>,
    pub source: Source,
    pub flatpak_id: Option<Seq<char>>,
    pub config_path: Option<Seq<char>>,
    pub resolution: Option<ResolutionModel>,
    pub selected: bool,
}

impl View for Package {
    type V = PackageModel;

    open spec fn view(&self) -> PackageModel {
        PackageModel {
            name: self.name@,
            display_name: self.display_name@,
            version: self.version@,
            source: self.source,
            flatpak_id: self.flatpak_id.deep_view(),
            config_path: self.config_path.deep_view(),
            resolution: opt_resolution_view(self.resolution),
            selected: self.selected,
        }
    }
}

pub open spec fn package_views(s: Seq<Package>) -> Seq<PackageModel> {
    s.map_values(|p: Package| p@)
}

pub open spec fn opt_package_view(p: Option<Package>) -> Option<PackageModel> {
    match p {
        Some(x) => Some(x@),
        None => None,
    }
}

/// The four tabs of scanned packages.
#[derive(Debug, Default, Clone)]
pub struct PackageList {
    /// Apps with .desktop entries (non-Flatpak).
    pub menu: Vec<Package>,
    /// User-installed CLI/terminal packages with no menu entry.
    pub terminal: Vec<Package>,
    /// All Flatpak apps installed on the system.
    pub flatpak: Vec<Package>,
    /// All Snap apps installed on the system.
    pub snap: Vec<Package>,
}

/// Host distro families that can be scanned.
#[derive(Debug, Clone, Copy, PartialEq, Eq, Structural)]
pub enum Distro {
    Debian,
    Fedora,
    Arch,
    OpenSuse,
    Unknown,
}

/// A package listed by a package manager: named, versioned, nothing else known.
pub open spec fn listed_package(name: Seq<char>, version: Seq<char>, source: Source) -> PackageModel {
    PackageModel {
        name,
        display_name: name,
        version,
        source,
        flatpak_id: None,
        config_path: None,
        resolution: None,
        selected: false,
    }
}

fn new_listed_package(name: Vec<char>, version: Vec<char>, source: Source) -> (p: Package)
    ensures
        p@ == listed_package(name@, version@, source),
{
    Package {
        name: string_of(&name),
        display_name: string_of(&name),
        version: string_of(&version),
        source,
        flatpak_id: None,
        config_path: None,
        resolution: None,
        selected: false,
    }
}

// ---------------------------------------------------------------------------
// Blacklists
// ---------------------------------------------------------------------------

/// Does a name start with one of the given prefixes?
pub open spec fn has_listed_prefix(name: Seq<char>, list: Seq<Seq<char>>) -> bool {
    exists|i: int| 0 <= i < list.len() && (#[trigger] list[i]).is_prefix_of(name)
}

fn prefix_listed(name: &str, list: &[&str], Ghost(spec_list): Ghost<Seq<Seq<char>>>) -> (r: bool)
    requires
        list@.map_values(|s: &str| s@) == spec_list,
    ensures
        r == has_listed_prefix(name@, spec_list),
{
    let v = chars_of(name);
    let mut i: usize = 0;
    while i < list.len()
        invariant
            i <= list@.len(),
            v@ == name@,
            list@.map_values(|s: &str| s@) == spec_list,
            forall|j: int| 0 <= j < i ==> !(#[trigger] spec_list[j]).is_prefix_of(name@),
        decreases list@.len() - i,
    {
        assert(spec_list[i as int] == list@[i as int]@);
        if starts_with(&v, list[i]) {
            return true;
        }
        i = i + 1;
    }
    false
}

pub open spec fn package_blacklist() -> Seq<Seq<char>> {
    seq![
        "nvidia"@, "nvidia-settings"@, "nvidia-prime-applet"@,
        "mint-"@, "mintupdate"@, "mintinstall"@, "mintdrivers"@,
        "mintwelcome"@, "mintreport"@, "mintsources"@, "mintlocale"@,
        "mintbackup"@, "mintstick"@, "mintsystem"@, "mintmenu"@,
        "mint-info-"@, "mint-meta-"@, "mint-artwork"@, "mint-common"@,
        "lightdm"@, "slick-greeter"@, "lightdm-settings"@,
        "driver-manager"@, "ubuntu-drivers"@,
        "gnome-initial-setup"@, "ubiquity"@, "calamares"@,
    ]
}

/// Package names that never appear in the menu tab: distro-specific tools,
/// hardware drivers and system utilities that do not migrate.
pub fn is_blacklisted_package(name: &str) -> (r: bool)
    ensures
        r == has_listed_prefix(name@, package_blacklist()),
{
    let list: [&str; 27] = [
        "nvidia", "nvidia-settings", "nvidia-prime-applet",
        "mint-", "mintupdate", "mintinstall", "mintdrivers",
        "mintwelcome", "mintreport", "mintsources", "mintlocale",
        "mintbackup", "mintstick", "mintsystem", "mintmenu",
        "mint-info-", "mint-meta-", "mint-artwork", "mint-common",
        "lightdm", "slick-greeter", "lightdm-settings",
        "driver-manager", "ubuntu-drivers",
        "gnome-initial-setup", "ubiquity", "calamares",
    ];
    assert(list@.map_values(|s: &str| s@) =~= package_blacklist());
    prefix_listed(name, &list, Ghost(package_blacklist()))
}

pub open spec fn desktop_blacklist() -> Seq<Seq<char>> {
    seq![
        "cinnamon"@, "cinnamon2d"@, "cinnamon-killer-daemon"@,
        "cinnamon-settings"@, "cinnamon-color-panel"@,
        "cinnamon-display-panel"@, "cinnamon-menu-editor"@,
        "cinnamon-network-panel"@, "cinnamon-onscreen-keyboard"@,
        "cinnamon-screensaver-command"@,
        "gnome-control-center"@, "gnome-session-properties"@,
        "software-properties-gtk"@, "software-properties-kde"@,
        "update-manager"@, "mintupdate"@, "mintwelcome"@,
        "mintinstall"@, "mintdrivers"@, "mintreport"@,
        "mintsources"@, "mintlocale"@, "mintbackup"@,
        "mintstick"@, "webapp-manager"@,
        "nvidia-settings"@, "nvidia-prime-applet"@,
        "lightdm-settings"@, "slick-greeter"@,
        "im-config"@, "ibus"@, "ibus-setup"@,
        "nm-connection-editor"@,
    ]
}

/// Desktop file stems excluded from the menu scan: panels, settings applets
/// and desktop-environment tools.
pub fn is_blacklisted_desktop(stem: &str) -> (r: bool)
    ensures
        r == has_listed_prefix(stem@, desktop_blacklist()),
{
    let list: [&str; 33] = [
        "cinnamon", "cinnamon2d", "cinnamon-killer-daemon",
        "cinnamon-settings", "cinnamon-color-panel",
        "cinnamon-display-panel", "cinnamon-menu-editor",
        "cinnamon-network-panel", "cinnamon-onscreen-keyboard",
        "cinnamon-screensaver-command",
        "gnome-control-center", "gnome-session-properties",
        "software-properties-gtk", "software-properties-kde",
        "update-manager", "mintupdate", "mintwelcome",
        "mintinstall", "mintdrivers", "mintreport",
        "mintsources", "mintlocale", "mintbackup",
        "mintstick", "webapp-manager",
        "nvidia-settings", "nvidia-prime-applet",
        "lightdm-settings", "slick-greeter",
        "im-config", "ibus", "ibus-setup",
        "nm-connection-editor",
    ];
    assert(list@.map_values(|s: &str| s@) =~= desktop_blacklist());
    prefix_listed(stem, &list, Ghost(desktop_blacklist()))
}

pub open spec fn noise_prefixes() -> Seq<Seq<char>> {
    seq![
        "lib"@, "gir1.2-"@, "python3-"@, "python-"@, "linux-"@,
        "fonts-"@, "xserver-"@, "x11-"@, "xfonts-"@, "perl"@,
        "ruby"@, "r-"@, "golang-"@, "ghc-"@, "haskell-"@, "ocaml-"@,
        "texlive-"@, "libreoffice-l10n-"@, "libreoffice-help-"@,
        "kde-"@, "kdelibs-"@, "plasma-"@,
    ]
}

/// Obvious system and library packages, kept out of the terminal tab.
pub fn is_system_noise(name: &str) -> (r: bool)
    ensures
        r == has_listed_prefix(name@, noise_prefixes()),
{
    let list: [&str; 22] = [
        "lib", "gir1.2-", "python3-", "python-", "linux-",
        "fonts-", "xserver-", "x11-", "xfonts-", "perl",
        "ruby", "r-", "golang-", "ghc-", "haskell-", "ocaml-",
        "texlive-", "libreoffice-l10n-", "libreoffice-help-",
        "kde-", "kdelibs-", "plasma-",
    ];
    assert(list@.map_values(|s: &str| s@) =~= noise_prefixes());
    prefix_listed(name, &list, Ghost(noise_prefixes()))
}

pub open spec fn snap_base_prefixes() -> Seq<Seq<char>> {
    seq!["core1"@, "core2"@, "gtk-common-themes"@, "kde-frameworks"@, "mesa-"@]
}

/// Base and platform snaps that are not user-facing apps: `snapd`, `core`,
/// `bare`, the `core1*`/`core2*` bases, theme, framework and mesa snaps, and
/// the `gnome-<digit>…` platform snaps.
pub open spec fn spec_is_snap_base(name: Seq<char>) -> bool {
    ||| name == "snapd"@
    ||| name == "core"@
    ||| name == "bare"@
    ||| has_listed_prefix(name, snap_base_prefixes())
    ||| ("gnome-"@.is_prefix_of(name) && name.len() > 6 && '0' <= name[6] && name[6] <= '9')
}

/// Base/platform snaps that are not user-facing apps.
pub fn is_snap_base(name: &str) -> (r: bool)
    ensures
        r == spec_is_snap_base(name@),
{
    let v = chars_of(name);
    if eq_str(&v, "snapd") || eq_str(&v, "core") || eq_str(&v, "bare") {
        return true;
    }
    let list: [&str; 5] = ["core1", "core2", "gtk-common-themes", "kde-frameworks", "mesa-"];
    assert(list@.map_values(|s: &str| s@) =~= snap_base_prefixes());
    if prefix_listed(name, &list, Ghost(snap_base_prefixes())) {
        return true;
    }
    starts_with(&v, "gnome-") && v.len() > 6 && '0' <= v[6] && v[6] <= '9'
}

// ---------------------------------------------------------------------------
// Version tables
// ---------------------------------------------------------------------------

/// The map that a list of (name, version) pairs denotes, later pairs
/// overriding earlier ones.
pub open spec fn map_of_pairs(ps: Seq<(Seq<char>, Seq<char>)>) -> Map<Seq<char>, Seq<char>>
    decreases ps.len(),
{
    if ps.len() == 0 {
        Map::empty()
    } else {
        map_of_pairs(ps.drop_last()).insert(ps.last().0, ps.last().1)
    }
}

/// A `dpkg-query` line `package<TAB>version<TAB>status`: a pair when the
/// status is `installed`.
pub open spec fn dpkg_status_entry() -> spec_fn(Seq<char>) -> Option<(Seq<char>, Seq<char>)> {
    |l: Seq<char>|
        {
            let p = splitn(l, 3, '\t');
            if p.len() == 3 && trim(p[2]) == "installed"@ {
                Some((trim(p[0]), trim(p[1])))
            } else {
                None
            }
        }
}

/// A `pacman -Q` line `package version`: a pair when it has a space.
pub open spec fn pacman_entry() -> spec_fn(Seq<char>) -> Option<(Seq<char>, Seq<char>)> {
    |l: Seq<char>|
        {
            let p = splitn(l, 2, ' ');
            if p.len() == 2 {
                Some((trim(p[0]), trim(p[1])))
            } else {
                None
            }
        }
}

pub open spec fn spec_dpkg_version_map(out: Seq<char>) -> Map<Seq<char>, Seq<char>> {
    map_of_pairs(lines(out).filter_map(dpkg_status_entry()))
}

pub open spec fn spec_pacman_version_map(out: Seq<char>) -> Map<Seq<char>, Seq<char>> {
    map_of_pairs(lines(out).filter_map(pacman_entry()))
}

fn dpkg_line(l: &Vec<char>) -> (r: Option<(String, String)>)
    ensures
        match r {
            Some((a, b)) => dpkg_status_entry()(l@) == Some((a@, b@)),
            None => dpkg_status_entry()(l@) is None,
        },
{
    let p = splitn_chars(l, 3, '\t');
    assert(p@.len() == views(p@).len());
    if p.len() == 3 {
        assert(p@[2]@ == views(p@)[2]);
        let status = trim_ws(&p[2]);
        if eq_str(&status, "installed") {
            assert(p@[0]@ == views(p@)[0]);
            assert(p@[1]@ == views(p@)[1]);
            let a = trim_ws(&p[0]);
            let b = trim_ws(&p[1]);
            return Some((string_of(&a), string_of(&b)));
        }
    }
    None
}

fn pacman_line(l: &Vec<char>) -> (r: Option<(String, String)>)
    ensures
        match r {
            Some((a, b)) => pacman_entry()(l@) == Some((a@, b@)),
            None => pacman_entry()(l@) is None,
        },
{
    let p = splitn_chars(l, 2, ' ');
    assert(p@.len() == views(p@).len());
    if p.len() == 2 {
        assert(p@[0]@ == views(p@)[0]);
        assert(p@[1]@ == views(p@)[1]);
        let a = trim_ws(&p[0]);
        let b = trim_ws(&p[1]);
        return Some((string_of(&a), string_of(&b)));
    }
    None
}

/// Installed package versions from `dpkg-query --show` with the
/// `package<TAB>version<TAB>status` format.
pub fn dpkg_version_map(out: &str) -> (m: VersionMap)
    ensures
        m@ == spec_dpkg_version_map(out@),
{
    let ls = lines_of(out);
    let ghost f = dpkg_status_entry();
    let ghost all = lines(out@);
    let mut m = VersionMap::new();
    let mut i: usize = 0;
    assert(all.take(0).filter_map(f) =~= Seq::<(Seq<char>, Seq<char>)>::empty());
    while i < ls.len()
        invariant
            views(ls@) == all,
            all == lines(out@),
            f == dpkg_status_entry(),
            i <= ls@.len(),
            m@ == map_of_pairs(all.take(i as int).filter_map(f)),
        decreases ls@.len() - i,
    {
        proof {
            all.lemma_filter_map_take_succ(f, i as int);
        }
        let ghost prev = all.take(i as int).filter_map(f);
        assert(ls@[i as int]@ == all[i as int]);
        match dpkg_line(&ls[i]) {
            Some((a, b)) => {
                let ghost pair = (a@, b@);
                m.insert(a, b);
                assert((prev + seq![pair]).drop_last() =~= prev);
            },
            None => {
                assert(prev + Seq::<(Seq<char>, Seq<char>)>::empty() =~= prev);
            },
        }
        i = i + 1;
    }
    assert(all.take(i as int) =~= all);
    m
}

/// Installed package versions from `pacman -Q` (`package version` lines).
pub fn pacman_version_map(out: &str) -> (m: VersionMap)
    ensures
        m@ == spec_pacman_version_map(out@),
{
    let ls = lines_of(out);
    let ghost f = pacman_entry();
    let ghost all = lines(out@);
    let mut m = VersionMap::new();
    let mut i: usize = 0;
    assert(all.take(0).filter_map(f) =~= Seq::<(Seq<char>, Seq<char>)>::empty());
    while i < ls.len()
        invariant
            views(ls@) == all,
            all == lines(out@),
            f == pacman_entry(),
            i <= ls@.len(),
            m@ == map_of_pairs(all.take(i as int).filter_map(f)),
        decreases ls@.len() - i,
    {
        proof {
            all.lemma_filter_map_take_succ(f, i as int);
        }
        let ghost prev = all.take(i as int).filter_map(f);
        assert(ls@[i as int]@ == all[i as int]);
        match pacman_line(&ls[i]) {
            Some((a, b)) => {
                let ghost pair = (a@, b@);
                m.insert(a, b);
                assert((prev + seq![pair]).drop_last() =~= prev);
            },
            None => {
                assert(prev + Seq::<(Seq<char>, Seq<char>)>::empty() =~= prev);
            },
        }
        i = i + 1;
    }
    assert(all.take(i as int) =~= all);
    m
}

// ---------------------------------------------------------------------------
// Package listings
// ---------------------------------------------------------------------------

/// The lines after the first `n` (none when there are fewer).
pub open spec fn skip_lines(ls: Seq<Seq<char>>, n: int) -> Seq<Seq<char>> {
    if ls.len() >= n {
        ls.skip(n)
    } else {
        Seq::empty()
    }
}

/// The formats of package manager listings.
#[derive(Debug, Clone, Copy, PartialEq, Eq, Structural)]
pub enum Listing {
    /// `apt-mark showmanual`: one package name per line.
    AptManual,
    /// `pacman -Qeq`: one package name per line.
    PacmanExplicit,
    /// `dnf repoquery --userinstalled --qf '%{name}\t%{version}'`.
    DnfUserInstalled,
    /// `zypper se -i`: a table with `|` between the columns.
    ZypperInstalled,
    /// `flatpak list --app --columns=application,name,version`.
    FlatpakApps,
    /// `snap list`: a header, then columns separated by white space.
    SnapList,
}

/// The source recorded for a package named in a listing of one name per line.
pub open spec fn manual_source(fmt: Listing) -> Source {
    if fmt is PacmanExplicit {
        Source::Pacman
    } else {
        Source::Apt
    }
}

/// Config path shown for a Flatpak app.
pub open spec fn flatpak_config(id: Seq<char>) -> Seq<char> {
    "~/.var/app/"@ + id + "/config"@
}

/// Config path shown for a snap.
pub open spec fn snap_config(name: Seq<char>) -> Seq<char> {
    "~/snap/"@ + name + "/current"@
}

/// A snap in the snap tab: resolved as a snap under its own name.
pub open spec fn snap_package(name: Seq<char>, version: Seq<char>, classic: bool, has_config: bool) -> PackageModel {
    PackageModel {
        name,
        display_name: name,
        version,
        source: Source::Snap,
        flatpak_id: None,
        config_path: if has_config {
            Some(snap_config(name))
        } else {
            None
        },
        resolution: Some(ResolutionModel::Snap(name, classic)),
        selected: false,
    }
}

/// What one line of a listing contributes, if anything. `versions` are the
/// installed versions for the name-only listings, `has_home` whether a home
/// directory is known, `with_config` the snaps that have a config directory.
pub open spec fn listing_entry(
    fmt: Listing,
    versions: Map<Seq<char>, Seq<char>>,
    has_home: bool,
    with_config: Seq<Seq<char>>,
) -> spec_fn(Seq<char>) -> Option<PackageModel> {
    |l: Seq<char>|
        match fmt {
            Listing::AptManual | Listing::PacmanExplicit => {
                if l.len() == 0 {
                    None
                } else {
                    Some(listed_package(trim(l), version_in(versions, trim(l)), manual_source(fmt)))
                }
            },
            Listing::DnfUserInstalled => {
                if l.len() == 0 || "Last metadata"@.is_prefix_of(l) {
                    None
                } else {
                    let p = splitn(l, 2, '\t');
                    Some(
                        listed_package(
                            trim(p[0]),
                            if p.len() > 1 {
                                trim(p[1])
                            } else {
                                Seq::empty()
                            },
                            Source::Dnf,
                        ),
                    )
                }
            },
            Listing::ZypperInstalled => {
                let p = split_by(l, CharClass::Is('|'));
                if p.len() >= 5 && (trim(p[0]) == "i"@ || trim(p[0]) == "i+"@) {
                    Some(listed_package(trim(p[1]), trim(p[3]), Source::Zypper))
                } else {
                    None
                }
            },
            Listing::FlatpakApps => {
                let p = splitn(l, 3, '\t');
                if p.len() < 2 {
                    None
                } else {
                    Some(
                        PackageModel {
                            name: trim(p[0]),
                            display_name: trim(p[1]),
                            version: if p.len() > 2 {
                                trim(p[2])
                            } else {
                                Seq::empty()
                            },
                            source: Source::Flatpak,
                            flatpak_id: Some(trim(p[0])),
                            config_path: if has_home {
                                Some(flatpak_config(trim(p[0])))
                            } else {
                                None
                            },
                            resolution: None,
                            selected: false,
                        },
                    )
                }
            },
            Listing::SnapList => {
                let cols = split_whitespace(l);
                if cols.len() == 0 || crate::scanner::spec_is_snap_base(trim(cols[0])) {
                    None
                } else {
                    Some(
                        snap_package(
                            trim(cols[0]),
                            if cols.len() > 1 {
                                cols[1]
                            } else {
                                Seq::empty()
                            },
                            has_substring(cols.last(), "classic"@),
                            with_config.contains(trim(cols[0])),
                        ),
                    )
                }
            },
        }
}

/// Header lines before the entries of a listing.
pub open spec fn header_lines(fmt: Listing) -> int {
    match fmt {
        Listing::ZypperInstalled => 4,
        Listing::SnapList => 1,
        _ => 0,
    }
}

/// The packages a listing names, in listing order.
pub open spec fn listing_packages(
    fmt: Listing,
    out: Seq<char>,
    versions: Map<Seq<char>, Seq<char>>,
    has_home: bool,
    with_config: Seq<Seq<char>>,
) -> Seq<PackageModel> {
    skip_lines(lines(out), header_lines(fmt)).filter_map(
        listing_entry(fmt, versions, has_home, with_config),
    )
}

fn contains_string(v: &Vec<String>, x: &Vec<char>) -> (r: bool)
    ensures
        r == string_views(v@).contains(x@),
{
    let xs = string_of(x);
    let mut i: usize = 0;
    while i < v.len()
        invariant
            i <= v@.len(),
            xs@ == x@,
            forall|j: int| 0 <= j < i ==> string_views(v@)[j] != x@,
        decreases v@.len() - i,
    {
        if v[i] == xs {
            assert(string_views(v@)[i as int] == x@);
            return true;
        }
        i = i + 1;
    }
    false
}

fn listing_line(
    fmt: Listing,
    l: &Vec<char>,
    versions: &VersionMap,
    has_home: bool,
    with_config: &Vec<String>,
) -> (r: Option<Package>)
    ensures
        opt_package_view(r) == listing_entry(fmt, versions@, has_home, string_views(with_config@))(l@),
{
    match fmt {
        Listing::AptManual | Listing::PacmanExplicit => {
            if l.len() == 0 {
                return None;
            }
            let name = trim_ws(l);
            let name_s = string_of(&name);
            let version = versions.version_of(&name_s);
            let source = if fmt == Listing::PacmanExplicit {
                Source::Pacman
            } else {
                Source::Apt
            };
            let p = Package {
                name: string_of(&name),
                display_name: name_s,
                version,
                source,
                flatpak_id: None,
                config_path: None,
                resolution: None,
                selected: false,
            };
            Some(p)
        },
        Listing::DnfUserInstalled => {
            if l.len() == 0 || starts_with(l, "Last metadata") {
                return None;
            }
            let p = splitn_chars(l, 2, '\t');
            assert(p@.len() == views(p@).len());
            proof {
                crate::text::lemma_splitn_nonempty(l@, 2, '\t');
            }
            assert(p@[0]@ == views(p@)[0]);
            let name = trim_ws(&p[0]);
            let version = if p.len() > 1 {
                assert(p@[1]@ == views(p@)[1]);
                trim_ws(&p[1])
            } else {
                Vec::new()
            };
            Some(new_listed_package(name, version, Source::Dnf))
        },
        Listing::ZypperInstalled => {
            let p = split_chars(l, CharClass::Is('|'));
            assert(p@.len() == views(p@).len());
            if p.len() < 5 {
                return None;
            }
            assert(p@[0]@ == views(p@)[0]);
            assert(p@[1]@ == views(p@)[1]);
            assert(p@[3]@ == views(p@)[3]);
            let status = trim_ws(&p[0]);
            if !eq_str(&status, "i") && !eq_str(&status, "i+") {
                return None;
            }
            let name = trim_ws(&p[1]);
            let version = trim_ws(&p[3]);
            Some(new_listed_package(name, version, Source::Zypper))
        },
        Listing::FlatpakApps => {
            let p = splitn_chars(l, 3, '\t');
            assert(p@.len() == views(p@).len());
            if p.len() < 2 {
                return None;
            }
            assert(p@[0]@ == views(p@)[0]);
            assert(p@[1]@ == views(p@)[1]);
            let id = trim_ws(&p[0]);
            let display = trim_ws(&p[1]);
            let version = if p.len() > 2 {
                assert(p@[2]@ == views(p@)[2]);
                trim_ws(&p[2])
            } else {
                Vec::new()
            };
            let config_path = if has_home {
                let id_s = string_of(&id);
                Some(crate::config::flatpak_config_path(id_s.as_str()))
            } else {
                None
            };
            Some(
                Package {
                    name: string_of(&id),
                    display_name: string_of(&display),
                    version: string_of(&version),
                    source: Source::Flatpak,
                    flatpak_id: Some(string_of(&id)),
                    config_path,
                    resolution: None,
                    selected: false,
                },
            )
        },
        Listing::SnapList => {
            let cols = split_ws(l);
            assert(cols@.len() == views(cols@).len());
            if cols.len() == 0 {
                return None;
            }
            assert(cols@[0]@ == views(cols@)[0]);
            let name = trim_ws(&cols[0]);
            let name_s = string_of(&name);
            if is_snap_base(name_s.as_str()) {
                return None;
            }
            let version = if cols.len() > 1 {
                assert(cols@[1]@ == views(cols@)[1]);
                string_of(&cols[1])
            } else {
                String::new()
            };
            let last = cols.len() - 1;
            assert(cols@[last as int]@ == views(cols@).last());
            let classic = contains_str(&cols[last], "classic");
            let config_path = if contains_string(with_config, &name) {
                let c = String::from_str("~/snap/");
                let c = c.concat(name_s.as_str());
                Some(c.concat("/current"))
            } else {
                None
            };
            Some(
                Package {
                    name: string_of(&name),
                    display_name: string_of(&name),
                    version,
                    source: Source::Snap,
                    flatpak_id: None,
                    config_path,
                    resolution: Some(Resolution::Snap { name: name_s, classic }),
                    selected: false,
                },
            )
        },
    }
}

/// The packages a listing names, in listing order.
pub fn parse_listing(
    fmt: Listing,
    out: &str,
    versions: &VersionMap,
    has_home: bool,
    with_config: &Vec<String>,
) -> (r: Vec<Package>)
    ensures
        package_views(r@) == listing_packages(
            fmt,
            out@,
            versions@,
            has_home,
            string_views(with_config@),
        ),
{
    let ls = lines_of(out);
    let ghost f = listing_entry(fmt, versions@, has_home, string_views(with_config@));
    let ghost all = skip_lines(lines(out@), header_lines(fmt));
    let skip: usize = match fmt {
        Listing::ZypperInstalled => 4,
        Listing::SnapList => 1,
        _ => 0,
    };
    let mut i: usize = skip;
    let mut r: Vec<Package> = Vec::new();
    if ls.len() < skip {
        assert(all =~= Seq::<Seq<char>>::empty());
        assert(all.filter_map(f) =~= Seq::<PackageModel>::empty());
        assert(package_views(r@) =~= Seq::<PackageModel>::empty());
        return r;
    }
    assert(all =~= views(ls@).skip(skip as int));
    assert(all.take(0).filter_map(f) =~= Seq::<PackageModel>::empty());
    assert(package_views(r@) =~= Seq::<PackageModel>::empty());
    while i < ls.len()
        invariant
            views(ls@) == lines(out@),
            f == listing_entry(fmt, versions@, has_home, string_views(with_config@)),
            skip <= i <= ls@.len(),
            all == views(ls@).skip(skip as int),
            package_views(r@) == all.take(i - skip).filter_map(f),
        decreases ls@.len() - i,
    {
        let k: usize = i - skip;
        proof {
            all.lemma_filter_map_take_succ(f, k as int);
        }
        let ghost prev = all.take(k as int).filter_map(f);
        assert(ls@[i as int]@ == all[k as int]);
        match listing_line(fmt, &ls[i], versions, has_home, with_config) {
            Some(p) => {
                let ghost pv = p@;
                r.push(p);
                assert(package_views(r@) =~= prev + seq![pv]);
            },
            None => {
                assert(prev + Seq::<PackageModel>::empty() =~= prev);
            },
        }
        i = i + 1;
    }
    assert(all.take(i - skip) =~= all);
    r
}

/// Packages the user marked as installed, from `apt-mark showmanual`.
pub fn apt_mark_showmanual(out: &str, versions: &VersionMap) -> (r: Vec<Package>)
    ensures
        package_views(r@) == listing_packages(
            Listing::AptManual,
            out@,
            versions@,
            false,
            Seq::empty(),
        ),
{
    let none: Vec<String> = Vec::new();
    assert(string_views(none@) =~= Seq::<Seq<char>>::empty());
    parse_listing(Listing::AptManual, out, versions, false, &none)
}

/// Explicitly installed packages, from `pacman -Qeq`.
pub fn pacman_explicit(out: &str, versions: &VersionMap) -> (r: Vec<Package>)
    ensures
        package_views(r@) == listing_packages(
            Listing::PacmanExplicit,
            out@,
            versions@,
            false,
            Seq::empty(),
        ),
{
    let none: Vec<String> = Vec::new();
    assert(string_views(none@) =~= Seq::<Seq<char>>::empty());
    parse_listing(Listing::PacmanExplicit, out, versions, false, &none)
}

/// User-installed packages, from `dnf repoquery --userinstalled`.
pub fn dnf_userinstalled(out: &str) -> (r: Vec<Package>)
    ensures
        package_views(r@) == listing_packages(
            Listing::DnfUserInstalled,
            out@,
            Map::empty(),
            false,
            Seq::empty(),
        ),
{
    let none: Vec<String> = Vec::new();
    assert(string_views(none@) =~= Seq::<Seq<char>>::empty());
    let versions = VersionMap::new();
    parse_listing(Listing::DnfUserInstalled, out, &versions, false, &none)
}

/// Installed packages, from `zypper se -i --type package`.
pub fn zypper_installed(out: &str) -> (r: Vec<Package>)
    ensures
        package_views(r@) == listing_packages(
            Listing::ZypperInstalled,
            out@,
            Map::empty(),
            false,
            Seq::empty(),
        ),
{
    let none: Vec<String> = Vec::new();
    assert(string_views(none@) =~= Seq::<Seq<char>>::empty());
    let versions = VersionMap::new();
    parse_listing(Listing::ZypperInstalled, out, &versions, false, &none)
}

/// The Flatpak tab, from `flatpak list --app --columns=application,name,version`,
/// sorted by display name; `has_home` tells whether `HOME` is set, which the
/// config path shown for each app needs.
pub fn scan_flatpak(out: &str, has_home: bool) -> (r: Vec<Package>)
    ensures
        is_display_sort_of(
            package_views(r@),
            listing_packages(Listing::FlatpakApps, out@, Map::empty(), has_home, Seq::empty()),
        ),
{
    let none: Vec<String> = Vec::new();
    assert(string_views(none@) =~= Seq::<Seq<char>>::empty());
    let versions = VersionMap::new();
    let ps = parse_listing(Listing::FlatpakApps, out, &versions, has_home, &none);
    sort_by_display_name(ps)
}

pub open spec fn model_names(s: Seq<PackageModel>) -> Seq<Seq<char>> {
    s.map_values(|p: PackageModel| p.name)
}

/// The names of the snaps the snap tab lists, from `snap list`: the names
/// whose config directories are worth looking for.
pub fn snap_names(out: &str) -> (r: Vec<String>)
    ensures
        string_views(r@) == model_names(
            listing_packages(Listing::SnapList, out@, Map::empty(), false, Seq::empty()),
        ),
{
    let none: Vec<String> = Vec::new();
    assert(string_views(none@) =~= Seq::<Seq<char>>::empty());
    let versions = VersionMap::new();
    let ps = parse_listing(Listing::SnapList, out, &versions, false, &none);
    names_of(&ps)
}

/// The snap tab, from `snap list`, sorted by display name; `with_config`
/// names the snaps that have a `~/snap/<name>/current` directory.
pub fn scan_snap(out: &str, with_config: &Vec<String>) -> (r: Vec<Package>)
    ensures
        is_display_sort_of(
            package_views(r@),
            listing_packages(
                Listing::SnapList,
                out@,
                Map::empty(),
                false,
                string_views(with_config@),
            ),
        ),
{
    let versions = VersionMap::new();
    let ps = parse_listing(Listing::SnapList, out, &versions, false, with_config);
    sort_by_display_name(ps)
}

// ---------------------------------------------------------------------------
// Terminal tab and the whole scan
// ---------------------------------------------------------------------------

/// A package stays in the terminal tab unless it has a menu entry, is a
/// Flatpak, is system noise or is blacklisted.
pub open spec fn terminal_keeps(menu_names: Seq<Seq<char>>, flatpak_names: Seq<Seq<char>>) -> spec_fn(
    PackageModel,
) -> bool {
    |p: PackageModel|
        !menu_names.contains(p.name) && !flatpak_names.contains(p.name) && !has_listed_prefix(
            p.name,
            noise_prefixes(),
        ) && !has_listed_prefix(p.name, package_blacklist())
}

/// User-installed CLI packages: the host's listing without menu apps,
/// Flatpaks, system noise and blacklisted packages, in listing order.
pub fn scan_terminal(raw: Vec<Package>, menu_names: &Vec<String>, flatpak_names: &Vec<String>) -> (r:
    Vec<Package>)
    ensures
        package_views(r@) == package_views(raw@).filter(
            terminal_keeps(string_views(menu_names@), string_views(flatpak_names@)),
        ),
{
    let ghost f = terminal_keeps(string_views(menu_names@), string_views(flatpak_names@));
    let ghost s = package_views(raw@);
    let n = raw.len();
    let mut rest = raw;
    let mut out: Vec<Package> = Vec::new();
    let mut i: usize = 0;
    assert(s.take(0).filter(f) =~= Seq::<PackageModel>::empty()) by {
        reveal(Seq::filter);
    }
    assert(rest@ =~= raw@.skip(0));
    while rest.len() > 0
        invariant
            s == package_views(raw@),
            n == raw@.len(),
            f == terminal_keeps(string_views(menu_names@), string_views(flatpak_names@)),
            i <= n,
            rest@ == raw@.skip(i as int),
            package_views(out@) == s.take(i as int).filter(f),
        decreases rest@.len(),
    {
        assert(raw@.skip(i as int).len() > 0);
        let p = rest.remove(0);
        assert(p@ == s[i as int]);
        assert(s.take(i + 1) =~= s.take(i as int).push(p@));
        proof {
            s.take(i as int).lemma_filter_push(p@, f);
        }
        let name_v = chars_of(p.name.as_str());
        let keep = !contains_string(menu_names, &name_v) && !contains_string(flatpak_names, &name_v)
            && !is_system_noise(p.name.as_str()) && !is_blacklisted_package(p.name.as_str());
        assert(keep == f(p@));
        if keep {
            let ghost pv = p@;
            out.push(p);
            assert(package_views(out@) =~= s.take(i as int).filter(f).push(pv));
        }
        i = i + 1;
        assert(rest@ =~= raw@.skip(i as int));
    }
    assert(s.take(i as int) =~= s);
    out
}

fn names_of(ps: &Vec<Package>) -> (r: Vec<String>)
    ensures
        string_views(r@) == model_names(package_views(ps@)),
{
    let mut r: Vec<String> = Vec::new();
    let mut i: usize = 0;
    while i < ps.len()
        invariant
            i <= ps@.len(),
            string_views(r@) == model_names(package_views(ps@)).take(i as int),
        decreases ps@.len() - i,
    {
        let ghost before = string_views(r@);
        let nm = ps[i].name.clone();
        assert(model_names(package_views(ps@))[i as int] == nm@);
        r.push(nm);
        assert(string_views(r@) =~= before.push(nm@));
        i = i + 1;
        assert(string_views(r@) =~= model_names(package_views(ps@)).take(i as int));
    }
    assert(model_names(package_views(ps@)).take(i as int) =~= model_names(package_views(ps@)));
    r
}

/// What the host's package tool printed, as far as it could be run.
#[derive(Debug)]
pub enum HostListing {
    /// `dpkg-query --show` with the status format, and `apt-mark showmanual`.
    Apt { status: String, manual: String },
    /// `dnf repoquery --userinstalled --qf '%{name}\t%{version}'`.
    Dnf(String),
    /// `pacman -Q`, and `pacman -Qeq`.
    Pacman { installed: String, explicit: String },
    /// `zypper --no-refresh se -i --type package`.
    Zypper(String),
    /// The host's package tool is not installed.
    Missing,
}

/// The host's user-installed packages, before the terminal-tab filters: the
/// listing of the package tool of the host's family; none for an unknown
/// host, a missing tool or a listing of another family's tool.
pub open spec fn spec_host_packages(distro: Distro, host: HostListing) -> Seq<PackageModel> {
    match (distro, host) {
        (Distro::Debian, HostListing::Apt { status, manual }) => listing_packages(
            Listing::AptManual,
            manual@,
            spec_dpkg_version_map(status@),
            false,
            Seq::empty(),
        ),
        (Distro::Fedora, HostListing::Dnf(out)) => listing_packages(
            Listing::DnfUserInstalled,
            out@,
            Map::empty(),
            false,
            Seq::empty(),
        ),
        (Distro::Arch, HostListing::Pacman { installed, explicit }) => listing_packages(
            Listing::PacmanExplicit,
            explicit@,
            spec_pacman_version_map(installed@),
            false,
            Seq::empty(),
        ),
        (Distro::OpenSuse, HostListing::Zypper(out)) => listing_packages(
            Listing::ZypperInstalled,
            out@,
            Map::empty(),
            false,
            Seq::empty(),
        ),
        _ => Seq::empty(),
    }
}

/// The host's user-installed packages, from the output of its package tool.
pub fn host_packages(distro: Distro, host: HostListing) -> (r: Vec<Package>)
    ensures
        package_views(r@) == spec_host_packages(distro, host),
{
    let ghost h = host;
    let r = match (distro, host) {
        (Distro::Debian, HostListing::Apt { status, manual }) => {
            let versions = dpkg_version_map(status.as_str());
            apt_mark_showmanual(manual.as_str(), &versions)
        },
        (Distro::Fedora, HostListing::Dnf(out)) => dnf_userinstalled(out.as_str()),
        (Distro::Arch, HostListing::Pacman { installed, explicit }) => {
            let versions = pacman_version_map(installed.as_str());
            pacman_explicit(explicit.as_str(), &versions)
        },
        (Distro::OpenSuse, HostListing::Zypper(out)) => zypper_installed(out.as_str()),
        _ => Vec::new(),
    };
    proof {
        if spec_host_packages(distro, h) =~= Seq::<PackageModel>::empty() {
            assert(package_views(r@) =~= Seq::<PackageModel>::empty()) by {
                if r@.len() == 0 {}
            }
        }
    }
    r
}

/// The Flatpak apps listed, if `flatpak` is installed.
pub open spec fn spec_flatpak_listing(out: Option<Seq<char>>, has_home: bool) -> Seq<PackageModel> {
    match out {
        Some(o) => listing_packages(Listing::FlatpakApps, o, Map::empty(), has_home, Seq::empty()),
        None => Seq::empty(),
    }
}

/// The snaps listed, if `snap` is installed.
pub open spec fn spec_snap_listing(out: Option<Seq<char>>, with_config: Seq<Seq<char>>) -> Seq<
    PackageModel,
> {
    match out {
        Some(o) => listing_packages(Listing::SnapList, o, Map::empty(), false, with_config),
        None => Seq::empty(),
    }
}

/// The Flatpak IDs that the packages carry.
pub open spec fn spec_flatpak_ids(s: Seq<PackageModel>) -> Seq<Seq<char>> {
    s.filter_map(|p: PackageModel| p.flatpak_id)
}

fn flatpak_ids_of(ps: &Vec<Package>) -> (r: Vec<String>)
    ensures
        string_views(r@) == spec_flatpak_ids(package_views(ps@)),
{
    let ghost s = package_views(ps@);
    let ghost f = |p: PackageModel| p.flatpak_id;
    let mut r: Vec<String> = Vec::new();
    let mut i: usize = 0;
    assert(s.take(0).filter_map(f) =~= Seq::<Seq<char>>::empty());
    assert(string_views(r@) =~= Seq::<Seq<char>>::empty());
    while i < ps.len()
        invariant
            s == package_views(ps@),
            f == (|p: PackageModel| p.flatpak_id),
            i <= ps@.len(),
            string_views(r@) == s.take(i as int).filter_map(f),
        decreases ps@.len() - i,
    {
        proof {
            s.lemma_filter_map_take_succ(f, i as int);
        }
        let ghost prev = string_views(r@);
        assert(s[i as int] == ps@[i as int]@);
        match &ps[i].flatpak_id {
            Some(id) => {
                r.push(id.clone());
                assert(string_views(r@) =~= prev + seq![id@]);
            },
            None => {
                assert(prev + Seq::<Seq<char>>::empty() =~= prev);
            },
        }
        i = i + 1;
    }
    assert(s.take(i as int) =~= s);
    r
}

fn empty_tab() -> (r: Vec<Package>)
    ensures
        is_display_sort_of(package_views(r@), Seq::empty()),
{
    let r: Vec<Package> = Vec::new();
    assert(package_views(r@) =~= Seq::<PackageModel>::empty());
    assert forall|k: Seq<char>| #[trigger] package_views(r@).filter(crate::order::with_display(k))
        == Seq::<PackageModel>::empty().filter(crate::order::with_display(k)) by {
        assert(Seq::<PackageModel>::empty().filter(crate::order::with_display(k)) =~= Seq::<
            PackageModel,
        >::empty()) by {
            reveal(Seq::filter);
        }
    }
    r
}

/// How a scan's tabs come from what was found on the system.
pub open spec fn is_scan_of(
    r: PackageList,
    distro: Distro,
    system: Seq<MenuCandidate>,
    local: Seq<MenuCandidate>,
    flatpak_out: Option<Seq<char>>,
    has_home: bool,
    host: HostListing,
    snap_out: Option<Seq<char>>,
    snap_with_config: Seq<Seq<char>>,
) -> bool {
    &&& is_display_sort_of(package_views(r.flatpak@), spec_flatpak_listing(flatpak_out, has_home))
    &&& is_display_sort_of(
        package_views(r.menu@),
        first_of_each_name(
            menu_entries(system, local).filter(
                menu_keeps(spec_flatpak_ids(package_views(r.flatpak@))),
            ),
        ),
    )
    &&& package_views(r.terminal@) == spec_host_packages(distro, host).filter(
        terminal_keeps(
            model_names(package_views(r.menu@)),
            model_names(package_views(r.flatpak@)),
        ),
    )
    &&& is_display_sort_of(package_views(r.snap@), spec_snap_listing(snap_out, snap_with_config))
}

/// The scanned inventory. The Flatpak tab comes from `flatpak list` (`None`
/// when Flatpak is not installed; `has_home` tells whether `HOME` is set);
/// the menu tab from the `.desktop` files of the system directory and the
/// user's own, without the apps of the Flatpak tab; the terminal tab from the
/// host's package tool, without what the menu and Flatpak tabs hold; the
/// snap tab from `snap list` (`None` when snap is not installed), where
/// `snap_with_config` names the snaps that have a config directory.
pub fn scan_system(
    distro: Distro,
    system: Vec<MenuCandidate>,
    local: Vec<MenuCandidate>,
    flatpak_out: Option<String>,
    has_home: bool,
    host: HostListing,
    snap_out: Option<String>,
    snap_with_config: &Vec<String>,
) -> (r: PackageList)
    ensures
        is_scan_of(
            r,
            distro,
            system@,
            local@,
            flatpak_out.deep_view(),
            has_home,
            host,
            snap_out.deep_view(),
            string_views(snap_with_config@),
        ),
{
    let ghost sys = system@;
    let ghost loc = local@;
    let flatpak = match &flatpak_out {
        Some(o) => scan_flatpak(o.as_str(), has_home),
        None => empty_tab(),
    };
    let flatpak_ids = flatpak_ids_of(&flatpak);
    let menu = menu_tab(system, local, &flatpak_ids);
    let menu_names = names_of(&menu);
    let flatpak_names = names_of(&flatpak);
    let raw = host_packages(distro, host);
    let terminal = scan_terminal(raw, &menu_names, &flatpak_names);
    let snap = match &snap_out {
        Some(o) => scan_snap(o.as_str(), snap_with_config),
        None => empty_tab(),
    };
    PackageList { menu, terminal, flatpak, snap }
}

} // verus!
