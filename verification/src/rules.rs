//! Laws that state the rules of the scan and of the script collection in
//! their own words: the prefixes that mark system noise, the distro IDs of
//! each family, the icon names that stand for packages, the settings
//! directory names, and what is collected for the script.

use vstd::prelude::*;

use crate::config::spec_config_candidates;
use crate::desktop::{
    binary_name, first_of_each_name, spec_dpkg_query_paths, spec_icon_name, spec_menu_name,
    system_prefixes, DesktopFields,
};
use crate::osrelease::{spec_classify_os_id, spec_classify_os_like};
use crate::resolver::{
    is_apt_family, spec_label, spec_repology_repo, spec_slug, ResolutionModel, TargetDistro,
};
use crate::scanner::{
    desktop_blacklist, has_listed_prefix, noise_prefixes, package_blacklist, package_views,
    snap_base_prefixes, spec_is_snap_base, Distro, PackageList,
};
use crate::text::has_substring;
use crate::selection::{all_of, is_selected, spec_selected_for_generation};

verus! {

/// A package name is system noise exactly when it starts with one of these
/// prefixes: `lib`, `gir1.2-`, `python3-`, `python-`, `linux-`, `fonts-`,
/// `xserver-`, `x11-`, `xfonts-`, `perl`, `ruby`, `r-`, `golang-`, `ghc-`,
/// `haskell-`, `ocaml-`, `texlive-`, `libreoffice-l10n-`,
/// `libreoffice-help-`, `kde-`, `kdelibs-`, `plasma-`.
pub proof fn lemma_system_noise_prefixes(name: Seq<char>)
    ensures
        has_listed_prefix(name, noise_prefixes()) <==> (
            "lib"@.is_prefix_of(name) ||
            "gir1.2-"@.is_prefix_of(name) ||
            "python3-"@.is_prefix_of(name) ||
            "python-"@.is_prefix_of(name) ||
            "linux-"@.is_prefix_of(name) ||
            "fonts-"@.is_prefix_of(name) ||
            "xserver-"@.is_prefix_of(name) ||
            "x11-"@.is_prefix_of(name) ||
            "xfonts-"@.is_prefix_of(name) ||
            "perl"@.is_prefix_of(name) ||
            "ruby"@.is_prefix_of(name) ||
            "r-"@.is_prefix_of(name) ||
            "golang-"@.is_prefix_of(name) ||
            "ghc-"@.is_prefix_of(name) ||
            "haskell-"@.is_prefix_of(name) ||
            "ocaml-"@.is_prefix_of(name) ||
            "texlive-"@.is_prefix_of(name) ||
            "libreoffice-l10n-"@.is_prefix_of(name) ||
            "libreoffice-help-"@.is_prefix_of(name) ||
            "kde-"@.is_prefix_of(name) ||
            "kdelibs-"@.is_prefix_of(name) ||
            "plasma-"@.is_prefix_of(name)
        ),
{
    let l = noise_prefixes();
    if has_listed_prefix(name, l) {
        let i = choose|i: int| 0 <= i < l.len() && (#[trigger] l[i]).is_prefix_of(name);
        assert(l[0] == "lib"@);
        assert(l[1] == "gir1.2-"@);
        assert(l[2] == "python3-"@);
        assert(l[3] == "python-"@);
        assert(l[4] == "linux-"@);
        assert(l[5] == "fonts-"@);
        assert(l[6] == "xserver-"@);
        assert(l[7] == "x11-"@);
        assert(l[8] == "xfonts-"@);
        assert(l[9] == "perl"@);
        assert(l[10] == "ruby"@);
        assert(l[11] == "r-"@);
        assert(l[12] == "golang-"@);
        assert(l[13] == "ghc-"@);
        assert(l[14] == "haskell-"@);
        assert(l[15] == "ocaml-"@);
        assert(l[16] == "texlive-"@);
        assert(l[17] == "libreoffice-l10n-"@);
        assert(l[18] == "libreoffice-help-"@);
        assert(l[19] == "kde-"@);
        assert(l[20] == "kdelibs-"@);
        assert(l[21] == "plasma-"@);
    }
    if "lib"@.is_prefix_of(name) {
        assert(l[0] == "lib"@);
    }
    if "gir1.2-"@.is_prefix_of(name) {
        assert(l[1] == "gir1.2-"@);
    }
    if "python3-"@.is_prefix_of(name) {
        assert(l[2] == "python3-"@);
    }
    if "python-"@.is_prefix_of(name) {
        assert(l[3] == "python-"@);
    }
    if "linux-"@.is_prefix_of(name) {
        assert(l[4] == "linux-"@);
    }
    if "fonts-"@.is_prefix_of(name) {
        assert(l[5] == "fonts-"@);
    }
    if "xserver-"@.is_prefix_of(name) {
        assert(l[6] == "xserver-"@);
    }
    if "x11-"@.is_prefix_of(name) {
        assert(l[7] == "x11-"@);
    }
    if "xfonts-"@.is_prefix_of(name) {
        assert(l[8] == "xfonts-"@);
    }
    if "perl"@.is_prefix_of(name) {
        assert(l[9] == "perl"@);
    }
    if "ruby"@.is_prefix_of(name) {
        assert(l[10] == "ruby"@);
    }
    if "r-"@.is_prefix_of(name) {
        assert(l[11] == "r-"@);
    }
    if "golang-"@.is_prefix_of(name) {
        assert(l[12] == "golang-"@);
    }
    if "ghc-"@.is_prefix_of(name) {
        assert(l[13] == "ghc-"@);
    }
    if "haskell-"@.is_prefix_of(name) {
        assert(l[14] == "haskell-"@);
    }
    if "ocaml-"@.is_prefix_of(name) {
        assert(l[15] == "ocaml-"@);
    }
    if "texlive-"@.is_prefix_of(name) {
        assert(l[16] == "texlive-"@);
    }
    if "libreoffice-l10n-"@.is_prefix_of(name) {
        assert(l[17] == "libreoffice-l10n-"@);
    }
    if "libreoffice-help-"@.is_prefix_of(name) {
        assert(l[18] == "libreoffice-help-"@);
    }
    if "kde-"@.is_prefix_of(name) {
        assert(l[19] == "kde-"@);
    }
    if "kdelibs-"@.is_prefix_of(name) {
        assert(l[20] == "kdelibs-"@);
    }
    if "plasma-"@.is_prefix_of(name) {
        assert(l[21] == "plasma-"@);
    }
}

/// A package name is blacklisted exactly when it starts with one of
/// `nvidia`, `nvidia-settings`, `nvidia-prime-applet`, `mint-`, `mintupdate`, `mintinstall`, `mintdrivers`, `mintwelcome`, `mintreport`, `mintsources`, `mintlocale`, `mintbackup`, `mintstick`, `mintsystem`, `mintmenu`, `mint-info-`, `mint-meta-`, `mint-artwork`, `mint-common`, `lightdm`, `slick-greeter`, `lightdm-settings`, `driver-manager`, `ubuntu-drivers`, `gnome-initial-setup`, `ubiquity`, `calamares`.
pub proof fn lemma_package_blacklist_prefixes(name: Seq<char>)
    ensures
        has_listed_prefix(name, package_blacklist()) <==> (
            "nvidia"@.is_prefix_of(name) ||
            "nvidia-settings"@.is_prefix_of(name) ||
            "nvidia-prime-applet"@.is_prefix_of(name) ||
            "mint-"@.is_prefix_of(name) ||
            "mintupdate"@.is_prefix_of(name) ||
            "mintinstall"@.is_prefix_of(name) ||
            "mintdrivers"@.is_prefix_of(name) ||
            "mintwelcome"@.is_prefix_of(name) ||
            "mintreport"@.is_prefix_of(name) ||
            "mintsources"@.is_prefix_of(name) ||
            "mintlocale"@.is_prefix_of(name) ||
            "mintbackup"@.is_prefix_of(name) ||
            "mintstick"@.is_prefix_of(name) ||
            "mintsystem"@.is_prefix_of(name) ||
            "mintmenu"@.is_prefix_of(name) ||
            "mint-info-"@.is_prefix_of(name) ||
            "mint-meta-"@.is_prefix_of(name) ||
            "mint-artwork"@.is_prefix_of(name) ||
            "mint-common"@.is_prefix_of(name) ||
            "lightdm"@.is_prefix_of(name) ||
            "slick-greeter"@.is_prefix_of(name) ||
            "lightdm-settings"@.is_prefix_of(name) ||
            "driver-manager"@.is_prefix_of(name) ||
            "ubuntu-drivers"@.is_prefix_of(name) ||
            "gnome-initial-setup"@.is_prefix_of(name) ||
            "ubiquity"@.is_prefix_of(name) ||
            "calamares"@.is_prefix_of(name)
        ),
{
    let l = package_blacklist();
    if has_listed_prefix(name, l) {
        let i = choose|i: int| 0 <= i < l.len() && (#[trigger] l[i]).is_prefix_of(name);
        assert(l[0] == "nvidia"@);
        assert(l[1] == "nvidia-settings"@);
        assert(l[2] == "nvidia-prime-applet"@);
        assert(l[3] == "mint-"@);
        assert(l[4] == "mintupdate"@);
        assert(l[5] == "mintinstall"@);
        assert(l[6] == "mintdrivers"@);
        assert(l[7] == "mintwelcome"@);
        assert(l[8] == "mintreport"@);
        assert(l[9] == "mintsources"@);
        assert(l[10] == "mintlocale"@);
        assert(l[11] == "mintbackup"@);
        assert(l[12] == "mintstick"@);
        assert(l[13] == "mintsystem"@);
        assert(l[14] == "mintmenu"@);
        assert(l[15] == "mint-info-"@);
        assert(l[16] == "mint-meta-"@);
        assert(l[17] == "mint-artwork"@);
        assert(l[18] == "mint-common"@);
        assert(l[19] == "lightdm"@);
        assert(l[20] == "slick-greeter"@);
        assert(l[21] == "lightdm-settings"@);
        assert(l[22] == "driver-manager"@);
        assert(l[23] == "ubuntu-drivers"@);
        assert(l[24] == "gnome-initial-setup"@);
        assert(l[25] == "ubiquity"@);
        assert(l[26] == "calamares"@);
    }
    if "nvidia"@.is_prefix_of(name) {
        assert(l[0] == "nvidia"@);
    }
    if "nvidia-settings"@.is_prefix_of(name) {
        assert(l[1] == "nvidia-settings"@);
    }
    if "nvidia-prime-applet"@.is_prefix_of(name) {
        assert(l[2] == "nvidia-prime-applet"@);
    }
    if "mint-"@.is_prefix_of(name) {
        assert(l[3] == "mint-"@);
    }
    if "mintupdate"@.is_prefix_of(name) {
        assert(l[4] == "mintupdate"@);
    }
    if "mintinstall"@.is_prefix_of(name) {
        assert(l[5] == "mintinstall"@);
    }
    if "mintdrivers"@.is_prefix_of(name) {
        assert(l[6] == "mintdrivers"@);
    }
    if "mintwelcome"@.is_prefix_of(name) {
        assert(l[7] == "mintwelcome"@);
    }
    if "mintreport"@.is_prefix_of(name) {
        assert(l[8] == "mintreport"@);
    }
    if "mintsources"@.is_prefix_of(name) {
        assert(l[9] == "mintsources"@);
    }
    if "mintlocale"@.is_prefix_of(name) {
        assert(l[10] == "mintlocale"@);
    }
    if "mintbackup"@.is_prefix_of(name) {
        assert(l[11] == "mintbackup"@);
    }
    if "mintstick"@.is_prefix_of(name) {
        assert(l[12] == "mintstick"@);
    }
    if "mintsystem"@.is_prefix_of(name) {
        assert(l[13] == "mintsystem"@);
    }
    if "mintmenu"@.is_prefix_of(name) {
        assert(l[14] == "mintmenu"@);
    }
    if "mint-info-"@.is_prefix_of(name) {
        assert(l[15] == "mint-info-"@);
    }
    if "mint-meta-"@.is_prefix_of(name) {
        assert(l[16] == "mint-meta-"@);
    }
    if "mint-artwork"@.is_prefix_of(name) {
        assert(l[17] == "mint-artwork"@);
    }
    if "mint-common"@.is_prefix_of(name) {
        assert(l[18] == "mint-common"@);
    }
    if "lightdm"@.is_prefix_of(name) {
        assert(l[19] == "lightdm"@);
    }
    if "slick-greeter"@.is_prefix_of(name) {
        assert(l[20] == "slick-greeter"@);
    }
    if "lightdm-settings"@.is_prefix_of(name) {
        assert(l[21] == "lightdm-settings"@);
    }
    if "driver-manager"@.is_prefix_of(name) {
        assert(l[22] == "driver-manager"@);
    }
    if "ubuntu-drivers"@.is_prefix_of(name) {
        assert(l[23] == "ubuntu-drivers"@);
    }
    if "gnome-initial-setup"@.is_prefix_of(name) {
        assert(l[24] == "gnome-initial-setup"@);
    }
    if "ubiquity"@.is_prefix_of(name) {
        assert(l[25] == "ubiquity"@);
    }
    if "calamares"@.is_prefix_of(name) {
        assert(l[26] == "calamares"@);
    }
}

/// A `.desktop` file stem is blacklisted exactly when it starts with one of
/// `cinnamon`, `cinnamon2d`, `cinnamon-killer-daemon`, `cinnamon-settings`, `cinnamon-color-panel`, `cinnamon-display-panel`, `cinnamon-menu-editor`, `cinnamon-network-panel`, `cinnamon-onscreen-keyboard`, `cinnamon-screensaver-command`, `gnome-control-center`, `gnome-session-properties`, `software-properties-gtk`, `software-properties-kde`, `update-manager`, `mintupdate`, `mintwelcome`, `mintinstall`, `mintdrivers`, `mintreport`, `mintsources`, `mintlocale`, `mintbackup`, `mintstick`, `webapp-manager`, `nvidia-settings`, `nvidia-prime-applet`, `lightdm-settings`, `slick-greeter`, `im-config`, `ibus`, `ibus-setup`, `nm-connection-editor`.
pub proof fn lemma_desktop_blacklist_prefixes(name: Seq<char>)
    ensures
        has_listed_prefix(name, desktop_blacklist()) <==> (
            "cinnamon"@.is_prefix_of(name) ||
            "cinnamon2d"@.is_prefix_of(name) ||
            "cinnamon-killer-daemon"@.is_prefix_of(name) ||
            "cinnamon-settings"@.is_prefix_of(name) ||
            "cinnamon-color-panel"@.is_prefix_of(name) ||
            "cinnamon-display-panel"@.is_prefix_of(name) ||
            "cinnamon-menu-editor"@.is_prefix_of(name) ||
            "cinnamon-network-panel"@.is_prefix_of(name) ||
            "cinnamon-onscreen-keyboard"@.is_prefix_of(name) ||
            "cinnamon-screensaver-command"@.is_prefix_of(name) ||
            "gnome-control-center"@.is_prefix_of(name) ||
            "gnome-session-properties"@.is_prefix_of(name) ||
            "software-properties-gtk"@.is_prefix_of(name) ||
            "software-properties-kde"@.is_prefix_of(name) ||
            "update-manager"@.is_prefix_of(name) ||
            "mintupdate"@.is_prefix_of(name) ||
            "mintwelcome"@.is_prefix_of(name) ||
            "mintinstall"@.is_prefix_of(name) ||
            "mintdrivers"@.is_prefix_of(name) ||
            "mintreport"@.is_prefix_of(name) ||
            "mintsources"@.is_prefix_of(name) ||
            "mintlocale"@.is_prefix_of(name) ||
            "mintbackup"@.is_prefix_of(name) ||
            "mintstick"@.is_prefix_of(name) ||
            "webapp-manager"@.is_prefix_of(name) ||
            "nvidia-settings"@.is_prefix_of(name) ||
            "nvidia-prime-applet"@.is_prefix_of(name) ||
            "lightdm-settings"@.is_prefix_of(name) ||
            "slick-greeter"@.is_prefix_of(name) ||
            "im-config"@.is_prefix_of(name) ||
            "ibus"@.is_prefix_of(name) ||
            "ibus-setup"@.is_prefix_of(name) ||
            "nm-connection-editor"@.is_prefix_of(name)
        ),
{
    let l = desktop_blacklist();
    if has_listed_prefix(name, l) {
        let i = choose|i: int| 0 <= i < l.len() && (#[trigger] l[i]).is_prefix_of(name);
        assert(l[0] == "cinnamon"@);
        assert(l[1] == "cinnamon2d"@);
        assert(l[2] == "cinnamon-killer-daemon"@);
        assert(l[3] == "cinnamon-settings"@);
        assert(l[4] == "cinnamon-color-panel"@);
        assert(l[5] == "cinnamon-display-panel"@);
        assert(l[6] == "cinnamon-menu-editor"@);
        assert(l[7] == "cinnamon-network-panel"@);
        assert(l[8] == "cinnamon-onscreen-keyboard"@);
        assert(l[9] == "cinnamon-screensaver-command"@);
        assert(l[10] == "gnome-control-center"@);
        assert(l[11] == "gnome-session-properties"@);
        assert(l[12] == "software-properties-gtk"@);
        assert(l[13] == "software-properties-kde"@);
        assert(l[14] == "update-manager"@);
        assert(l[15] == "mintupdate"@);
        assert(l[16] == "mintwelcome"@);
        assert(l[17] == "mintinstall"@);
        assert(l[18] == "mintdrivers"@);
        assert(l[19] == "mintreport"@);
        assert(l[20] == "mintsources"@);
        assert(l[21] == "mintlocale"@);
        assert(l[22] == "mintbackup"@);
        assert(l[23] == "mintstick"@);
        assert(l[24] == "webapp-manager"@);
        assert(l[25] == "nvidia-settings"@);
        assert(l[26] == "nvidia-prime-applet"@);
        assert(l[27] == "lightdm-settings"@);
        assert(l[28] == "slick-greeter"@);
        assert(l[29] == "im-config"@);
        assert(l[30] == "ibus"@);
        assert(l[31] == "ibus-setup"@);
        assert(l[32] == "nm-connection-editor"@);
    }
    if "cinnamon"@.is_prefix_of(name) {
        assert(l[0] == "cinnamon"@);
    }
    if "cinnamon2d"@.is_prefix_of(name) {
        assert(l[1] == "cinnamon2d"@);
    }
    if "cinnamon-killer-daemon"@.is_prefix_of(name) {
        assert(l[2] == "cinnamon-killer-daemon"@);
    }
    if "cinnamon-settings"@.is_prefix_of(name) {
        assert(l[3] == "cinnamon-settings"@);
    }
    if "cinnamon-color-panel"@.is_prefix_of(name) {
        assert(l[4] == "cinnamon-color-panel"@);
    }
    if "cinnamon-display-panel"@.is_prefix_of(name) {
        assert(l[5] == "cinnamon-display-panel"@);
    }
    if "cinnamon-menu-editor"@.is_prefix_of(name) {
        assert(l[6] == "cinnamon-menu-editor"@);
    }
    if "cinnamon-network-panel"@.is_prefix_of(name) {
        assert(l[7] == "cinnamon-network-panel"@);
    }
    if "cinnamon-onscreen-keyboard"@.is_prefix_of(name) {
        assert(l[8] == "cinnamon-onscreen-keyboard"@);
    }
    if "cinnamon-screensaver-command"@.is_prefix_of(name) {
        assert(l[9] == "cinnamon-screensaver-command"@);
    }
    if "gnome-control-center"@.is_prefix_of(name) {
        assert(l[10] == "gnome-control-center"@);
    }
    if "gnome-session-properties"@.is_prefix_of(name) {
        assert(l[11] == "gnome-session-properties"@);
    }
    if "software-properties-gtk"@.is_prefix_of(name) {
        assert(l[12] == "software-properties-gtk"@);
    }
    if "software-properties-kde"@.is_prefix_of(name) {
        assert(l[13] == "software-properties-kde"@);
    }
    if "update-manager"@.is_prefix_of(name) {
        assert(l[14] == "update-manager"@);
    }
    if "mintupdate"@.is_prefix_of(name) {
        assert(l[15] == "mintupdate"@);
    }
    if "mintwelcome"@.is_prefix_of(name) {
        assert(l[16] == "mintwelcome"@);
    }
    if "mintinstall"@.is_prefix_of(name) {
        assert(l[17] == "mintinstall"@);
    }
    if "mintdrivers"@.is_prefix_of(name) {
        assert(l[18] == "mintdrivers"@);
    }
    if "mintreport"@.is_prefix_of(name) {
        assert(l[19] == "mintreport"@);
    }
    if "mintsources"@.is_prefix_of(name) {
        assert(l[20] == "mintsources"@);
    }
    if "mintlocale"@.is_prefix_of(name) {
        assert(l[21] == "mintlocale"@);
    }
    if "mintbackup"@.is_prefix_of(name) {
        assert(l[22] == "mintbackup"@);
    }
    if "mintstick"@.is_prefix_of(name) {
        assert(l[23] == "mintstick"@);
    }
    if "webapp-manager"@.is_prefix_of(name) {
        assert(l[24] == "webapp-manager"@);
    }
    if "nvidia-settings"@.is_prefix_of(name) {
        assert(l[25] == "nvidia-settings"@);
    }
    if "nvidia-prime-applet"@.is_prefix_of(name) {
        assert(l[26] == "nvidia-prime-applet"@);
    }
    if "lightdm-settings"@.is_prefix_of(name) {
        assert(l[27] == "lightdm-settings"@);
    }
    if "slick-greeter"@.is_prefix_of(name) {
        assert(l[28] == "slick-greeter"@);
    }
    if "im-config"@.is_prefix_of(name) {
        assert(l[29] == "im-config"@);
    }
    if "ibus"@.is_prefix_of(name) {
        assert(l[30] == "ibus"@);
    }
    if "ibus-setup"@.is_prefix_of(name) {
        assert(l[31] == "ibus-setup"@);
    }
    if "nm-connection-editor"@.is_prefix_of(name) {
        assert(l[32] == "nm-connection-editor"@);
    }
}

/// A snap is a base or platform snap exactly when it is `snapd`, `core` or
/// `bare`, starts with `core1`, `core2`, `gtk-common-themes`, `kde-frameworks`, `mesa-`, or is `gnome-` followed by a digit.
pub proof fn lemma_snap_bases(name: Seq<char>)
    ensures
        spec_is_snap_base(name) <==> (
            name == "snapd"@ || name == "core"@ || name == "bare"@ ||
            "core1"@.is_prefix_of(name) ||
            "core2"@.is_prefix_of(name) ||
            "gtk-common-themes"@.is_prefix_of(name) ||
            "kde-frameworks"@.is_prefix_of(name) ||
            "mesa-"@.is_prefix_of(name) ||
            ("gnome-"@.is_prefix_of(name) && name.len() > 6 && '0' <= name[6] && name[6] <= '9')
        ),
{
    let l = snap_base_prefixes();
    if has_listed_prefix(name, l) {
        let i = choose|i: int| 0 <= i < l.len() && (#[trigger] l[i]).is_prefix_of(name);
        assert(l[0] == "core1"@);
        assert(l[1] == "core2"@);
        assert(l[2] == "gtk-common-themes"@);
        assert(l[3] == "kde-frameworks"@);
        assert(l[4] == "mesa-"@);
    }
    if "core1"@.is_prefix_of(name) {
        assert(l[0] == "core1"@);
    }
    if "core2"@.is_prefix_of(name) {
        assert(l[1] == "core2"@);
    }
    if "gtk-common-themes"@.is_prefix_of(name) {
        assert(l[2] == "gtk-common-themes"@);
    }
    if "kde-frameworks"@.is_prefix_of(name) {
        assert(l[3] == "kde-frameworks"@);
    }
    if "mesa-"@.is_prefix_of(name) {
        assert(l[4] == "mesa-"@);
    }
}

/// The family named by an `ID_LIKE=` value: Debian's when it mentions
/// `debian` or `ubuntu`; else Fedora's when it mentions `fedora` or `rhel`;
/// else Arch's when it mentions `arch`; else openSUSE's when it mentions
/// `suse`; else none.
pub proof fn lemma_distro_like(like: Seq<char>)
    ensures
        has_substring(like, "debian"@) || has_substring(like, "ubuntu"@) ==> spec_classify_os_like(
            like,
        ) == Distro::Debian,
        !(has_substring(like, "debian"@) || has_substring(like, "ubuntu"@)) && (has_substring(
            like,
            "fedora"@,
        ) || has_substring(like, "rhel"@)) ==> spec_classify_os_like(like) == Distro::Fedora,
        !(has_substring(like, "debian"@) || has_substring(like, "ubuntu"@) || has_substring(
            like,
            "fedora"@,
        ) || has_substring(like, "rhel"@)) && has_substring(like, "arch"@) ==> spec_classify_os_like(
            like,
        ) == Distro::Arch,
        !(has_substring(like, "debian"@) || has_substring(like, "ubuntu"@) || has_substring(
            like,
            "fedora"@,
        ) || has_substring(like, "rhel"@) || has_substring(like, "arch"@)) && has_substring(
            like,
            "suse"@,
        ) ==> spec_classify_os_like(like) == Distro::OpenSuse,
        !(has_substring(like, "debian"@) || has_substring(like, "ubuntu"@) || has_substring(
            like,
            "fedora"@,
        ) || has_substring(like, "rhel"@) || has_substring(like, "arch"@) || has_substring(
            like,
            "suse"@,
        )) ==> spec_classify_os_like(like) == Distro::Unknown,
{
}

/// Each target's name on screen, its Repology repository, the slug its
/// script is named by, and whether it is of the apt family:
/// Debian: "Debian", `debian_stable`, `debian`, apt.
/// Ubuntu: "Ubuntu", `ubuntu_24_04`, `ubuntu`, apt.
/// Mint: "Linux Mint", `ubuntu_24_04`, `mint`, apt.
/// PopOs: "Pop!_OS", `ubuntu_24_04`, `popos`, apt.
/// Fedora: "Fedora", `fedora_44`, `fedora`, not apt.
/// Arch: "Arch Linux", `arch`, `arch`, not apt.
/// Manjaro: "Manjaro", `manjaro_stable`, `manjaro`, not apt.
/// OpenSuse: "openSUSE", `opensuse_tumbleweed`, `opensuse`, not apt.
pub proof fn lemma_target_table(t: TargetDistro)
    ensures
        t == TargetDistro::Debian ==> spec_label(t) == "Debian"@ && spec_repology_repo(t) == "debian_stable"@
            && spec_slug(t) == "debian"@ && is_apt_family(t),
        t == TargetDistro::Ubuntu ==> spec_label(t) == "Ubuntu"@ && spec_repology_repo(t) == "ubuntu_24_04"@
            && spec_slug(t) == "ubuntu"@ && is_apt_family(t),
        t == TargetDistro::Mint ==> spec_label(t) == "Linux Mint"@ && spec_repology_repo(t) == "ubuntu_24_04"@
            && spec_slug(t) == "mint"@ && is_apt_family(t),
        t == TargetDistro::PopOs ==> spec_label(t) == "Pop!_OS"@ && spec_repology_repo(t) == "ubuntu_24_04"@
            && spec_slug(t) == "popos"@ && is_apt_family(t),
        t == TargetDistro::Fedora ==> spec_label(t) == "Fedora"@ && spec_repology_repo(t) == "fedora_44"@
            && spec_slug(t) == "fedora"@ && !is_apt_family(t),
        t == TargetDistro::Arch ==> spec_label(t) == "Arch Linux"@ && spec_repology_repo(t) == "arch"@
            && spec_slug(t) == "arch"@ && !is_apt_family(t),
        t == TargetDistro::Manjaro ==> spec_label(t) == "Manjaro"@ && spec_repology_repo(t) == "manjaro_stable"@
            && spec_slug(t) == "manjaro"@ && !is_apt_family(t),
        t == TargetDistro::OpenSuse ==> spec_label(t) == "openSUSE"@ && spec_repology_repo(t) == "opensuse_tumbleweed"@
            && spec_slug(t) == "opensuse"@ && !is_apt_family(t),
{
}

/// dpkg is asked about a binary at `/usr/bin/`, `/usr/libexec/`,
/// `/usr/local/bin/` and `/bin/`, in that order, under the binary's own
/// name; not at all for an empty name or for an absolute path outside
/// `/usr/`, `/bin/`, `/sbin/` and `/opt/` (a local install).
pub proof fn lemma_dpkg_query_order(binary: Seq<char>)
    ensures
        ("/"@.is_prefix_of(binary) && !"/usr/"@.is_prefix_of(binary) && !"/bin/"@.is_prefix_of(binary)
            && !"/sbin/"@.is_prefix_of(binary) && !"/opt/"@.is_prefix_of(binary)) || binary_name(
            binary,
        ).len() == 0 ==> spec_dpkg_query_paths(binary).len() == 0,
        !("/"@.is_prefix_of(binary) && !"/usr/"@.is_prefix_of(binary) && !"/bin/"@.is_prefix_of(
            binary,
        ) && !"/sbin/"@.is_prefix_of(binary) && !"/opt/"@.is_prefix_of(binary)) && binary_name(
            binary,
        ).len() > 0 ==> spec_dpkg_query_paths(binary) == seq![
            "/usr/bin/"@ + binary_name(binary),
            "/usr/libexec/"@ + binary_name(binary),
            "/usr/local/bin/"@ + binary_name(binary),
            "/bin/"@ + binary_name(binary),
        ],
{
    let l = system_prefixes();
    if has_listed_prefix(binary, l) {
        let i = choose|i: int| 0 <= i < l.len() && (#[trigger] l[i]).is_prefix_of(binary);
        assert(l[0] == "/usr/"@ && l[1] == "/bin/"@ && l[2] == "/sbin/"@ && l[3] == "/opt/"@);
    }
    if "/usr/"@.is_prefix_of(binary) {
        assert(l[0] == "/usr/"@);
    }
    if "/bin/"@.is_prefix_of(binary) {
        assert(l[1] == "/bin/"@);
    }
    if "/sbin/"@.is_prefix_of(binary) {
        assert(l[2] == "/sbin/"@);
    }
    if "/opt/"@.is_prefix_of(binary) {
        assert(l[3] == "/opt/"@);
    }
}

/// The family of each known distro ID: `ubuntu`, `debian`, `linuxmint`, `pop`, `elementary`, `zorin` are Debian's; `fedora`, `rhel`, `rocky`, `almalinux`, `centos`
/// Fedora's; `arch`, `manjaro`, `endeavouros`, `garuda` Arch's; an ID that starts with `opensuse` is openSUSE's;
/// any other ID names no family.
pub proof fn lemma_distro_ids(id: Seq<char>)
    ensures
        id == "ubuntu"@ || id == "debian"@ || id == "linuxmint"@ || id == "pop"@ || id == "elementary"@ || id == "zorin"@ ==> spec_classify_os_id(id) == Distro::Debian,
        id == "fedora"@ || id == "rhel"@ || id == "rocky"@ || id == "almalinux"@ || id == "centos"@ ==> spec_classify_os_id(id) == Distro::Fedora,
        id == "arch"@ || id == "manjaro"@ || id == "endeavouros"@ || id == "garuda"@ ==> spec_classify_os_id(id) == Distro::Arch,
        "opensuse"@.is_prefix_of(id) ==> spec_classify_os_id(id) == Distro::OpenSuse,
        !(id == "ubuntu"@ || id == "debian"@ || id == "linuxmint"@ || id == "pop"@ || id == "elementary"@ || id == "zorin"@ || id == "fedora"@ || id == "rhel"@ || id == "rocky"@ || id == "almalinux"@ || id == "centos"@ || id == "arch"@ || id == "manjaro"@ || id == "endeavouros"@ || id == "garuda"@) && !"opensuse"@.is_prefix_of(id) ==> spec_classify_os_id(id) == Distro::Unknown,
{
    reveal_strlit("ubuntu");
    reveal_strlit("debian");
    reveal_strlit("linuxmint");
    reveal_strlit("pop");
    reveal_strlit("elementary");
    reveal_strlit("zorin");
    reveal_strlit("fedora");
    reveal_strlit("rhel");
    reveal_strlit("rocky");
    reveal_strlit("almalinux");
    reveal_strlit("centos");
    reveal_strlit("arch");
    reveal_strlit("manjaro");
    reveal_strlit("endeavouros");
    reveal_strlit("garuda");
    reveal_strlit("opensuse");
    if id == "fedora"@ {
        assert("fedora"@[0] != "ubuntu"@[0]);
        assert("fedora"@[0] != "debian"@[0]);
        assert("fedora"@.len() != "linuxmint"@.len());
        assert("fedora"@.len() != "pop"@.len());
        assert("fedora"@.len() != "elementary"@.len());
        assert("fedora"@.len() != "zorin"@.len());
    }
    if id == "rhel"@ {
        assert("rhel"@.len() != "ubuntu"@.len());
        assert("rhel"@.len() != "debian"@.len());
        assert("rhel"@.len() != "linuxmint"@.len());
        assert("rhel"@.len() != "pop"@.len());
        assert("rhel"@.len() != "elementary"@.len());
        assert("rhel"@.len() != "zorin"@.len());
    }
    if id == "rocky"@ {
        assert("rocky"@.len() != "ubuntu"@.len());
        assert("rocky"@.len() != "debian"@.len());
        assert("rocky"@.len() != "linuxmint"@.len());
        assert("rocky"@.len() != "pop"@.len());
        assert("rocky"@.len() != "elementary"@.len());
        assert("rocky"@[0] != "zorin"@[0]);
    }
    if id == "almalinux"@ {
        assert("almalinux"@.len() != "ubuntu"@.len());
        assert("almalinux"@.len() != "debian"@.len());
        assert("almalinux"@[0] != "linuxmint"@[0]);
        assert("almalinux"@.len() != "pop"@.len());
        assert("almalinux"@.len() != "elementary"@.len());
        assert("almalinux"@.len() != "zorin"@.len());
    }
    if id == "centos"@ {
        assert("centos"@[0] != "ubuntu"@[0]);
        assert("centos"@[0] != "debian"@[0]);
        assert("centos"@.len() != "linuxmint"@.len());
        assert("centos"@.len() != "pop"@.len());
        assert("centos"@.len() != "elementary"@.len());
        assert("centos"@.len() != "zorin"@.len());
    }
    if id == "arch"@ {
        assert("arch"@.len() != "ubuntu"@.len());
        assert("arch"@.len() != "debian"@.len());
        assert("arch"@.len() != "linuxmint"@.len());
        assert("arch"@.len() != "pop"@.len());
        assert("arch"@.len() != "elementary"@.len());
        assert("arch"@.len() != "zorin"@.len());
        assert("arch"@.len() != "fedora"@.len());
        assert("arch"@[0] != "rhel"@[0]);
        assert("arch"@.len() != "rocky"@.len());
        assert("arch"@.len() != "almalinux"@.len());
        assert("arch"@.len() != "centos"@.len());
    }
    if id == "manjaro"@ {
        assert("manjaro"@.len() != "ubuntu"@.len());
        assert("manjaro"@.len() != "debian"@.len());
        assert("manjaro"@.len() != "linuxmint"@.len());
        assert("manjaro"@.len() != "pop"@.len());
        assert("manjaro"@.len() != "elementary"@.len());
        assert("manjaro"@.len() != "zorin"@.len());
        assert("manjaro"@.len() != "fedora"@.len());
        assert("manjaro"@.len() != "rhel"@.len());
        assert("manjaro"@.len() != "rocky"@.len());
        assert("manjaro"@.len() != "almalinux"@.len());
        assert("manjaro"@.len() != "centos"@.len());
    }
    if id == "endeavouros"@ {
        assert("endeavouros"@.len() != "ubuntu"@.len());
        assert("endeavouros"@.len() != "debian"@.len());
        assert("endeavouros"@.len() != "linuxmint"@.len());
        assert("endeavouros"@.len() != "pop"@.len());
        assert("endeavouros"@.len() != "elementary"@.len());
        assert("endeavouros"@.len() != "zorin"@.len());
        assert("endeavouros"@.len() != "fedora"@.len());
        assert("endeavouros"@.len() != "rhel"@.len());
        assert("endeavouros"@.len() != "rocky"@.len());
        assert("endeavouros"@.len() != "almalinux"@.len());
        assert("endeavouros"@.len() != "centos"@.len());
    }
    if id == "garuda"@ {
        assert("garuda"@[0] != "ubuntu"@[0]);
        assert("garuda"@[0] != "debian"@[0]);
        assert("garuda"@.len() != "linuxmint"@.len());
        assert("garuda"@.len() != "pop"@.len());
        assert("garuda"@.len() != "elementary"@.len());
        assert("garuda"@.len() != "zorin"@.len());
        assert("garuda"@[0] != "fedora"@[0]);
        assert("garuda"@.len() != "rhel"@.len());
        assert("garuda"@.len() != "rocky"@.len());
        assert("garuda"@.len() != "almalinux"@.len());
        assert("garuda"@[0] != "centos"@[0]);
    }
    if "opensuse"@.is_prefix_of(id) {
        assert(id[0] == "opensuse"@[0]);
        assert(id != "ubuntu"@) by {
            if id == "ubuntu"@ {
                assert("ubuntu"@[0] != "opensuse"@[0]);
            }
        }
        assert(id != "debian"@) by {
            if id == "debian"@ {
                assert("debian"@[0] != "opensuse"@[0]);
            }
        }
        assert(id != "linuxmint"@) by {
            if id == "linuxmint"@ {
                assert("linuxmint"@[0] != "opensuse"@[0]);
            }
        }
        assert(id != "pop"@) by {
            if id == "pop"@ {
                assert("pop"@[0] != "opensuse"@[0]);
            }
        }
        assert(id != "elementary"@) by {
            if id == "elementary"@ {
                assert("elementary"@[0] != "opensuse"@[0]);
            }
        }
        assert(id != "zorin"@) by {
            if id == "zorin"@ {
                assert("zorin"@[0] != "opensuse"@[0]);
            }
        }
        assert(id != "fedora"@) by {
            if id == "fedora"@ {
                assert("fedora"@[0] != "opensuse"@[0]);
            }
        }
        assert(id != "rhel"@) by {
            if id == "rhel"@ {
                assert("rhel"@[0] != "opensuse"@[0]);
            }
        }
        assert(id != "rocky"@) by {
            if id == "rocky"@ {
                assert("rocky"@[0] != "opensuse"@[0]);
            }
        }
        assert(id != "almalinux"@) by {
            if id == "almalinux"@ {
                assert("almalinux"@[0] != "opensuse"@[0]);
            }
        }
        assert(id != "centos"@) by {
            if id == "centos"@ {
                assert("centos"@[0] != "opensuse"@[0]);
            }
        }
        assert(id != "arch"@) by {
            if id == "arch"@ {
                assert("arch"@[0] != "opensuse"@[0]);
            }
        }
        assert(id != "manjaro"@) by {
            if id == "manjaro"@ {
                assert("manjaro"@[0] != "opensuse"@[0]);
            }
        }
        assert(id != "endeavouros"@) by {
            if id == "endeavouros"@ {
                assert("endeavouros"@[0] != "opensuse"@[0]);
            }
        }
        assert(id != "garuda"@) by {
            if id == "garuda"@ {
                assert("garuda"@[0] != "opensuse"@[0]);
            }
        }
    }
}

/// An icon name stands for the package only when it is not empty and has no
/// dot at all.
pub proof fn lemma_icon_name(f: DesktopFields)
    ensures
        spec_icon_name(f) is Some <==> (f.icon is Some && f.icon->0.len() > 0 && forall|k: int|
            0 <= k < f.icon->0.len() ==> f.icon->0[k] != '.'),
        spec_icon_name(f) is Some ==> spec_icon_name(f) == f.icon,
{
    if f.icon is Some {
        let i = f.icon->0;
        if i.contains('.') {
            let k = choose|k: int| 0 <= k < i.len() && i[k] == '.';
            assert(i[k] == '.');
        }
    }
}

/// How a menu entry gets its package name: a user-local entry by its file
/// stem; otherwise by the owner of the `TryExec=` binary, else of the
/// `Exec=` binary, else by its icon name when that is not empty and has no
/// dot, else by its file stem.
pub proof fn lemma_menu_name(
    f: DesktopFields,
    stem: Seq<char>,
    is_local: bool,
    try_exec_owner: Option<Seq<char>>,
    exec_owner: Option<Seq<char>>,
)
    ensures
        is_local ==> spec_menu_name(f, stem, is_local, try_exec_owner, exec_owner) == stem,
        !is_local && try_exec_owner is Some ==> spec_menu_name(
            f,
            stem,
            is_local,
            try_exec_owner,
            exec_owner,
        ) == try_exec_owner->0,
        !is_local && try_exec_owner is None && exec_owner is Some ==> spec_menu_name(
            f,
            stem,
            is_local,
            try_exec_owner,
            exec_owner,
        ) == exec_owner->0,
        !is_local && try_exec_owner is None && exec_owner is None ==> spec_menu_name(
            f,
            stem,
            is_local,
            try_exec_owner,
            exec_owner,
        ) == (if f.icon is Some && f.icon->0.len() > 0 && (forall|k: int|
            0 <= k < f.icon->0.len() ==> f.icon->0[k] != '.') {
            f.icon->0
        } else {
            stem
        }),
{
    lemma_icon_name(f);
}

/// A package name is always its own first candidate for a settings
/// directory, and a name that ends with `-gtk`, `-qt`, `-gnome`, `-kde`,
/// `-common`, `-bin` or `-utils` has the name without that suffix among its
/// candidates.
pub proof fn lemma_config_suffixes(name: Seq<char>)
    ensures
        spec_config_candidates(name).len() > 0,
        spec_config_candidates(name)[0] == name,
        "-gtk"@.is_suffix_of(name) ==> spec_config_candidates(name).contains(
            name.take(name.len() - "-gtk"@.len()),
        ),
        "-qt"@.is_suffix_of(name) ==> spec_config_candidates(name).contains(
            name.take(name.len() - "-qt"@.len()),
        ),
        "-gnome"@.is_suffix_of(name) ==> spec_config_candidates(name).contains(
            name.take(name.len() - "-gnome"@.len()),
        ),
        "-kde"@.is_suffix_of(name) ==> spec_config_candidates(name).contains(
            name.take(name.len() - "-kde"@.len()),
        ),
        "-common"@.is_suffix_of(name) ==> spec_config_candidates(name).contains(
            name.take(name.len() - "-common"@.len()),
        ),
        "-bin"@.is_suffix_of(name) ==> spec_config_candidates(name).contains(
            name.take(name.len() - "-bin"@.len()),
        ),
        "-utils"@.is_suffix_of(name) ==> spec_config_candidates(name).contains(
            name.take(name.len() - "-utils"@.len()),
        ),
{
    let l = crate::config::config_suffixes();
    let f = crate::config::strip_suffix_of(name);
    let fm = l.filter_map(f);
    let c = spec_config_candidates(name);
    assert(c == seq![name] + fm + crate::config::version_stripped(name));
    assert(c[0] == name);
    if "-gtk"@.is_suffix_of(name) {
        assert(l[0] == "-gtk"@);
        lemma_filter_map_has(l, f, 0);
        let j = choose|j: int| 0 <= j < fm.len() && fm[j] == name.take(name.len() - "-gtk"@.len());
        assert(c[j + 1] == fm[j]);
    }
    if "-qt"@.is_suffix_of(name) {
        assert(l[1] == "-qt"@);
        lemma_filter_map_has(l, f, 1);
        let j = choose|j: int| 0 <= j < fm.len() && fm[j] == name.take(name.len() - "-qt"@.len());
        assert(c[j + 1] == fm[j]);
    }
    if "-gnome"@.is_suffix_of(name) {
        assert(l[2] == "-gnome"@);
        lemma_filter_map_has(l, f, 2);
        let j = choose|j: int| 0 <= j < fm.len() && fm[j] == name.take(name.len() - "-gnome"@.len());
        assert(c[j + 1] == fm[j]);
    }
    if "-kde"@.is_suffix_of(name) {
        assert(l[3] == "-kde"@);
        lemma_filter_map_has(l, f, 3);
        let j = choose|j: int| 0 <= j < fm.len() && fm[j] == name.take(name.len() - "-kde"@.len());
        assert(c[j + 1] == fm[j]);
    }
    if "-common"@.is_suffix_of(name) {
        assert(l[4] == "-common"@);
        lemma_filter_map_has(l, f, 4);
        let j = choose|j: int| 0 <= j < fm.len() && fm[j] == name.take(name.len() - "-common"@.len());
        assert(c[j + 1] == fm[j]);
    }
    if "-bin"@.is_suffix_of(name) {
        assert(l[5] == "-bin"@);
        lemma_filter_map_has(l, f, 5);
        let j = choose|j: int| 0 <= j < fm.len() && fm[j] == name.take(name.len() - "-bin"@.len());
        assert(c[j + 1] == fm[j]);
    }
    if "-utils"@.is_suffix_of(name) {
        assert(l[6] == "-utils"@);
        lemma_filter_map_has(l, f, 6);
        let j = choose|j: int| 0 <= j < fm.len() && fm[j] == name.take(name.len() - "-utils"@.len());
        assert(c[j + 1] == fm[j]);
    }
}

proof fn lemma_filter_map_has<A, B>(s: Seq<A>, f: spec_fn(A) -> Option<B>, i: int)
    requires
        0 <= i < s.len(),
        f(s[i]) is Some,
    ensures
        s.filter_map(f).contains(f(s[i])->0),
    decreases s.len(),
{
    let n = s.len() - 1;
    s.lemma_filter_map_take_succ(f, n);
    assert(s.take(n + 1) =~= s);
    let d = s.take(n);
    if i == n {
        assert(s.filter_map(f)[d.filter_map(f).len() as int] == f(s[i])->0);
    } else {
        assert(d[i] == s[i]);
        lemma_filter_map_has(d, f, i);
        let j = choose|j: int| 0 <= j < d.filter_map(f).len() && d.filter_map(f)[j] == f(s[i])->0;
        assert(s.filter_map(f)[j] == d.filter_map(f)[j]);
    }
}

/// The script gets, in order, one entry for the first selected package of
/// each name, tab after tab: that package's display name and exactly its own
/// resolution, or unresolved when it has none.
pub proof fn lemma_collected_resolutions(list: PackageList)
    ensures
        spec_selected_for_generation(list).len() == first_of_each_name(
            package_views(all_of(list)).filter(is_selected()),
        ).len(),
        forall|i: int|
            0 <= i < spec_selected_for_generation(list).len() ==> {
                let p = first_of_each_name(package_views(all_of(list)).filter(is_selected()))[i];
                &&& (#[trigger] spec_selected_for_generation(list)[i]).display_name == p.display_name
                &&& (p.resolution is Some ==> spec_selected_for_generation(list)[i].resolution
                    == p.resolution->0)
                &&& (p.resolution is None ==> spec_selected_for_generation(list)[i].resolution
                    == ResolutionModel::Unresolved)
            },
{
}

} // verus!
