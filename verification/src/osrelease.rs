//! The host distro family, from `/etc/os-release`, and the desktop theme.

use vstd::prelude::*;

use crate::scanner::Distro;
use crate::text::{
    chars_of, contains_str, eq_str, has_substring, lines, lines_of, slice_chars, starts_with,
    trim, trim_by, trim_chars, trim_ws, views, CharClass,
};

verus! {

/// What `str::to_lowercase` gives for a text: its Unicode lower-case mapping.
pub uninterp spec fn lowercase(s: Seq<char>) -> Seq<char>;

/// `str::to_lowercase`: the result is the named lower-case mapping of the
/// argument; nothing more of the mapping is stated.
#[verifier::external_body]
fn to_lowercase(s: &str) -> (r: String)
    ensures
        r@ == lowercase(s@),
{
    s.to_lowercase()
}

/// The rest of the first line that starts with `key`.
pub open spec fn os_value(ls: Seq<Seq<char>>, key: Seq<char>) -> Option<Seq<char>>
    decreases ls.len(),
{
    if ls.len() == 0 {
        None
    } else if key.is_prefix_of(ls[0]) {
        Some(ls[0].skip(key.len() as int))
    } else {
        os_value(ls.drop_first(), key)
    }
}

/// A value as compared: trimmed, without surrounding quotes, lower case.
pub open spec fn clean_value(v: Seq<char>) -> Seq<char> {
    lowercase(trim_by(trim(v), CharClass::Is('"')))
}

/// The family of an `ID=` value (already lower case).
pub open spec fn spec_classify_os_id(id: Seq<char>) -> Distro {
    if id == "ubuntu"@ || id == "debian"@ || id == "linuxmint"@ || id == "pop"@ || id
        == "elementary"@ || id == "zorin"@ {
        Distro::Debian
    } else if id == "fedora"@ || id == "rhel"@ || id == "rocky"@ || id == "almalinux"@ || id
        == "centos"@ {
        Distro::Fedora
    } else if id == "arch"@ || id == "manjaro"@ || id == "endeavouros"@ || id == "garuda"@ {
        Distro::Arch
    } else if "opensuse"@.is_prefix_of(id) {
        Distro::OpenSuse
    } else {
        Distro::Unknown
    }
}

/// The family of an `ID_LIKE=` value (already lower case).
pub open spec fn spec_classify_os_like(like: Seq<char>) -> Distro {
    if has_substring(like, "debian"@) || has_substring(like, "ubuntu"@) {
        Distro::Debian
    } else if has_substring(like, "fedora"@) || has_substring(like, "rhel"@) {
        Distro::Fedora
    } else if has_substring(like, "arch"@) {
        Distro::Arch
    } else if has_substring(like, "suse"@) {
        Distro::OpenSuse
    } else {
        Distro::Unknown
    }
}

/// The host family from the text of `/etc/os-release`: by its `ID=` line,
/// else, when that names no known family, by its `ID_LIKE=` line.
pub open spec fn spec_detect_distro(content: Seq<char>) -> Distro {
    let ls = lines(content);
    let id = match os_value(ls, "ID="@) {
        Some(v) => clean_value(v),
        None => Seq::empty(),
    };
    let d = spec_classify_os_id(id);
    if d != Distro::Unknown {
        d
    } else {
        match os_value(ls, "ID_LIKE="@) {
            Some(v) => spec_classify_os_like(clean_value(v)),
            None => Distro::Unknown,
        }
    }
}

/// The family named by an `ID=` value (already lower case).
pub fn classify_os_id(id: &str) -> (r: Distro)
    ensures
        r == spec_classify_os_id(id@),
{
    let v = chars_of(id);
    if eq_str(&v, "ubuntu") || eq_str(&v, "debian") || eq_str(&v, "linuxmint") || eq_str(&v, "pop")
        || eq_str(&v, "elementary") || eq_str(&v, "zorin") {
        Distro::Debian
    } else if eq_str(&v, "fedora") || eq_str(&v, "rhel") || eq_str(&v, "rocky") || eq_str(
        &v,
        "almalinux",
    ) || eq_str(&v, "centos") {
        Distro::Fedora
    } else if eq_str(&v, "arch") || eq_str(&v, "manjaro") || eq_str(&v, "endeavouros") || eq_str(
        &v,
        "garuda",
    ) {
        Distro::Arch
    } else if starts_with(&v, "opensuse") {
        Distro::OpenSuse
    } else {
        Distro::Unknown
    }
}

/// The family named by an `ID_LIKE=` value (already lower case).
pub fn classify_os_like(like: &str) -> (r: Distro)
    ensures
        r == spec_classify_os_like(like@),
{
    let v = chars_of(like);
    if contains_str(&v, "debian") || contains_str(&v, "ubuntu") {
        Distro::Debian
    } else if contains_str(&v, "fedora") || contains_str(&v, "rhel") {
        Distro::Fedora
    } else if contains_str(&v, "arch") {
        Distro::Arch
    } else if contains_str(&v, "suse") {
        Distro::OpenSuse
    } else {
        Distro::Unknown
    }
}

fn find_value(ls: &Vec<Vec<char>>, key: &str) -> (r: Option<Vec<char>>)
    ensures
        match r {
            Some(v) => os_value(views(ls@), key@) == Some(v@),
            None => os_value(views(ls@), key@) is None,
        },
{
    let k = chars_of(key);
    let mut i: usize = 0;
    assert(views(ls@).skip(0) =~= views(ls@));
    while i < ls.len()
        invariant
            i <= ls@.len(),
            k@ == key@,
            os_value(views(ls@), key@) == os_value(views(ls@).skip(i as int), key@),
        decreases ls@.len() - i,
    {
        assert(views(ls@).skip(i as int).drop_first() =~= views(ls@).skip(i + 1));
        assert(views(ls@).skip(i as int)[0] == ls@[i as int]@);
        if starts_with(&ls[i], key) {
            let rest = slice_chars(&ls[i], k.len(), ls[i].len());
            assert(rest@ =~= ls@[i as int]@.skip(key@.len() as int));
            return Some(rest);
        }
        i = i + 1;
    }
    None
}

fn cleaned(v: &Vec<char>) -> (r: String)
    ensures
        r@ == clean_value(v@),
{
    let t = trim_ws(v);
    let u = trim_chars(&t, CharClass::Is('"'));
    let s = crate::text::string_of(&u);
    to_lowercase(s.as_str())
}

/// The host distro family from the text of `/etc/os-release`.
pub fn detect_distro(os_release: &str) -> (r: Distro)
    ensures
        r == spec_detect_distro(os_release@),
{
    let ls = lines_of(os_release);
    let id = match find_value(&ls, "ID=") {
        Some(v) => cleaned(&v),
        None => String::new(),
    };
    let d = classify_os_id(id.as_str());
    if d != Distro::Unknown {
        return d;
    }
    match find_value(&ls, "ID_LIKE=") {
        Some(v) => {
            let like = cleaned(&v);
            classify_os_like(like.as_str())
        },
        None => Distro::Unknown,
    }
}

/// Whether the desktop theme reported by `gsettings get
/// org.gnome.desktop.interface gtk-theme` is dark: unless its name contains
/// `light`, in any case.
pub open spec fn spec_theme_is_dark(gtk_theme: Seq<char>) -> bool {
    !has_substring(lowercase(gtk_theme), "light"@)
}

pub fn theme_is_dark(gtk_theme: &str) -> (r: bool)
    ensures
        r == spec_theme_is_dark(gtk_theme@),
{
    let l = to_lowercase(gtk_theme);
    let v = chars_of(l.as_str());
    !contains_str(&v, "light")
}

} // verus!
