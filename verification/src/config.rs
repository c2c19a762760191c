//! Where an application's settings are likely to live.

use vstd::prelude::*;

use crate::text::{chars_of, slice_chars, string_of, string_views};

verus! {

pub open spec fn config_suffixes() -> Seq<Seq<char>> {
    seq!["-gtk"@, "-qt"@, "-gnome"@, "-kde"@, "-common"@, "-bin"@, "-utils"@]
}

/// The name without a suffix, when it ends with it.
pub open spec fn strip_suffix_of(name: Seq<char>) -> spec_fn(Seq<char>) -> Option<Seq<char>> {
    |sfx: Seq<char>|
        if sfx.is_suffix_of(name) {
            Some(name.take(name.len() - sfx.len()))
        } else {
            None
        }
}

/// `k` is the last position of `c` in `s`.
pub open spec fn last_at(s: Seq<char>, c: char, k: int) -> bool {
    &&& 0 <= k < s.len()
    &&& s[k] == c
    &&& forall|j: int| k < j < s.len() ==> s[j] != c
}

/// The name without a version suffix such as `-7.2`: the text before the
/// last `-`, when a digit follows that `-`.
pub open spec fn version_stripped(name: Seq<char>) -> Seq<Seq<char>> {
    if exists|k: int| last_at(name, '-', k) {
        let k = choose|k: int| last_at(name, '-', k);
        if k + 1 < name.len() && '0' <= name[k + 1] && name[k + 1] <= '9' {
            seq![name.take(k)]
        } else {
            Seq::empty()
        }
    } else {
        Seq::empty()
    }
}

/// Directory names to try for a package's settings, in order: the package
/// name, the name without each common suffix it has, and the name without a
/// version suffix.
pub open spec fn spec_config_candidates(name: Seq<char>) -> Seq<Seq<char>> {
    seq![name] + config_suffixes().filter_map(strip_suffix_of(name)) + version_stripped(name)
}

fn strip_suffix(v: &Vec<char>, sfx: &str) -> (r: Option<String>)
    ensures
        r.deep_view() == strip_suffix_of(v@)(sfx@),
{
    let s = chars_of(sfx);
    if s.len() > v.len() {
        return None;
    }
    let cut = v.len() - s.len();
    let tail = slice_chars(v, cut, v.len());
    if crate::text::chars_eq(&tail, &s) {
        let head = slice_chars(v, 0, cut);
        Some(string_of(&head))
    } else {
        None
    }
}

fn strip_version(v: &Vec<char>) -> (r: Option<String>)
    ensures
        match r {
            Some(x) => version_stripped(v@) == seq![x@],
            None => version_stripped(v@) == Seq::<Seq<char>>::empty(),
        },
{
    let mut i = v.len();
    while i > 0
        invariant
            i <= v@.len(),
            forall|j: int| i <= j < v@.len() ==> v@[j] != '-',
        decreases i,
    {
        if v[i - 1] == '-' {
            let k = i - 1;
            assert(last_at(v@, '-', k as int));
            let ghost c = choose|c: int| last_at(v@, '-', c);
            assert(c == k) by {
                if c < k {
                    assert(v@[k as int] != '-');
                } else if c > k {
                    assert(v@[c] != '-');
                }
            }
            if k + 1 < v.len() && '0' <= v[k + 1] && v[k + 1] <= '9' {
                let head = slice_chars(v, 0, k);
                return Some(string_of(&head));
            }
            return None;
        }
        i = i - 1;
    }
    assert(!exists|k: int| last_at(v@, '-', k));
    None
}

/// Directory names to try for a package's settings.
pub fn config_candidates(pkg_name: &str) -> (r: Vec<String>)
    ensures
        string_views(r@) == spec_config_candidates(pkg_name@),
{
    let v = chars_of(pkg_name);
    let list: [&str; 7] = ["-gtk", "-qt", "-gnome", "-kde", "-common", "-bin", "-utils"];
    assert(list@.map_values(|s: &str| s@) =~= config_suffixes());
    let ghost f = strip_suffix_of(pkg_name@);
    let mut r: Vec<String> = Vec::new();
    r.push(pkg_name.to_owned());
    let mut i: usize = 0;
    assert(config_suffixes().take(0).filter_map(f) =~= Seq::<Seq<char>>::empty());
    while i < 7
        invariant
            i <= 7,
            v@ == pkg_name@,
            list@.map_values(|s: &str| s@) == config_suffixes(),
            f == strip_suffix_of(pkg_name@),
            string_views(r@) == seq![pkg_name@] + config_suffixes().take(i as int).filter_map(f),
        decreases 7 - i,
    {
        proof {
            config_suffixes().lemma_filter_map_take_succ(f, i as int);
        }
        assert(list@[i as int]@ == config_suffixes()[i as int]);
        let ghost before = string_views(r@);
        match strip_suffix(&v, list[i]) {
            Some(x) => {
                let ghost xv = x@;
                r.push(x);
                assert(string_views(r@) =~= before.push(xv));
            },
            None => {},
        }
        i = i + 1;
        assert(string_views(r@) =~= seq![pkg_name@] + config_suffixes().take(i as int).filter_map(f));
    }
    assert(config_suffixes().take(7) =~= config_suffixes());
    let ghost before = string_views(r@);
    match strip_version(&v) {
        Some(x) => {
            let ghost xv = x@;
            r.push(x);
            assert(string_views(r@) =~= before + seq![xv]);
        },
        None => {
            assert(before + Seq::<Seq<char>>::empty() =~= before);
        },
    }
    r
}

/// What the file system shows for one candidate directory name.
#[derive(Debug, Clone)]
pub struct ConfigProbe {
    pub candidate: String,
    /// `~/.config/<candidate>` exists.
    pub in_config: bool,
    /// `~/.local/share/<candidate>` exists.
    pub in_share: bool,
}

/// The config path shown: that of the first candidate with a directory,
/// under `~/.config` before `~/.local/share`.
pub open spec fn spec_config_path(probes: Seq<ConfigProbe>) -> Option<Seq<char>>
    decreases probes.len(),
{
    if probes.len() == 0 {
        None
    } else if probes[0].in_config {
        Some("~/.config/"@ + probes[0].candidate@)
    } else if probes[0].in_share {
        Some("~/.local/share/"@ + probes[0].candidate@)
    } else {
        spec_config_path(probes.drop_first())
    }
}

pub fn config_path_from_probes(probes: &Vec<ConfigProbe>) -> (r: Option<String>)
    ensures
        r.deep_view() == spec_config_path(probes@),
{
    let mut i: usize = 0;
    assert(probes@.skip(0) =~= probes@);
    while i < probes.len()
        invariant
            i <= probes@.len(),
            spec_config_path(probes@) == spec_config_path(probes@.skip(i as int)),
        decreases probes@.len() - i,
    {
        assert(probes@.skip(i as int).drop_first() =~= probes@.skip(i + 1));
        if probes[i].in_config {
            return Some(String::from_str("~/.config/").concat(probes[i].candidate.as_str()));
        }
        if probes[i].in_share {
            return Some(String::from_str("~/.local/share/").concat(probes[i].candidate.as_str()));
        }
        i = i + 1;
    }
    None
}

/// The directories to look for: `<home>/.config/<candidate>` and
/// `<home>/.local/share/<candidate>`.
pub fn config_dirs(home: &str, candidate: &str) -> (r: (String, String))
    ensures
        r.0@ == home@ + "/.config/"@ + candidate@,
        r.1@ == home@ + "/.local/share/"@ + candidate@,
{
    let a = String::from_str(home).concat("/.config/").concat(candidate);
    let b = String::from_str(home).concat("/.local/share/").concat(candidate);
    (a, b)
}

/// The config path shown for a Flatpak app (whether or not it exists yet).
pub fn flatpak_config_path(flatpak_id: &str) -> (r: String)
    ensures
        r@ == crate::scanner::flatpak_config(flatpak_id@),
{
    String::from_str("~/.var/app/").concat(flatpak_id).concat("/config")
}

/// The directory that holds a snap's settings: `<home>/snap/<name>/current`.
pub fn snap_config_dir(home: &str, name: &str) -> (r: String)
    ensures
        r@ == home@ + "/snap/"@ + name@ + "/current"@,
{
    String::from_str(home).concat("/snap/").concat(name).concat("/current")
}

} // verus!
