//! Menu applications: `.desktop` entries and the package that provides them.

use vstd::prelude::*;

use crate::order::{is_display_sort_of, sort_by_display_name};
use crate::scanner::{
    desktop_blacklist, has_listed_prefix, is_blacklisted_desktop, is_blacklisted_package, model_names, opt_package_view, package_blacklist,
    package_views, Package, PackageModel, Source,
};
use crate::text::{
    chars_of, contains_char, contains_chars, eq_str, has_substring, lines, lines_of, slice_chars,
    split_by, split_chars, split_whitespace, split_ws, starts_with, string_of, string_views, trim,
    trim_ws, views, CharClass,
};

verus! {

// ---------------------------------------------------------------------------
// Desktop entry files
// ---------------------------------------------------------------------------

/// The keys of a `[Desktop Entry]` group that the menu scan reads.
#[derive(Debug, Clone)]
pub struct DesktopEntry {
    pub display_name: Option<String>,
    pub exec_line: Option<String>,
    pub try_exec: Option<String>,
    pub icon: Option<String>,
    pub flatpak_id: Option<String>,
    pub no_display: bool,
    pub only_show_in: bool,
}

/// What a `DesktopEntry` holds, with its strings as character sequences.
pub struct DesktopFields {
    pub display_name: Option<Seq<char>>,
    pub exec_line: Option<Seq<char>>,
    pub try_exec: Option<Seq<char>>,
    pub icon: Option<Seq<char>>,
    pub flatpak_id: Option<Seq<char>>,
    pub no_display: bool,
    pub only_show_in: bool,
}

impl View for DesktopEntry {
    type V = DesktopFields;

    open spec fn view(&self) -> DesktopFields {
        DesktopFields {
            display_name: self.display_name.deep_view(),
            exec_line: self.exec_line.deep_view(),
            try_exec: self.try_exec.deep_view(),
            icon: self.icon.deep_view(),
            flatpak_id: self.flatpak_id.deep_view(),
            no_display: self.no_display,
            only_show_in: self.only_show_in,
        }
    }
}

/// The keys read so far, and whether the current group is `[Desktop Entry]`.
pub struct DesktopScan {
    pub fields: DesktopFields,
    pub in_entry: bool,
}

pub open spec fn desktop_start() -> DesktopScan {
    DesktopScan {
        fields: DesktopFields {
            display_name: None,
            exec_line: None,
            try_exec: None,
            icon: None,
            flatpak_id: None,
            no_display: false,
            only_show_in: false,
        },
        in_entry: false,
    }
}

/// The trimmed value of a `key=value` line for `key=`.
pub open spec fn key_value(line: Seq<char>, key: Seq<char>) -> Option<Seq<char>> {
    if key.is_prefix_of(line) {
        Some(trim(line.skip(key.len() as int)))
    } else {
        None
    }
}

/// A newer value replaces an older one.
pub open spec fn latest(new: Option<Seq<char>>, old: Option<Seq<char>>) -> Option<Seq<char>> {
    match new {
        Some(v) => Some(v),
        None => old,
    }
}

/// One line of a desktop file: `[Desktop Entry]` opens the group, another
/// `[` header closes it, and inside it the keys read are recorded, the last
/// value of a key winning.
pub open spec fn desktop_step(st: DesktopScan, line: Seq<char>) -> DesktopScan {
    if trim(line) == "[Desktop Entry]"@ {
        DesktopScan { fields: st.fields, in_entry: true }
    } else if "["@.is_prefix_of(line) {
        DesktopScan { fields: st.fields, in_entry: false }
    } else if !st.in_entry {
        st
    } else {
        DesktopScan {
            fields: DesktopFields {
                display_name: latest(key_value(line, "Name="@), st.fields.display_name),
                exec_line: latest(key_value(line, "Exec="@), st.fields.exec_line),
                try_exec: latest(key_value(line, "TryExec="@), st.fields.try_exec),
                icon: latest(key_value(line, "Icon="@), st.fields.icon),
                flatpak_id: latest(key_value(line, "X-Flatpak="@), st.fields.flatpak_id),
                no_display: st.fields.no_display || line == "NoDisplay=true"@,
                only_show_in: st.fields.only_show_in || "OnlyShowIn="@.is_prefix_of(line),
            },
            in_entry: true,
        }
    }
}

pub open spec fn desktop_scan(ls: Seq<Seq<char>>) -> DesktopScan
    decreases ls.len(),
{
    if ls.len() == 0 {
        desktop_start()
    } else {
        desktop_step(desktop_scan(ls.drop_last()), ls.last())
    }
}

/// The keys of the `[Desktop Entry]` group of a desktop file.
pub open spec fn spec_parse_desktop_entry(content: Seq<char>) -> DesktopFields {
    desktop_scan(lines(content)).fields
}

fn key_value_of(line: &Vec<char>, key: &str) -> (r: Option<String>)
    ensures
        r.deep_view() == key_value(line@, key@),
{
    if starts_with(line, key) {
        let k = chars_of(key);
        let rest = slice_chars(line, k.len(), line.len());
        assert(rest@ =~= line@.skip(key@.len() as int));
        let t = trim_ws(&rest);
        Some(string_of(&t))
    } else {
        None
    }
}

fn newest(new: Option<String>, old: Option<String>) -> (r: Option<String>)
    ensures
        r.deep_view() == latest(new.deep_view(), old.deep_view()),
{
    match new {
        Some(v) => Some(v),
        None => old,
    }
}

/// Reads the `[Desktop Entry]` group of a desktop file.
pub fn parse_desktop_entry(content: &str) -> (r: DesktopEntry)
    ensures
        r@ == spec_parse_desktop_entry(content@),
{
    let ls = lines_of(content);
    let ghost all = lines(content@);
    let mut e = DesktopEntry {
        display_name: None,
        exec_line: None,
        try_exec: None,
        icon: None,
        flatpak_id: None,
        no_display: false,
        only_show_in: false,
    };
    let mut in_entry = false;
    let mut i: usize = 0;
    assert(all.take(0) =~= Seq::<Seq<char>>::empty());
    while i < ls.len()
        invariant
            views(ls@) == all,
            all == lines(content@),
            i <= ls@.len(),
            desktop_scan(all.take(i as int)) == (DesktopScan { fields: e@, in_entry }),
        decreases ls@.len() - i,
    {
        let line = &ls[i];
        assert(line@ == all[i as int]);
        assert(all.take(i + 1).drop_last() =~= all.take(i as int));
        let t = trim_ws(line);
        if eq_str(&t, "[Desktop Entry]") {
            in_entry = true;
        } else if starts_with(line, "[") {
            in_entry = false;
        } else if in_entry {
            e.display_name = newest(key_value_of(line, "Name="), e.display_name);
            e.exec_line = newest(key_value_of(line, "Exec="), e.exec_line);
            e.try_exec = newest(key_value_of(line, "TryExec="), e.try_exec);
            e.icon = newest(key_value_of(line, "Icon="), e.icon);
            e.flatpak_id = newest(key_value_of(line, "X-Flatpak="), e.flatpak_id);
            if eq_str(line, "NoDisplay=true") {
                e.no_display = true;
            }
            if starts_with(line, "OnlyShowIn=") {
                e.only_show_in = true;
            }
        }
        i = i + 1;
    }
    assert(all.take(i as int) =~= all);
    e
}

/// An entry that belongs in the menu tab: shown, named, and not a Flatpak.
pub open spec fn desktop_listed(f: DesktopFields) -> bool {
    !f.no_display && !f.only_show_in && f.display_name is Some && f.flatpak_id is None
}

/// Does the entry belong in the menu tab?
pub fn is_listed(e: &DesktopEntry) -> (r: bool)
    ensures
        r == desktop_listed(e@),
{
    !e.no_display && !e.only_show_in && e.display_name.is_some() && e.flatpak_id.is_none()
}

/// The binary named by `TryExec=`, the first to look up with dpkg.
pub open spec fn spec_try_exec_binary(f: DesktopFields) -> Option<Seq<char>> {
    match f.try_exec {
        Some(t) => Some(trim(t)),
        None => None,
    }
}

/// The binary named first in `Exec=`, the second to look up with dpkg.
pub open spec fn spec_exec_binary(f: DesktopFields) -> Option<Seq<char>> {
    match f.exec_line {
        Some(e) => {
            let words = split_whitespace(e);
            let first = if words.len() > 0 {
                trim(words[0])
            } else {
                Seq::empty()
            };
            if first.len() == 0 {
                None
            } else {
                Some(first)
            }
        },
        None => None,
    }
}

/// The icon name when it looks like a package name: non-empty, no dot.
pub open spec fn spec_icon_name(f: DesktopFields) -> Option<Seq<char>> {
    match f.icon {
        Some(i) => if !i.contains('.') && i.len() > 0 {
            Some(i)
        } else {
            None
        },
        None => None,
    }
}

pub fn try_exec_binary(e: &DesktopEntry) -> (r: Option<String>)
    ensures
        r.deep_view() == spec_try_exec_binary(e@),
{
    match &e.try_exec {
        Some(t) => {
            let v = chars_of(t.as_str());
            let tv = trim_ws(&v);
            Some(string_of(&tv))
        },
        None => None,
    }
}

pub fn exec_binary(e: &DesktopEntry) -> (r: Option<String>)
    ensures
        r.deep_view() == spec_exec_binary(e@),
{
    match &e.exec_line {
        Some(x) => {
            let v = chars_of(x.as_str());
            let words = split_ws(&v);
            assert(words@.len() == views(words@).len());
            let first = if words.len() > 0 {
                assert(words@[0]@ == views(words@)[0]);
                trim_ws(&words[0])
            } else {
                Vec::new()
            };
            if first.len() == 0 {
                None
            } else {
                Some(string_of(&first))
            }
        },
        None => None,
    }
}

fn icon_name(e: &DesktopEntry) -> (r: Option<String>)
    ensures
        r.deep_view() == spec_icon_name(e@),
{
    match &e.icon {
        Some(i) => {
            let v = chars_of(i.as_str());
            if !contains_char(&v, '.') && v.len() > 0 {
                Some(i.clone())
            } else {
                None
            }
        },
        None => None,
    }
}

/// The package name for a menu entry. A user-local entry is named by its
/// file stem; otherwise the dpkg owner of the `TryExec=` binary, else that of
/// the `Exec=` binary, else the icon name when it looks like a package name,
/// else the file stem. `try_exec_owner` and `exec_owner` are what the dpkg
/// lookups of those binaries found.
pub open spec fn spec_menu_name(
    f: DesktopFields,
    stem: Seq<char>,
    is_local: bool,
    try_exec_owner: Option<Seq<char>>,
    exec_owner: Option<Seq<char>>,
) -> Seq<char> {
    if is_local {
        stem
    } else {
        match try_exec_owner {
            Some(n) => n,
            None => match exec_owner {
                Some(n) => n,
                None => match spec_icon_name(f) {
                    Some(i) => i,
                    None => stem,
                },
            },
        }
    }
}

pub fn menu_package_name(
    e: &DesktopEntry,
    stem: &str,
    is_local: bool,
    try_exec_owner: Option<String>,
    exec_owner: Option<String>,
) -> (r: String)
    ensures
        r@ == spec_menu_name(
            e@,
            stem@,
            is_local,
            try_exec_owner.deep_view(),
            exec_owner.deep_view(),
        ),
{
    if is_local {
        return stem.to_owned();
    }
    match try_exec_owner {
        Some(n) => n,
        None => match exec_owner {
            Some(n) => n,
            None => match icon_name(e) {
                Some(i) => i,
                None => stem.to_owned(),
            },
        },
    }
}

/// The menu tab's package for a listed entry, named `name`.
pub open spec fn spec_menu_package(
    f: DesktopFields,
    name: Seq<char>,
    is_local: bool,
    config_path: Option<Seq<char>>,
) -> Option<PackageModel> {
    if desktop_listed(f) {
        Some(
            PackageModel {
                name,
                display_name: f.display_name->0,
                version: Seq::empty(),
                source: if is_local {
                    Source::Local
                } else {
                    Source::Apt
                },
                flatpak_id: None,
                config_path,
                resolution: None,
                selected: false,
            },
        )
    } else {
        None
    }
}

pub fn menu_package(e: &DesktopEntry, name: String, is_local: bool, config_path: Option<String>) -> (r:
    Option<Package>)
    ensures
        opt_package_view(r) == spec_menu_package(e@, name@, is_local, config_path.deep_view()),
{
    if !is_listed(e) {
        return None;
    }
    let display_name = match &e.display_name {
        Some(d) => d.clone(),
        None => String::new(),
    };
    Some(
        Package {
            name,
            display_name,
            version: String::new(),
            source: if is_local {
                Source::Local
            } else {
                Source::Apt
            },
            flatpak_id: None,
            config_path,
            resolution: None,
            selected: false,
        },
    )
}

/// The stem of a file name with the `desktop` extension.
pub open spec fn spec_desktop_stem(file_name: Seq<char>) -> Option<Seq<char>> {
    if ".desktop"@.is_suffix_of(file_name) && file_name.len() > 8 {
        Some(file_name.take(file_name.len() - 8))
    } else {
        None
    }
}

/// The stem of a directory entry's file name when its extension is
/// `desktop` (a name that is only `.desktop` has no extension).
pub fn desktop_stem(file_name: &str) -> (r: Option<String>)
    ensures
        r.deep_view() == spec_desktop_stem(file_name@),
{
    let v = chars_of(file_name);
    let suffix = chars_of(".desktop");
    proof {
        reveal_strlit(".desktop");
    }
    if v.len() <= 8 {
        return None;
    }
    let n = v.len();
    let tail = slice_chars(&v, n - 8, n);
    if crate::text::chars_eq(&tail, &suffix) {
        let stem = slice_chars(&v, 0, n - 8);
        Some(string_of(&stem))
    } else {
        None
    }
}

// ---------------------------------------------------------------------------
// dpkg ownership lookups
// ---------------------------------------------------------------------------

pub open spec fn system_prefixes() -> Seq<Seq<char>> {
    seq!["/usr/"@, "/bin/"@, "/sbin/"@, "/opt/"@]
}

/// The binary's own name: what follows its last `/`, trimmed.
pub open spec fn binary_name(binary: Seq<char>) -> Seq<char> {
    trim(split_by(binary, CharClass::Is('/')).last())
}

/// The paths to ask dpkg about, in order: none for an absolute path outside
/// the system directories (a local install) or an empty binary name.
pub open spec fn spec_dpkg_query_paths(binary: Seq<char>) -> Seq<Seq<char>> {
    let b = binary_name(binary);
    if "/"@.is_prefix_of(binary) && !has_listed_prefix(binary, system_prefixes()) {
        Seq::empty()
    } else if b.len() == 0 {
        Seq::empty()
    } else {
        seq!["/usr/bin/"@ + b, "/usr/libexec/"@ + b, "/usr/local/bin/"@ + b, "/bin/"@ + b]
    }
}

pub fn dpkg_query_paths(binary: &str) -> (r: Vec<String>)
    ensures
        string_views(r@) == spec_dpkg_query_paths(binary@),
{
    let v = chars_of(binary);
    let mut r: Vec<String> = Vec::new();
    if starts_with(&v, "/") && !starts_with(&v, "/usr/") && !starts_with(&v, "/bin/")
        && !starts_with(&v, "/sbin/") && !starts_with(&v, "/opt/") {
        proof {
            assert forall|i: int| 0 <= i < system_prefixes().len() implies !(#[trigger] system_prefixes()[i]).is_prefix_of(binary@) by {
                assert(i == 0 || i == 1 || i == 2 || i == 3);
            }
        }
        assert(string_views(r@) =~= Seq::<Seq<char>>::empty());
        return r;
    }
    proof {
        if "/"@.is_prefix_of(binary@) {
            if "/usr/"@.is_prefix_of(binary@) {
                assert(system_prefixes()[0] == "/usr/"@);
            } else if "/bin/"@.is_prefix_of(binary@) {
                assert(system_prefixes()[1] == "/bin/"@);
            } else if "/sbin/"@.is_prefix_of(binary@) {
                assert(system_prefixes()[2] == "/sbin/"@);
            } else {
                assert(system_prefixes()[3] == "/opt/"@);
            }
        }
    }
    let parts = split_chars(&v, CharClass::Is('/'));
    proof {
        crate::text::lemma_split_by_nonempty(v@, CharClass::Is('/'));
    }
    assert(parts@.len() == views(parts@).len());
    let last = parts.len() - 1;
    assert(parts@[last as int]@ == views(parts@).last());
    let b = trim_ws(&parts[last]);
    if b.len() == 0 {
        assert(string_views(r@) =~= Seq::<Seq<char>>::empty());
        return r;
    }
    let bs = string_of(&b);
    r.push(String::from_str("/usr/bin/").concat(bs.as_str()));
    r.push(String::from_str("/usr/libexec/").concat(bs.as_str()));
    r.push(String::from_str("/usr/local/bin/").concat(bs.as_str()));
    r.push(String::from_str("/bin/").concat(bs.as_str()));
    assert(string_views(r@) =~= spec_dpkg_query_paths(binary@));
    r
}

/// How many times `c` occurs in `s`.
pub open spec fn count_char(s: Seq<char>, c: char) -> nat
    decreases s.len(),
{
    if s.len() == 0 {
        0
    } else {
        count_char(s.drop_last(), c) + if s.last() == c {
            1nat
        } else {
            0nat
        }
    }
}

/// The owning package in `dpkg -S` output: the text before `:` on its first
/// line, trimmed; none when empty or when it has two or more dots (a D-Bus
/// name or Flatpak ID).
pub open spec fn spec_dpkg_owner(out: Seq<char>) -> Option<Seq<char>> {
    let ls = lines(out);
    if ls.len() == 0 {
        None
    } else {
        let pkg = trim(split_by(ls[0], CharClass::Is(':'))[0]);
        if pkg.len() == 0 || count_char(pkg, '.') >= 2 {
            None
        } else {
            Some(pkg)
        }
    }
}

fn count_of(v: &Vec<char>, c: char) -> (r: usize)
    ensures
        r == count_char(v@, c),
{
    let mut n: usize = 0;
    let mut i: usize = 0;
    assert(v@.take(0) =~= Seq::<char>::empty());
    while i < v.len()
        invariant
            i <= v@.len(),
            n <= i,
            n == count_char(v@.take(i as int), c),
        decreases v@.len() - i,
    {
        assert(v@.take(i + 1).drop_last() =~= v@.take(i as int));
        if v[i] == c {
            n = n + 1;
        }
        i = i + 1;
    }
    assert(v@.take(i as int) =~= v@);
    n
}

/// The package that owns a file, from the output of `dpkg -S <path>`.
pub fn dpkg_owner(out: &str) -> (r: Option<String>)
    ensures
        r.deep_view() == spec_dpkg_owner(out@),
{
    let ls = lines_of(out);
    assert(ls@.len() == views(ls@).len());
    if ls.len() == 0 {
        return None;
    }
    assert(ls@[0]@ == views(ls@)[0]);
    let parts = split_chars(&ls[0], CharClass::Is(':'));
    proof {
        crate::text::lemma_split_by_nonempty(ls@[0]@, CharClass::Is(':'));
    }
    assert(parts@[0]@ == views(parts@)[0]);
    let pkg = trim_ws(&parts[0]);
    if pkg.len() == 0 || count_of(&pkg, '.') >= 2 {
        None
    } else {
        Some(string_of(&pkg))
    }
}

/// The owner that the first qualifying answer names. Each answer stands for
/// one `dpkg -S` query, in order: `Some` with its output where the query
/// succeeded, `None` where it failed.
pub open spec fn spec_first_owner(answers: Seq<Option<Seq<char>>>) -> Option<Seq<char>>
    decreases answers.len(),
{
    if answers.len() == 0 {
        None
    } else {
        let here = match answers[0] {
            Some(out) => spec_dpkg_owner(out),
            None => None,
        };
        if here is Some {
            here
        } else {
            spec_first_owner(answers.drop_first())
        }
    }
}

/// The owner named by the first answer that qualifies, if any.
pub fn first_dpkg_owner(answers: &Vec<Option<String>>) -> (r: Option<String>)
    ensures
        r.deep_view() == spec_first_owner(answers.deep_view()),
{
    let ghost all = answers.deep_view();
    let mut i: usize = 0;
    assert(all.skip(0) =~= all);
    while i < answers.len()
        invariant
            all == answers.deep_view(),
            i <= answers@.len(),
            spec_first_owner(all) == spec_first_owner(all.skip(i as int)),
        decreases answers@.len() - i,
    {
        assert(all.skip(i as int)[0] == all[i as int]);
        assert(all.skip(i as int).drop_first() =~= all.skip(i + 1));
        match &answers[i] {
            Some(out) => {
                let found = dpkg_owner(out.as_str());
                if found.is_some() {
                    return found;
                }
            },
            None => {},
        }
        i = i + 1;
    }
    assert(all.skip(i as int).len() == 0);
    None
}

/// What to do next in finding a binary's owner.
#[derive(Debug, PartialEq, Eq)]
pub enum OwnerQuery {
    /// Ask `dpkg -S` about this path.
    Ask(String),
    /// The search is over, with this owner or none.
    Known(Option<String>),
}

/// The next step in finding the package that owns a binary, given the
/// answers to the queries made so far (one per path of `dpkg_query_paths`,
/// in order): the owner as soon as an answer qualifies; otherwise the next
/// path to ask about; none once every path was asked.
pub fn dpkg_owner_step(binary: &str, answers: &Vec<Option<String>>) -> (r: OwnerQuery)
    ensures
        spec_first_owner(answers.deep_view()) is Some ==> (r matches OwnerQuery::Known(o)
            && o.deep_view() == spec_first_owner(answers.deep_view())),
        spec_first_owner(answers.deep_view()) is None && answers@.len() < spec_dpkg_query_paths(
            binary@,
        ).len() ==> (r matches OwnerQuery::Ask(p) && p@ == spec_dpkg_query_paths(
            binary@,
        )[answers@.len() as int]),
        spec_first_owner(answers.deep_view()) is None && answers@.len() >= spec_dpkg_query_paths(
            binary@,
        ).len() ==> r == OwnerQuery::Known(None),
{
    let found = first_dpkg_owner(answers);
    if found.is_some() {
        return OwnerQuery::Known(found);
    }
    let paths = dpkg_query_paths(binary);
    if answers.len() < paths.len() {
        assert(paths@[answers@.len() as int]@ == string_views(paths@)[answers@.len() as int]);
        OwnerQuery::Ask(paths[answers.len()].clone())
    } else {
        OwnerQuery::Known(None)
    }
}

// ---------------------------------------------------------------------------
// The menu tab
// ---------------------------------------------------------------------------

/// A menu candidate stays unless a Flatpak ID contains its name or it is
/// blacklisted.
pub open spec fn menu_keeps(flatpak_ids: Seq<Seq<char>>) -> spec_fn(PackageModel) -> bool {
    |p: PackageModel|
        !(exists|i: int| 0 <= i < flatpak_ids.len() && has_substring(flatpak_ids[i], p.name))
            && !has_listed_prefix(p.name, package_blacklist())
}

/// Each name once: a package is dropped when an earlier one had its name.
pub open spec fn first_of_each_name(s: Seq<PackageModel>) -> Seq<PackageModel>
    decreases s.len(),
{
    if s.len() == 0 {
        Seq::empty()
    } else {
        let d = first_of_each_name(s.drop_last());
        if model_names(d).contains(s.last().name) {
            d
        } else {
            d.push(s.last())
        }
    }
}

fn any_id_contains(ids: &Vec<String>, name: &Vec<char>) -> (r: bool)
    ensures
        r == exists|i: int| 0 <= i < ids@.len() && has_substring(string_views(ids@)[i], name@),
{
    let mut i: usize = 0;
    while i < ids.len()
        invariant
            i <= ids@.len(),
            forall|j: int| 0 <= j < i ==> !has_substring(#[trigger] string_views(ids@)[j], name@),
        decreases ids@.len() - i,
    {
        let idv = chars_of(ids[i].as_str());
        if contains_chars(&idv, name) {
            assert(has_substring(string_views(ids@)[i as int], name@));
            return true;
        }
        i = i + 1;
    }
    false
}

fn names_contain(ps: &Vec<Package>, name: &String) -> (r: bool)
    ensures
        r == model_names(package_views(ps@)).contains(name@),
{
    let mut i: usize = 0;
    while i < ps.len()
        invariant
            i <= ps@.len(),
            forall|j: int| 0 <= j < i ==> model_names(package_views(ps@))[j] != name@,
        decreases ps@.len() - i,
    {
        if ps[i].name == *name {
            assert(model_names(package_views(ps@))[i as int] == name@);
            return true;
        }
        i = i + 1;
    }
    false
}

/// The menu tab from the parsed entries, in the order the directories were
/// read: without Flatpak apps and blacklisted packages, each name once (the
/// first), sorted by display name.
pub fn select_menu_packages(candidates: Vec<Package>, flatpak_ids: &Vec<String>) -> (r: Vec<Package>)
    ensures
        is_display_sort_of(
            package_views(r@),
            first_of_each_name(
                package_views(candidates@).filter(menu_keeps(string_views(flatpak_ids@))),
            ),
        ),
{
    let ghost f = menu_keeps(string_views(flatpak_ids@));
    let ghost s = package_views(candidates@);
    let n = candidates.len();
    let mut rest = candidates;
    let mut out: Vec<Package> = Vec::new();
    let mut i: usize = 0;
    assert(s.take(0).filter(f) =~= Seq::<PackageModel>::empty()) by {
        reveal(Seq::filter);
    }
    assert(package_views(out@) =~= first_of_each_name(Seq::<PackageModel>::empty()));
    assert(rest@ =~= candidates@.skip(0));
    while rest.len() > 0
        invariant
            s == package_views(candidates@),
            n == candidates@.len(),
            f == menu_keeps(string_views(flatpak_ids@)),
            i <= n,
            rest@ == candidates@.skip(i as int),
            package_views(out@) == first_of_each_name(s.take(i as int).filter(f)),
        decreases rest@.len(),
    {
        assert(candidates@.skip(i as int).len() > 0);
        let p = rest.remove(0);
        assert(p@ == s[i as int]);
        assert(s.take(i + 1) =~= s.take(i as int).push(p@));
        proof {
            s.take(i as int).lemma_filter_push(p@, f);
        }
        let name_v = chars_of(p.name.as_str());
        let keep = !any_id_contains(flatpak_ids, &name_v) && !is_blacklisted_package(p.name.as_str());
        assert(keep == f(p@));
        if keep {
            let ghost kept = s.take(i as int).filter(f);
            assert(kept.push(p@).drop_last() =~= kept);
            if !names_contain(&out, &p.name) {
                let ghost pv = p@;
                out.push(p);
                assert(package_views(out@) =~= first_of_each_name(kept).push(pv));
            }
        }
        i = i + 1;
        assert(rest@ =~= candidates@.skip(i as int));
    }
    assert(s.take(i as int) =~= s);
    sort_by_display_name(out)
}

/// A `.desktop` file found in one of the application directories: its
/// stem, its entry, the package name worked out for it and the config path
/// found for that name.
#[derive(Debug)]
pub struct MenuCandidate {
    pub stem: String,
    pub entry: DesktopEntry,
    pub name: String,
    pub config_path: Option<String>,
}

/// The package a candidate gives: none for a blacklisted stem or an entry
/// that is not listed in the menu; `is_local` for the user's own directory.
pub open spec fn candidate_package(is_local: bool) -> spec_fn(MenuCandidate) -> Option<PackageModel> {
    |c: MenuCandidate|
        if has_listed_prefix(c.stem@, desktop_blacklist()) {
            None
        } else {
            spec_menu_package(c.entry@, c.name@, is_local, c.config_path.deep_view())
        }
}

/// The menu entries of both directories, the system's before the user's.
pub open spec fn menu_entries(system: Seq<MenuCandidate>, local: Seq<MenuCandidate>) -> Seq<
    PackageModel,
> {
    system.filter_map(candidate_package(false)) + local.filter_map(candidate_package(true))
}

fn push_candidates(out: &mut Vec<Package>, candidates: Vec<MenuCandidate>, is_local: bool)
    ensures
        package_views(final(out)@) == package_views(old(out)@) + candidates@.filter_map(
            candidate_package(is_local),
        ),
{
    let ghost f = candidate_package(is_local);
    let ghost start = package_views(out@);
    let n = candidates.len();
    let mut rest = candidates;
    let mut i: usize = 0;
    assert(candidates@.take(0).filter_map(f) =~= Seq::<PackageModel>::empty());
    assert(package_views(out@) =~= start + candidates@.take(0).filter_map(f));
    assert(rest@ =~= candidates@.skip(0));
    while rest.len() > 0
        invariant
            f == candidate_package(is_local),
            n == candidates@.len(),
            i <= n,
            rest@ == candidates@.skip(i as int),
            package_views(out@) == start + candidates@.take(i as int).filter_map(f),
        decreases rest@.len(),
    {
        assert(candidates@.skip(i as int).len() > 0);
        proof {
            candidates@.lemma_filter_map_take_succ(f, i as int);
        }
        let ghost prev = package_views(out@);
        let c = rest.remove(0);
        assert(c == candidates@[i as int]);
        let MenuCandidate { stem, entry, name, config_path } = c;
        if !is_blacklisted_desktop(stem.as_str()) {
            match menu_package(&entry, name, is_local, config_path) {
                Some(p) => {
                    let ghost pv = p@;
                    out.push(p);
                    assert(package_views(out@) =~= prev + seq![pv]);
                },
                None => {
                    assert(prev + Seq::<PackageModel>::empty() =~= prev);
                },
            }
        } else {
            assert(prev + Seq::<PackageModel>::empty() =~= prev);
        }
        i = i + 1;
        assert(rest@ =~= candidates@.skip(i as int));
    }
    assert(candidates@.take(i as int) =~= candidates@);
}

/// The menu tab from the `.desktop` files of the system directory and of the
/// user's own directory: blacklisted stems and entries not listed in the
/// menu are dropped, then Flatpak apps and blacklisted packages; of the
/// entries with one name the first is kept, a system entry before a local
/// one; the tab is sorted by display name.
pub fn menu_tab(system: Vec<MenuCandidate>, local: Vec<MenuCandidate>, flatpak_ids: &Vec<String>) -> (r:
    Vec<Package>)
    ensures
        is_display_sort_of(
            package_views(r@),
            first_of_each_name(
                menu_entries(system@, local@).filter(menu_keeps(string_views(flatpak_ids@))),
            ),
        ),
{
    let mut all: Vec<Package> = Vec::new();
    assert(package_views(all@) =~= Seq::<PackageModel>::empty());
    push_candidates(&mut all, system, false);
    push_candidates(&mut all, local, true);
    assert(package_views(all@) =~= menu_entries(system@, local@));
    select_menu_packages(all, flatpak_ids)
}

} // verus!
