//! Target distros, package resolution and the Repology queries it needs.

use vstd::prelude::*;

use crate::text::{chars_of, lemma_lex_total, lemma_lex_trans, lex_lt, string_less, string_views};

verus! {

/// Target distro families and their Repology repository identifiers.
#[derive(Debug, Clone, Copy, PartialEq, Eq, Structural)]
pub enum TargetDistro {
    Debian,
    Ubuntu,
    Mint,
    PopOs,
    Fedora,
    Arch,
    Manjaro,
    OpenSuse,
}

/// Human-readable name of each target.
pub open spec fn spec_label(t: TargetDistro) -> Seq<char> {
    match t {
        TargetDistro::Debian => "Debian"@,
        TargetDistro::Ubuntu => "Ubuntu"@,
        TargetDistro::Mint => "Linux Mint"@,
        TargetDistro::PopOs => "Pop!_OS"@,
        TargetDistro::Fedora => "Fedora"@,
        TargetDistro::Arch => "Arch Linux"@,
        TargetDistro::Manjaro => "Manjaro"@,
        TargetDistro::OpenSuse => "openSUSE"@,
    }
}

/// Repology repository of each target; Mint and Pop!_OS track the Ubuntu LTS.
pub open spec fn spec_repology_repo(t: TargetDistro) -> Seq<char> {
    match t {
        TargetDistro::Debian => "debian_stable"@,
        TargetDistro::Ubuntu | TargetDistro::Mint | TargetDistro::PopOs => "ubuntu_24_04"@,
        TargetDistro::Fedora => "fedora_44"@,
        TargetDistro::Arch => "arch"@,
        TargetDistro::Manjaro => "manjaro_stable"@,
        TargetDistro::OpenSuse => "opensuse_tumbleweed"@,
    }
}

/// Lower-case slug of each target, used in script file names.
pub open spec fn spec_slug(t: TargetDistro) -> Seq<char> {
    match t {
        TargetDistro::Debian => "debian"@,
        TargetDistro::Ubuntu => "ubuntu"@,
        TargetDistro::Mint => "mint"@,
        TargetDistro::PopOs => "popos"@,
        TargetDistro::Fedora => "fedora"@,
        TargetDistro::Arch => "arch"@,
        TargetDistro::Manjaro => "manjaro"@,
        TargetDistro::OpenSuse => "opensuse"@,
    }
}

/// All targets in display order.
pub open spec fn spec_all_targets() -> Seq<TargetDistro> {
    seq![
        TargetDistro::Ubuntu,
        TargetDistro::Debian,
        TargetDistro::Mint,
        TargetDistro::PopOs,
        TargetDistro::Fedora,
        TargetDistro::Arch,
        TargetDistro::Manjaro,
        TargetDistro::OpenSuse,
    ]
}

/// The apt family: a source package name is already valid there.
pub open spec fn is_apt_family(t: TargetDistro) -> bool {
    t is Debian || t is Ubuntu || t is Mint || t is PopOs
}

impl TargetDistro {
    /// Human-readable display name.
    pub fn label(&self) -> (r: &'static str)
        ensures
            r@ == spec_label(*self),
    {
        match self {
            TargetDistro::Debian => "Debian",
            TargetDistro::Ubuntu => "Ubuntu",
            TargetDistro::Mint => "Linux Mint",
            TargetDistro::PopOs => "Pop!_OS",
            TargetDistro::Fedora => "Fedora",
            TargetDistro::Arch => "Arch Linux",
            TargetDistro::Manjaro => "Manjaro",
            TargetDistro::OpenSuse => "openSUSE",
        }
    }

    /// Repology repository filter string for this distro.
    pub fn repology_repo(&self) -> (r: &'static str)
        ensures
            r@ == spec_repology_repo(*self),
    {
        match self {
            TargetDistro::Debian => "debian_stable",
            TargetDistro::Ubuntu => "ubuntu_24_04",
            TargetDistro::Mint => "ubuntu_24_04",
            TargetDistro::PopOs => "ubuntu_24_04",
            TargetDistro::Fedora => "fedora_44",
            TargetDistro::Arch => "arch",
            TargetDistro::Manjaro => "manjaro_stable",
            TargetDistro::OpenSuse => "opensuse_tumbleweed",
        }
    }

    /// All distros in display order.
    pub fn all() -> (r: Vec<TargetDistro>)
        ensures
            r@ == spec_all_targets(),
    {
        let r = vec![
            TargetDistro::Ubuntu,
            TargetDistro::Debian,
            TargetDistro::Mint,
            TargetDistro::PopOs,
            TargetDistro::Fedora,
            TargetDistro::Arch,
            TargetDistro::Manjaro,
            TargetDistro::OpenSuse,
        ];
        assert(r@ =~= spec_all_targets());
        r
    }

    /// Lowercase slug used in generated script filenames.
    pub fn slug(&self) -> (r: &'static str)
        ensures
            r@ == spec_slug(*self),
    {
        match self {
            TargetDistro::Debian => "debian",
            TargetDistro::Ubuntu => "ubuntu",
            TargetDistro::Mint => "mint",
            TargetDistro::PopOs => "popos",
            TargetDistro::Fedora => "fedora",
            TargetDistro::Arch => "arch",
            TargetDistro::Manjaro => "manjaro",
            TargetDistro::OpenSuse => "opensuse",
        }
    }
}

// ---------------------------------------------------------------------------
// Resolution results
// ---------------------------------------------------------------------------

/// Resolution result for a single package.
#[derive(Debug, Clone, PartialEq, Eq)]
pub enum Resolution {
    /// Found as a native package under this name on the target distro.
    Native(String),
    /// No native package found; use Flatpak ID instead.
    Flatpak(String),
    /// Snap package; `classic` is the confinement flag from `snap list`.
    Snap { name: String, classic: bool },
    /// Neither native nor Flatpak found: the user must resolve it manually.
    Unresolved,
}

/// What a `Resolution` holds, with its strings as character sequences.
pub enum ResolutionModel {
    Native(Seq<char>),
    Flatpak(Seq<char>),
    Snap(Seq<char>, bool),
    Unresolved,
}

impl View for Resolution {
    type V = ResolutionModel;

    open spec fn view(&self) -> ResolutionModel {
        match self {
            Resolution::Native(n) => ResolutionModel::Native(n@),
            Resolution::Flatpak(f) => ResolutionModel::Flatpak(f@),
            Resolution::Snap { name, classic } => ResolutionModel::Snap(name@, *classic),
            Resolution::Unresolved => ResolutionModel::Unresolved,
        }
    }
}

pub open spec fn opt_resolution_view(r: Option<Resolution>) -> Option<ResolutionModel> {
    match r {
        Some(x) => Some(x@),
        None => None,
    }
}

impl Resolution {
    /// A copy of this resolution.
    pub fn duplicate(&self) -> (r: Resolution)
        ensures
            r@ == self@,
    {
        match self {
            Resolution::Native(n) => Resolution::Native(n.clone()),
            Resolution::Flatpak(f) => Resolution::Flatpak(f.clone()),
            Resolution::Snap { name, classic } => Resolution::Snap {
                name: name.clone(),
                classic: *classic,
            },
            Resolution::Unresolved => Resolution::Unresolved,
        }
    }
}

/// How a package resolves on a target, given what the Repology lookup for
/// its name would answer: on an apt-family target the source name stands;
/// elsewhere the name Repology gives; failing that the Flatpak ID, if the
/// package has one; failing that it stays unresolved.
pub open spec fn spec_resolution(
    source_name: Seq<char>,
    flatpak_id: Option<Seq<char>>,
    target: TargetDistro,
    lookup: Option<Seq<char>>,
) -> ResolutionModel {
    if is_apt_family(target) {
        ResolutionModel::Native(source_name)
    } else {
        spec_resolution_from_lookup(lookup, flatpak_id)
    }
}

/// What a Repology answer resolves to: its name if it gave one, else the
/// Flatpak ID as a fallback, else nothing.
pub open spec fn spec_resolution_from_lookup(
    lookup: Option<Seq<char>>,
    flatpak_id: Option<Seq<char>>,
) -> ResolutionModel {
    match lookup {
        Some(n) => ResolutionModel::Native(n),
        None => match flatpak_id {
            Some(f) => ResolutionModel::Flatpak(f),
            None => ResolutionModel::Unresolved,
        },
    }
}

pub open spec fn opt_str_view(o: Option<&str>) -> Option<Seq<char>> {
    match o {
        Some(s) => Some(s@),
        None => None,
    }
}

pub open spec fn opt_string_view(o: Option<String>) -> Option<Seq<char>> {
    match o {
        Some(s) => Some(s@),
        None => None,
    }
}

/// First step of resolving a package: `Some` exactly on the apt-family
/// targets, where the source name stands and no Repology lookup is made;
/// `None` where the name must be looked up for the target.
pub fn local_resolution(source_name: &str, target: &TargetDistro) -> (r: Option<Resolution>)
    ensures
        r is Some <==> is_apt_family(*target),
        r matches Some(x) ==> forall|f: Option<Seq<char>>, l: Option<Seq<char>>|
            x@ == #[trigger] spec_resolution(source_name@, f, *target, l),
{
    match target {
        TargetDistro::Ubuntu | TargetDistro::Debian | TargetDistro::Mint | TargetDistro::PopOs => {
            Some(Resolution::Native(source_name.to_owned()))
        },
        _ => None,
    }
}

/// Last step of resolving a package on a target that needs a lookup: the
/// name Repology gave, if any; otherwise the Flatpak ID; otherwise
/// unresolved.
pub fn resolution_from_lookup(found: Option<String>, flatpak_id: Option<&str>) -> (r: Resolution)
    ensures
        r@ == spec_resolution_from_lookup(opt_string_view(found), opt_str_view(flatpak_id)),
{
    match found {
        Some(name) => Resolution::Native(name),
        None => match flatpak_id {
            Some(fid) => Resolution::Flatpak(fid.to_owned()),
            None => Resolution::Unresolved,
        },
    }
}

// ---------------------------------------------------------------------------
// URL encoding
// ---------------------------------------------------------------------------

/// Characters that stand for themselves in a query string.
pub open spec fn is_unreserved(c: char) -> bool {
    ||| ('A' <= c && c <= 'Z')
    ||| ('a' <= c && c <= 'z')
    ||| ('0' <= c && c <= '9')
    ||| c == '-'
    ||| c == '_'
    ||| c == '.'
    ||| c == '~'
}

/// Upper-case hexadecimal digit of `d < 16`.
pub open spec fn hex_digit(d: nat) -> char {
    if d < 10 {
        (d + 48) as char
    } else {
        (d + 55) as char
    }
}

/// Upper-case hexadecimal numeral of `n`, without leading zeros.
pub open spec fn hex_upper(n: nat) -> Seq<char>
    decreases n,
{
    if n < 16 {
        seq![hex_digit(n)]
    } else {
        hex_upper(n / 16).push(hex_digit(n % 16))
    }
}

/// `format!("{:02X}", n)`: at least two hexadecimal digits.
pub open spec fn hex2(n: nat) -> Seq<char> {
    if n < 16 {
        seq!['0', hex_digit(n)]
    } else {
        hex_upper(n)
    }
}

/// The encoding of one character: unreserved ones stand as they are, a space
/// is `%20`, any other is `%` and its code point in hexadecimal.
pub open spec fn encode_char(c: char) -> Seq<char> {
    if is_unreserved(c) {
        seq![c]
    } else if c == ' ' {
        seq!['%', '2', '0']
    } else {
        seq!['%'] + hex2(c as nat)
    }
}

/// The encodings of the characters of `s`, one after another.
pub open spec fn url_encode(s: Seq<char>) -> Seq<char>
    decreases s.len(),
{
    if s.len() == 0 {
        Seq::empty()
    } else {
        url_encode(s.drop_last()) + encode_char(s.last())
    }
}

fn hex_char(d: u32) -> (c: char)
    requires
        d < 16,
    ensures
        c == hex_digit(d as nat),
{
    if d < 10 {
        ((d + 48) as u8) as char
    } else {
        ((d + 55) as u8) as char
    }
}

fn push_hex(out: &mut Vec<char>, n: u32)
    ensures
        final(out)@ == old(out)@ + hex_upper(n as nat),
    decreases n,
{
    if n < 16 {
        out.push(hex_char(n));
        assert(final(out)@ =~= old(out)@ + hex_upper(n as nat)) by {
            assert(hex_upper(n as nat) == seq![hex_digit(n as nat)]);
        };
    } else {
        push_hex(out, n / 16);
        out.push(hex_char(n % 16));
        assert(out@ =~= old(out)@ + hex_upper(n as nat));
    }
}

fn push_encoded(out: &mut Vec<char>, c: char)
    ensures
        final(out)@ == old(out)@ + encode_char(c),
{
    if ('A' <= c && c <= 'Z') || ('a' <= c && c <= 'z') || ('0' <= c && c <= '9') || c == '-'
        || c == '_' || c == '.' || c == '~' {
        out.push(c);
        assert(out@ =~= old(out)@ + encode_char(c));
    } else if c == ' ' {
        out.push('%');
        out.push('2');
        out.push('0');
        assert(out@ =~= old(out)@ + encode_char(c));
    } else {
        out.push('%');
        let n = c as u32;
        if n < 16 {
            out.push('0');
            out.push(hex_char(n));
        } else {
            push_hex(out, n);
        }
        assert(out@ =~= old(out)@ + encode_char(c));
    }
}

/// Minimal URL encoding for query strings.
pub fn urlencoded(s: &str) -> (r: String)
    ensures
        r@ == url_encode(s@),
{
    let v = chars_of(s);
    let mut out: Vec<char> = Vec::new();
    let mut i: usize = 0;
    assert(v@.take(0) =~= Seq::<char>::empty());
    while i < v.len()
        invariant
            i <= v@.len(),
            out@ == url_encode(v@.take(i as int)),
        decreases v@.len() - i,
    {
        push_encoded(&mut out, v[i]);
        assert(v@.take(i + 1).drop_last() =~= v@.take(i as int));
        i = i + 1;
    }
    assert(v@.take(i as int) =~= v@);
    crate::text::string_of(&out)
}

// ---------------------------------------------------------------------------
// Repology project lookup
// ---------------------------------------------------------------------------

/// Repology project lookup URL for a source package name.
pub open spec fn spec_project_url(name: Seq<char>) -> Seq<char> {
    "https://repology.org/api/v1/project/"@ + url_encode(name)
}

/// Repology search URL for a query on the target's repository.
pub open spec fn spec_search_url(query: Seq<char>, target: TargetDistro) -> Seq<char> {
    "https://repology.org/api/v1/projects/?search="@ + url_encode(query) + "&inrepo="@
        + spec_repology_repo(target) + "&limit=20"@
}

/// URL of the Repology project record for `name`.
pub fn project_url(name: &str) -> (r: String)
    ensures
        r@ == spec_project_url(name@),
{
    let enc = urlencoded(name);
    let r = String::from_str("https://repology.org/api/v1/project/");
    r.concat(enc.as_str())
}

/// URL of the Repology search for `query` on the target's repository.
pub fn search_url(query: &str, target: &TargetDistro) -> (r: String)
    ensures
        r@ == spec_search_url(query@, *target),
{
    let enc = urlencoded(query);
    let r = String::from_str("https://repology.org/api/v1/projects/?search=");
    let r = r.concat(enc.as_str());
    let r = r.concat("&inrepo=");
    let r = r.concat(target.repology_repo());
    r.concat("&limit=20")
}

/// Repology API project record (only the fields the resolution reads).
#[derive(Debug, Clone, PartialEq, Eq)]
pub struct RepologyPackage {
    pub repo: String,
    pub name: Option<String>,
    pub binname: Option<String>,
}

/// The name offered by the first record of the target repository: its
/// binary name, else its name.
pub open spec fn spec_pick_project_name(pkgs: Seq<RepologyPackage>, repo: Seq<char>) -> Option<
    Seq<char>,
>
    decreases pkgs.len(),
{
    if pkgs.len() == 0 {
        None
    } else if pkgs[0].repo@ == repo {
        match pkgs[0].binname.deep_view() {
            Some(b) => Some(b),
            None => pkgs[0].name.deep_view(),
        }
    } else {
        spec_pick_project_name(pkgs.drop_first(), repo)
    }
}

fn clone_opt(o: &Option<String>) -> (r: Option<String>)
    ensures
        r.deep_view() == o.deep_view(),
{
    match o {
        Some(s) => Some(s.clone()),
        None => None,
    }
}

/// The target-distro package name in a Repology project record list.
pub fn pick_project_name(packages: &Vec<RepologyPackage>, repo: &str) -> (r: Option<String>)
    ensures
        r.deep_view() == spec_pick_project_name(packages@, repo@),
{
    let repo_s = String::from_str(repo);
    let mut i: usize = 0;
    assert(packages@.skip(0) =~= packages@);
    while i < packages.len()
        invariant
            i <= packages@.len(),
            repo_s@ == repo@,
            spec_pick_project_name(packages@, repo@) == spec_pick_project_name(
                packages@.skip(i as int),
                repo@,
            ),
        decreases packages@.len() - i,
    {
        assert(packages@.skip(i as int).drop_first() =~= packages@.skip(i + 1));
        if packages[i].repo == repo_s {
            return match &packages[i].binname {
                Some(b) => Some(b.clone()),
                None => clone_opt(&packages[i].name),
            };
        }
        i = i + 1;
    }
    None
}

// ---------------------------------------------------------------------------
// Repology search
// ---------------------------------------------------------------------------

/// A field of a search result record: missing, a string, or another value.
#[derive(Debug, Clone, PartialEq, Eq)]
pub enum JsonText {
    Absent,
    Text(String),
    Other,
}

/// One package record of a search result, as far as the search reads it.
#[derive(Debug, Clone, PartialEq, Eq)]
pub struct SearchEntry {
    /// The `repo` field when it is a string.
    pub repo: Option<String>,
    pub binname: JsonText,
    pub name: JsonText,
}

/// A field's text, empty unless it is a string.
pub open spec fn text_or_empty(j: JsonText) -> Seq<char> {
    match j {
        JsonText::Text(s) => s@,
        _ => Seq::empty(),
    }
}

/// The name a record offers: its `binname` field when present (empty unless
/// a string), else its `name` field.
pub open spec fn entry_name(e: SearchEntry) -> Seq<char> {
    match e.binname {
        JsonText::Absent => text_or_empty(e.name),
        b => text_or_empty(b),
    }
}

/// The record's repository, empty unless it is a string.
pub open spec fn entry_repo(e: SearchEntry) -> Seq<char> {
    match e.repo {
        Some(r) => r@,
        None => Seq::empty(),
    }
}

/// One name per project: that of its first record in the repository that
/// offers a non-empty name.
pub open spec fn project_pick(es: Seq<SearchEntry>, repo: Seq<char>) -> Option<Seq<char>>
    decreases es.len(),
{
    if es.len() == 0 {
        None
    } else if entry_repo(es[0]) == repo && entry_name(es[0]).len() > 0 {
        Some(entry_name(es[0]))
    } else {
        project_pick(es.drop_first(), repo)
    }
}

/// The names a search offers for the repository.
pub open spec fn search_names(projects: Seq<Vec<SearchEntry>>, repo: Seq<char>) -> Set<Seq<char>> {
    Set::new(|n: Seq<char>| exists|i: int| 0 <= i < projects.len() && project_pick(projects[i]@, repo) == Some(n))
}

/// Each name comes before the next: sorted, with no repetition.
pub open spec fn strictly_sorted(s: Seq<Seq<char>>) -> bool {
    forall|i: int, j: int| 0 <= i < j < s.len() ==> lex_lt(s[i], s[j])
}

fn text_value(j: &JsonText) -> (r: String)
    ensures
        r@ == text_or_empty(*j),
{
    match j {
        JsonText::Text(s) => s.clone(),
        _ => String::new(),
    }
}

fn pick_from_project(es: &Vec<SearchEntry>, repo: &String) -> (r: Option<String>)
    ensures
        r.deep_view() == project_pick(es@, repo@),
{
    let mut i: usize = 0;
    assert(es@.skip(0) =~= es@);
    while i < es.len()
        invariant
            i <= es@.len(),
            project_pick(es@, repo@) == project_pick(es@.skip(i as int), repo@),
        decreases es@.len() - i,
    {
        assert(es@.skip(i as int).drop_first() =~= es@.skip(i + 1));
        let e = &es[i];
        let pkg_repo = match &e.repo {
            Some(r) => r.clone(),
            None => String::new(),
        };
        assert(pkg_repo@ == entry_repo(es@[i as int]));
        if pkg_repo == *repo {
            let name = match &e.binname {
                JsonText::Absent => text_value(&e.name),
                b => text_value(b),
            };
            assert(name@ == entry_name(es@[i as int]));
            if !name.as_str().is_empty() {
                return Some(name);
            }
        }
        i = i + 1;
    }
    None
}

/// Adds `x` to a strictly sorted list of names, keeping it strictly sorted.
pub fn insert_sorted_unique(v: &mut Vec<String>, x: String)
    requires
        strictly_sorted(string_views(old(v)@)),
    ensures
        strictly_sorted(string_views(final(v)@)),
        string_views(final(v)@).to_set() == string_views(old(v)@).to_set().insert(x@),
{
    let ghost s = string_views(v@);
    let mut pos: usize = 0;
    while pos < v.len() && string_less(&v[pos], &x)
        invariant
            pos <= v@.len(),
            s == string_views(v@),
            forall|j: int| 0 <= j < pos ==> lex_lt(#[trigger] s[j], x@),
        decreases v@.len() - pos,
    {
        pos = pos + 1;
    }
    if pos < v.len() && v[pos] == x {
        assert(s.to_set() =~= s.to_set().insert(x@)) by {
            assert(s[pos as int] == x@);
            assert(s.contains(x@));
        }
        return;
    }
    proof {
        if pos < s.len() {
            lemma_lex_total(s[pos as int], x@);
            assert(lex_lt(x@, s[pos as int]));
            assert forall|j: int| pos <= j < s.len() implies lex_lt(x@, #[trigger] s[j]) by {
                if j > pos {
                    lemma_lex_trans(x@, s[pos as int], s[j]);
                }
            }
        }
    }
    v.insert(pos, x);
    let ghost t = string_views(v@);
    assert(t =~= s.take(pos as int).push(x@) + s.skip(pos as int));
    assert forall|i: int, j: int| 0 <= i < j < t.len() implies lex_lt(t[i], t[j]) by {
        if j < pos {
            assert(t[i] == s[i] && t[j] == s[j]);
        } else if j == pos {
            assert(t[i] == s[i]);
        } else if i == pos {
            assert(t[j] == s[j - 1]);
        } else if i < pos {
            assert(t[i] == s[i] && t[j] == s[j - 1]);
            lemma_lex_trans(s[i], x@, s[j - 1]);
        } else {
            assert(t[i] == s[i - 1] && t[j] == s[j - 1]);
        }
    }
    assert(t.to_set() =~= s.to_set().insert(x@)) by {
        assert forall|n: Seq<char>| t.contains(n) implies s.to_set().insert(x@).contains(n) by {
            let k = choose|k: int| 0 <= k < t.len() && t[k] == n;
            if k < pos {
                assert(s[k] == n);
            } else if k > pos {
                assert(s[k - 1] == n);
            }
        }
        assert forall|n: Seq<char>| s.to_set().insert(x@).contains(n) implies t.contains(n) by {
            if n == x@ {
                assert(t[pos as int] == n);
            } else {
                let k = choose|k: int| 0 <= k < s.len() && s[k] == n;
                if k < pos {
                    assert(t[k] == n);
                } else {
                    assert(t[k + 1] == n);
                }
            }
        }
    }
}

/// The names a Repology search offers on the repository: one per project
/// (that of its first record there with a non-empty name), sorted, each once.
pub fn collect_search_names(projects: &Vec<Vec<SearchEntry>>, repo: &str) -> (r: Vec<String>)
    ensures
        strictly_sorted(string_views(r@)),
        string_views(r@).to_set() == search_names(projects@, repo@),
{
    let repo_s = String::from_str(repo);
    let mut out: Vec<String> = Vec::new();
    let mut i: usize = 0;
    assert(string_views(out@).to_set() =~= search_names(projects@.take(0), repo@));
    while i < projects.len()
        invariant
            i <= projects@.len(),
            repo_s@ == repo@,
            strictly_sorted(string_views(out@)),
            string_views(out@).to_set() == search_names(projects@.take(i as int), repo@),
        decreases projects@.len() - i,
    {
        let ghost before = search_names(projects@.take(i as int), repo@);
        let pick = pick_from_project(&projects[i], &repo_s);
        let ghost pre = projects@.take(i as int);
        let ghost post = projects@.take(i + 1);
        assert(post =~= pre.push(projects@[i as int]));
        match pick {
            Some(name) => {
                let ghost nm = name@;
                insert_sorted_unique(&mut out, name);
                assert(search_names(post, repo@) =~= before.insert(nm)) by {
                    assert forall|n: Seq<char>| search_names(post, repo@).contains(n) implies before.insert(nm).contains(n) by {
                        let k = choose|k: int| 0 <= k < post.len() && project_pick(post[k]@, repo@) == Some(n);
                        if k < i {
                            assert(pre[k] == post[k]);
                        }
                    }
                    assert forall|n: Seq<char>| before.insert(nm).contains(n) implies search_names(post, repo@).contains(n) by {
                        if n == nm {
                            assert(project_pick(post[i as int]@, repo@) == Some(n));
                        } else {
                            let k = choose|k: int| 0 <= k < pre.len() && project_pick(pre[k]@, repo@) == Some(n);
                            assert(pre[k] == post[k]);
                        }
                    }
                }
            },
            None => {
                assert(search_names(post, repo@) =~= before) by {
                    assert forall|n: Seq<char>| search_names(post, repo@).contains(n) implies before.contains(n) by {
                        let k = choose|k: int| 0 <= k < post.len() && project_pick(post[k]@, repo@) == Some(n);
                        if k < i {
                            assert(pre[k] == post[k]);
                        }
                    }
                    assert forall|n: Seq<char>| before.contains(n) implies search_names(post, repo@).contains(n) by {
                        let k = choose|k: int| 0 <= k < pre.len() && project_pick(pre[k]@, repo@) == Some(n);
                        assert(pre[k] == post[k]);
                    }
                }
            },
        }
        i = i + 1;
    }
    assert(projects@.take(i as int) =~= projects@);
    out
}

} // verus!
