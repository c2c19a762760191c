//! Properties of the library as a whole.

use vstd::prelude::*;

use crate::desktop::first_of_each_name;
use crate::resolver::{
    encode_char, hex_digit, hex_upper, is_apt_family, is_unreserved, spec_all_targets,
    spec_resolution, spec_resolution_from_lookup, spec_repology_repo, spec_slug, url_encode, ResolutionModel, TargetDistro,
};
use crate::scanner::{
    listing_entry, listing_packages, model_names, package_views, terminal_keeps, Listing,
    PackageModel,
};
use crate::selection::{
    all_of, count_selected, is_selected, spec_selected_for_generation, tab_packages,
    with_selection, Tab,
};
use crate::scanner::PackageList;

verus! {

/// Every target appears exactly once in the list of all targets.
pub proof fn lemma_all_targets_once(t: TargetDistro)
    ensures
        spec_all_targets().contains(t),
        forall|i: int, j: int|
            0 <= i < j < spec_all_targets().len() ==> spec_all_targets()[i] != spec_all_targets()[j],
{
    let all = spec_all_targets();
    match t {
        TargetDistro::Ubuntu => assert(all[0] == t),
        TargetDistro::Debian => assert(all[1] == t),
        TargetDistro::Mint => assert(all[2] == t),
        TargetDistro::PopOs => assert(all[3] == t),
        TargetDistro::Fedora => assert(all[4] == t),
        TargetDistro::Arch => assert(all[5] == t),
        TargetDistro::Manjaro => assert(all[6] == t),
        TargetDistro::OpenSuse => assert(all[7] == t),
    }
}

/// Each target writes its own script file: no two targets share a slug.
pub proof fn lemma_slugs_distinct(a: TargetDistro, b: TargetDistro)
    ensures
        a != b ==> spec_slug(a) != spec_slug(b),
{
    reveal_strlit("debian");
    reveal_strlit("ubuntu");
    reveal_strlit("mint");
    reveal_strlit("popos");
    reveal_strlit("fedora");
    reveal_strlit("arch");
    reveal_strlit("manjaro");
    reveal_strlit("opensuse");
    if a != b && spec_slug(a) == spec_slug(b) {
        assert(spec_slug(a)[0] == spec_slug(b)[0]);
        assert(spec_slug(a).len() == spec_slug(b).len());
        assert(spec_slug(a)[1] == spec_slug(b)[1]);
    }
}

/// Mint and Pop!_OS resolve against Ubuntu's repository.
pub proof fn lemma_ubuntu_derivatives_share_repo()
    ensures
        spec_repology_repo(TargetDistro::Mint) == spec_repology_repo(TargetDistro::Ubuntu),
        spec_repology_repo(TargetDistro::PopOs) == spec_repology_repo(TargetDistro::Ubuntu),
{
}

/// Native resolution comes first: an apt-family target keeps the source name
/// whatever Repology would say and whether or not there is a Flatpak ID;
/// elsewhere a name that Repology gives wins over a Flatpak ID, and the
/// Flatpak ID is used only when the lookup finds nothing.
pub proof fn lemma_native_resolution_first(
    name: Seq<char>,
    fid: Option<Seq<char>>,
    t: TargetDistro,
    lookup: Option<Seq<char>>,
)
    ensures
        is_apt_family(t) ==> spec_resolution(name, fid, t, lookup) == ResolutionModel::Native(
            name,
        ),
        !is_apt_family(t) ==> spec_resolution(name, fid, t, lookup)
            == spec_resolution_from_lookup(lookup, fid),
        !is_apt_family(t) && lookup is Some ==> spec_resolution(name, fid, t, lookup)
            == ResolutionModel::Native(lookup->0),
        !is_apt_family(t) && lookup is None && fid is Some ==> spec_resolution(
            name,
            fid,
            t,
            lookup,
        ) == ResolutionModel::Flatpak(fid->0),
        !is_apt_family(t) && lookup is None && fid is None ==> spec_resolution(
            name,
            fid,
            t,
            lookup,
        ) == ResolutionModel::Unresolved,
{
}

proof fn lemma_hex_digit_unreserved(d: nat)
    requires
        d < 16,
    ensures
        is_unreserved(hex_digit(d)),
{
    if d < 10 {
        assert((d + 48) as char as int == d + 48);
        assert('0' <= hex_digit(d) && hex_digit(d) <= '9');
    } else {
        assert((d + 55) as char as int == d + 55);
        assert('A' <= hex_digit(d) && hex_digit(d) <= 'Z');
    }
}

proof fn lemma_hex_upper_unreserved(n: nat)
    ensures
        forall|i: int| 0 <= i < hex_upper(n).len() ==> is_unreserved(#[trigger] hex_upper(n)[i]),
    decreases n,
{
    if n >= 16 {
        lemma_hex_upper_unreserved(n / 16);
        lemma_hex_digit_unreserved(n % 16);
        assert forall|i: int| 0 <= i < hex_upper(n).len() implies is_unreserved(#[trigger] hex_upper(n)[i]) by {
            if i < hex_upper(n / 16).len() {
                assert(hex_upper(n)[i] == hex_upper(n / 16)[i]);
            }
        }
    } else {
        lemma_hex_digit_unreserved(n);
    }
}

proof fn lemma_encode_char_safe(c: char)
    ensures
        forall|i: int|
            0 <= i < encode_char(c).len() ==> is_unreserved(#[trigger] encode_char(c)[i])
                || encode_char(c)[i] == '%',
{
    lemma_hex_upper_unreserved(c as nat);
    if (c as nat) < 16 {
        lemma_hex_digit_unreserved(c as nat);
        assert(is_unreserved('0'));
    }
}

/// An encoded query holds nothing but unreserved characters and `%`.
pub proof fn lemma_url_encode_safe(s: Seq<char>)
    ensures
        forall|i: int|
            0 <= i < url_encode(s).len() ==> is_unreserved(#[trigger] url_encode(s)[i])
                || url_encode(s)[i] == '%',
    decreases s.len(),
{
    if s.len() > 0 {
        lemma_url_encode_safe(s.drop_last());
        lemma_encode_char_safe(s.last());
        let a = url_encode(s.drop_last());
        let b = encode_char(s.last());
        assert(url_encode(s) == a + b);
        assert forall|i: int| 0 <= i < url_encode(s).len() implies is_unreserved(
            #[trigger] url_encode(s)[i],
        ) || url_encode(s)[i] == '%' by {
            if i < a.len() {
                assert(url_encode(s)[i] == a[i]);
            } else {
                assert(url_encode(s)[i] == b[i - a.len()]);
            }
        }
    }
}

/// A text of unreserved characters is its own encoding.
pub proof fn lemma_url_encode_unreserved(s: Seq<char>)
    requires
        forall|i: int| 0 <= i < s.len() ==> is_unreserved(#[trigger] s[i]),
    ensures
        url_encode(s) == s,
    decreases s.len(),
{
    if s.len() > 0 {
        lemma_url_encode_unreserved(s.drop_last());
        assert(is_unreserved(s[s.len() - 1]));
        assert(s.drop_last().push(s.last()) =~= s);
        assert(url_encode(s) =~= s.drop_last() + seq![s.last()]);
    }
}

/// The value of an upper-case hexadecimal digit.
pub open spec fn hex_value(c: char) -> nat {
    if '0' <= c && c <= '9' {
        (c as nat - 48) as nat
    } else if 'A' <= c && c <= 'F' {
        (c as nat - 55) as nat
    } else {
        0
    }
}

/// Percent-decoding: `%` and the two hexadecimal digits after it stand for
/// the character with that code; any other character stands for itself.
pub open spec fn percent_decode(t: Seq<char>) -> Seq<char>
    decreases t.len(),
{
    if t.len() == 0 {
        Seq::empty()
    } else if t[0] == '%' && t.len() >= 3 {
        seq![(hex_value(t[1]) * 16 + hex_value(t[2])) as char] + percent_decode(t.skip(3))
    } else {
        seq![t[0]] + percent_decode(t.skip(1))
    }
}

/// How many characters of a text do not stand for themselves in a query.
pub open spec fn reserved_count(s: Seq<char>) -> nat
    decreases s.len(),
{
    if s.len() == 0 {
        0
    } else {
        (if is_unreserved(s[0]) {
            0nat
        } else {
            1nat
        }) + reserved_count(s.skip(1))
    }
}

/// Every character of a text is ASCII.
pub open spec fn is_ascii_text(s: Seq<char>) -> bool {
    forall|i: int| 0 <= i < s.len() ==> (#[trigger] s[i] as nat) < 128
}

proof fn lemma_hex_value_digit(d: nat)
    requires
        d < 16,
    ensures
        hex_value(hex_digit(d)) == d,
{
    if d < 10 {
        assert((d + 48) as char as nat == d + 48);
    } else {
        assert((d + 55) as char as nat == d + 55);
    }
}

proof fn lemma_encode_char_ascii(c: char)
    requires
        (c as nat) < 128,
    ensures
        is_unreserved(c) ==> encode_char(c) == seq![c] && c != '%',
        !is_unreserved(c) ==> {
            &&& encode_char(c).len() == 3
            &&& encode_char(c)[0] == '%'
            &&& (hex_value(encode_char(c)[1]) * 16 + hex_value(encode_char(c)[2])) as char == c
        },
{
    if !is_unreserved(c) {
        let n = c as nat;
        if c == ' ' {
            assert(encode_char(c) =~= seq!['%', '2', '0']);
            assert(hex_value('2') == 2);
            assert(hex_value('0') == 0);
        } else if n < 16 {
            lemma_hex_value_digit(n);
            assert(encode_char(c) =~= seq!['%', '0', hex_digit(n)]);
            assert(hex_value('0') == 0);
        } else {
            lemma_hex_value_digit(n / 16);
            lemma_hex_value_digit(n % 16);
            assert(n / 16 < 16);
            assert(hex_upper(n / 16) == seq![hex_digit(n / 16)]);
            assert(hex_upper(n) == hex_upper(n / 16).push(hex_digit(n % 16)));
            assert(encode_char(c) =~= seq!['%', hex_digit(n / 16), hex_digit(n % 16)]);
            assert(n == (n / 16) * 16 + n % 16);
        }
    }
}

proof fn lemma_url_encode_cons(c: char, rest: Seq<char>)
    ensures
        url_encode(seq![c] + rest) == encode_char(c) + url_encode(rest),
    decreases rest.len(),
{
    let s = seq![c] + rest;
    if rest.len() == 0 {
        assert(s.drop_last() =~= Seq::<char>::empty());
        assert(url_encode(s) == url_encode(s.drop_last()) + encode_char(s.last()));
        assert(url_encode(s) =~= encode_char(c) + url_encode(rest));
    } else {
        assert(s.drop_last() =~= seq![c] + rest.drop_last());
        assert(s.last() == rest.last());
        lemma_url_encode_cons(c, rest.drop_last());
        assert(url_encode(s) == url_encode(s.drop_last()) + encode_char(s.last()));
        assert(url_encode(rest) == url_encode(rest.drop_last()) + encode_char(rest.last()));
        assert(url_encode(s) =~= encode_char(c) + url_encode(rest));
    }
}

/// Percent-decoding an encoded ASCII text gives the text back, and the
/// encoding is two characters longer for each character that does not stand
/// for itself.
pub proof fn lemma_url_encode_round_trip(s: Seq<char>)
    requires
        is_ascii_text(s),
    ensures
        percent_decode(url_encode(s)) == s,
        url_encode(s).len() == s.len() + 2 * reserved_count(s),
    decreases s.len(),
{
    if s.len() == 0 {
        assert(url_encode(s) =~= Seq::<char>::empty());
    } else {
        let c = s[0];
        let rest = s.skip(1);
        assert(s =~= seq![c] + rest);
        assert(is_ascii_text(rest)) by {
            assert forall|i: int| 0 <= i < rest.len() implies (#[trigger] rest[i] as nat) < 128 by {
                assert(rest[i] == s[i + 1]);
            }
        }
        assert((c as nat) < 128) by {
            assert(s[0] == c);
        }
        lemma_url_encode_round_trip(rest);
        lemma_url_encode_cons(c, rest);
        lemma_encode_char_ascii(c);
        let e = encode_char(c);
        let t = e + url_encode(rest);
        assert(url_encode(s) == t);
        if is_unreserved(c) {
            assert(t[0] == c);
            assert(t.skip(1) =~= url_encode(rest));
            assert(percent_decode(t) == seq![c] + percent_decode(t.skip(1)));
        } else {
            assert(t[0] == '%' && t[1] == e[1] && t[2] == e[2]);
            assert(t.skip(3) =~= url_encode(rest));
            assert(percent_decode(t) == seq![c] + percent_decode(t.skip(3)));
        }
        assert(percent_decode(t) =~= s);
    }
}

/// Every scanned package starts unselected: the user builds the list.
pub proof fn lemma_listings_unselected(
    fmt: Listing,
    out: Seq<char>,
    versions: Map<Seq<char>, Seq<char>>,
    has_home: bool,
    with_config: Seq<Seq<char>>,
    i: int,
)
    requires
        0 <= i < listing_packages(fmt, out, versions, has_home, with_config).len(),
    ensures
        !listing_packages(fmt, out, versions, has_home, with_config)[i].selected,
        fmt is SnapList ==> (listing_packages(fmt, out, versions, has_home, with_config)[i].resolution matches Some(
            ResolutionModel::Snap(n, _),
        ) && n == listing_packages(fmt, out, versions, has_home, with_config)[i].name),
        fmt is FlatpakApps ==> listing_packages(fmt, out, versions, has_home, with_config)[i].flatpak_id
            == Some(listing_packages(fmt, out, versions, has_home, with_config)[i].name),
{
    let f = listing_entry(fmt, versions, has_home, with_config);
    let ls = crate::scanner::skip_lines(crate::text::lines(out), crate::scanner::header_lines(fmt));
    lemma_filter_map_from(ls, f, i);
}

/// Each element of a `filter_map` result is the image of an element.
pub proof fn lemma_filter_map_from<A, B>(s: Seq<A>, f: spec_fn(A) -> Option<B>, i: int)
    requires
        0 <= i < s.filter_map(f).len(),
    ensures
        exists|j: int| 0 <= j < s.len() && f(s[j]) == Some(s.filter_map(f)[i]),
    decreases s.len(),
{
    if s.len() > 0 {
        let rest = s.drop_last();
        match f(s.last()) {
            Some(b) => {
                if i < rest.filter_map(f).len() {
                    lemma_filter_map_from(rest, f, i);
                    let j = choose|j: int| 0 <= j < rest.len() && f(rest[j]) == Some(rest.filter_map(f)[i]);
                    assert(s[j] == rest[j]);
                    assert(s.filter_map(f)[i] == rest.filter_map(f)[i]);
                } else {
                    assert(s.filter_map(f)[i] == b);
                    assert(f(s[s.len() - 1]) == Some(b));
                }
            },
            None => {
                lemma_filter_map_from(rest, f, i);
                let j = choose|j: int| 0 <= j < rest.len() && f(rest[j]) == Some(rest.filter_map(f)[i]);
                assert(s[j] == rest[j]);
            },
        }
    }
}

/// Keeping the first package of each name leaves each name once, and only
/// packages that were there.
pub proof fn lemma_first_of_each_name(s: Seq<PackageModel>)
    ensures
        forall|i: int, j: int|
            0 <= i < j < first_of_each_name(s).len() ==> first_of_each_name(s)[i].name
                != first_of_each_name(s)[j].name,
        forall|i: int| 0 <= i < first_of_each_name(s).len() ==> s.contains(#[trigger] first_of_each_name(s)[i]),
        first_of_each_name(s).len() <= s.len(),
    decreases s.len(),
{
    if s.len() > 0 {
        let rest = s.drop_last();
        lemma_first_of_each_name(rest);
        let d = first_of_each_name(rest);
        assert forall|i: int| 0 <= i < d.len() implies s.contains(#[trigger] d[i]) by {
            let k = choose|k: int| 0 <= k < rest.len() && rest[k] == d[i];
            assert(s[k] == rest[k]);
        }
        if !model_names(d).contains(s.last().name) {
            let e = d.push(s.last());
            assert forall|i: int, j: int| 0 <= i < j < e.len() implies e[i].name != e[j].name by {
                if j == d.len() {
                    assert(model_names(d)[i] == d[i].name);
                }
            }
            assert(s.contains(s.last())) by {
                assert(s[s.len() - 1] == s.last());
            }
            assert forall|i: int| 0 <= i < e.len() implies s.contains(#[trigger] e[i]) by {
                if i < d.len() {
                    assert(e[i] == d[i]);
                }
            }
        }
    }
}

/// No package left in the terminal tab is a menu app or a Flatpak.
pub proof fn lemma_terminal_excludes_other_tabs(
    raw: Seq<PackageModel>,
    menu_names: Seq<Seq<char>>,
    flatpak_names: Seq<Seq<char>>,
    i: int,
)
    requires
        0 <= i < raw.filter(terminal_keeps(menu_names, flatpak_names)).len(),
    ensures
        !menu_names.contains(raw.filter(terminal_keeps(menu_names, flatpak_names))[i].name),
        !flatpak_names.contains(raw.filter(terminal_keeps(menu_names, flatpak_names))[i].name),
{
    raw.lemma_filter_pred(terminal_keeps(menu_names, flatpak_names), i);
}

/// After "Select All" a tab counts all its packages as selected; after
/// "Deselect All" none.
pub proof fn lemma_select_all_counts(ps: Seq<PackageModel>, selected: bool)
    ensures
        ps.map_values(|p: PackageModel| with_selection(p, selected)).filter(is_selected()).len() == if selected {
            ps.len()
        } else {
            0
        },
    decreases ps.len(),
{
    let m = ps.map_values(|p: PackageModel| with_selection(p, selected));
    if ps.len() > 0 {
        let rest = ps.drop_last();
        lemma_select_all_counts(rest, selected);
        let mr = rest.map_values(|p: PackageModel| with_selection(p, selected));
        assert(m =~= mr.push(with_selection(ps.last(), selected)));
        mr.lemma_filter_push(with_selection(ps.last(), selected), is_selected());
    } else {
        assert(m.filter(is_selected()) =~= m) by {
            reveal(Seq::filter);
        }
    }
}

/// The selected total is the sum of the tabs' selected counts.
pub proof fn lemma_total_is_sum_of_tabs(list: PackageList)
    ensures
        count_selected(all_of(list)) == count_selected(tab_packages(list, Tab::MenuApps))
            + count_selected(tab_packages(list, Tab::TerminalApps)) + count_selected(
            tab_packages(list, Tab::FlatpakApps),
        ) + count_selected(tab_packages(list, Tab::SnapApps)),
{
    let f = is_selected();
    let m = package_views(list.menu@);
    let t = package_views(list.terminal@);
    let fl = package_views(list.flatpak@);
    let sn = package_views(list.snap@);
    assert(package_views(all_of(list)) =~= m + t + fl + sn);
    Seq::filter_distributes_over_add(m + t + fl, sn, f);
    Seq::filter_distributes_over_add(m + t, fl, f);
    Seq::filter_distributes_over_add(m, t, f);
}

/// The script gets no more packages than are selected, and no two of them
/// come from packages of the same name.
pub proof fn lemma_generation_within_selection(list: PackageList)
    ensures
        spec_selected_for_generation(list).len() <= count_selected(all_of(list)),
        forall|i: int, j: int|
            0 <= i < j < first_of_each_name(package_views(all_of(list)).filter(is_selected())).len()
                ==> first_of_each_name(package_views(all_of(list)).filter(is_selected()))[i].name
                != first_of_each_name(package_views(all_of(list)).filter(is_selected()))[j].name,
{
    lemma_first_of_each_name(package_views(all_of(list)).filter(is_selected()));
}

} // verus!
