use vstd::prelude::*;

verus! {

// ---------------------------------------------------------------------------
// Character classes
// ---------------------------------------------------------------------------

/// `char::is_whitespace`: the Unicode `White_Space` property.
pub open spec fn is_ws(c: char) -> bool {
    ||| ('\t' <= c && c <= '\r')
    ||| c == ' '
    ||| c == '\u{85}'
    ||| c == '\u{A0}'
    ||| c == '\u{1680}'
    ||| ('\u{2000}' <= c && c <= '\u{200A}')
    ||| c == '\u{2028}'
    ||| c == '\u{2029}'
    ||| c == '\u{202F}'
    ||| c == '\u{205F}'
    ||| c == '\u{3000}'
}

pub fn is_whitespace(c: char) -> (r: bool)
    ensures
        r == is_ws(c),
{
    ('\t' <= c && c <= '\r') || c == ' ' || c == '\u{85}' || c == '\u{A0}' || c == '\u{1680}'
        || ('\u{2000}' <= c && c <= '\u{200A}') || c == '\u{2028}' || c == '\u{2029}'
        || c == '\u{202F}' || c == '\u{205F}' || c == '\u{3000}'
}

/// A class of separator characters: white space, or one given character.
#[derive(Clone, Copy, Debug, PartialEq, Eq)]
pub enum CharClass {
    Whitespace,
    Is(char),
}

pub open spec fn in_class(cls: CharClass, c: char) -> bool {
    match cls {
        CharClass::Whitespace => is_ws(c),
        CharClass::Is(d) => c == d,
    }
}

pub fn class_has(cls: CharClass, c: char) -> (r: bool)
    ensures
        r == in_class(cls, c),
{
    match cls {
        CharClass::Whitespace => is_whitespace(c),
        CharClass::Is(d) => c == d,
    }
}

// ---------------------------------------------------------------------------
// Conversions between `str`/`String` and character vectors
// ---------------------------------------------------------------------------

/// The characters of `s`, in order.
pub fn chars_of(s: &str) -> (v: Vec<char>)
    ensures
        v@ == s@,
{
    let mut v: Vec<char> = Vec::new();
    for c in it: s.chars()
        invariant
            it.seq() == s@,
            v@ == s@.take(it.index() as int),
    {
        v.push(c);
    }
    v
}

/// `String::push`: appends one character.
#[verifier::external_body]
fn push_char(s: &mut String, c: char)
    ensures
        final(s)@ == old(s)@.push(c),
{
    s.push(c);
}

/// Appends the characters `v[lo..hi]` to `s`.
pub fn push_chars(s: &mut String, v: &Vec<char>, lo: usize, hi: usize)
    requires
        lo <= hi <= v@.len(),
    ensures
        final(s)@ == old(s)@ + v@.subrange(lo as int, hi as int),
{
    let mut i = lo;
    while i < hi
        invariant
            lo <= i <= hi <= v@.len(),
            s@ == old(s)@ + v@.subrange(lo as int, i as int),
        decreases hi - i,
    {
        push_char(s, v[i]);
        i = i + 1;
        assert(s@ =~= old(s)@ + v@.subrange(lo as int, i as int));
    }
}

/// A `String` holding the characters of `v`.
pub fn string_of(v: &Vec<char>) -> (s: String)
    ensures
        s@ == v@,
{
    let mut s = String::new();
    push_chars(&mut s, v, 0, v.len());
    assert(v@.subrange(0, v@.len() as int) =~= v@);
    s
}

/// The characters `v[lo..hi]` as a new vector.
pub fn slice_chars(v: &Vec<char>, lo: usize, hi: usize) -> (r: Vec<char>)
    requires
        lo <= hi <= v@.len(),
    ensures
        r@ == v@.subrange(lo as int, hi as int),
{
    let mut r: Vec<char> = Vec::new();
    let mut i = lo;
    while i < hi
        invariant
            lo <= i <= hi <= v@.len(),
            r@ == v@.subrange(lo as int, i as int),
        decreases hi - i,
    {
        r.push(v[i]);
        i = i + 1;
        assert(r@ =~= v@.subrange(lo as int, i as int));
    }
    r
}

pub open spec fn views(v: Seq<Vec<char>>) -> Seq<Seq<char>> {
    v.map_values(|x: Vec<char>| x@)
}

pub open spec fn string_views(v: Seq<String>) -> Seq<Seq<char>> {
    v.map_values(|x: String| x@)
}

// ---------------------------------------------------------------------------
// Comparison
// ---------------------------------------------------------------------------

pub fn chars_eq(a: &Vec<char>, b: &Vec<char>) -> (r: bool)
    ensures
        r == (a@ == b@),
{
    if a.len() != b.len() {
        return false;
    }
    let mut i: usize = 0;
    while i < a.len()
        invariant
            a@.len() == b@.len(),
            i <= a@.len(),
            a@.take(i as int) =~= b@.take(i as int),
        decreases a@.len() - i,
    {
        if a[i] != b[i] {
            assert(a@[i as int] != b@[i as int]);
            return false;
        }
        i = i + 1;
        assert(a@.take(i as int) =~= b@.take(i as int));
    }
    assert(a@ =~= a@.take(i as int));
    assert(b@ =~= b@.take(i as int));
    true
}

/// Does `s` equal the literal `lit`?
pub fn eq_str(s: &Vec<char>, lit: &str) -> (r: bool)
    ensures
        r == (s@ == lit@),
{
    let l = chars_of(lit);
    chars_eq(s, &l)
}

/// `str::starts_with` with a string pattern.
pub fn starts_with(s: &Vec<char>, p: &str) -> (r: bool)
    ensures
        r == p@.is_prefix_of(s@),
{
    let pv = chars_of(p);
    if pv.len() > s.len() {
        return false;
    }
    let mut i: usize = 0;
    while i < pv.len()
        invariant
            pv@ == p@,
            pv@.len() <= s@.len(),
            i <= pv@.len(),
            pv@.take(i as int) =~= s@.take(i as int),
        decreases pv@.len() - i,
    {
        if pv[i] != s[i] {
            assert(pv@[i as int] != s@.subrange(0, pv@.len() as int)[i as int]);
            return false;
        }
        i = i + 1;
        assert(pv@.take(i as int) =~= s@.take(i as int));
    }
    assert(pv@ =~= pv@.take(i as int));
    true
}

/// Is `p` a contiguous part of `s` at position `k`?
pub open spec fn occurs_at(s: Seq<char>, p: Seq<char>, k: int) -> bool {
    0 <= k && k + p.len() <= s.len() && s.subrange(k, k + p.len()) == p
}

/// `str::contains` with a string pattern.
pub open spec fn has_substring(s: Seq<char>, p: Seq<char>) -> bool {
    exists|k: int| occurs_at(s, p, k)
}

fn matches_at(s: &Vec<char>, p: &Vec<char>, k: usize) -> (r: bool)
    requires
        k + p@.len() <= s.len(),
    ensures
        r == occurs_at(s@, p@, k as int),
{
    let mut i: usize = 0;
    while i < p.len()
        invariant
            k + p@.len() <= s.len(),
            i <= p@.len(),
            p@.take(i as int) =~= s@.subrange(k as int, k + i),
        decreases p@.len() - i,
    {
        if p[i] != s[k + i] {
            assert(s@.subrange(k as int, k + p@.len())[i as int] != p@[i as int]);
            return false;
        }
        i = i + 1;
        assert(p@.take(i as int) =~= s@.subrange(k as int, k + i));
    }
    assert(p@ =~= p@.take(i as int));
    true
}

pub fn contains_chars(s: &Vec<char>, p: &Vec<char>) -> (r: bool)
    ensures
        r == has_substring(s@, p@),
{
    if p.len() > s.len() {
        assert(forall|k: int| !occurs_at(s@, p@, k));
        return false;
    }
    let last = s.len() - p.len();
    let mut k: usize = 0;
    while k < last
        invariant
            k <= last,
            last + p@.len() == s.len(),
            forall|j: int| 0 <= j < k ==> !occurs_at(s@, p@, j),
        decreases last - k,
    {
        if matches_at(s, p, k) {
            return true;
        }
        k = k + 1;
    }
    let r = matches_at(s, p, last);
    assert(!r ==> forall|j: int| !occurs_at(s@, p@, j)) by {
        if !r {
            assert forall|j: int| !occurs_at(s@, p@, j) by {
                if 0 <= j && j + p@.len() <= s@.len() {
                    assert(j <= last);
                }
            }
        }
    }
    r
}

/// `str::contains` with a literal pattern.
pub fn contains_str(s: &Vec<char>, p: &str) -> (r: bool)
    ensures
        r == has_substring(s@, p@),
{
    let pv = chars_of(p);
    contains_chars(s, &pv)
}

/// `str::contains` with a character pattern.
pub fn contains_char(s: &Vec<char>, c: char) -> (r: bool)
    ensures
        r == s@.contains(c),
{
    let mut i: usize = 0;
    while i < s.len()
        invariant
            i <= s@.len(),
            forall|j: int| 0 <= j < i ==> s@[j] != c,
        decreases s@.len() - i,
    {
        if s[i] == c {
            assert(s@[i as int] == c);
            return true;
        }
        i = i + 1;
    }
    false
}

// ---------------------------------------------------------------------------
// Trimming
// ---------------------------------------------------------------------------

/// Drops the leading characters of class `cls`.
pub open spec fn trim_start_by(s: Seq<char>, cls: CharClass) -> Seq<char>
    decreases s.len(),
{
    if s.len() > 0 && in_class(cls, s[0]) {
        trim_start_by(s.drop_first(), cls)
    } else {
        s
    }
}

/// Drops the trailing characters of class `cls`.
pub open spec fn trim_end_by(s: Seq<char>, cls: CharClass) -> Seq<char>
    decreases s.len(),
{
    if s.len() > 0 && in_class(cls, s.last()) {
        trim_end_by(s.drop_last(), cls)
    } else {
        s
    }
}

/// `str::trim_matches` with a character class (`str::trim` for white space).
pub open spec fn trim_by(s: Seq<char>, cls: CharClass) -> Seq<char> {
    trim_end_by(trim_start_by(s, cls), cls)
}

/// `str::trim`.
pub open spec fn trim(s: Seq<char>) -> Seq<char> {
    trim_by(s, CharClass::Whitespace)
}

pub fn trim_chars(v: &Vec<char>, cls: CharClass) -> (r: Vec<char>)
    ensures
        r@ == trim_by(v@, cls),
{
    let n = v.len();
    let mut lo: usize = 0;
    assert(v@.skip(0) =~= v@);
    while lo < n && class_has(cls, v[lo])
        invariant
            n == v@.len(),
            lo <= n,
            trim_start_by(v@, cls) == trim_start_by(v@.skip(lo as int), cls),
        decreases n - lo,
    {
        assert(v@.skip(lo as int).drop_first() =~= v@.skip(lo + 1));
        lo = lo + 1;
    }
    assert(trim_start_by(v@, cls) == v@.skip(lo as int));
    let mut hi: usize = n;
    while hi > lo && class_has(cls, v[hi - 1])
        invariant
            n == v@.len(),
            lo <= hi <= n,
            trim_by(v@, cls) == trim_end_by(v@.subrange(lo as int, hi as int), cls),
        decreases hi - lo,
    {
        assert(v@.subrange(lo as int, hi as int).drop_last() =~= v@.subrange(
            lo as int,
            hi - 1,
        ));
        hi = hi - 1;
    }
    assert(v@.skip(lo as int) =~= v@.subrange(lo as int, n as int));
    slice_chars(v, lo, hi)
}

/// `str::trim`.
pub fn trim_ws(v: &Vec<char>) -> (r: Vec<char>)
    ensures
        r@ == trim(v@),
{
    trim_chars(v, CharClass::Whitespace)
}

// ---------------------------------------------------------------------------
// Splitting
// ---------------------------------------------------------------------------

/// `str::split` with a character class as the pattern: the pieces between
/// separators, empty pieces included. An empty text is one empty piece; a
/// separator starts a new piece; any other character extends the last one.
pub open spec fn split_by(s: Seq<char>, cls: CharClass) -> Seq<Seq<char>>
    decreases s.len(),
{
    if s.len() == 0 {
        seq![Seq::<char>::empty()]
    } else {
        let p = split_by(s.drop_last(), cls);
        if in_class(cls, s.last()) {
            p.push(Seq::<char>::empty())
        } else {
            p.update(p.len() - 1, p.last().push(s.last()))
        }
    }
}

/// Splitting always gives at least one piece.
pub proof fn lemma_split_by_nonempty(s: Seq<char>, cls: CharClass)
    ensures
        split_by(s, cls).len() >= 1,
    decreases s.len(),
{
    if s.len() > 0 {
        lemma_split_by_nonempty(s.drop_last(), cls);
    }
}

/// `str::split` with a character class.
pub fn split_chars(v: &Vec<char>, cls: CharClass) -> (r: Vec<Vec<char>>)
    ensures
        views(r@) == split_by(v@, cls),
{
    let mut pieces: Vec<Vec<char>> = Vec::new();
    let mut cur: Vec<char> = Vec::new();
    let n = v.len();
    let mut i: usize = 0;
    assert(v@.take(0) =~= Seq::<char>::empty());
    assert(views(pieces@).push(cur@) =~= split_by(v@.take(0), cls));
    while i < n
        invariant
            n == v@.len(),
            i <= n,
            views(pieces@).push(cur@) == split_by(v@.take(i as int), cls),
        decreases n - i,
    {
        let c = v[i];
        let ghost before = split_by(v@.take(i as int), cls);
        assert(v@.take(i + 1).drop_last() =~= v@.take(i as int));
        assert(v@.take(i + 1).last() == c);
        if class_has(cls, c) {
            let done = cur;
            pieces.push(done);
            cur = Vec::new();
            assert(views(pieces@) =~= before);
            assert(views(pieces@).push(cur@) =~= split_by(v@.take(i + 1), cls));
        } else {
            cur.push(c);
            assert(views(pieces@).push(cur@) =~= split_by(v@.take(i + 1), cls));
        }
        i = i + 1;
    }
    assert(v@.take(n as int) =~= v@);
    pieces.push(cur);
    assert(views(pieces@) =~= split_by(v@, cls));
    pieces
}

/// `str::split_whitespace`: the non-empty pieces between white space.
pub open spec fn split_whitespace(s: Seq<char>) -> Seq<Seq<char>> {
    split_by(s, CharClass::Whitespace).filter(nonempty())
}

pub open spec fn nonempty() -> spec_fn(Seq<char>) -> bool {
    |p: Seq<char>| p.len() > 0
}

pub fn split_ws(v: &Vec<char>) -> (r: Vec<Vec<char>>)
    ensures
        views(r@) == split_whitespace(v@),
{
    let pieces = split_chars(v, CharClass::Whitespace);
    let mut out: Vec<Vec<char>> = Vec::new();
    let mut i: usize = 0;
    assert(views(pieces@).take(0) =~= Seq::<Seq<char>>::empty());
    assert(Seq::<Seq<char>>::empty().filter(nonempty()) =~= Seq::<Seq<char>>::empty()) by {
        reveal(Seq::filter);
    }
    while i < pieces.len()
        invariant
            i <= pieces@.len(),
            views(out@) == views(pieces@).take(i as int).filter(nonempty()),
        decreases pieces@.len() - i,
    {
        let ghost prev = views(pieces@).take(i as int);
        assert(views(pieces@).take(i + 1) =~= prev.push(pieces@[i as int]@));
        proof {
            prev.lemma_filter_push(pieces@[i as int]@, nonempty());
        }
        assert(nonempty()(pieces@[i as int]@) == (pieces@[i as int]@.len() > 0));
        if pieces[i].len() > 0 {
            let piece = slice_chars(&pieces[i], 0, pieces[i].len());
            assert(piece@ =~= pieces@[i as int]@);
            out.push(piece);
            assert(views(out@) =~= prev.filter(nonempty()).push(pieces@[i as int]@));
        }
        i = i + 1;
    }
    assert(views(pieces@).take(i as int) =~= views(pieces@));
    out
}

// ---------------------------------------------------------------------------
// Lines
// ---------------------------------------------------------------------------

/// Drops one trailing carriage return.
pub open spec fn strip_cr(l: Seq<char>) -> Seq<char> {
    if l.len() > 0 && l.last() == '\r' {
        l.drop_last()
    } else {
        l
    }
}

/// `str::lines`: the pieces between `\n`; a line ended by `\n` loses one
/// trailing `\r`, and a final empty piece (after a last `\n`, or of an empty
/// text) is no line.
pub open spec fn lines(s: Seq<char>) -> Seq<Seq<char>> {
    let p = split_by(s, CharClass::Is('\n'));
    let ended = p.drop_last().map_values(|l: Seq<char>| strip_cr(l));
    if p.last().len() == 0 {
        ended
    } else {
        ended.push(p.last())
    }
}

/// `str::lines`.
pub fn lines_of(s: &str) -> (r: Vec<Vec<char>>)
    ensures
        views(r@) == lines(s@),
{
    let v = chars_of(s);
    let p = split_chars(&v, CharClass::Is('\n'));
    proof {
        lemma_split_by_nonempty(v@, CharClass::Is('\n'));
    }
    let ghost pv = split_by(s@, CharClass::Is('\n'));
    let ghost ended = pv.drop_last().map_values(|l: Seq<char>| strip_cr(l));
    let n = p.len() - 1;
    let mut out: Vec<Vec<char>> = Vec::new();
    let mut i: usize = 0;
    while i < n
        invariant
            n + 1 == p@.len(),
            views(p@) == pv,
            ended == pv.drop_last().map_values(|l: Seq<char>| strip_cr(l)),
            i <= n,
            views(out@) == ended.take(i as int),
        decreases n - i,
    {
        let len = p[i].len();
        let cut = if len > 0 && p[i][len - 1] == '\r' {
            len - 1
        } else {
            len
        };
        let line = slice_chars(&p[i], 0, cut);
        assert(line@ =~= strip_cr(pv[i as int]));
        assert(pv.drop_last()[i as int] == pv[i as int]);
        assert(ended[i as int] == strip_cr(pv[i as int]));
        let ghost before = views(out@);
        out.push(line);
        assert(views(out@) =~= before.push(line@));
        i = i + 1;
        assert(views(out@) =~= ended.take(i as int));
    }
    assert(ended.take(n as int) =~= ended);
    if p[n].len() > 0 {
        let last = slice_chars(&p[n], 0, p[n].len());
        assert(last@ =~= pv.last());
        out.push(last);
        assert(views(out@) =~= ended.push(pv.last()));
    }
    out
}

// ---------------------------------------------------------------------------
// Splitting at the first occurrence
// ---------------------------------------------------------------------------

/// `k` is the first position of `c` in `s`.
pub open spec fn first_at(s: Seq<char>, c: char, k: int) -> bool {
    &&& 0 <= k < s.len()
    &&& s[k] == c
    &&& forall|j: int| 0 <= j < k ==> s[j] != c
}

/// `str::split_once` with a character: the text before and after the first `c`.
pub open spec fn split_once(s: Seq<char>, c: char) -> Option<(Seq<char>, Seq<char>)> {
    if exists|k: int| first_at(s, c, k) {
        let k = choose|k: int| first_at(s, c, k);
        Some((s.take(k), s.skip(k + 1)))
    } else {
        None
    }
}

/// `str::splitn`: at most `n` pieces; the last holds the rest of the text.
pub open spec fn splitn(s: Seq<char>, n: nat, c: char) -> Seq<Seq<char>>
    decreases n,
{
    if n <= 1 {
        seq![s]
    } else {
        match split_once(s, c) {
            None => seq![s],
            Some((a, b)) => seq![a] + splitn(b, (n - 1) as nat, c),
        }
    }
}

pub fn split_once_chars(v: &Vec<char>, c: char) -> (r: Option<(Vec<char>, Vec<char>)>)
    ensures
        match r {
            None => split_once(v@, c) is None,
            Some((a, b)) => split_once(v@, c) == Some((a@, b@)),
        },
{
    let mut i: usize = 0;
    while i < v.len()
        invariant
            i <= v@.len(),
            forall|j: int| 0 <= j < i ==> v@[j] != c,
        decreases v@.len() - i,
    {
        if v[i] == c {
            assert(first_at(v@, c, i as int));
            let ghost k = choose|k: int| first_at(v@, c, k);
            assert(k == i) by {
                if k < i {
                    assert(v@[k] != c);
                } else if k > i {
                    assert(v@[i as int] != c);
                }
            }
            let a = slice_chars(v, 0, i);
            let b = slice_chars(v, i + 1, v.len());
            assert(a@ =~= v@.take(i as int));
            assert(b@ =~= v@.skip(i + 1));
            return Some((a, b));
        }
        i = i + 1;
    }
    assert(!exists|k: int| first_at(v@, c, k));
    None
}

/// `splitn` always gives at least one piece.
pub proof fn lemma_splitn_nonempty(s: Seq<char>, n: nat, c: char)
    ensures
        splitn(s, n, c).len() >= 1,
{
    if n > 1 {
        match split_once(s, c) {
            None => {},
            Some((a, b)) => {
                assert((seq![a] + splitn(b, (n - 1) as nat, c))[0] == a);
            },
        }
    }
}

/// `str::splitn`.
pub fn splitn_chars(v: &Vec<char>, n: usize, c: char) -> (r: Vec<Vec<char>>)
    ensures
        views(r@) == splitn(v@, n as nat, c),
    decreases n,
{
    if n <= 1 {
        let whole = slice_chars(v, 0, v.len());
        assert(whole@ =~= v@);
        let mut r: Vec<Vec<char>> = Vec::new();
        r.push(whole);
        assert(views(r@) =~= seq![v@]);
        return r;
    }
    match split_once_chars(v, c) {
        None => {
            let whole = slice_chars(v, 0, v.len());
            assert(whole@ =~= v@);
            let mut r: Vec<Vec<char>> = Vec::new();
            r.push(whole);
            assert(views(r@) =~= seq![v@]);
            r
        },
        Some((a, b)) => {
            let rest = splitn_chars(&b, n - 1, c);
            let mut r: Vec<Vec<char>> = Vec::new();
            r.push(a);
            let mut rest = rest;
            r.append(&mut rest);
            assert(views(r@) =~= seq![a@] + splitn(b@, (n - 1) as nat, c));
            r
        },
    }
}

// ---------------------------------------------------------------------------
// Lexicographic order (the order of `str` and `String`)
// ---------------------------------------------------------------------------

/// `a < b` for strings: the first differing character decides, and a proper
/// prefix comes first. (Byte order of UTF-8 agrees with code point order.)
pub open spec fn lex_lt(a: Seq<char>, b: Seq<char>) -> bool
    decreases a.len(),
{
    if a.len() == 0 {
        b.len() > 0
    } else if b.len() == 0 {
        false
    } else if a[0] != b[0] {
        a[0] < b[0]
    } else {
        lex_lt(a.drop_first(), b.drop_first())
    }
}

/// No string comes before itself.
pub proof fn lemma_lex_irreflexive(a: Seq<char>)
    ensures
        !lex_lt(a, a),
    decreases a.len(),
{
    if a.len() > 0 {
        lemma_lex_irreflexive(a.drop_first());
    }
}

/// The string order is transitive.
pub proof fn lemma_lex_trans(a: Seq<char>, b: Seq<char>, c: Seq<char>)
    requires
        lex_lt(a, b),
        lex_lt(b, c),
    ensures
        lex_lt(a, c),
    decreases a.len(),
{
    if a.len() > 0 && b.len() > 0 && c.len() > 0 && a[0] == b[0] && b[0] == c[0] {
        lemma_lex_trans(a.drop_first(), b.drop_first(), c.drop_first());
    }
}

/// Of two different strings, one comes first.
pub proof fn lemma_lex_total(a: Seq<char>, b: Seq<char>)
    ensures
        a == b || lex_lt(a, b) || lex_lt(b, a),
    decreases a.len(),
{
    if a.len() > 0 && b.len() > 0 && a[0] == b[0] {
        lemma_lex_total(a.drop_first(), b.drop_first());
        if a.drop_first() == b.drop_first() {
            assert(a =~= seq![a[0]] + a.drop_first());
            assert(b =~= seq![b[0]] + b.drop_first());
        }
    } else if a.len() == 0 && b.len() == 0 {
        assert(a =~= b);
    }
}

/// Two strings never come before each other.
pub proof fn lemma_lex_asym(a: Seq<char>, b: Seq<char>)
    requires
        lex_lt(a, b),
    ensures
        !lex_lt(b, a),
{
    if lex_lt(b, a) {
        lemma_lex_trans(a, b, a);
        lemma_lex_irreflexive(a);
    }
}

/// `<` on strings.
pub fn lex_less(a: &Vec<char>, b: &Vec<char>) -> (r: bool)
    ensures
        r == lex_lt(a@, b@),
{
    let mut i: usize = 0;
    assert(a@.skip(0) =~= a@);
    assert(b@.skip(0) =~= b@);
    while i < a.len() && i < b.len() && a[i] == b[i]
        invariant
            i <= a@.len(),
            i <= b@.len(),
            lex_lt(a@, b@) == lex_lt(a@.skip(i as int), b@.skip(i as int)),
        decreases a@.len() - i,
    {
        assert(a@.skip(i as int).drop_first() =~= a@.skip(i + 1));
        assert(b@.skip(i as int).drop_first() =~= b@.skip(i + 1));
        i = i + 1;
    }
    if i == a.len() {
        i < b.len()
    } else if i == b.len() {
        false
    } else {
        a[i] < b[i]
    }
}

/// `<` on two strings.
pub fn string_less(a: &String, b: &String) -> (r: bool)
    ensures
        r == lex_lt(a@, b@),
{
    let av = chars_of(a.as_str());
    let bv = chars_of(b.as_str());
    lex_less(&av, &bv)
}

} // verus!
