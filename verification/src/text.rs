//! Text on the level of `Seq<char>`: occurrences, splitting, joining and
//! replacing, with executable versions proved against their specifications.

use vstd::prelude::*;

verus! {

/// `pat` occurs in `s` starting at position `i`.
pub open spec fn occurs_at(s: Seq<char>, pat: Seq<char>, i: int) -> bool {
    0 <= i && i + pat.len() <= s.len() && s.subrange(i, i + pat.len()) == pat
}

/// `pat` occurs somewhere in `s` (the empty pattern occurs everywhere).
pub open spec fn contains(s: Seq<char>, pat: Seq<char>) -> bool {
    exists|i: int| occurs_at(s, pat, i)
}

/// The characters of a string, in order.
pub fn chars_of(s: &str) -> (v: Vec<char>)
    ensures
        v@ == s@,
{
    let mut v: Vec<char> = Vec::new();
    for c in it: s.chars()
        invariant
            v@ == it.seq().take(it.index() as int),
    {
        v.push(c);
    }
    v
}


/// Appends one character; `String::push` of std.
#[verifier::external_body]
pub(crate) fn push_char(s: &mut String, c: char)
    ensures
        final(s)@ == old(s)@.push(c),
{
    s.push(c);
}

/// A string made of the given characters.
pub fn string_of(v: &[char]) -> (s: String)
    ensures
        s@ == v@,
{
    let mut s = String::new();
    let mut i: usize = 0;
    while i < v.len()
        invariant
            i <= v@.len(),
            s@ == v@.take(i as int),
        decreases v@.len() - i,
    {
        push_char(&mut s, v[i]);
        i = i + 1;
        assert(s@ =~= v@.take(i as int));
    }
    assert(v@.take(v@.len() as int) =~= v@);
    s
}

/// A one-character string.
pub fn char_string(c: char) -> (s: String)
    ensures
        s@ == seq![c],
{
    let mut s = String::new();
    push_char(&mut s, c);
    assert(s@ =~= seq![c]);
    s
}

/// First position at or after `k` where `pat` occurs in `s`, or -1.
pub open spec fn find_from(s: Seq<char>, pat: Seq<char>, k: int) -> int
    decreases s.len() + 1 - k,
{
    if k < 0 || k + pat.len() > s.len() {
        -1
    } else if occurs_at(s, pat, k) {
        k
    } else {
        find_from(s, pat, k + 1)
    }
}

/// First position where `pat` occurs in `s`, or -1.
pub open spec fn find(s: Seq<char>, pat: Seq<char>) -> int {
    find_from(s, pat, 0)
}

pub proof fn lemma_find_from(s: Seq<char>, pat: Seq<char>, k: int)
    requires
        0 <= k,
    ensures
        find_from(s, pat, k) == -1 ==> forall|j: int| k <= j ==> !occurs_at(s, pat, j),
        find_from(s, pat, k) != -1 ==> {
            &&& k <= find_from(s, pat, k)
            &&& occurs_at(s, pat, find_from(s, pat, k))
            &&& forall|j: int| k <= j < find_from(s, pat, k) ==> !occurs_at(s, pat, j)
        },
    decreases s.len() + 1 - k,
{
    if k + pat.len() > s.len() {
    } else if occurs_at(s, pat, k) {
    } else {
        lemma_find_from(s, pat, k + 1);
        assert forall|j: int| k <= j < find_from(s, pat, k + 1) || (find_from(s, pat, k + 1)
            == -1 && k <= j) implies !occurs_at(s, pat, j) by {}
    }
}

/// `find` gives the first occurrence, and -1 exactly when there is none.
pub proof fn lemma_find(s: Seq<char>, pat: Seq<char>)
    ensures
        find(s, pat) == -1 <==> !contains(s, pat),
        find(s, pat) != -1 ==> {
            &&& 0 <= find(s, pat)
            &&& find(s, pat) + pat.len() <= s.len()
            &&& occurs_at(s, pat, find(s, pat))
            &&& forall|j: int| 0 <= j < find(s, pat) ==> !occurs_at(s, pat, j)
        },
{
    lemma_find_from(s, pat, 0);
    if find(s, pat) != -1 {
        assert(occurs_at(s, pat, find(s, pat)));
    }
}

/// Whether `pat` occurs in `s` at position `i`.
fn matches_at(s: &Vec<char>, pat: &Vec<char>, i: usize) -> (r: bool)
    ensures
        r == occurs_at(s@, pat@, i as int),
{
    let n = s.len();
    let m = pat.len();
    if m > n || i > n - m {
        return false;
    }
    let mut j: usize = 0;
    while j < m
        invariant
            n == s@.len(),
            m == pat@.len(),
            i + m <= n,
            j <= pat@.len(),
            forall|jj: int| 0 <= jj < j ==> s@[i + jj] == pat@[jj],
        decreases pat@.len() - j,
    {
        if s[i + j] != pat[j] {
            assert(s@.subrange(i as int, i + pat@.len())[j as int] != pat@[j as int]);
            return false;
        }
        j = j + 1;
    }
    assert(s@.subrange(i as int, i + pat@.len()) =~= pat@);
    true
}

/// First position at or after `k` where `pat` occurs in `s`.
fn find_chars(s: &Vec<char>, pat: &Vec<char>, k: usize) -> (r: Option<usize>)
    ensures
        match r {
            Some(i) => i == find_from(s@, pat@, k as int),
            None => find_from(s@, pat@, k as int) == -1,
        },
{
    let n = s.len();
    let m = pat.len();
    if m > n || k > n - m {
        return None;
    }
    let mut i: usize = k;
    while i <= n - m
        invariant
            n == s@.len(),
            m == pat@.len(),
            m <= n,
            k <= i <= s@.len(),
            find_from(s@, pat@, k as int) == find_from(s@, pat@, i as int),
        decreases s@.len() - i,
    {
        if matches_at(s, pat, i) {
            return Some(i);
        }
        if pat.len() == 0 {
            assert(s@.subrange(i as int, i as int) =~= pat@);
        }
        i = i + 1;
    }
    None
}

/// Whether `pat` occurs in `s`; `str::contains`.
pub fn contains_str(s: &str, pat: &str) -> (r: bool)
    ensures
        r == contains(s@, pat@),
{
    let sv = chars_of(s);
    let pv = chars_of(pat);
    let r = find_chars(&sv, &pv, 0);
    proof {
        lemma_find(s@, pat@);
    }
    r.is_some()
}


/// The pieces of `s` between the occurrences of `pat`, as `str::split` gives
/// them: occurrences are taken from the left and do not overlap; the empty
/// pattern matches at every character boundary.
pub open spec fn split(s: Seq<char>, pat: Seq<char>) -> Seq<Seq<char>>
    decreases s.len(),
{
    if pat.len() == 0 {
        seq![Seq::<char>::empty()] + Seq::new(s.len(), |i: int| seq![s[i]]) + seq![
            Seq::<char>::empty(),
        ]
    } else {
        let i = find(s, pat);
        if i == -1 {
            seq![s]
        } else {
            proof {
                lemma_find(s, pat);
            }
            seq![s.take(i)] + split(s.skip(i + pat.len()), pat)
        }
    }
}

/// `parts` joined with `sep` between neighbours, as `[&str]::join` gives it.
pub open spec fn join(parts: Seq<Seq<char>>, sep: Seq<char>) -> Seq<char>
    decreases parts.len(),
{
    if parts.len() == 0 {
        Seq::<char>::empty()
    } else if parts.len() == 1 {
        parts[0]
    } else {
        join(parts.drop_last(), sep) + sep + parts.last()
    }
}

/// Every occurrence of `from` replaced by `to`, as `str::replace` does it.
pub open spec fn replace(s: Seq<char>, from: Seq<char>, to: Seq<char>) -> Seq<char> {
    join(split(s, from), to)
}

/// `s` cut at the first occurrence of `pat`, as `str::splitn(2, pat)` does it.
pub open spec fn split_first(s: Seq<char>, pat: Seq<char>) -> Seq<Seq<char>> {
    let i = find(s, pat);
    if i == -1 {
        seq![s]
    } else {
        seq![s.take(i), s.skip(i + pat.len())]
    }
}

/// The characters of `v` from `from` up to `to`.
fn sub_vec(v: &Vec<char>, from: usize, to: usize) -> (r: Vec<char>)
    requires
        from <= to <= v@.len(),
    ensures
        r@ == v@.subrange(from as int, to as int),
{
    let mut r: Vec<char> = Vec::new();
    let mut i: usize = from;
    while i < to
        invariant
            from <= i <= to <= v@.len(),
            r@ == v@.subrange(from as int, i as int),
        decreases to - i,
    {
        r.push(v[i]);
        i = i + 1;
        assert(r@ =~= v@.subrange(from as int, i as int));
    }
    r
}

/// The pieces of `s` between the occurrences of `pat`; `str::split`.
pub fn split_str(s: &str, pat: &str) -> (parts: Vec<String>)
    ensures
        parts.deep_view() == split(s@, pat@),
{
    let sv = chars_of(s);
    let pv = chars_of(pat);
    let mut parts: Vec<String> = Vec::new();
    if pv.len() == 0 {
        parts.push(String::new());
        let mut i: usize = 0;
        while i < sv.len()
            invariant
                pat@.len() == 0,
                sv@ == s@,
                i <= sv@.len(),
                parts.deep_view() =~= seq![Seq::<char>::empty()] + Seq::new(
                    i as nat,
                    |j: int| seq![s@[j]],
                ),
            decreases sv@.len() - i,
        {
            let piece = char_string(sv[i]);
            let ghost before = parts.deep_view();
            parts.push(piece);
            assert(parts.deep_view() =~= before.push(piece@));
            i = i + 1;
        }
        let ghost before = parts.deep_view();
        parts.push(String::new());
        assert(parts.deep_view() =~= before.push(Seq::<char>::empty()));
        return parts;
    }
    let mut rest: Vec<char> = sv;
    loop
        invariant
            pv@ == pat@,
            pat@.len() > 0,
            parts.deep_view() + split(rest@, pat@) == split(s@, pat@),
        decreases rest@.len(),
    {
        let found = find_chars(&rest, &pv, 0);
        proof {
            lemma_find(rest@, pat@);
        }
        let ghost before = parts.deep_view();
        match found {
            None => {
                let piece = string_of(rest.as_slice());
                parts.push(piece);
                assert(parts.deep_view() =~= before.push(piece@));
                assert(split(rest@, pat@) == seq![rest@]);
                assert(parts.deep_view() =~= before + split(rest@, pat@));
                return parts;
            },
            Some(i) => {
                assert(find(rest@, pat@) == i);
                let n = rest.len();
                assert(i + pv@.len() <= n);
                let head = sub_vec(&rest, 0, i);
                let piece = string_of(head.as_slice());
                parts.push(piece);
                assert(parts.deep_view() =~= before.push(piece@));
                let next = sub_vec(&rest, i + pv.len(), rest.len());
                assert(head@ =~= rest@.take(i as int));
                assert(next@ =~= rest@.skip(i + pat@.len()));
                assert(split(rest@, pat@) == seq![rest@.take(i as int)] + split(next@, pat@));
                assert(parts.deep_view() + split(next@, pat@) =~= before + split(rest@, pat@));
                rest = next;
            },
        }
    }
}

/// `parts` joined with `sep`; `[String]::join`.
pub fn join_strs(parts: &Vec<String>, sep: &str) -> (r: String)
    ensures
        r@ == join(parts.deep_view(), sep@),
{
    let ghost dv = parts.deep_view();
    let mut r = String::new();
    let mut i: usize = 0;
    while i < parts.len()
        invariant
            dv == parts.deep_view(),
            i <= parts@.len(),
            r@ == join(dv.take(i as int), sep@),
        decreases parts@.len() - i,
    {
        if i > 0 {
            r.append(sep);
        }
        r.append(parts[i].as_str());
        i = i + 1;
        assert(dv.take(i as int).drop_last() =~= dv.take(i - 1));
        assert(dv.take(i as int).last() == dv[i - 1]);
        if i == 1 {
            assert(dv.take(1) =~= seq![dv[0]]);
            assert(dv.take(0) =~= Seq::<Seq<char>>::empty());
        }
    }
    assert(dv.take(parts@.len() as int) =~= dv);
    r
}

/// Every occurrence of `from` replaced by `to`; `str::replace`.
pub fn replace_str(s: &str, from: &str, to: &str) -> (r: String)
    ensures
        r@ == replace(s@, from@, to@),
{
    let parts = split_str(s, from);
    join_strs(&parts, to)
}

/// `s` cut at the first occurrence of `pat`; `str::splitn(2, pat)`.
pub fn split_first_str(s: &str, pat: &str) -> (parts: Vec<String>)
    ensures
        parts.deep_view() == split_first(s@, pat@),
{
    let sv = chars_of(s);
    let pv = chars_of(pat);
    let mut parts: Vec<String> = Vec::new();
    proof {
        lemma_find(s@, pat@);
    }
    match find_chars(&sv, &pv, 0) {
        None => {
            parts.push(string_of(sv.as_slice()));
            assert(parts.deep_view() =~= seq![s@]);
        },
        Some(i) => {
            assert(find(s@, pat@) == i);
            let n = sv.len();
            assert(i + pv@.len() <= n);
            let head = sub_vec(&sv, 0, i);
            let tail = sub_vec(&sv, i + pv.len(), sv.len());
            let h = string_of(head.as_slice());
            let t = string_of(tail.as_slice());
            parts.push(h);
            parts.push(t);
            assert(parts.deep_view() =~= seq![s@.take(i as int), s@.skip(i + pat@.len())]);
        },
    }
    parts
}


/// A line without the `'\r'` that ended it before its `'\n'`.
pub open spec fn strip_cr(l: Seq<char>) -> Seq<char> {
    if l.len() > 0 && l.last() == '\r' {
        l.drop_last()
    } else {
        l
    }
}

/// The lines of `s`, as `str::lines` and `BufRead::lines` give them: split at
/// `'\n'`, a `'\r'` before a `'\n'` dropped, and no empty last line after a
/// final `'\n'`.
pub open spec fn lines(s: Seq<char>) -> Seq<Seq<char>> {
    let segs = split(s, seq!['\n']);
    let full = Seq::new((segs.len() - 1) as nat, |i: int| strip_cr(segs[i]));
    if segs.last().len() == 0 {
        full
    } else {
        full.push(segs.last())
    }
}

/// `str::split` always gives at least one piece.
pub proof fn lemma_split_nonempty(s: Seq<char>, pat: Seq<char>)
    ensures
        split(s, pat).len() >= 1,
    decreases s.len(),
{
    if pat.len() > 0 {
        lemma_find(s, pat);
        let i = find(s, pat);
        if i != -1 {
            lemma_split_nonempty(s.skip(i + pat.len()), pat);
        }
    }
}

/// The lines of `s`; `str::lines`.
pub fn lines_str(s: &str) -> (ls: Vec<String>)
    ensures
        ls.deep_view() == lines(s@),
{
    let nl = char_string('\n');
    let segs = split_str(s, nl.as_str());
    proof {
        lemma_split_nonempty(s@, seq!['\n']);
    }
    let ghost sd = segs.deep_view();
    let mut ls: Vec<String> = Vec::new();
    let mut i: usize = 0;
    let count = segs.len();
    while i < count - 1
        invariant
            count == sd.len(),
            sd == segs.deep_view(),
            sd == split(s@, seq!['\n']),
            sd.len() >= 1,
            i + 1 <= sd.len(),
            ls.deep_view() =~= Seq::new(i as nat, |j: int| strip_cr(sd[j])),
        decreases sd.len() - i,
    {
        let seg = segs[i].as_str();
        let sv = chars_of(seg);
        let n = sv.len();
        let line = if n > 0 && sv[n - 1] == '\r' {
            let cut = sub_vec(&sv, 0, n - 1);
            assert(cut@ =~= sd[i as int].drop_last());
            string_of(cut.as_slice())
        } else {
            string_of(sv.as_slice())
        };
        let ghost before = ls.deep_view();
        ls.push(line);
        assert(ls.deep_view() =~= before.push(line@));
        i = i + 1;
    }
    let last = segs[segs.len() - 1].as_str();
    if last.unicode_len() > 0 {
        let ghost before = ls.deep_view();
        ls.push(last.to_owned());
        assert(ls.deep_view() =~= before.push(last@));
    }
    ls
}

/// The last piece of `s` after splitting at `c`; `s.split(c).last().unwrap()`.
pub fn last_piece(s: &str, c: char) -> (r: String)
    ensures
        r@ == split(s@, seq![c]).last(),
{
    let sep = char_string(c);
    let parts = split_str(s, sep.as_str());
    proof {
        lemma_split_nonempty(s@, seq![c]);
    }
    let last = parts[parts.len() - 1].as_str();
    last.to_owned()
}

/// The separators of the whitespace split of a versions entry.
pub open spec fn is_field_sep(c: char) -> bool {
    c == ' ' || c == '\n'
}

/// First position at or after `k` holding a field separator, or -1.
pub open spec fn find_field_sep(s: Seq<char>, k: int) -> int
    decreases s.len() - k,
{
    if k < 0 || k >= s.len() {
        -1
    } else if is_field_sep(s[k]) {
        k
    } else {
        find_field_sep(s, k + 1)
    }
}

pub proof fn lemma_find_field_sep(s: Seq<char>, k: int)
    requires
        0 <= k,
    ensures
        find_field_sep(s, k) == -1 ==> forall|j: int| k <= j < s.len() ==> !is_field_sep(s[j]),
        find_field_sep(s, k) != -1 ==> {
            &&& k <= find_field_sep(s, k) < s.len()
            &&& is_field_sep(s[find_field_sep(s, k)])
            &&& forall|j: int| k <= j < find_field_sep(s, k) ==> !is_field_sep(s[j])
        },
    decreases s.len() - k,
{
    if k < s.len() && !is_field_sep(s[k]) {
        lemma_find_field_sep(s, k + 1);
    }
}

/// `s` split at every `' '` and `'\n'`, as
/// `str::split(|c| c == ' ' || c == '\n')` gives it.
pub open spec fn split_fields(s: Seq<char>) -> Seq<Seq<char>>
    decreases s.len(),
{
    let i = find_field_sep(s, 0);
    if i == -1 {
        seq![s]
    } else {
        proof {
            lemma_find_field_sep(s, 0);
        }
        seq![s.take(i)] + split_fields(s.skip(i + 1))
    }
}

/// `s` split at every `' '` and `'\n'`.
pub fn split_fields_str(s: &str) -> (parts: Vec<String>)
    ensures
        parts.deep_view() == split_fields(s@),
{
    let mut rest = chars_of(s);
    let mut parts: Vec<String> = Vec::new();
    loop
        invariant
            parts.deep_view() + split_fields(rest@) == split_fields(s@),
        decreases rest@.len(),
    {
        let n = rest.len();
        let mut i: usize = 0;
        while i < n && !(rest[i] == ' ' || rest[i] == '\n')
            invariant
                n == rest@.len(),
                i <= n,
                find_field_sep(rest@, 0) == find_field_sep(rest@, i as int),
            decreases n - i,
        {
            i = i + 1;
        }
        proof {
            lemma_find_field_sep(rest@, 0);
        }
        let ghost before = parts.deep_view();
        if i == n {
            let piece = string_of(rest.as_slice());
            parts.push(piece);
            assert(parts.deep_view() =~= before.push(piece@));
            assert(split_fields(rest@) == seq![rest@]);
            assert(parts.deep_view() =~= before + split_fields(rest@));
            return parts;
        }
        let head = sub_vec(&rest, 0, i);
        let piece = string_of(head.as_slice());
        parts.push(piece);
        assert(parts.deep_view() =~= before.push(piece@));
        let next = sub_vec(&rest, i + 1, n);
        assert(head@ =~= rest@.take(i as int));
        assert(next@ =~= rest@.skip(i + 1));
        assert(split_fields(rest@) == seq![rest@.take(i as int)] + split_fields(next@));
        assert(parts.deep_view() + split_fields(next@) =~= before + split_fields(rest@));
        rest = next;
    }
}

/// Whether two strings hold the same characters.
pub fn text_eq(a: &str, b: &str) -> (r: bool)
    ensures
        r == (a@ == b@),
{
    let av = chars_of(a);
    let bv = chars_of(b);
    if av.len() != bv.len() {
        return false;
    }
    let mut i: usize = 0;
    while i < av.len()
        invariant
            av@ == a@,
            bv@ == b@,
            av@.len() == bv@.len(),
            i <= av@.len(),
            forall|j: int| 0 <= j < i ==> av@[j] == bv@[j],
        decreases av@.len() - i,
    {
        if av[i] != bv[i] {
            return false;
        }
        i = i + 1;
    }
    assert(av@ =~= bv@);
    true
}

/// Whether `s` ends with `c`.
pub fn ends_with_char(s: &str, c: char) -> (r: bool)
    ensures
        r == (s@.len() > 0 && s@.last() == c),
{
    let n = s.unicode_len();
    n > 0 && s.get_char(n - 1) == c
}


/// An occurrence with none before it is what `find` gives.
pub proof fn lemma_find_is(s: Seq<char>, pat: Seq<char>, p: int)
    requires
        occurs_at(s, pat, p),
        forall|j: int| 0 <= j < p ==> !occurs_at(s, pat, j),
    ensures
        find(s, pat) == p,
{
    lemma_find(s, pat);
    assert(contains(s, pat));
}

/// The first occurrence stays the first in a text that agrees with `s` up to
/// the end of that occurrence.
pub proof fn lemma_find_same_prefix(s: Seq<char>, t: Seq<char>, pat: Seq<char>)
    requires
        find(s, pat) != -1,
        find(s, pat) + pat.len() <= t.len(),
        s.take(find(s, pat) + pat.len()) == t.take(find(s, pat) + pat.len()),
    ensures
        find(t, pat) == find(s, pat),
{
    lemma_find(s, pat);
    let p = find(s, pat);
    let e = p + pat.len();
    assert forall|j: int| 0 <= j <= p implies (occurs_at(t, pat, j) <==> occurs_at(s, pat, j)) by {
        if 0 <= j <= p {
            assert(t.subrange(j, j + pat.len()) =~= t.take(e).subrange(j, j + pat.len()));
            assert(s.subrange(j, j + pat.len()) =~= s.take(e).subrange(j, j + pat.len()));
        }
    }
    lemma_find_is(t, pat, p);
}

/// Splitting a text whose first field separator follows `a`.
pub proof fn lemma_split_fields_cons(a: Seq<char>, x: char, b: Seq<char>)
    requires
        forall|i: int| 0 <= i < a.len() ==> !is_field_sep(#[trigger] a[i]),
        is_field_sep(x),
    ensures
        split_fields(a + seq![x] + b) == seq![a] + split_fields(b),
{
    let s = a + seq![x] + b;
    lemma_find_field_sep(s, 0);
    let i = find_field_sep(s, 0);
    assert(s[a.len() as int] == x);
    if i != a.len() {
        assert(s[i] == a[i]);
    }
    assert(s.take(a.len() as int) =~= a);
    assert(s.skip(a.len() as int + 1) =~= b);
}

/// A text without field separators is a single field.
pub proof fn lemma_split_fields_single(a: Seq<char>)
    requires
        forall|i: int| 0 <= i < a.len() ==> !is_field_sep(#[trigger] a[i]),
    ensures
        split_fields(a) == seq![a],
{
    lemma_find_field_sep(a, 0);
}

/// The fields of a versions record are separated by spaces and line ends
/// and by nothing else.
pub proof fn law_field_separators(c: char)
    ensures
        is_field_sep(c) <==> (c == ' ' || c == '\n'),
{
}

/// A text that holds no space and no line end is one field, kept whole,
/// whatever other characters (`.`, `-`, `:`, `/`) it holds.
pub proof fn law_split_fields_keeps_words_whole(a: Seq<char>)
    requires
        forall|i: int| 0 <= i < a.len() ==> #[trigger] a[i] != ' ' && a[i] != '\n',
    ensures
        split_fields(a) == seq![a],
{
    lemma_split_fields_single(a);
}

/// A word, then a space or a line end: the word is the first field, and the
/// fields of the rest follow.
pub proof fn law_split_fields_at_space_or_line_end(a: Seq<char>, c: char, b: Seq<char>)
    requires
        forall|i: int| 0 <= i < a.len() ==> #[trigger] a[i] != ' ' && a[i] != '\n',
        c == ' ' || c == '\n',
    ensures
        split_fields(a + seq![c] + b) == seq![a] + split_fields(b),
{
    lemma_split_fields_cons(a, c, b);
}

/// Removing the pieces that mention `removed` keeps every other piece, blank
/// ones included, in order: each piece that does not mention `removed` is
/// among those kept, none that is kept mentions it, and when no piece
/// mentions it all pieces are kept as they were.
pub proof fn law_kept_pieces(parts: Seq<Seq<char>>, removed: Seq<char>)
    ensures
        forall|i: int|
            0 <= i < parts.len() && !contains(parts[i], removed) ==> #[trigger] parts.filter(
                lacks(removed),
            ).contains(parts[i]),
        forall|j: int|
            0 <= j < parts.filter(lacks(removed)).len() ==> !contains(
                #[trigger] parts.filter(lacks(removed))[j],
                removed,
            ),
        (forall|i: int| 0 <= i < parts.len() ==> !contains(#[trigger] parts[i], removed)) ==> parts.filter(
            lacks(removed),
        ) == parts,
    decreases parts.len(),
{
    assert forall|i: int| 0 <= i < parts.len() && !contains(parts[i], removed) implies #[trigger] parts.filter(
        lacks(removed),
    ).contains(parts[i]) by {
        parts.lemma_filter_contains(lacks(removed), i);
    }
    assert forall|j: int| 0 <= j < parts.filter(lacks(removed)).len() implies !contains(
        #[trigger] parts.filter(lacks(removed))[j],
        removed,
    ) by {
        parts.lemma_filter_pred(lacks(removed), j);
    }
    if parts.len() > 0 {
        let init = parts.drop_last();
        law_kept_pieces(init, removed);
        lemma_filter_push(init, parts.last(), lacks(removed));
        assert(init.push(parts.last()) =~= parts);
        if forall|i: int| 0 <= i < parts.len() ==> !contains(#[trigger] parts[i], removed) {
            assert forall|i: int| 0 <= i < init.len() implies !contains(#[trigger] init[i], removed) by {
                assert(init[i] == parts[i]);
            }
            assert(!contains(parts[parts.len() - 1], removed));
        }
    } else {
        reveal(Seq::filter);
        assert(parts.filter(lacks(removed)) =~= parts);
    }
}

/// Removing the pieces that mention `removed` works piece by piece: a single
/// piece is kept exactly when it does not mention `removed`, and what is kept
/// of two runs of pieces one after the other is what is kept of the first,
/// then what is kept of the second.
pub proof fn law_kept_pieces_piecewise(a: Seq<Seq<char>>, b: Seq<Seq<char>>, x: Seq<char>, removed: Seq<char>)
    ensures
        seq![x].filter(lacks(removed)) == (if contains(x, removed) {
            Seq::<Seq<char>>::empty()
        } else {
            seq![x]
        }),
        (a + b).filter(lacks(removed)) == a.filter(lacks(removed)) + b.filter(lacks(removed)),
{
    lemma_filter_push(Seq::<Seq<char>>::empty(), x, lacks(removed));
    assert(Seq::<Seq<char>>::empty().push(x) =~= seq![x]);
    reveal(Seq::filter);
    assert(Seq::<Seq<char>>::empty().filter(lacks(removed)) =~= Seq::<Seq<char>>::empty());
    Seq::filter_distributes_over_add(a, b, lacks(removed));
}

/// Splitting at a one-character pattern whose first occurrence follows `a`.
pub proof fn lemma_split_char_cons(a: Seq<char>, c: char, b: Seq<char>)
    requires
        !a.contains(c),
    ensures
        split(a + seq![c] + b, seq![c]) == seq![a] + split(b, seq![c]),
{
    let s = a + seq![c] + b;
    let pat = seq![c];
    assert(s.subrange(a.len() as int, a.len() as int + 1) =~= pat);
    assert forall|j: int| 0 <= j < a.len() implies !occurs_at(s, pat, j) by {
        if occurs_at(s, pat, j) {
            assert(s.subrange(j, j + 1)[0] == a[j]);
        }
    }
    lemma_find_is(s, pat, a.len() as int);
    assert(s.take(a.len() as int) =~= a);
    assert(s.skip(a.len() as int + 1) =~= b);
}


/// Without an occurrence of a non-empty pattern, splitting gives the text
/// back whole.
pub proof fn lemma_split_no_match(s: Seq<char>, pat: Seq<char>)
    requires
        pat.len() > 0,
        !contains(s, pat),
    ensures
        split(s, pat) == seq![s],
{
    lemma_find(s, pat);
}

/// No piece of a split holds the (non-empty) pattern it was split at.
pub proof fn lemma_split_pieces(s: Seq<char>, pat: Seq<char>)
    requires
        pat.len() > 0,
    ensures
        forall|i: int| 0 <= i < split(s, pat).len() ==> !contains(#[trigger] split(s, pat)[i], pat),
    decreases s.len(),
{
    lemma_find(s, pat);
    let f = find(s, pat);
    if f != -1 {
        let head = s.take(f);
        assert(!contains(head, pat)) by {
            if contains(head, pat) {
                let j = choose|j: int| occurs_at(head, pat, j);
                assert(s.subrange(j, j + pat.len()) =~= head.subrange(j, j + pat.len()));
                assert(occurs_at(s, pat, j));
            }
        }
        lemma_split_pieces(s.skip(f + pat.len()), pat);
        let rest = split(s.skip(f + pat.len()), pat);
        assert forall|i: int| 0 <= i < split(s, pat).len() implies !contains(
            #[trigger] split(s, pat)[i],
            pat,
        ) by {
            if i > 0 {
                assert(split(s, pat)[i] == rest[i - 1]);
            }
        }
    }
}

/// A one-character pattern occurs exactly where that character stands.
pub proof fn lemma_contains_char(s: Seq<char>, c: char)
    ensures
        contains(s, seq![c]) <==> s.contains(c),
{
    if s.contains(c) {
        let i = choose|i: int| 0 <= i < s.len() && s[i] == c;
        assert(s.subrange(i, i + 1) =~= seq![c]);
        assert(occurs_at(s, seq![c], i));
    }
    if contains(s, seq![c]) {
        let i = choose|i: int| occurs_at(s, seq![c], i);
        assert(s.subrange(i, i + 1)[0] == s[i]);
    }
}

/// An occurrence of a pattern in `a + [c] + b` that does not hold `c` lies
/// within `a` or within `b`.
pub proof fn lemma_contains_around(a: Seq<char>, c: char, b: Seq<char>, pat: Seq<char>)
    requires
        !pat.contains(c),
        contains(a + seq![c] + b, pat),
    ensures
        contains(a, pat) || contains(b, pat),
{
    let s = a + seq![c] + b;
    let j = choose|j: int| occurs_at(s, pat, j);
    let n = pat.len() as int;
    let m = a.len() as int;
    if j + n <= m {
        assert(a.subrange(j, j + n) =~= s.subrange(j, j + n));
        assert(occurs_at(a, pat, j));
    } else if j > m {
        assert(b.subrange(j - m - 1, j - m - 1 + n) =~= s.subrange(j, j + n));
        assert(occurs_at(b, pat, j - m - 1));
    } else {
        assert(s.subrange(j, j + n)[m - j] == s[m]);
        assert(pat[m - j] == c);
    }
}

/// Joining pieces that do not hold a pattern, with a one-character
/// separator that the pattern does not hold, gives a text without it.
pub proof fn lemma_join_excludes(parts: Seq<Seq<char>>, c: char, pat: Seq<char>)
    requires
        !pat.contains(c),
        forall|i: int| 0 <= i < parts.len() ==> !contains(#[trigger] parts[i], pat),
    ensures
        parts.len() > 0 || pat.len() > 0 ==> !contains(join(parts, seq![c]), pat),
    decreases parts.len(),
{
    if parts.len() == 0 {
        if pat.len() > 0 && contains(join(parts, seq![c]), pat) {
            let j = choose|j: int| occurs_at(join(parts, seq![c]), pat, j);
        }
    } else if parts.len() == 1 {
        assert(!contains(parts[0], pat));
    } else {
        let init = parts.drop_last();
        lemma_join_excludes(init, c, pat);
        assert(!contains(parts.last(), pat));
        if contains(join(parts, seq![c]), pat) {
            assert(join(parts, seq![c]) == join(init, seq![c]) + seq![c] + parts.last());
            lemma_contains_around(join(init, seq![c]), c, parts.last(), pat);
        }
    }
}

/// Replacing a pattern that does not occur leaves the text as it was.
pub proof fn law_replace_without_match(s: Seq<char>, from: Seq<char>, to: Seq<char>)
    requires
        from.len() > 0,
        !contains(s, from),
    ensures
        replace(s, from, to) == s,
{
    lemma_split_no_match(s, from);
}

/// After every `c` is replaced by a text without `c`, no `c` is left.
pub proof fn law_replace_removes_char(s: Seq<char>, c: char, to: Seq<char>)
    requires
        !to.contains(c),
    ensures
        !replace(s, seq![c], to).contains(c),
{
    lemma_split_pieces(s, seq![c]);
    lemma_split_nonempty(s, seq![c]);
    let parts = split(s, seq![c]);
    lemma_join_char_free(parts, to, c);
}

/// Joining pieces without `c`, with a separator without `c`, gives a text
/// without `c`.
proof fn lemma_join_char_free(parts: Seq<Seq<char>>, sep: Seq<char>, c: char)
    requires
        !sep.contains(c),
        forall|i: int| 0 <= i < parts.len() ==> !contains(#[trigger] parts[i], seq![c]),
    ensures
        !join(parts, sep).contains(c),
    decreases parts.len(),
{
    if parts.len() == 1 {
        lemma_contains_char(parts[0], c);
    } else if parts.len() > 1 {
        let init = parts.drop_last();
        lemma_join_char_free(init, sep, c);
        lemma_contains_char(parts.last(), c);
        let j = join(parts, sep);
        assert(j == join(init, sep) + sep + parts.last());
        if j.contains(c) {
            let i = choose|i: int| 0 <= i < j.len() && j[i] == c;
            let a = join(init, sep).len() as int;
            if i < a {
                assert(join(init, sep)[i] == c);
            } else if i < a + sep.len() {
                assert(sep[i - a] == c);
            } else {
                assert(parts.last()[i - a - sep.len()] == c);
            }
        }
    }
}


/// The lowercase form of a text: what `str::to_lowercase` returns (Unicode
/// lowercase mapping).
pub uninterp spec fn unicode_lowercase(s: Seq<char>) -> Seq<char>;

/// `str::to_lowercase`; the result is the text's Unicode lowercase form,
/// which is left as a name: the mapping tables are not restated here.
#[verifier::external_body]
pub(crate) fn lowercase(s: &str) -> (r: String)
    ensures
        r@ == unicode_lowercase(s@),
{
    s.to_lowercase()
}

/// Whether the lowercase form of `s` is `word`.
pub fn lowercase_is(s: &str, word: &str) -> (r: bool)
    ensures
        r == (unicode_lowercase(s@) == word@),
{
    let lower = lowercase(s);
    text_eq(lower.as_str(), word)
}

/// The items of `s.push(x)` that satisfy `pred`.
pub proof fn lemma_filter_push(s: Seq<Seq<char>>, x: Seq<char>, pred: spec_fn(Seq<char>) -> bool)
    ensures
        s.push(x).filter(pred) == (if pred(x) {
            s.filter(pred).push(x)
        } else {
            s.filter(pred)
        }),
{
    reveal(Seq::filter);
    assert(s.push(x).drop_last() =~= s);
}

/// The test that keeps the pieces that do not mention `removed`.
pub open spec fn lacks(removed: Seq<char>) -> spec_fn(Seq<char>) -> bool {
    |piece: Seq<char>| !contains(piece, removed)
}

/// The pieces of `parts` that do not mention `removed`, in order.
pub fn keep_lacking(parts: &Vec<String>, removed: &str) -> (kept: Vec<String>)
    ensures
        kept.deep_view() == parts.deep_view().filter(lacks(removed@)),
{
    let ghost dv = parts.deep_view();
    let mut kept: Vec<String> = Vec::new();
    let mut i: usize = 0;
    assert(dv.take(0) =~= Seq::<Seq<char>>::empty());
    proof {
        reveal(Seq::filter);
    }
    while i < parts.len()
        invariant
            dv == parts.deep_view(),
            i <= dv.len(),
            kept.deep_view() == dv.take(i as int).filter(lacks(removed@)),
        decreases dv.len() - i,
    {
        let piece = parts[i].as_str();
        proof {
            lemma_filter_push(dv.take(i as int), dv[i as int], lacks(removed@));
            assert(dv.take(i + 1) =~= dv.take(i as int).push(dv[i as int]));
        }
        if !contains_str(piece, removed) {
            let ghost before = kept.deep_view();
            kept.push(piece.to_owned());
            assert(kept.deep_view() =~= before.push(piece@));
        }
        i = i + 1;
    }
    assert(dv.take(dv.len() as int) =~= dv);
    kept
}

/// Pieces kept because they lack `removed`, joined at a character that
/// `removed` does not hold, do not mention `removed`.
pub proof fn lemma_kept_join_lacks(parts: Seq<Seq<char>>, removed: Seq<char>, c: char)
    requires
        removed.len() > 0,
        !removed.contains(c),
    ensures
        !contains(join(parts.filter(lacks(removed)), seq![c]), removed),
{
    let kept = parts.filter(lacks(removed));
    assert forall|i: int| 0 <= i < kept.len() implies !contains(#[trigger] kept[i], removed) by {
        parts.lemma_filter_pred(lacks(removed), i);
    }
    lemma_join_excludes(kept, c, removed);
}


/// The decimal digit for `d < 10`.
pub open spec fn digit_char(d: nat) -> char {
    crate::checksum::HEX_LOWER@[d as int]
}

/// `n` in decimal, as `u64`'s `Display` writes it.
pub open spec fn decimal(n: nat) -> Seq<char>
    decreases n,
{
    if n < 10 {
        seq![digit_char(n)]
    } else {
        decimal(n / 10) + seq![digit_char(n % 10)]
    }
}

/// `n` in decimal; `u64::to_string`.
pub fn decimal_string(n: u64) -> (r: String)
    ensures
        r@ == decimal(n as nat),
{
    let mut m: u64 = n;
    let mut suffix = String::new();
    assert(decimal(n as nat) =~= decimal(m as nat) + suffix@);
    while m >= 10
        invariant
            decimal(n as nat) == decimal(m as nat) + suffix@,
        decreases m,
    {
        let d = crate::checksum::HEX_LOWER[(m % 10) as usize];
        let mut next = char_string(d);
        next.append(suffix.as_str());
        assert(decimal(m as nat) == decimal((m / 10) as nat) + seq![d]);
        assert(decimal(n as nat) =~= decimal((m / 10) as nat) + next@);
        suffix = next;
        m = m / 10;
    }
    let mut r = char_string(crate::checksum::HEX_LOWER[m as usize]);
    r.append(suffix.as_str());
    r
}

} // verus!
