//! Plain-text helpers: substring search, splitting, trimming, decimal
//! formatting, and lexicographic ordering of names.
//!
//! Each executable function is proved equal to a specification function over
//! `Seq<char>`; the rest of the library states its contracts over those
//! specification functions.

use vstd::prelude::*;

verus! {

/// Whether `c` counts as whitespace in MEML source text.
pub open spec fn is_ws_char(c: char) -> bool {
    c == ' ' || c == '\t' || c == '\n' || c == '\r'
}

/// Whether `pat` occurs in `s` starting exactly at position `i`.
pub open spec fn matches_at(s: Seq<char>, pat: Seq<char>, i: int) -> bool {
    &&& 0 <= i
    &&& i + pat.len() <= s.len()
    &&& forall|k: int| 0 <= k < pat.len() ==> s[i + k] == pat[k]
}

/// The first position at or after `from` where `pat` occurs in `s`, if any.
/// An empty pattern never occurs.
pub open spec fn find_from(s: Seq<char>, pat: Seq<char>, from: int) -> Option<int>
    decreases s.len() - from,
{
    if pat.len() == 0 || from < 0 || from + pat.len() > s.len() {
        Option::<int>::None
    } else if matches_at(s, pat, from) {
        Some(from)
    } else {
        find_from(s, pat, from + 1)
    }
}

/// Whether `pat` occurs anywhere in `s`.
pub open spec fn contains_v(s: Seq<char>, pat: Seq<char>) -> bool {
    find_from(s, pat, 0) is Some
}

/// What a successful search means: a match at the found position, nowhere
/// earlier (at or after `from`), and only of a non-empty pattern.
pub proof fn lemma_find_from_some(s: Seq<char>, pat: Seq<char>, from: int, j: int)
    requires
        find_from(s, pat, from) == Some(j),
    ensures
        from <= j,
        matches_at(s, pat, j),
        pat.len() >= 1,
        forall|t: int| from <= t < j ==> !matches_at(s, pat, t),
    decreases s.len() - from,
{
    if !(pat.len() == 0 || from < 0 || from + pat.len() > s.len()) && !matches_at(s, pat, from) {
        lemma_find_from_some(s, pat, from + 1, j);
    }
}

/// `s` split on every occurrence of `delim`, scanning left to right.
/// With an empty delimiter the whole of `s` is one token.
pub open spec fn split_v(s: Seq<char>, delim: Seq<char>) -> Seq<Seq<char>>
    decreases s.len(),
    via split_v_decreases
{
    match find_from(s, delim, 0) {
        Option::None => seq![s],
        Option::Some(j) => seq![s.subrange(0, j)] + split_v(
            s.subrange(j + delim.len(), s.len() as int),
            delim,
        ),
    }
}

#[via_fn]
proof fn split_v_decreases(s: Seq<char>, delim: Seq<char>) {
    if let Some(j) = find_from(s, delim, 0) {
        lemma_find_from_some(s, delim, 0, j);
    }
}

/// `s` without leading whitespace.
pub open spec fn trim_start_v(s: Seq<char>) -> Seq<char>
    decreases s.len(),
{
    if s.len() > 0 && is_ws_char(s[0]) {
        trim_start_v(s.drop_first())
    } else {
        s
    }
}

/// `s` without trailing whitespace.
pub open spec fn trim_end_v(s: Seq<char>) -> Seq<char>
    decreases s.len(),
{
    if s.len() > 0 && is_ws_char(s.last()) {
        trim_end_v(s.drop_last())
    } else {
        s
    }
}

/// `s` without leading or trailing whitespace.
pub open spec fn trim_v(s: Seq<char>) -> Seq<char> {
    trim_end_v(trim_start_v(s))
}

/// Whether `pat` occurs in `s` starting exactly at position `i`.
pub fn match_at(s: &str, pat: &str, i: usize) -> (b: bool)
    ensures
        b == matches_at(s@, pat@, i as int),
{
    let n = s.unicode_len();
    let m = pat.unicode_len();
    if i > n || m > n - i {
        return false;
    }
    let mut k: usize = 0;
    while k < m
        invariant
            0 <= k <= m,
            i + m <= n,
            n == s@.len(),
            m == pat@.len(),
            forall|t: int| 0 <= t < k ==> s@[i + t] == pat@[t],
        decreases m - k,
    {
        if s.get_char(i + k) != pat.get_char(k) {
            return false;
        }
        k = k + 1;
    }
    true
}

/// The first position at or after `from` where `pat` occurs in `s`, if any.
pub fn find_from_str(s: &str, pat: &str, from: usize) -> (r: Option<usize>)
    ensures
        match r {
            Some(j) => find_from(s@, pat@, from as int) == Some(j as int),
            None => find_from(s@, pat@, from as int) is None,
        },
{
    let n = s.unicode_len();
    let m = pat.unicode_len();
    if m == 0 || from > n || m > n - from {
        return None;
    }
    let mut i: usize = from;
    while m <= n - i
        invariant
            from <= i,
            i + m <= n + 1,
            n == s@.len(),
            m == pat@.len(),
            m >= 1,
            find_from(s@, pat@, from as int) == find_from(s@, pat@, i as int),
        decreases n - i,
    {
        if match_at(s, pat, i) {
            return Some(i);
        }
        i = i + 1;
    }
    None
}

/// Whether `c` counts as whitespace in MEML source text.
pub fn is_ws(c: char) -> (b: bool)
    ensures
        b == is_ws_char(c),
{
    c == ' ' || c == '\t' || c == '\n' || c == '\r'
}

/// `s` split on every occurrence of `delim`, scanning left to right.
pub fn split_str(s: &str, delim: &str) -> (r: Vec<String>)
    ensures
        r.deep_view() == split_v(s@, delim@),
    decreases s@.len(),
{
    match find_from_str(s, delim, 0) {
        None => {
            let mut v: Vec<String> = Vec::new();
            v.push(s.to_owned());
            proof {
                assert(v.deep_view() =~= seq![s@]);
            }
            v
        },
        Some(j) => {
            proof {
                lemma_find_from_some(s@, delim@, 0, j as int);
            }
            let n = s.unicode_len();
            let d = delim.unicode_len();
            let head = s.substring_char(0, j).to_owned();
            let tail = s.substring_char(j + d, n);
            let mut rest = split_str(tail, delim);
            rest.insert(0, head);
            proof {
                assert(rest.deep_view() =~= split_v(s@, delim@));
            }
            rest
        },
    }
}

/// `s` without leading whitespace.
pub fn trim_start_str<'a>(s: &'a str) -> (r: &'a str)
    ensures
        r@ == trim_start_v(s@),
    decreases s@.len(),
{
    let n = s.unicode_len();
    if n > 0 && is_ws(s.get_char(0)) {
        let rest = s.substring_char(1, n);
        proof {
            assert(rest@ =~= s@.drop_first());
        }
        trim_start_str(rest)
    } else {
        s
    }
}

/// `s` without trailing whitespace.
pub fn trim_end_str<'a>(s: &'a str) -> (r: &'a str)
    ensures
        r@ == trim_end_v(s@),
    decreases s@.len(),
{
    let n = s.unicode_len();
    if n > 0 && is_ws(s.get_char(n - 1)) {
        let rest = s.substring_char(0, n - 1);
        proof {
            assert(rest@ =~= s@.drop_last());
        }
        trim_end_str(rest)
    } else {
        s
    }
}

/// `s` without leading or trailing whitespace.
pub fn trim_str(s: &str) -> (r: String)
    ensures
        r@ == trim_v(s@),
{
    trim_end_str(trim_start_str(s)).to_owned()
}

/// Whether `pat` occurs anywhere in `s`.
pub fn contains_str(s: &str, pat: &str) -> (b: bool)
    ensures
        b == contains_v(s@, pat@),
{
    find_from_str(s, pat, 0).is_some()
}

/// The numeric value of one decimal digit character.
pub open spec fn digit_val(c: char) -> int {
    (c as u32) - 48
}

/// Whether every character of `s` is a decimal digit.
pub open spec fn is_digits(s: Seq<char>) -> bool {
    forall|i: int| 0 <= i < s.len() ==> 48 <= #[trigger] (s[i] as u32) <= 57
}

/// The number the decimal digits of `s` denote.
pub open spec fn num_of(s: Seq<char>) -> int
    decreases s.len(),
{
    if s.len() == 0 {
        0
    } else {
        num_of(s.drop_last()) * 10 + digit_val(s.last())
    }
}

/// Bounds on the number a digit string denotes, by its length.
pub proof fn lemma_num_of_bounds(s: Seq<char>)
    requires
        is_digits(s),
    ensures
        0 <= num_of(s),
        s.len() <= 1 ==> num_of(s) < 10,
        s.len() <= 2 ==> num_of(s) < 100,
        s.len() <= 3 ==> num_of(s) < 1000,
        s.len() <= 4 ==> num_of(s) < 10000,
        s.len() <= 5 ==> num_of(s) < 100000,
        s.len() <= 6 ==> num_of(s) < 1000000,
    decreases s.len(),
{
    if s.len() > 0 {
        assert(is_digits(s.drop_last()));
        lemma_num_of_bounds(s.drop_last());
    }
}

/// A copy of a list of names.
pub fn clone_strings(v: &Vec<String>) -> (r: Vec<String>)
    ensures
        r.deep_view() == v.deep_view(),
{
    let mut r: Vec<String> = Vec::new();
    let mut i: usize = 0;
    while i < v.len()
        invariant
            i <= v@.len(),
            r@.len() == i as int,
            forall|k: int| 0 <= k < i ==> r@[k]@ == v@[k]@,
        decreases v@.len() - i,
    {
        r.push(v[i].clone());
        i = i + 1;
    }
    proof {
        assert(r.deep_view() =~= v.deep_view());
    }
    r
}

/// The character for one decimal digit.
pub open spec fn digit_char(d: int) -> char {
    if d == 0 {
        '0'
    } else if d == 1 {
        '1'
    } else if d == 2 {
        '2'
    } else if d == 3 {
        '3'
    } else if d == 4 {
        '4'
    } else if d == 5 {
        '5'
    } else if d == 6 {
        '6'
    } else if d == 7 {
        '7'
    } else if d == 8 {
        '8'
    } else {
        '9'
    }
}

/// The decimal digits of a non-negative number, most significant first.
pub open spec fn digits_of(n: int) -> Seq<char>
    decreases n,
{
    if n < 0 {
        Seq::<char>::empty()
    } else if n < 10 {
        seq![digit_char(n)]
    } else {
        digits_of(n / 10).push(digit_char(n % 10))
    }
}

/// The string for one decimal digit.
pub fn digit_str(d: usize) -> (r: &'static str)
    requires
        d < 10,
    ensures
        r@ == seq![digit_char(d as int)],
{
    proof {
        reveal_strlit("0");
        reveal_strlit("1");
        reveal_strlit("2");
        reveal_strlit("3");
        reveal_strlit("4");
        reveal_strlit("5");
        reveal_strlit("6");
        reveal_strlit("7");
        reveal_strlit("8");
        reveal_strlit("9");
    }
    let r: &'static str = if d == 0 {
        "0"
    } else if d == 1 {
        "1"
    } else if d == 2 {
        "2"
    } else if d == 3 {
        "3"
    } else if d == 4 {
        "4"
    } else if d == 5 {
        "5"
    } else if d == 6 {
        "6"
    } else if d == 7 {
        "7"
    } else if d == 8 {
        "8"
    } else {
        "9"
    };
    proof {
        assert(r@ =~= seq![digit_char(d as int)]);
    }
    r
}

/// `n` written in decimal.
pub fn fmt_usize(n: usize) -> (r: String)
    ensures
        r@ == digits_of(n as int),
    decreases n,
{
    if n < 10 {
        digit_str(n).to_owned()
    } else {
        let mut r = fmt_usize(n / 10);
        r.append(digit_str(n % 10));
        proof {
            assert(r@ =~= digits_of(n as int));
        }
        r
    }
}

/// Lexicographic order on names, by unicode code point.
pub open spec fn lex_leq(a: Seq<char>, b: Seq<char>) -> bool
    decreases a.len(),
{
    if a.len() == 0 {
        true
    } else if b.len() == 0 {
        false
    } else if (a[0] as u32) < (b[0] as u32) {
        true
    } else if (b[0] as u32) < (a[0] as u32) {
        false
    } else {
        lex_leq(a.drop_first(), b.drop_first())
    }
}

/// Lexicographic order on names, by unicode code point.
pub fn lex_leq_str(a: &str, b: &str) -> (r: bool)
    ensures
        r == lex_leq(a@, b@),
    decreases a@.len(),
{
    let an = a.unicode_len();
    let bn = b.unicode_len();
    if an == 0 {
        true
    } else if bn == 0 {
        false
    } else {
        let ac = a.get_char(0) as u32;
        let bc = b.get_char(0) as u32;
        if ac < bc {
            true
        } else if bc < ac {
            false
        } else {
            let ar = a.substring_char(1, an);
            let br = b.substring_char(1, bn);
            proof {
                assert(ar@ =~= a@.drop_first());
                assert(br@ =~= b@.drop_first());
            }
            lex_leq_str(ar, br)
        }
    }
}

/// `x` inserted in front of the first entry of `xs` that is not below it.
pub open spec fn insert_sorted_v(xs: Seq<Seq<char>>, x: Seq<char>) -> Seq<Seq<char>>
    decreases xs.len(),
{
    if xs.len() == 0 {
        seq![x]
    } else if lex_leq(x, xs[0]) {
        seq![x] + xs
    } else {
        seq![xs[0]] + insert_sorted_v(xs.drop_first(), x)
    }
}

/// `xs` sorted by [`lex_leq`], by insertion, keeping duplicates.
pub open spec fn sort_names_v(xs: Seq<Seq<char>>) -> Seq<Seq<char>>
    decreases xs.len(),
{
    if xs.len() == 0 {
        Seq::<Seq<char>>::empty()
    } else {
        insert_sorted_v(sort_names_v(xs.drop_last()), xs.last())
    }
}

/// `x` inserted in front of the first entry of `xs` that is not below it.
pub fn insert_sorted(xs: Vec<String>, x: String) -> (r: Vec<String>)
    ensures
        r.deep_view() == insert_sorted_v(xs.deep_view(), x@),
    decreases xs@.len(),
{
    let mut xs = xs;
    if xs.len() == 0 {
        xs.push(x);
        proof {
            assert(xs.deep_view() =~= seq![x@]);
        }
        xs
    } else if lex_leq_str(x.as_str(), xs[0].as_str()) {
        let ghost pre = xs.deep_view();
        xs.insert(0, x);
        proof {
            assert(xs.deep_view() =~= seq![x@] + pre);
        }
        xs
    } else {
        let ghost pre = xs.deep_view();
        let h = xs.remove(0);
        proof {
            assert(xs.deep_view() =~= pre.drop_first());
        }
        let mut r = insert_sorted(xs, x);
        let ghost mid = r.deep_view();
        r.insert(0, h);
        proof {
            assert(r.deep_view() =~= seq![h@] + mid);
        }
        r
    }
}

/// `xs` sorted by [`lex_leq`], by insertion, keeping duplicates.
pub fn sort_names(xs: Vec<String>) -> (r: Vec<String>)
    ensures
        r.deep_view() == sort_names_v(xs.deep_view()),
    decreases xs@.len(),
{
    let mut xs = xs;
    if xs.len() == 0 {
        proof {
            assert(xs.deep_view() =~= Seq::<Seq<char>>::empty());
        }
        xs
    } else {
        let ghost pre = xs.deep_view();
        let x = xs.pop().unwrap();
        proof {
            assert(xs.deep_view() =~= pre.drop_last());
            assert(x@ == pre.last());
        }
        let s = sort_names(xs);
        insert_sorted(s, x)
    }
}

/// The order on names is total: two names always compare at least one way.
pub proof fn lemma_lex_total(a: Seq<char>, b: Seq<char>)
    ensures
        lex_leq(a, b) || lex_leq(b, a),
    decreases a.len(),
{
    if a.len() > 0 && b.len() > 0 && !((a[0] as u32) < (b[0] as u32)) && !((b[0] as u32) < (
    a[0] as u32)) {
        lemma_lex_total(a.drop_first(), b.drop_first());
    }
}

/// Whether neighbouring names stand in order.
pub open spec fn sorted_names(xs: Seq<Seq<char>>) -> bool {
    forall|i: int| 0 <= i < xs.len() - 1 ==> lex_leq(#[trigger] xs[i], xs[i + 1])
}

/// Insertion keeps a sorted list sorted, grows it by one, and leaves the
/// head either the new name or the old head.
proof fn lemma_insert_sorted_ordered(xs: Seq<Seq<char>>, x: Seq<char>)
    requires
        sorted_names(xs),
    ensures
        sorted_names(insert_sorted_v(xs, x)),
        insert_sorted_v(xs, x).len() == xs.len() + 1,
        insert_sorted_v(xs, x)[0] == x || (xs.len() > 0 && insert_sorted_v(xs, x)[0] == xs[0]),
    decreases xs.len(),
{
    if xs.len() == 0 {
    } else if lex_leq(x, xs[0]) {
        let r = seq![x] + xs;
        assert forall|i: int| 0 <= i < r.len() - 1 implies lex_leq(#[trigger] r[i], r[i + 1]) by {
            if i > 0 {
                assert(r[i] == xs[i - 1]);
                assert(r[i + 1] == xs[i]);
            }
        }
    } else {
        lemma_lex_total(x, xs[0]);
        assert forall|i: int|
            0 <= i < xs.drop_first().len() - 1 implies lex_leq(
            #[trigger] xs.drop_first()[i],
            xs.drop_first()[i + 1],
        ) by {
            assert(xs.drop_first()[i] == xs[i + 1]);
            assert(xs.drop_first()[i + 1] == xs[i + 2]);
        }
        lemma_insert_sorted_ordered(xs.drop_first(), x);
        let rec = insert_sorted_v(xs.drop_first(), x);
        let r = seq![xs[0]] + rec;
        assert forall|i: int| 0 <= i < r.len() - 1 implies lex_leq(#[trigger] r[i], r[i + 1]) by {
            if i == 0 {
                assert(r[1] == rec[0]);
                if xs.drop_first().len() > 0 && rec[0] == xs.drop_first()[0] {
                    assert(xs.drop_first()[0] == xs[1]);
                }
            } else {
                assert(r[i] == rec[i - 1]);
                assert(r[i + 1] == rec[i]);
            }
        }
    }
}

/// Law: the sort that orders a failed import's available names really
/// sorts: its result is in lexicographic order and has one entry per input.
pub proof fn lemma_sort_names_sorted(xs: Seq<Seq<char>>)
    ensures
        sorted_names(sort_names_v(xs)),
        sort_names_v(xs).len() == xs.len(),
    decreases xs.len(),
{
    if xs.len() > 0 {
        lemma_sort_names_sorted(xs.drop_last());
        lemma_insert_sorted_ordered(sort_names_v(xs.drop_last()), xs.last());
    }
}

/// A sorted list with adjacent duplicates dropped.
pub open spec fn dedup_adjacent_v(xs: Seq<Seq<char>>) -> Seq<Seq<char>>
    decreases xs.len(),
{
    if xs.len() < 2 {
        xs
    } else if xs[0] == xs[1] {
        dedup_adjacent_v(xs.drop_first())
    } else {
        seq![xs[0]] + dedup_adjacent_v(xs.drop_first())
    }
}

/// A sorted list with adjacent duplicates dropped.
pub fn dedup_adjacent(xs: Vec<String>) -> (r: Vec<String>)
    ensures
        r.deep_view() == dedup_adjacent_v(xs.deep_view()),
    decreases xs@.len(),
{
    let mut xs = xs;
    if xs.len() < 2 {
        xs
    } else {
        let ghost pre = xs.deep_view();
        let h = xs.remove(0);
        proof {
            assert(xs.deep_view() =~= pre.drop_first());
        }
        let same = h == xs[0];
        let mut r = dedup_adjacent(xs);
        if same {
            r
        } else {
            let ghost mid = r.deep_view();
            r.insert(0, h);
            proof {
                assert(r.deep_view() =~= seq![h@] + mid);
            }
            r
        }
    }
}

/// Whether `s` ends with `suffix`.
pub open spec fn ends_with_v(s: Seq<char>, suffix: Seq<char>) -> bool {
    matches_at(s, suffix, s.len() - suffix.len())
}

/// Whether `s` ends with `suffix`.
pub fn ends_with_str(s: &str, suffix: &str) -> (b: bool)
    ensures
        b == ends_with_v(s@, suffix@),
{
    let n = s.unicode_len();
    let m = suffix.unicode_len();
    if m > n {
        false
    } else {
        match_at(s, suffix, n - m)
    }
}

/// The entries of `parts` joined with `sep` between neighbours.
pub open spec fn join_v(parts: Seq<Seq<char>>, sep: Seq<char>) -> Seq<char>
    decreases parts.len(),
{
    if parts.len() == 0 {
        Seq::<char>::empty()
    } else if parts.len() == 1 {
        parts[0]
    } else {
        join_v(parts.drop_last(), sep) + sep + parts.last()
    }
}

/// The entries of `parts` joined with `sep` between neighbours.
pub fn join_names(parts: &Vec<String>, sep: &str) -> (r: String)
    ensures
        r@ == join_v(parts.deep_view(), sep@),
{
    if parts.len() == 0 {
        let r = String::new();
        proof {
            assert(r@ =~= join_v(parts.deep_view(), sep@));
        }
        return r;
    }
    let mut r = parts[0].clone();
    proof {
        assert(parts.deep_view().subrange(0, 1) =~= seq![parts.deep_view()[0]]);
        assert(r@ =~= join_v(parts.deep_view().subrange(0, 1), sep@));
    }
    let mut i: usize = 1;
    while i < parts.len()
        invariant
            1 <= i <= parts@.len(),
            r@ == join_v(parts.deep_view().subrange(0, i as int), sep@),
        decreases parts@.len() - i,
    {
        r.append(sep);
        r.append(parts[i].as_str());
        proof {
            let dv = parts.deep_view();
            let cur = dv.subrange(0, i + 1 as int);
            assert(cur.drop_last() =~= dv.subrange(0, i as int));
            assert(cur.last() == dv[i as int]);
            assert(r@ =~= join_v(cur, sep@));
        }
        i = i + 1;
    }
    proof {
        assert(parts.deep_view().subrange(0, parts@.len() as int) =~= parts.deep_view());
    }
    r
}

} // verus!
