//! Verified building blocks for working with `&str` and `String` values:
//! equality and lexicographic order, prefix and substring search, splitting
//! and trimming, concatenation, and fixed-width decimal rendering.

use vstd::prelude::*;
use vstd::string::StrSliceExecFns;
use vstd::string::StringExecFns;

verus! {

/// Character-for-character equality of two string slices.
pub fn str_eq(a: &str, b: &str) -> (r: bool)
    ensures
        r == (a@ == b@),
{
    let alen = a.unicode_len();
    let blen = b.unicode_len();
    if alen != blen {
        assert(a@ != b@) by {
            assert(a@.len() != b@.len());
        }
        return false;
    }
    let mut i: usize = 0;
    while i < alen
        invariant
            alen == a@.len(),
            alen == b@.len(),
            i <= alen,
            forall|j: int| 0 <= j < i ==> a@[j] == b@[j],
        decreases alen - i,
    {
        if a.get_char(i) != b.get_char(i) {
            assert(a@ != b@);
            return false;
        }
        i = i + 1;
    }
    assert(a@ =~= b@);
    true
}

/// `p` occurs at the start of `s`.
pub open spec fn is_prefix(s: Seq<char>, p: Seq<char>) -> bool {
    p.len() <= s.len() && s.subrange(0, p.len() as int) == p
}

/// `sub` occurs in `s` at position `i`.
pub open spec fn occurs_at(s: Seq<char>, sub: Seq<char>, i: int) -> bool {
    0 <= i && i + sub.len() <= s.len() && s.subrange(i, i + sub.len()) == sub
}

/// Whether `s` starts with the prefix `p`.
pub fn starts_with(s: &str, p: &str) -> (r: bool)
    ensures
        r == is_prefix(s@, p@),
{
    let slen = s.unicode_len();
    let plen = p.unicode_len();
    if plen > slen {
        return false;
    }
    let mut i: usize = 0;
    while i < plen
        invariant
            slen == s@.len(),
            plen == p@.len(),
            plen <= slen,
            i <= plen,
            forall|j: int| 0 <= j < i ==> s@[j] == p@[j],
        decreases plen - i,
    {
        if s.get_char(i) != p.get_char(i) {
            assert(s@.subrange(0, p@.len() as int)[i as int] != p@[i as int]);
            return false;
        }
        i = i + 1;
    }
    assert(s@.subrange(0, p@.len() as int) =~= p@);
    true
}

/// Whether `sub` occurs in `s` starting at position `at`.
pub fn matches_at(s: &str, sub: &str, at: usize) -> (r: bool)
    requires
        at + sub@.len() <= s@.len(),
    ensures
        r == occurs_at(s@, sub@, at as int),
{
    let slen = s.unicode_len();
    let sublen = sub.unicode_len();
    let mut i: usize = 0;
    while i < sublen
        invariant
            slen == s@.len(),
            sublen == sub@.len(),
            at + sublen <= s@.len(),
            i <= sublen,
            forall|j: int| 0 <= j < i ==> s@[at + j] == sub@[j],
        decreases sublen - i,
    {
        if s.get_char(at + i) != sub.get_char(i) {
            assert(s@.subrange(at as int, at + sub@.len())[i as int] != sub@[i as int]);
            return false;
        }
        i = i + 1;
    }
    assert(s@.subrange(at as int, at + sub@.len()) =~= sub@);
    true
}

/// The position of the first occurrence of `sub` in `s`, if any.
pub fn find_sub(s: &str, sub: &str) -> (r: Option<usize>)
    ensures
        match r {
            Some(i) => occurs_at(s@, sub@, i as int) && forall|j: int|
                0 <= j < i ==> !occurs_at(s@, sub@, j),
            None => forall|j: int| !occurs_at(s@, sub@, j),
        },
{
    let slen = s.unicode_len();
    let sublen = sub.unicode_len();
    if sublen > slen {
        return None;
    }
    if sublen == 0 {
        assert(s@.subrange(0, 0) =~= sub@);
        return Some(0);
    }
    let mut i: usize = 0;
    while i <= slen - sublen
        invariant
            slen == s@.len(),
            sublen == sub@.len(),
            0 < sublen <= slen,
            i <= slen - sublen + 1,
            forall|j: int| 0 <= j < i ==> !occurs_at(s@, sub@, j),
        decreases slen - sublen + 1 - i,
    {
        if matches_at(s, sub, i) {
            return Some(i);
        }
        i = i + 1;
    }
    assert(forall|j: int| j > slen - sublen ==> !occurs_at(s@, sub@, j));
    None
}

/// Whether `sub` occurs anywhere in `s`.
pub fn contains_sub(s: &str, sub: &str) -> (r: bool)
    ensures
        r == exists|i: int| occurs_at(s@, sub@, i),
{
    match find_sub(s, sub) {
        Some(i) => {
            assert(occurs_at(s@, sub@, i as int));
            true
        },
        None => false,
    }
}

/// The position of the first occurrence of the character `c` in `s`, if any.
pub fn find_char(s: &str, c: char) -> (r: Option<usize>)
    ensures
        match r {
            Some(i) => i < s@.len() && s@[i as int] == c && forall|j: int|
                0 <= j < i ==> s@[j] != c,
            None => forall|j: int| 0 <= j < s@.len() ==> s@[j] != c,
        },
{
    let slen = s.unicode_len();
    let mut i: usize = 0;
    while i < slen
        invariant
            slen == s@.len(),
            i <= slen,
            forall|j: int| 0 <= j < i ==> s@[j] != c,
        decreases slen - i,
    {
        if s.get_char(i) == c {
            return Some(i);
        }
        i = i + 1;
    }
    None
}

/// The characters of `s` from `from` (inclusive) to `to` (exclusive).
pub fn substring(s: &str, from: usize, to: usize) -> (r: String)
    requires
        from <= to <= s@.len(),
    ensures
        r@ == s@.subrange(from as int, to as int),
{
    let piece = s.substring_char(from, to);
    String::from_str(piece)
}

/// Concatenation of two string slices into an owned string.
pub fn str_concat(a: &str, b: &str) -> (r: String)
    ensures
        r@ == a@ + b@,
{
    let s = String::from_str(a);
    s.concat(b)
}

/// The pieces of `s` between occurrences of the separator `c`, as Rust's
/// `str::split` yields them; an empty `s` gives one empty piece.
pub open spec fn split_spec(s: Seq<char>, c: char) -> Seq<Seq<char>>
    decreases s.len(),
{
    if s.len() == 0 {
        seq![Seq::<char>::empty()]
    } else if s[0] == c {
        seq![Seq::<char>::empty()] + split_spec(s.skip(1), c)
    } else {
        let rest = split_spec(s.skip(1), c);
        seq![seq![s[0]] + rest[0]] + rest.skip(1)
    }
}

pub proof fn lemma_split_len(s: Seq<char>, c: char)
    ensures
        split_spec(s, c).len() >= 1,
    decreases s.len(),
{
    if s.len() != 0 {
        lemma_split_len(s.skip(1), c);
    }
}

/// A separator-free string splits into itself alone.
pub proof fn lemma_split_no_sep(s: Seq<char>, c: char)
    requires
        forall|j: int| 0 <= j < s.len() ==> s[j] != c,
    ensures
        split_spec(s, c) =~~= seq![s],
    decreases s.len(),
{
    if s.len() != 0 {
        lemma_split_no_sep(s.skip(1), c);
    }
}

/// Splitting at the first separator: the head piece is everything before it.
pub proof fn lemma_split_at_first(s: Seq<char>, c: char, k: int)
    requires
        0 <= k < s.len(),
        s[k] == c,
        forall|j: int| 0 <= j < k ==> s[j] != c,
    ensures
        split_spec(s, c) =~~= seq![s.take(k)] + split_spec(s.skip(k + 1), c),
    decreases k,
{
    lemma_split_len(s.skip(1), c);
    if k == 0 {
        assert(s.take(0) =~= Seq::<char>::empty());
    } else {
        lemma_split_at_first(s.skip(1), c, k - 1);
        lemma_split_len(s.skip(1).skip(k), c);
        assert(s.skip(1).take(k - 1) =~= s.take(k).skip(1));
        assert(s.skip(1).skip(k) =~= s.skip(k + 1));
        assert(seq![s[0]] + s.take(k).skip(1) =~= s.take(k));
    }
}

/// Splits `s` at every occurrence of `c`, as `str::split` does.
pub fn split_char(s: &str, c: char) -> (r: Vec<String>)
    ensures
        r.deep_view() == split_spec(s@, c),
        r.len() >= 1,
{
    let slen = s.unicode_len();
    let mut pieces: Vec<String> = Vec::new();
    proof {
        assert(s@.skip(0) =~= s@);
        assert(pieces.deep_view() =~~= Seq::<Seq<char>>::empty());
        assert(pieces.deep_view() + split_spec(s@, c) =~~= split_spec(s@, c));
    }
    let mut start: usize = 0;
    let mut i: usize = 0;
    while i < slen
        invariant
            slen == s@.len(),
            start <= i <= slen,
            forall|j: int| start <= j < i ==> s@[j] != c,
            split_spec(s@, c) =~~= pieces.deep_view() + split_spec(
                s@.skip(start as int),
                c,
            ),
        decreases slen - i,
    {
        if s.get_char(i) == c {
            let piece = substring(s, start, i);
            proof {
                lemma_split_at_first(s@.skip(start as int), c, i - start);
                assert(s@.skip(start as int).take(i - start) =~= s@.subrange(
                    start as int,
                    i as int,
                ));
                assert(s@.skip(start as int).skip(i - start + 1) =~= s@.skip(i + 1));
            }
            let ghost old_pieces = pieces.deep_view();
            pieces.push(piece);
            proof {
                assert(pieces.deep_view() =~~= old_pieces.push(piece@));
                assert(old_pieces.push(piece@) =~~= old_pieces + seq![piece@]);
            }
            start = i + 1;
        }
        i = i + 1;
    }
    let piece = substring(s, start, slen);
    proof {
        lemma_split_no_sep(s@.skip(start as int), c);
    }
    let ghost old_pieces = pieces.deep_view();
    pieces.push(piece);
    proof {
        assert(pieces.deep_view() =~~= old_pieces.push(piece@));
        assert(old_pieces.push(piece@) =~~= old_pieces + seq![piece@]);
        assert(pieces.deep_view() =~~= split_spec(s@, c));
    }
    pieces
}

/// `p` occurs at the end of `s`.
pub open spec fn is_suffix(s: Seq<char>, p: Seq<char>) -> bool {
    p.len() <= s.len() && s.subrange(s.len() - p.len(), s.len() as int) == p
}

/// `s` with every copy of the suffix `suf` removed from its end, as
/// `str::trim_end_matches` leaves it.
pub open spec fn trim_end_spec(s: Seq<char>, suf: Seq<char>) -> Seq<char>
    decreases s.len(),
{
    if suf.len() > 0 && is_suffix(s, suf) {
        trim_end_spec(s.take(s.len() - suf.len()), suf)
    } else {
        s
    }
}

/// Removes every copy of the suffix `suf` from the end of `s`.
pub fn trim_end_matches(s: &str, suf: &str) -> (r: String)
    ensures
        r@ == trim_end_spec(s@, suf@),
{
    let slen = s.unicode_len();
    let plen = suf.unicode_len();
    if plen == 0 {
        return String::from_str(s);
    }
    let mut end: usize = slen;
    proof {
        assert(s@.take(slen as int) =~= s@);
    }
    loop
        invariant
            slen == s@.len(),
            plen == suf@.len(),
            0 < plen,
            end <= slen,
            trim_end_spec(s@, suf@) == trim_end_spec(s@.take(end as int), suf@),
        decreases end,
    {
        if end >= plen && matches_at(s, suf, end - plen) {
            proof {
                let cur = s@.take(end as int);
                assert(cur.subrange(cur.len() - suf@.len(), cur.len() as int) =~= s@.subrange(
                    end - plen,
                    end as int,
                ));
                assert(is_suffix(cur, suf@));
                assert(cur.take(cur.len() - suf@.len()) =~= s@.take(end - plen));
            }
            end = end - plen;
        } else {
            proof {
                let cur = s@.take(end as int);
                if end >= plen {
                    assert(cur.subrange(cur.len() - suf@.len(), cur.len() as int) =~= s@.subrange(
                        end - plen,
                        end as int,
                    ));
                }
                assert(!is_suffix(cur, suf@));
            }
            return substring(s, 0, end);
        }
    }
}

/// `s` with every copy of the character `c` removed from its end.
pub open spec fn trim_end_char_spec(s: Seq<char>, c: char) -> Seq<char>
    decreases s.len(),
{
    if s.len() > 0 && s[s.len() - 1] == c {
        trim_end_char_spec(s.take(s.len() - 1), c)
    } else {
        s
    }
}

/// Removes every copy of the character `c` from the end of `s`.
pub fn trim_end_char(s: &str, c: char) -> (r: String)
    ensures
        r@ == trim_end_char_spec(s@, c),
{
    let slen = s.unicode_len();
    let mut end: usize = slen;
    proof {
        assert(s@.take(slen as int) =~= s@);
    }
    loop
        invariant
            slen == s@.len(),
            end <= slen,
            trim_end_char_spec(s@, c) == trim_end_char_spec(s@.take(end as int), c),
        decreases end,
    {
        if end > 0 && s.get_char(end - 1) == c {
            proof {
                let cur = s@.take(end as int);
                assert(cur[cur.len() - 1] == s@[end - 1]);
                assert(cur.take(cur.len() - 1) =~= s@.take(end - 1));
            }
            end = end - 1;
        } else {
            proof {
                let cur = s@.take(end as int);
                if end > 0 {
                    assert(cur[cur.len() - 1] == s@[end - 1]);
                }
            }
            return substring(s, 0, end);
        }
    }
}

/// A whitespace character, as `char::is_whitespace` (the Unicode
/// White_Space property) defines it.
pub open spec fn is_space_char(c: char) -> bool {
    ||| c == '\t' || c == '\n' || c == '\u{b}' || c == '\u{c}' || c == '\r' || c == ' '
    ||| c == '\u{85}' || c == '\u{a0}' || c == '\u{1680}'
    ||| 0x2000 <= (c as u32) <= 0x200a
    ||| c == '\u{2028}' || c == '\u{2029}' || c == '\u{202f}' || c == '\u{205f}' || c == '\u{3000}'
}

/// Whether `s` holds nothing but whitespace (so trimming would empty it).
pub fn is_blank(s: &str) -> (r: bool)
    ensures
        r == forall|i: int| 0 <= i < s@.len() ==> is_space_char(s@[i]),
{
    let slen = s.unicode_len();
    let mut i: usize = 0;
    while i < slen
        invariant
            slen == s@.len(),
            i <= slen,
            forall|j: int| 0 <= j < i ==> is_space_char(s@[j]),
        decreases slen - i,
    {
        let c = s.get_char(i);
        let code = c as u32;
        let ws = c == '\t' || c == '\n' || c == '\u{b}' || c == '\u{c}' || c == '\r' || c == ' '
            || c == '\u{85}' || c == '\u{a0}' || c == '\u{1680}' || (0x2000 <= code && code
            <= 0x200a) || c == '\u{2028}' || c == '\u{2029}' || c == '\u{202f}' || c == '\u{205f}'
            || c == '\u{3000}';
        if !ws {
            return false;
        }
        i = i + 1;
    }
    true
}

/// The position of the first occurrence of `c` in `s`, or -1.
pub open spec fn first_index_of(s: Seq<char>, c: char) -> int
    decreases s.len(),
{
    if s.len() == 0 {
        -1
    } else if s[0] == c {
        0
    } else {
        let r = first_index_of(s.skip(1), c);
        if r == -1 {
            -1
        } else {
            r + 1
        }
    }
}

/// `first_index_of` finds the first occurrence, and -1 means none.
pub proof fn lemma_first_index_of(s: Seq<char>, c: char)
    ensures
        first_index_of(s, c) == -1 ==> forall|j: int| 0 <= j < s.len() ==> s[j] != c,
        first_index_of(s, c) != -1 ==> {
            let k = first_index_of(s, c);
            &&& 0 <= k < s.len()
            &&& s[k] == c
            &&& forall|j: int| 0 <= j < k ==> s[j] != c
        },
    decreases s.len(),
{
    if s.len() > 0 && s[0] != c {
        lemma_first_index_of(s.skip(1), c);
        let t = s.skip(1);
        assert(forall|j: int| 0 <= j < t.len() ==> t[j] == s[j + 1]);
        if first_index_of(t, c) == -1 {
            assert forall|j: int| 0 <= j < s.len() implies s[j] != c by {
                if j >= 1 {
                    assert(t[j - 1] != c);
                }
            }
        } else {
            let k = first_index_of(t, c);
            assert(s[k + 1] == t[k]);
            assert forall|j: int| 0 <= j < k + 1 implies s[j] != c by {
                if j >= 1 {
                    assert(t[j - 1] != c);
                }
            }
        }
    }
}

/// The position of the first occurrence of `sub` in `s`, or -1.
pub open spec fn first_sub_index(s: Seq<char>, sub: Seq<char>) -> int
    decreases s.len(),
{
    if occurs_at(s, sub, 0) {
        0
    } else if s.len() == 0 {
        -1
    } else {
        let r = first_sub_index(s.skip(1), sub);
        if r == -1 {
            -1
        } else {
            r + 1
        }
    }
}

/// `first_sub_index` finds the first occurrence, and -1 means none.
pub proof fn lemma_first_sub_index(s: Seq<char>, sub: Seq<char>)
    ensures
        first_sub_index(s, sub) == -1 ==> forall|j: int| !occurs_at(s, sub, j),
        first_sub_index(s, sub) != -1 ==> {
            let k = first_sub_index(s, sub);
            &&& occurs_at(s, sub, k)
            &&& forall|j: int| 0 <= j < k ==> !occurs_at(s, sub, j)
        },
    decreases s.len(),
{
    if !occurs_at(s, sub, 0) && s.len() > 0 {
        lemma_first_sub_index(s.skip(1), sub);
        let t = s.skip(1);
        assert forall|j: int| 1 <= j && occurs_at(s, sub, j) implies occurs_at(
            t,
            sub,
            j - 1,
        ) by {
            assert(t.subrange(j - 1, j - 1 + sub.len() as int) =~= s.subrange(
                j,
                j + sub.len() as int,
            ));
        }
        assert forall|j: int| 0 <= j && occurs_at(t, sub, j) implies occurs_at(
            s,
            sub,
            j + 1,
        ) by {
            assert(s.subrange(j + 1, j + 1 + sub.len() as int) =~= t.subrange(
                j,
                j + sub.len() as int,
            ));
        }
    }
}

/// `find_char`, stated against `first_index_of`.
pub fn find_char_first(s: &str, c: char) -> (r: Option<usize>)
    ensures
        match r {
            Some(i) => first_index_of(s@, c) == i as int,
            None => first_index_of(s@, c) == -1,
        },
{
    proof {
        lemma_first_index_of(s@, c);
    }
    match find_char(s, c) {
        Some(i) => {
            proof {
                let fi = first_index_of(s@, c);
                if fi == -1 {
                    assert(s@[i as int] != c);
                } else if fi < i {
                    assert(s@[fi] != c);
                } else if fi > i {
                    assert(s@[i as int] != c);
                }
            }
            Some(i)
        },
        None => {
            proof {
                let fi = first_index_of(s@, c);
                if fi >= 0 {
                    assert(s@[fi] == c);
                }
            }
            None
        },
    }
}

/// `find_sub`, stated against `first_sub_index`.
pub fn find_sub_first(s: &str, sub: &str) -> (r: Option<usize>)
    ensures
        match r {
            Some(i) => first_sub_index(s@, sub@) == i as int,
            None => first_sub_index(s@, sub@) == -1,
        },
{
    proof {
        lemma_first_sub_index(s@, sub@);
    }
    match find_sub(s, sub) {
        Some(i) => {
            proof {
                let fi = first_sub_index(s@, sub@);
                if fi == -1 {
                    assert(!occurs_at(s@, sub@, i as int));
                } else if fi < i {
                    assert(!occurs_at(s@, sub@, fi));
                } else if fi > i {
                    assert(!occurs_at(s@, sub@, i as int));
                }
            }
            Some(i)
        },
        None => {
            proof {
                let fi = first_sub_index(s@, sub@);
                if fi >= 0 {
                    assert(occurs_at(s@, sub@, fi));
                }
            }
            None
        },
    }
}

/// Lexicographic order on character sequences, by Unicode scalar value;
/// a prefix comes before every extension of it. This is the order in which
/// `str` sorts.
pub open spec fn lex_le(a: Seq<char>, b: Seq<char>) -> bool
    decreases a.len(),
{
    if a.len() == 0 {
        true
    } else if b.len() == 0 {
        false
    } else if a[0] == b[0] {
        lex_le(a.skip(1), b.skip(1))
    } else {
        (a[0] as int) < (b[0] as int)
    }
}

/// Strict lexicographic order.
pub open spec fn lex_lt(a: Seq<char>, b: Seq<char>) -> bool {
    lex_le(a, b) && a != b
}

/// Any two strings are ordered.
pub proof fn lemma_lex_total(a: Seq<char>, b: Seq<char>)
    ensures
        lex_le(a, b) || lex_le(b, a),
    decreases a.len(),
{
    if a.len() != 0 && b.len() != 0 && a[0] == b[0] {
        lemma_lex_total(a.skip(1), b.skip(1));
    }
}

/// Two strings each at or before the other are the same string.
pub proof fn lemma_lex_antisymmetric(a: Seq<char>, b: Seq<char>)
    requires
        lex_le(a, b),
        lex_le(b, a),
    ensures
        a == b,
    decreases a.len(),
{
    if a.len() != 0 && b.len() != 0 && a[0] == b[0] {
        lemma_lex_antisymmetric(a.skip(1), b.skip(1));
        assert(a =~= seq![a[0]] + a.skip(1));
        assert(b =~= seq![b[0]] + b.skip(1));
    } else if a.len() != 0 && b.len() != 0 {
        assert(false);
    } else {
        assert(a =~= b);
    }
}

/// The order is transitive.
pub proof fn lemma_lex_transitive(a: Seq<char>, b: Seq<char>, c: Seq<char>)
    requires
        lex_le(a, b),
        lex_le(b, c),
    ensures
        lex_le(a, c),
    decreases a.len(),
{
    if a.len() != 0 && b.len() != 0 && c.len() != 0 {
        if a[0] == b[0] && b[0] == c[0] {
            lemma_lex_transitive(a.skip(1), b.skip(1), c.skip(1));
        }
    }
}

/// A shared prefix does not decide the order: it is decided past it.
pub proof fn lemma_lex_common_prefix(a: Seq<char>, b: Seq<char>, k: int)
    requires
        0 <= k <= a.len(),
        k <= b.len(),
        forall|j: int| 0 <= j < k ==> a[j] == b[j],
    ensures
        lex_le(a, b) == lex_le(a.skip(k), b.skip(k)),
    decreases k,
{
    if k > 0 {
        lemma_lex_common_prefix(a.skip(1), b.skip(1), k - 1);
        assert(a.skip(1).skip(k - 1) =~= a.skip(k));
        assert(b.skip(1).skip(k - 1) =~= b.skip(k));
        assert(forall|j: int| 0 <= j < k - 1 ==> a.skip(1)[j] == b.skip(1)[j]);
    } else {
        assert(a.skip(0) =~= a);
        assert(b.skip(0) =~= b);
    }
}

/// Whether `a` comes at or before `b` in lexicographic order.
pub fn str_le(a: &str, b: &str) -> (r: bool)
    ensures
        r == lex_le(a@, b@),
{
    let alen = a.unicode_len();
    let blen = b.unicode_len();
    let mut i: usize = 0;
    while i < alen && i < blen
        invariant
            alen == a@.len(),
            blen == b@.len(),
            i <= alen,
            i <= blen,
            forall|j: int| 0 <= j < i ==> a@[j] == b@[j],
        decreases alen - i,
    {
        let ca = a.get_char(i);
        let cb = b.get_char(i);
        if ca != cb {
            proof {
                lemma_lex_common_prefix(a@, b@, i as int);
                assert(a@.skip(i as int)[0] == ca);
                assert(b@.skip(i as int)[0] == cb);
            }
            return (ca as u32) < (cb as u32);
        }
        i = i + 1;
    }
    proof {
        lemma_lex_common_prefix(a@, b@, i as int);
    }
    if i == alen {
        assert(a@.skip(i as int).len() == 0);
        true
    } else {
        assert(b@.skip(i as int).len() == 0);
        assert(a@.skip(i as int).len() > 0);
        false
    }
}

/// Strictly increasing in lexicographic order: sorted, with no repeats.
pub open spec fn sorted_unique(s: Seq<Seq<char>>) -> bool {
    forall|i: int, j: int| 0 <= i < j < s.len() ==> lex_lt(#[trigger] s[i], #[trigger] s[j])
}

/// Places `t` at its position in a strictly increasing vector of strings,
/// unless an equal string is already there.
pub fn insert_sorted_unique(v: &mut Vec<String>, t: String)
    requires
        sorted_unique(old(v).deep_view()),
    ensures
        sorted_unique(final(v).deep_view()),
        forall|x: Seq<char>|
            final(v).deep_view().contains(x) <==> (old(v).deep_view().contains(x) || x == t@),
{
    let ghost vd = v.deep_view();
    let n = v.len();
    let mut i: usize = 0;
    let mut stop = false;
    while i < n && !stop
        invariant
            vd == v.deep_view(),
            sorted_unique(vd),
            n == v.len(),
            i <= n,
            forall|j: int| 0 <= j < i ==> lex_lt(#[trigger] vd[j], t@),
            stop ==> i < n && !lex_le(vd[i as int], t@),
        decreases n - i, (if stop { 0int } else { 1int }),
    {
        if str_eq(v[i].as_str(), t.as_str()) {
            assert(vd[i as int] == t@);
            assert(vd.contains(t@));
            assert(forall|x: Seq<char>|
                v.deep_view().contains(x) <==> (vd.contains(x) || x == t@));
            return ;
        }
        if str_le(v[i].as_str(), t.as_str()) {
            assert(lex_lt(vd[i as int], t@));
            i = i + 1;
        } else {
            stop = true;
        }
    }
    proof {
        if i < n {
            lemma_lex_total(vd[i as int], t@);
            if vd[i as int] == t@ {
                assert(lex_le(vd[i as int], t@));
            }
            assert(lex_lt(t@, vd[i as int]));
        }
    }
    let ghost tv = t@;
    v.insert(i, t);
    proof {
        let nd = v.deep_view();
        assert(nd =~~= vd.insert(i as int, tv)) by {
            assert forall|k: int| 0 <= k < nd.len() implies nd[k] == vd.insert(i as int, tv)[k] by {
                assert(v@[k] == v@.insert(i as int, v@[i as int])[k] || true);
            }
        }
        assert forall|k1: int, k2: int| 0 <= k1 < k2 < nd.len() implies lex_lt(
            #[trigger] nd[k1],
            #[trigger] nd[k2],
        ) by {
            let a = nd[k1];
            let b = nd[k2];
            if k1 < i && k2 == i {
                assert(a == vd[k1] && b == tv);
            } else if k1 == i && k2 > i {
                assert(a == tv && b == vd[k2 - 1]);
                assert(i <= k2 - 1 < vd.len());
                if i < k2 - 1 {
                    assert(lex_lt(vd[i as int], vd[k2 - 1]));
                    lemma_lex_transitive(tv, vd[i as int], vd[k2 - 1]);
                    if tv == vd[k2 - 1] {
                        lemma_lex_antisymmetric(tv, vd[i as int]);
                    }
                }
            } else if k1 < i && k2 > i {
                assert(a == vd[k1] && b == vd[k2 - 1]);
                if k1 == k2 - 1 {
                    assert(lex_lt(a, tv) && lex_lt(tv, b));
                    lemma_lex_transitive(a, tv, b);
                    if a == b {
                        lemma_lex_antisymmetric(a, tv);
                    }
                }
            } else if k1 > i && k2 > i {
                assert(a == vd[k1 - 1] && b == vd[k2 - 1]);
            } else if k1 < i && k2 < i {
                assert(a == vd[k1] && b == vd[k2]);
            }
        }
        assert forall|x: Seq<char>| nd.contains(x) <==> (vd.contains(x) || x == tv) by {
            if nd.contains(x) {
                let k = choose|k: int| 0 <= k < nd.len() && nd[k] == x;
                if k < i {
                    assert(vd[k] == x);
                } else if k == i {
                } else {
                    assert(vd[k - 1] == x);
                }
            }
            if vd.contains(x) {
                let k = choose|k: int| 0 <= k < vd.len() && vd[k] == x;
                if k < i {
                    assert(nd[k] == x);
                } else {
                    assert(nd[k + 1] == x);
                }
            }
            if x == tv {
                assert(nd[i as int] == x);
            }
        }
    }
}

/// The decimal digit `d` as a character.
pub open spec fn digit_char(d: int) -> char {
    if d == 0 {
        '0'
    } else if d == 1 {
        '1'
    } else if d == 2 {
        '2'
    } else if d == 3 {
        '3'
    } else if d == 4 {
        '4'
    } else if d == 5 {
        '5'
    } else if d == 6 {
        '6'
    } else if d == 7 {
        '7'
    } else if d == 8 {
        '8'
    } else {
        '9'
    }
}

/// `n` as exactly two decimal digits, zero-padded.
pub open spec fn pad2_spec(n: int) -> Seq<char> {
    seq![digit_char(n / 10 % 10), digit_char(n % 10)]
}

/// `n` as exactly four decimal digits, zero-padded.
pub open spec fn pad4_spec(n: int) -> Seq<char> {
    seq![
        digit_char(n / 1000 % 10),
        digit_char(n / 100 % 10),
        digit_char(n / 10 % 10),
        digit_char(n % 10),
    ]
}

/// One decimal digit as a string.
fn digit_str(d: u32) -> (r: &'static str)
    requires
        d < 10,
    ensures
        r@ =~= seq![digit_char(d as int)],
{
    proof {
        reveal_strlit("0");
        reveal_strlit("1");
        reveal_strlit("2");
        reveal_strlit("3");
        reveal_strlit("4");
        reveal_strlit("5");
        reveal_strlit("6");
        reveal_strlit("7");
        reveal_strlit("8");
        reveal_strlit("9");
    }
    match d {
        0 => "0",
        1 => "1",
        2 => "2",
        3 => "3",
        4 => "4",
        5 => "5",
        6 => "6",
        7 => "7",
        8 => "8",
        _ => "9",
    }
}

/// Renders `n` as two decimal digits, zero-padded.
pub fn pad2(n: u32) -> (r: String)
    requires
        n < 100,
    ensures
        r@ == pad2_spec(n as int),
{
    let r = str_concat(digit_str(n / 10), digit_str(n % 10));
    proof {
        assert(r@ =~= pad2_spec(n as int));
    }
    r
}

/// Renders `n` as four decimal digits, zero-padded.
pub fn pad4(n: u32) -> (r: String)
    requires
        n < 10000,
    ensures
        r@ == pad4_spec(n as int),
{
    let hi = pad2(n / 100);
    let lo = pad2(n % 100);
    let r = hi.concat(lo.as_str());
    proof {
        assert(n / 100 / 10 % 10 == n / 1000 % 10);
        assert(n / 100 % 10 % 10 == n / 100 % 10);
        assert(n % 100 / 10 % 10 == n / 10 % 10) by {
            assert(n % 100 / 10 == n / 10 % 10);
        }
        assert(n % 100 % 10 == n % 10);
        assert(r@ =~= pad4_spec(n as int));
    }
    r
}

/// Distinct digits render as distinct characters.
pub proof fn lemma_digit_char_injective(a: int, b: int)
    requires
        0 <= a < 10,
        0 <= b < 10,
        digit_char(a) == digit_char(b),
    ensures
        a == b,
{
}

/// Two-digit rendering is one-to-one below 100.
pub proof fn lemma_pad2_injective(a: int, b: int)
    requires
        0 <= a < 100,
        0 <= b < 100,
        pad2_spec(a) == pad2_spec(b),
    ensures
        a == b,
{
    assert(pad2_spec(a)[0] == pad2_spec(b)[0]);
    assert(pad2_spec(a)[1] == pad2_spec(b)[1]);
    lemma_digit_char_injective(a / 10 % 10, b / 10 % 10);
    lemma_digit_char_injective(a % 10, b % 10);
}

/// Four-digit rendering is one-to-one below 10000.
pub proof fn lemma_pad4_injective(a: int, b: int)
    requires
        0 <= a < 10000,
        0 <= b < 10000,
        pad4_spec(a) == pad4_spec(b),
    ensures
        a == b,
{
    assert(pad4_spec(a)[0] == pad4_spec(b)[0]);
    assert(pad4_spec(a)[1] == pad4_spec(b)[1]);
    assert(pad4_spec(a)[2] == pad4_spec(b)[2]);
    assert(pad4_spec(a)[3] == pad4_spec(b)[3]);
    lemma_digit_char_injective(a / 1000 % 10, b / 1000 % 10);
    lemma_digit_char_injective(a / 100 % 10, b / 100 % 10);
    lemma_digit_char_injective(a / 10 % 10, b / 10 % 10);
    lemma_digit_char_injective(a % 10, b % 10);
}

} // verus!
