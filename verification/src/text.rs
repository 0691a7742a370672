use vstd::prelude::*;

verus! {

broadcast use vstd::string::group_string_axioms;

// ---------------------------------------------------------------------------
// Specifications over character sequences
// ---------------------------------------------------------------------------

/// `p` occurs in `s` starting at index `i`.
pub open spec fn occurs_at(s: Seq<char>, p: Seq<char>, i: int) -> bool {
    0 <= i && i + p.len() <= s.len() && s.subrange(i, i + p.len()) == p
}

/// The first index at or after `from` where `p` occurs in `s`.
pub open spec fn find_from(s: Seq<char>, p: Seq<char>, from: int) -> Option<int>
    decreases s.len() + 1 - from,
{
    if from < 0 || from + p.len() > s.len() {
        None
    } else if occurs_at(s, p, from) {
        Some(from)
    } else {
        find_from(s, p, from + 1)
    }
}

/// The first index at or after `from` where the character `c` occurs in `s`.
pub open spec fn find_char_from(s: Seq<char>, c: char, from: int) -> Option<int>
    decreases s.len() - from,
{
    if from < 0 || from >= s.len() {
        None
    } else if s[from] == c {
        Some(from)
    } else {
        find_char_from(s, c, from + 1)
    }
}

/// `s` begins with `p`.
pub open spec fn starts_with(s: Seq<char>, p: Seq<char>) -> bool {
    p.len() <= s.len() && s.take(p.len() as int) == p
}

/// `s` ends with `p`.
pub open spec fn ends_with(s: Seq<char>, p: Seq<char>) -> bool {
    p.len() <= s.len() && s.skip(s.len() - p.len()) == p
}

/// What is left of `s` after removing `p` from its front as often as it is there
/// (`str::trim_start_matches`).
pub open spec fn trim_start_matches(s: Seq<char>, p: Seq<char>) -> Seq<char>
    decreases s.len(),
{
    if p.len() > 0 && starts_with(s, p) {
        trim_start_matches(s.skip(p.len() as int), p)
    } else {
        s
    }
}

/// What is left of `s` after removing `p` from its end as often as it is there
/// (`str::trim_end_matches`).
pub open spec fn trim_end_matches(s: Seq<char>, p: Seq<char>) -> Seq<char>
    decreases s.len(),
{
    if p.len() > 0 && ends_with(s, p) {
        trim_end_matches(s.take(s.len() - p.len()), p)
    } else {
        s
    }
}

/// The two sides of the first `c` in `s` (`str::split_once` with a character).
pub open spec fn split_once_char(s: Seq<char>, c: char) -> Option<(Seq<char>, Seq<char>)> {
    match find_char_from(s, c, 0) {
        Some(i) => Some((s.take(i), s.skip(i + 1))),
        None => None,
    }
}

/// The pieces of `s` between the occurrences of `c` (`str::split` with a character):
/// always at least one piece, empty pieces included.
pub open spec fn split_char(s: Seq<char>, c: char) -> Seq<Seq<char>>
    decreases s.len(),
{
    if s.len() == 0 {
        seq![Seq::<char>::empty()]
    } else {
        let init = split_char(s.drop_last(), c);
        if s.last() == c {
            init.push(Seq::<char>::empty())
        } else {
            init.update(init.len() - 1, init.last().push(s.last()))
        }
    }
}

/// The second piece of `s` split at the non-empty pattern `p`
/// (`s.split(p).nth(1)`), if there is one.
pub open spec fn second_piece(s: Seq<char>, p: Seq<char>) -> Option<Seq<char>> {
    match find_from(s, p, 0) {
        None => None,
        Some(i) => {
            let start: int = i + p.len();
            match find_from(s, p, start) {
                Some(j) => Some(s.subrange(start, j)),
                None => Some(s.skip(start)),
            }
        },
    }
}

/// `s` with every `from` replaced by `to`.
pub open spec fn replace_char(s: Seq<char>, from: char, to: char) -> Seq<char> {
    s.map_values(|c: char| if c == from { to } else { c })
}

/// The characters that Unicode gives the White_Space property (`char::is_whitespace`).
pub open spec fn is_whitespace(c: char) -> bool {
    ||| '\t' <= c <= '\r'
    ||| c == ' '
    ||| c == '\u{85}'
    ||| c == '\u{a0}'
    ||| c == '\u{1680}'
    ||| '\u{2000}' <= c <= '\u{200a}'
    ||| c == '\u{2028}'
    ||| c == '\u{2029}'
    ||| c == '\u{202f}'
    ||| c == '\u{205f}'
    ||| c == '\u{3000}'
}

/// The maximal runs of non-whitespace characters of `s`, in order (`str::split_whitespace`).
pub open spec fn words(s: Seq<char>) -> Seq<Seq<char>>
    decreases s.len(),
{
    if s.len() == 0 {
        Seq::empty()
    } else {
        let init = words(s.drop_last());
        let c = s.last();
        if is_whitespace(c) {
            init
        } else if s.len() >= 2 && !is_whitespace(s[s.len() - 2]) {
            init.update(init.len() - 1, init.last().push(c))
        } else {
            init.push(seq![c])
        }
    }
}

/// The first line of `s` (`str::lines().next()`): `None` for an empty string, else the
/// text before the first `'\n'`, without a `'\r'` that stands right before that `'\n'`.
pub open spec fn first_line(s: Seq<char>) -> Option<Seq<char>> {
    if s.len() == 0 {
        None
    } else {
        match find_char_from(s, '\n', 0) {
            None => Some(s),
            Some(i) => if i > 0 && s[i - 1] == '\r' {
                Some(s.take(i - 1))
            } else {
                Some(s.take(i))
            },
        }
    }
}

// ---------------------------------------------------------------------------
// Building strings
// ---------------------------------------------------------------------------

/// Appends one character to a string (std's `String::push`).
#[verifier::external_body]
pub(crate) fn push_char(s: &mut String, c: char)
    ensures
        final(s)@ == old(s)@.push(c),
{
    s.push(c);
}

/// An owned copy of a string slice.
pub fn owned(s: &str) -> (r: String)
    ensures
        r@ == s@,
{
    s.to_string()
}

/// Appends `t` to `s`.
pub fn append_str(s: &mut String, t: &str)
    ensures
        final(s)@ == old(s)@ + t@,
{
    let chars = chars_of(t);
    let ghost start = s@;
    let mut i: usize = 0;
    while i < chars.len()
        invariant
            i <= chars@.len(),
            chars@ == t@,
            s@ == start + t@.take(i as int),
        decreases chars@.len() - i,
    {
        push_char(s, chars[i]);
        assert(t@.take(i + 1) == t@.take(i as int).push(t@[i as int]));
        i = i + 1;
    }
    assert(t@.take(i as int) == t@);
}

/// The characters of a string slice, in order.
pub fn chars_of(s: &str) -> (v: Vec<char>)
    ensures
        v@ == s@,
{
    let mut v: Vec<char> = Vec::new();
    for c in it: s.chars()
        invariant
            it.seq() == s@,
            v@ == it.seq().take(it.index() as int),
    {
        v.push(c);
    }
    v
}

/// A string holding `v[lo..hi]`.
pub fn string_of(v: &Vec<char>, lo: usize, hi: usize) -> (r: String)
    requires
        lo <= hi <= v@.len(),
    ensures
        r@ == v@.subrange(lo as int, hi as int),
{
    let mut r = String::new();
    let mut i: usize = lo;
    while i < hi
        invariant
            lo <= i <= hi <= v@.len(),
            r@ == v@.subrange(lo as int, i as int),
        decreases hi - i,
    {
        push_char(&mut r, v[i]);
        assert(v@.subrange(lo as int, i + 1) == v@.subrange(lo as int, i as int).push(v@[i as int]));
        i = i + 1;
    }
    r
}

/// A copy of `v[lo..hi]`.
pub fn sub_chars(v: &Vec<char>, lo: usize, hi: usize) -> (r: Vec<char>)
    requires
        lo <= hi <= v@.len(),
    ensures
        r@ == v@.subrange(lo as int, hi as int),
{
    let mut r: Vec<char> = Vec::new();
    let mut i: usize = lo;
    while i < hi
        invariant
            lo <= i <= hi <= v@.len(),
            r@ == v@.subrange(lo as int, i as int),
        decreases hi - i,
    {
        r.push(v[i]);
        assert(v@.subrange(lo as int, i + 1) == v@.subrange(lo as int, i as int).push(v@[i as int]));
        i = i + 1;
    }
    r
}

// ---------------------------------------------------------------------------
// Searching and comparing
// ---------------------------------------------------------------------------

/// `p` occurs in `s` at index `i`.
pub fn occurs_at_exec(s: &Vec<char>, p: &Vec<char>, i: usize) -> (b: bool)
    ensures
        b == occurs_at(s@, p@, i as int),
{
    if i > s.len() || p.len() > s.len() - i {
        return false;
    }
    let end: usize = i + p.len();
    let mut j: usize = i;
    while j < end
        invariant
            end == i + p@.len(),
            end <= s@.len(),
            i <= j <= end,
            forall|t: int| 0 <= t < j - i ==> s@[i + t] == p@[t],
        decreases end - j,
    {
        if s[j] != p[j - i] {
            assert(s@.subrange(i as int, i + p@.len())[j - i] != p@[j - i]);
            return false;
        }
        j = j + 1;
    }
    assert(s@.subrange(i as int, i + p@.len()) == p@);
    true
}

/// The first index at or after `from` where `p` occurs in `s`.
pub fn find_exec(s: &Vec<char>, p: &Vec<char>, from: usize) -> (r: Option<usize>)
    ensures
        r matches Some(i) ==> find_from(s@, p@, from as int) == Some(i as int),
        r is None ==> find_from(s@, p@, from as int) is None,
{
    let mut i: usize = from;
    loop
        invariant
            from <= i,
            find_from(s@, p@, from as int) == find_from(s@, p@, i as int),
        decreases s@.len() + 1 - i,
    {
        if i > s.len() || p.len() > s.len() - i {
            return None;
        }
        if occurs_at_exec(s, p, i) {
            return Some(i);
        }
        if i >= s.len() {
            proof {
                assert(s@.subrange(i as int, i + p@.len()) =~= p@);
            }
            return None;
        }
        i = i + 1;
    }
}

/// The first index at or after `from` where `c` occurs in `s`.
pub fn find_char_exec(s: &Vec<char>, c: char, from: usize) -> (r: Option<usize>)
    ensures
        r matches Some(i) ==> find_char_from(s@, c, from as int) == Some(i as int) && i < s@.len(),
        r is None ==> find_char_from(s@, c, from as int) is None,
{
    let mut i: usize = from;
    while i < s.len()
        invariant
            from <= i,
            find_char_from(s@, c, from as int) == find_char_from(s@, c, i as int),
        decreases s@.len() - i,
    {
        if s[i] == c {
            return Some(i);
        }
        i = i + 1;
    }
    None
}

/// `s` and `t` hold the same characters.
pub fn chars_eq(s: &Vec<char>, t: &Vec<char>) -> (b: bool)
    ensures
        b == (s@ == t@),
{
    if s.len() != t.len() {
        return false;
    }
    let mut k: usize = 0;
    while k < s.len()
        invariant
            s@.len() == t@.len(),
            k <= s@.len(),
            forall|j: int| 0 <= j < k ==> s@[j] == t@[j],
        decreases s@.len() - k,
    {
        if s[k] != t[k] {
            return false;
        }
        k = k + 1;
    }
    assert(s@ == t@);
    true
}

/// `s` holds the same characters as the string slice `t`.
pub fn chars_eq_str(s: &Vec<char>, t: &str) -> (b: bool)
    ensures
        b == (s@ == t@),
{
    let tc = chars_of(t);
    chars_eq(s, &tc)
}

/// `s` begins with `p`.
pub fn starts_with_exec(s: &Vec<char>, p: &Vec<char>) -> (b: bool)
    ensures
        b == starts_with(s@, p@),
{
    let b = occurs_at_exec(s, p, 0);
    proof {
        if p@.len() <= s@.len() {
            assert(s@.subrange(0, p@.len() as int) == s@.take(p@.len() as int));
        }
    }
    b
}

/// `s` ends with `p`.
pub fn ends_with_exec(s: &Vec<char>, p: &Vec<char>) -> (b: bool)
    ensures
        b == ends_with(s@, p@),
{
    if p.len() > s.len() {
        return false;
    }
    let b = occurs_at_exec(s, p, s.len() - p.len());
    proof {
        assert(s@.subrange(s@.len() - p@.len(), s@.len() as int) == s@.skip(s@.len() - p@.len()));
    }
    b
}

// ---------------------------------------------------------------------------
// Splitting and trimming
// ---------------------------------------------------------------------------

/// `s` without every copy of `p` at its front.
pub fn trim_start_matches_exec(s: &Vec<char>, p: &Vec<char>) -> (r: Vec<char>)
    ensures
        r@ == trim_start_matches(s@, p@),
{
    let mut start: usize = 0;
    assert(s@.skip(0) == s@);
    while p.len() > 0 && occurs_at_exec(s, p, start)
        invariant
            start <= s@.len(),
            trim_start_matches(s@, p@) == trim_start_matches(s@.skip(start as int), p@),
        decreases s@.len() - start,
    {
        proof {
            let rest = s@.skip(start as int);
            assert(rest.take(p@.len() as int) == s@.subrange(start as int, start + p@.len()));
            assert(rest.skip(p@.len() as int) == s@.skip(start + p@.len()));
        }
        let n: usize = s.len();
        assert(start + p@.len() <= n);
        start = start + p.len();
    }
    proof {
        let rest = s@.skip(start as int);
        if p@.len() > 0 && p@.len() <= rest.len() {
            assert(rest.take(p@.len() as int) == s@.subrange(start as int, start + p@.len()));
        }
    }
    sub_chars(s, start, s.len())
}

/// `s` without every copy of `p` at its end.
pub fn trim_end_matches_exec(s: &Vec<char>, p: &Vec<char>) -> (r: Vec<char>)
    ensures
        r@ == trim_end_matches(s@, p@),
{
    let mut end: usize = s.len();
    assert(s@.take(s@.len() as int) == s@);
    while p.len() > 0 && p.len() <= end && occurs_at_exec(s, p, end - p.len())
        invariant
            end <= s@.len(),
            trim_end_matches(s@, p@) == trim_end_matches(s@.take(end as int), p@),
        decreases end,
    {
        proof {
            let init = s@.take(end as int);
            assert(init.skip(end - p@.len()) == s@.subrange(end - p@.len(), end as int));
            assert(init.take(end - p@.len()) == s@.take(end - p@.len()));
        }
        end = end - p.len();
    }
    proof {
        let init = s@.take(end as int);
        if p@.len() > 0 && p@.len() <= end {
            assert(init.skip(end - p@.len()) == s@.subrange(end - p@.len(), end as int));
        }
    }
    sub_chars(s, 0, end)
}

/// The two sides of the first `c` in `s`.
pub fn split_once_char_exec(s: &Vec<char>, c: char) -> (r: Option<(Vec<char>, Vec<char>)>)
    ensures
        match r {
            Some((a, b)) => split_once_char(s@, c) == Some((a@, b@)),
            None => split_once_char(s@, c) is None,
        },
{
    match find_char_exec(s, c, 0) {
        Some(i) => {
            let n: usize = s.len();
            assert(i < n);
            let a = sub_chars(s, 0, i);
            let b = sub_chars(s, i + 1, s.len());
            assert(a@ == s@.take(i as int));
            assert(b@ == s@.skip(i + 1));
            Some((a, b))
        },
        None => None,
    }
}

/// The second piece of `s` split at the non-empty pattern `p`.
pub fn second_piece_exec(s: &Vec<char>, p: &Vec<char>) -> (r: Option<Vec<char>>)
    ensures
        match r {
            Some(v) => second_piece(s@, p@) == Some(v@),
            None => second_piece(s@, p@) is None,
        },
{
    match find_exec(s, p, 0) {
        None => None,
        Some(i) => {
            proof {
                find_from_bounds(s@, p@, 0);
            }
            let n: usize = s.len();
            assert(i + p@.len() <= n);
            let start: usize = i + p.len();
            match find_exec(s, p, start) {
                Some(j) => {
                    proof {
                        find_from_bounds(s@, p@, start as int);
                    }
                    Some(sub_chars(s, start, j))
                },
                None => {
                    let v = sub_chars(s, start, s.len());
                    assert(v@ == s@.skip(start as int));
                    Some(v)
                },
            }
        },
    }
}

/// Where `find_from` finds the pattern, the whole pattern lies inside the text,
/// at or after the starting point.
pub proof fn find_from_bounds(s: Seq<char>, p: Seq<char>, from: int)
    ensures
        find_from(s, p, from) matches Some(i) ==> from <= i && i + p.len() <= s.len()
            && occurs_at(s, p, i),
    decreases s.len() + 1 - from,
{
    if from < 0 || from + p.len() > s.len() {
    } else if occurs_at(s, p, from) {
    } else {
        find_from_bounds(s, p, from + 1);
    }
}

/// Where `find_char_from` finds the character, it lies inside the text, at or after
/// the starting point, and it is the first one there.
pub proof fn find_char_from_bounds(s: Seq<char>, c: char, from: int)
    ensures
        find_char_from(s, c, from) matches Some(i) ==> from <= i < s.len() && s[i] == c
            && forall|j: int| from <= j < i ==> s[j] != c,
        find_char_from(s, c, from) is None ==> forall|j: int|
            0 <= from <= j < s.len() ==> s[j] != c,
    decreases s.len() - from,
{
    if from < 0 || from >= s.len() {
    } else if s[from] == c {
    } else {
        find_char_from_bounds(s, c, from + 1);
    }
}

/// `s` with every `from` replaced by `to`.
pub fn replace_char_exec(s: &Vec<char>, from: char, to: char) -> (r: Vec<char>)
    ensures
        r@ == replace_char(s@, from, to),
{
    let mut r: Vec<char> = Vec::new();
    let mut i: usize = 0;
    while i < s.len()
        invariant
            i <= s@.len(),
            r@ == replace_char(s@.take(i as int), from, to),
        decreases s@.len() - i,
    {
        let c = s[i];
        r.push(if c == from { to } else { c });
        assert(replace_char(s@.take(i + 1), from, to) == replace_char(s@.take(i as int), from, to).push(
            if c == from { to } else { c },
        ));
        i = i + 1;
    }
    assert(s@.take(i as int) == s@);
    r
}

/// The first line of `s`.
pub fn first_line_exec(s: &Vec<char>) -> (r: Option<Vec<char>>)
    ensures
        match r {
            Some(v) => first_line(s@) == Some(v@),
            None => first_line(s@) is None,
        },
{
    if s.len() == 0 {
        return None;
    }
    match find_char_exec(s, '\n', 0) {
        None => Some(sub_chars(s, 0, s.len())),
        Some(i) => {
            if i > 0 && s[i - 1] == '\r' {
                Some(sub_chars(s, 0, i - 1))
            } else {
                Some(sub_chars(s, 0, i))
            }
        },
    }
}

// ---------------------------------------------------------------------------
// Words and key/value pairs
// ---------------------------------------------------------------------------

/// The character views of a vector of character vectors.
pub open spec fn views(v: Seq<Vec<char>>) -> Seq<Seq<char>> {
    v.map_values(|w: Vec<char>| w@)
}

/// The character views of a vector of pairs of character vectors.
pub open spec fn pair_views(v: Seq<(Vec<char>, Vec<char>)>) -> Seq<(Seq<char>, Seq<char>)> {
    v.map_values(|p: (Vec<char>, Vec<char>)| (p.0@, p.1@))
}

/// `c` is a whitespace character.
pub fn is_whitespace_exec(c: char) -> (b: bool)
    ensures
        b == is_whitespace(c),
{
    ('\t' <= c && c <= '\r') || c == ' ' || c == '\u{85}' || c == '\u{a0}' || c == '\u{1680}'
        || ('\u{2000}' <= c && c <= '\u{200a}') || c == '\u{2028}' || c == '\u{2029}'
        || c == '\u{202f}' || c == '\u{205f}' || c == '\u{3000}'
}

/// The whitespace-separated words of `s`.
pub fn words_exec(s: &Vec<char>) -> (r: Vec<Vec<char>>)
    ensures
        views(r@) == words(s@),
{
    let mut done: Vec<Vec<char>> = Vec::new();
    let mut cur: Vec<char> = Vec::new();
    let mut in_word = false;
    let mut i: usize = 0;
    assert(s@.take(0) =~= Seq::<char>::empty());
    assert(views(done@) =~= Seq::<Seq<char>>::empty());
    while i < s.len()
        invariant
            i <= s@.len(),
            in_word == (i > 0 && !is_whitespace(s@[i - 1])),
            in_word ==> words(s@.take(i as int)) == views(done@).push(cur@),
            !in_word ==> words(s@.take(i as int)) == views(done@),
        decreases s@.len() - i,
    {
        let c = s[i];
        let ghost prev = s@.take(i as int);
        assert(s@.take(i + 1).drop_last() == prev);
        assert(s@.take(i + 1).last() == c);
        if is_whitespace_exec(c) {
            if in_word {
                let ghost before = done@;
                let w = cur;
                cur = Vec::new();
                done.push(w);
                assert(views(done@) =~= views(before).push(w@));
            }
            in_word = false;
        } else if in_word {
            assert(s@.take(i + 1)[i - 1] == s@[i - 1]);
            cur.push(c);
            in_word = true;
        } else {
            cur = Vec::new();
            cur.push(c);
            assert(cur@ =~= seq![c]);
            in_word = true;
        }
        i = i + 1;
    }
    if in_word {
        let ghost before = done@;
        done.push(cur);
        assert(views(done@) =~= views(before).push(cur@));
    }
    assert(s@.take(s@.len() as int) == s@);
    done
}

/// The `key=value` pairs among `pieces`, split at each piece's first `'='`, in order;
/// pieces without `'='` are passed over.
pub open spec fn key_values(pieces: Seq<Seq<char>>) -> Seq<(Seq<char>, Seq<char>)>
    decreases pieces.len(),
{
    if pieces.len() == 0 {
        Seq::empty()
    } else {
        let init = key_values(pieces.drop_last());
        match split_once_char(pieces.last(), '=') {
            Some(kv) => init.push(kv),
            None => init,
        }
    }
}

/// The `key=value` pairs of `s` split at `sep` (`s.split(sep).filter_map(|p| p.split_once('='))`).
pub fn key_values_exec(s: &Vec<char>, sep: char) -> (r: Vec<(Vec<char>, Vec<char>)>)
    ensures
        pair_views(r@) == key_values(split_char(s@, sep)),
{
    let mut pairs: Vec<(Vec<char>, Vec<char>)> = Vec::new();
    let mut cur: Vec<char> = Vec::new();
    let ghost mut done: Seq<Seq<char>> = Seq::empty();
    let mut i: usize = 0;
    assert(s@.take(0) =~= Seq::<char>::empty());
    assert(pair_views(pairs@) =~= Seq::<(Seq<char>, Seq<char>)>::empty());
    assert(cur@ =~= Seq::<char>::empty());
    while i < s.len()
        invariant
            i <= s@.len(),
            split_char(s@.take(i as int), sep) == done.push(cur@),
            pair_views(pairs@) == key_values(done),
        decreases s@.len() - i,
    {
        let c = s[i];
        assert(s@.take(i + 1).drop_last() == s@.take(i as int));
        assert(s@.take(i + 1).last() == c);
        if c == sep {
            let ghost piece = cur@;
            match split_once_char_exec(&cur, '=') {
                Some(kv) => {
                    let ghost before = pairs@;
                    pairs.push(kv);
                    assert(pair_views(pairs@) =~= pair_views(before).push((kv.0@, kv.1@)));
                },
                None => {},
            }
            proof {
                assert(done.push(piece).drop_last() =~= done);
                done = done.push(piece);
            }
            cur = Vec::new();
            assert(cur@ =~= Seq::<char>::empty());
        } else {
            cur.push(c);
        }
        i = i + 1;
    }
    assert(s@.take(s@.len() as int) == s@);
    let ghost piece = cur@;
    match split_once_char_exec(&cur, '=') {
        Some(kv) => {
            let ghost before = pairs@;
            pairs.push(kv);
            assert(pair_views(pairs@) =~= pair_views(before).push((kv.0@, kv.1@)));
        },
        None => {},
    }
    assert(done.push(piece).drop_last() =~= done);
    pairs
}

// ---------------------------------------------------------------------------
// Case conversion and numbers
// ---------------------------------------------------------------------------

/// `c` is an ASCII capital letter.
pub open spec fn is_ascii_upper(c: char) -> bool {
    'A' <= c <= 'Z'
}

/// The lower-case form of an ASCII capital letter.
pub open spec fn ascii_lower(c: char) -> char {
    (c as u32 + 32) as char
}

/// `s` in snake case: each ASCII capital letter becomes its lower-case letter, with an
/// `'_'` before it unless it is the first character.
pub open spec fn snake_case(s: Seq<char>) -> Seq<char>
    decreases s.len(),
{
    if s.len() == 0 {
        Seq::empty()
    } else {
        let init = snake_case(s.drop_last());
        let c = s.last();
        if is_ascii_upper(c) {
            if s.len() > 1 {
                init.push('_').push(ascii_lower(c))
            } else {
                init.push(ascii_lower(c))
            }
        } else {
            init.push(c)
        }
    }
}

/// Converts `s` to snake case.
pub fn to_snake_case(s: &str) -> (r: String)
    ensures
        r@ == snake_case(s@),
{
    let chars = chars_of(s);
    let mut out = String::new();
    let mut i: usize = 0;
    assert(chars@.take(0) =~= Seq::<char>::empty());
    while i < chars.len()
        invariant
            chars@ == s@,
            i <= chars@.len(),
            out@ == snake_case(chars@.take(i as int)),
        decreases chars@.len() - i,
    {
        let ch = chars[i];
        assert(chars@.take(i + 1).drop_last() == chars@.take(i as int));
        assert(chars@.take(i + 1).last() == ch);
        if 'A' <= ch && ch <= 'Z' {
            if i > 0 {
                push_char(&mut out, '_');
            }
            let b: u8 = ch as u8;
            let lower = (b + 32) as char;
            assert(lower == ascii_lower(ch));
            push_char(&mut out, lower);
        } else {
            push_char(&mut out, ch);
        }
        i = i + 1;
    }
    assert(chars@.take(chars@.len() as int) == chars@);
    out
}

/// Snake case has no ASCII capital letters left in it.
pub proof fn snake_case_has_no_capitals(s: Seq<char>)
    ensures
        forall|i: int| 0 <= i < snake_case(s).len() ==> !is_ascii_upper(#[trigger] snake_case(s)[i]),
    decreases s.len(),
{
    if s.len() > 0 {
        let init = s.drop_last();
        snake_case_has_no_capitals(init);
        let c = s.last();
        let r = snake_case(s);
        if is_ascii_upper(c) {
            let l = ascii_lower(c);
            assert(l as u32 == c as u32 + 32);
            assert(!is_ascii_upper(l));
        }
        assert forall|i: int| 0 <= i < r.len() implies !is_ascii_upper(#[trigger] r[i]) by {
            if i < snake_case(init).len() {
                assert(r[i] == snake_case(init)[i]);
            }
        }
    }
}

/// Text without ASCII capital letters is its own snake case.
pub proof fn snake_case_keeps_lower_text(s: Seq<char>)
    requires
        forall|i: int| 0 <= i < s.len() ==> !is_ascii_upper(#[trigger] s[i]),
    ensures
        snake_case(s) == s,
    decreases s.len(),
{
    if s.len() > 0 {
        snake_case_keeps_lower_text(s.drop_last());
        assert(s.drop_last().push(s.last()) == s);
    }
}

/// Converting to snake case twice gives what converting once gives.
pub proof fn snake_case_idempotent(s: Seq<char>)
    ensures
        snake_case(snake_case(s)) == snake_case(s),
{
    snake_case_has_no_capitals(s);
    snake_case_keeps_lower_text(snake_case(s));
}

/// The decimal digit for `d`.
pub open spec fn decimal_digit(d: nat) -> char {
    (d + '0' as u32) as char
}

/// The decimal text of `n`, as `Display` writes an unsigned integer.
pub open spec fn decimal(n: nat) -> Seq<char>
    decreases n,
{
    if n < 10 {
        seq![decimal_digit(n)]
    } else {
        decimal(n / 10).push(decimal_digit(n % 10))
    }
}

/// The decimal text of `n`.
pub fn decimal_string(n: u128) -> (r: String)
    ensures
        r@ == decimal(n as nat),
    decreases n,
{
    if n < 10 {
        let mut r = String::new();
        let d: u8 = n as u8;
        push_char(&mut r, (d + 48) as char);
        r
    } else {
        let mut r = decimal_string(n / 10);
        let d: u8 = (n % 10) as u8;
        push_char(&mut r, (d + 48) as char);
        r
    }
}

/// The lower-case hexadecimal digit for `d`.
pub open spec fn hex_digit(d: nat) -> char {
    if d < 10 {
        (d + '0' as u32) as char
    } else {
        (d - 10 + 'a' as u32) as char
    }
}

/// The last `k` lower-case hexadecimal digits of `n`, leading zeros included.
pub open spec fn hex_digits(n: nat, k: nat) -> Seq<char>
    decreases k,
{
    if k == 0 {
        Seq::empty()
    } else {
        hex_digits(n / 16, (k - 1) as nat).push(hex_digit(n % 16))
    }
}

/// The last `k` hexadecimal digits of `n`.
pub fn hex_digits_exec(n: u128, k: usize) -> (r: Vec<char>)
    ensures
        r@ == hex_digits(n as nat, k as nat),
    decreases k,
{
    if k == 0 {
        Vec::new()
    } else {
        let mut r = hex_digits_exec(n / 16, k - 1);
        let d: u8 = (n % 16) as u8;
        let c = if d < 10 { (d + 48) as char } else { (d - 10 + 97) as char };
        r.push(c);
        r
    }
}

} // verus!
