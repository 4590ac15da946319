//! Character-level helpers shared by the parsers and formatters.
use vstd::prelude::*;

verus! {

/// Whitespace as `char::is_whitespace` has it: the Unicode White_Space set.
pub open spec fn is_space(c: char) -> bool {
    ('\u{9}' <= c && c <= '\u{d}') || c == ' ' || c == '\u{85}' || c == '\u{a0}' || c == '\u{1680}'
        || ('\u{2000}' <= c && c <= '\u{200a}') || c == '\u{2028}' || c == '\u{2029}' || c
        == '\u{202f}' || c == '\u{205f}' || c == '\u{3000}'
}

pub fn is_space_exec(c: char) -> (r: bool)
    ensures
        r == is_space(c),
{
    ('\u{9}' <= c && c <= '\u{d}') || c == ' ' || c == '\u{85}' || c == '\u{a0}' || c == '\u{1680}'
        || ('\u{2000}' <= c && c <= '\u{200a}') || c == '\u{2028}' || c == '\u{2029}' || c
        == '\u{202f}' || c == '\u{205f}' || c == '\u{3000}'
}

/// The characters of `s`, in order.
pub fn chars_of(s: &str) -> (v: Vec<char>)
    ensures
        v@ == s@,
{
    let n = s.unicode_len();
    let mut v: Vec<char> = Vec::new();
    let mut i: usize = 0;
    while i < n
        invariant
            n == s@.len(),
            i <= n,
            v@ == s@.subrange(0, i as int),
        decreases n - i,
    {
        let c = s.get_char(i);
        v.push(c);
        i = i + 1;
    }
    assert(v@ =~= s@);
    v
}

/// Relies on `String::push`: appends one character.
#[verifier::external_body]
pub fn push_char(s: &mut String, c: char)
    ensures
        final(s)@ == old(s)@.push(c),
{
    s.push(c)
}

/// A string holding exactly the characters of `v`.
pub fn string_of(v: &Vec<char>) -> (s: String)
    ensures
        s@ == v@,
{
    let mut s = String::new();
    let mut i: usize = 0;
    while i < v.len()
        invariant
            i <= v.len(),
            s@ == v@.subrange(0, i as int),
        decreases v.len() - i,
    {
        push_char(&mut s, v[i]);
        i = i + 1;
    }
    assert(s@ =~= v@);
    s
}

/// Appends the characters of `v` to `s`.
pub fn push_chars(s: &mut String, v: &Vec<char>)
    ensures
        final(s)@ == old(s)@ + v@,
{
    let ghost start = s@;
    let mut i: usize = 0;
    while i < v.len()
        invariant
            i <= v.len(),
            s@ == start + v@.subrange(0, i as int),
        decreases v.len() - i,
    {
        push_char(s, v[i]);
        i = i + 1;
        assert(s@ =~= start + v@.subrange(0, i as int));
    }
    assert(v@.subrange(0, v@.len() as int) =~= v@);
}

/// Whether two character sequences are equal.
pub fn chars_eq(a: &Vec<char>, b: &Vec<char>) -> (r: bool)
    ensures
        r == (a@ == b@),
{
    if a.len() != b.len() {
        return false;
    }
    let mut i: usize = 0;
    while i < a.len()
        invariant
            a.len() == b.len(),
            i <= a.len(),
            forall|k: int| 0 <= k < i ==> a@[k] == b@[k],
        decreases a.len() - i,
    {
        if a[i] != b[i] {
            return false;
        }
        i = i + 1;
    }
    assert(a@ =~= b@);
    true
}

/// State after reading the first `i` characters of `s` when cutting at `sep`:
/// the pieces already closed and the piece being read.
pub open spec fn split_scan(s: Seq<char>, sep: char, i: int) -> (Seq<Seq<char>>, Seq<char>)
    decreases i,
{
    if i <= 0 {
        (Seq::empty(), Seq::empty())
    } else {
        let p = split_scan(s, sep, i - 1);
        if s[i - 1] == sep {
            (p.0.push(p.1), Seq::empty())
        } else {
            (p.0, p.1.push(s[i - 1]))
        }
    }
}

/// The pieces of `s` between occurrences of `sep`, empty pieces included.
pub open spec fn split_on(s: Seq<char>, sep: char) -> Seq<Seq<char>> {
    let p = split_scan(s, sep, s.len() as int);
    p.0.push(p.1)
}

/// State after reading the first `i` characters of `s` when cutting at whitespace:
/// the words already closed and the word being read.
pub open spec fn word_scan(s: Seq<char>, i: int) -> (Seq<Seq<char>>, Seq<char>)
    decreases i,
{
    if i <= 0 {
        (Seq::empty(), Seq::empty())
    } else {
        let p = word_scan(s, i - 1);
        if is_space(s[i - 1]) {
            if p.1.len() > 0 {
                (p.0.push(p.1), Seq::empty())
            } else {
                (p.0, Seq::empty())
            }
        } else {
            (p.0, p.1.push(s[i - 1]))
        }
    }
}

/// The maximal runs of non-whitespace characters of `s`, in order.
pub open spec fn words(s: Seq<char>) -> Seq<Seq<char>> {
    let p = word_scan(s, s.len() as int);
    if p.1.len() > 0 {
        p.0.push(p.1)
    } else {
        p.0
    }
}

/// The character sequences held by a vector of character vectors.
pub open spec fn views(v: Seq<Vec<char>>) -> Seq<Seq<char>> {
    v.map_values(|w: Vec<char>| w@)
}

/// Cuts `v` at every `sep`.
pub fn split_on_char(v: &Vec<char>, sep: char) -> (r: Vec<Vec<char>>)
    ensures
        views(r@) == split_on(v@, sep),
{
    let mut done: Vec<Vec<char>> = Vec::new();
    let mut cur: Vec<char> = Vec::new();
    let mut i: usize = 0;
    while i < v.len()
        invariant
            i <= v.len(),
            (views(done@), cur@) == split_scan(v@, sep, i as int),
        decreases v.len() - i,
    {
        let ghost before = views(done@);
        if v[i] == sep {
            let piece = cur;
            cur = Vec::new();
            done.push(piece);
            assert(views(done@) =~= before.push(piece@));
        } else {
            cur.push(v[i]);
        }
        i = i + 1;
    }
    let ghost before = views(done@);
    done.push(cur);
    assert(views(done@) =~= before.push(cur@));
    done
}

/// Cuts `v` into its whitespace-separated words.
pub fn split_words(v: &Vec<char>) -> (r: Vec<Vec<char>>)
    ensures
        views(r@) == words(v@),
{
    let mut done: Vec<Vec<char>> = Vec::new();
    let mut cur: Vec<char> = Vec::new();
    let mut i: usize = 0;
    while i < v.len()
        invariant
            i <= v.len(),
            (views(done@), cur@) == word_scan(v@, i as int),
        decreases v.len() - i,
    {
        let ghost before = views(done@);
        if is_space_exec(v[i]) {
            if cur.len() > 0 {
                let piece = cur;
                cur = Vec::new();
                done.push(piece);
                assert(views(done@) =~= before.push(piece@));
            }
        } else {
            cur.push(v[i]);
        }
        i = i + 1;
    }
    if cur.len() > 0 {
        let ghost before = views(done@);
        done.push(cur);
        assert(views(done@) =~= before.push(cur@));
    }
    done
}

/// Reading a run free of `sep` that starts the text or follows a `sep`
/// leaves the closed pieces as they were and makes the run the open piece.
pub proof fn lemma_split_scan_run(s: Seq<char>, sep: char, j: int, i: int)
    requires
        0 <= j <= i <= s.len(),
        j == 0 || s[j - 1] == sep,
        forall|k: int| j <= k < i ==> s[k] != sep,
    ensures
        split_scan(s, sep, i).0 == split_scan(s, sep, j).0,
        split_scan(s, sep, i).1 == s.subrange(j, i),
    decreases i - j,
{
    if i == j {
        if j > 0 {
            assert(split_scan(s, sep, j).1 =~= s.subrange(j, i));
        } else {
            assert(split_scan(s, sep, 0).1 =~= s.subrange(j, i));
        }
    } else {
        lemma_split_scan_run(s, sep, j, i - 1);
        assert(split_scan(s, sep, i).1 =~= s.subrange(j, i));
    }
}

/// `p + [sep] + q`, with no `sep` in `p` or `q`, cuts into `p` and `q`.
pub proof fn lemma_split_two(p: Seq<char>, sep: char, q: Seq<char>)
    requires
        forall|k: int| 0 <= k < p.len() ==> p[k] != sep,
        forall|k: int| 0 <= k < q.len() ==> q[k] != sep,
    ensures
        split_on(p + seq![sep] + q, sep) == seq![p, q],
{
    let s = p + seq![sep] + q;
    let n = p.len() as int;
    assert forall|k: int| 0 <= k < n implies s[k] != sep by {
        assert(s[k] == p[k]);
    }
    lemma_split_scan_run(s, sep, 0, n);
    assert(s.subrange(0, n) =~= p);
    assert(s[n] == sep);
    assert forall|k: int| n + 1 <= k < s.len() implies s[k] != sep by {
        assert(s[k] == q[k - n - 1]);
    }
    lemma_split_scan_run(s, sep, n + 1, s.len() as int);
    assert(s.subrange(n + 1, s.len() as int) =~= q);
    assert(split_on(s, sep) =~= seq![p, q]);
}

/// Reading a non-whitespace run that starts the text or follows whitespace
/// leaves the closed words as they were and makes the run the open word.
pub proof fn lemma_word_scan_run(s: Seq<char>, j: int, i: int)
    requires
        0 <= j <= i <= s.len(),
        j == 0 || is_space(s[j - 1]),
        forall|k: int| j <= k < i ==> !is_space(s[k]),
    ensures
        word_scan(s, i).0 == word_scan(s, j).0,
        word_scan(s, i).1 == s.subrange(j, i),
    decreases i - j,
{
    if i == j {
        assert(word_scan(s, j).1 =~= s.subrange(j, i));
    } else {
        lemma_word_scan_run(s, j, i - 1);
        assert(word_scan(s, i).1 =~= s.subrange(j, i));
    }
}

/// `p + [' '] + q`, with `p` and `q` non-empty and free of whitespace, has the words `p` and `q`.
pub proof fn lemma_words_two(p: Seq<char>, q: Seq<char>)
    requires
        p.len() > 0,
        q.len() > 0,
        forall|k: int| 0 <= k < p.len() ==> !is_space(p[k]),
        forall|k: int| 0 <= k < q.len() ==> !is_space(q[k]),
    ensures
        words(p + seq![' '] + q) == seq![p, q],
{
    let s = p + seq![' '] + q;
    let n = p.len() as int;
    assert forall|k: int| 0 <= k < n implies !is_space(s[k]) by {
        assert(s[k] == p[k]);
    }
    lemma_word_scan_run(s, 0, n);
    assert(s.subrange(0, n) =~= p);
    assert(s[n] == ' ');
    assert forall|k: int| n + 1 <= k < s.len() implies !is_space(s[k]) by {
        assert(s[k] == q[k - n - 1]);
    }
    lemma_word_scan_run(s, n + 1, s.len() as int);
    assert(s.subrange(n + 1, s.len() as int) =~= q);
    assert(words(s) =~= seq![p, q]);
}

/// `s` without its leading whitespace.
pub open spec fn trim_start(s: Seq<char>) -> Seq<char>
    decreases s.len(),
{
    if s.len() > 0 && is_space(s[0]) {
        trim_start(s.drop_first())
    } else {
        s
    }
}

/// `s` without its trailing whitespace.
pub open spec fn trim_end(s: Seq<char>) -> Seq<char>
    decreases s.len(),
{
    if s.len() > 0 && is_space(s.last()) {
        trim_end(s.drop_last())
    } else {
        s
    }
}

/// `s` without leading and trailing whitespace.
pub open spec fn trim(s: Seq<char>) -> Seq<char> {
    trim_end(trim_start(s))
}

/// The characters of `v` without leading and trailing whitespace.
pub fn trim_chars(v: &Vec<char>) -> (r: Vec<char>)
    ensures
        r@ == trim(v@),
{
    let mut a: usize = 0;
    assert(v@.subrange(0, v@.len() as int) =~= v@);
    while a < v.len() && is_space_exec(v[a])
        invariant
            a <= v.len(),
            trim_start(v@) == trim_start(v@.subrange(a as int, v@.len() as int)),
        decreases v.len() - a,
    {
        assert(v@.subrange(a as int, v@.len() as int).drop_first() =~= v@.subrange(
            a + 1,
            v@.len() as int,
        ));
        a = a + 1;
    }
    let ghost t = v@.subrange(a as int, v@.len() as int);
    assert(trim_start(v@) == t) by {
        if a == 0 {
            assert(v@.subrange(0, v@.len() as int) =~= v@);
        }
    }
    let mut b: usize = v.len();
    while b > a && is_space_exec(v[b - 1])
        invariant
            a <= b <= v.len(),
            t == v@.subrange(a as int, v@.len() as int),
            trim_end(t) == trim_end(v@.subrange(a as int, b as int)),
        decreases b,
    {
        assert(v@.subrange(a as int, b as int).drop_last() =~= v@.subrange(a as int, b - 1));
        b = b - 1;
    }
    slice_chars(v, a, b)
}

/// `w` occurs in `s` starting at `i`.
pub open spec fn occurs_at(s: Seq<char>, w: Seq<char>, i: int) -> bool {
    0 <= i && i + w.len() <= s.len() && s.subrange(i, i + w.len()) == w
}

pub open spec fn contains(s: Seq<char>, w: Seq<char>) -> bool {
    exists|i: int| occurs_at(s, w, i)
}

/// Whether `w` occurs in `s`.
pub fn contains_chars(s: &Vec<char>, w: &Vec<char>) -> (r: bool)
    ensures
        r == contains(s@, w@),
{
    if w.len() > s.len() {
        return false;
    }
    let mut i: usize = 0;
    while i <= s.len() - w.len()
        invariant
            w.len() <= s.len(),
            i <= s.len() - w.len() + 1,
            forall|k: int| 0 <= k < i ==> !occurs_at(s@, w@, k),
        decreases s.len() - i,
    {
        let mut m: usize = 0;
        let mut same = true;
        while m < w.len()
            invariant
                i + w.len() <= s.len(),
                m <= w.len(),
                same ==> forall|q: int| 0 <= q < m ==> s@[i + q] == w@[q],
                !same ==> !occurs_at(s@, w@, i as int),
            decreases w.len() - m,
        {
            if s[i + m] != w[m] {
                same = false;
                assert(s@.subrange(i as int, i + w.len())[m as int] != w@[m as int]);
            }
            m = m + 1;
        }
        if same {
            assert(s@.subrange(i as int, i + w.len()) =~= w@);
            assert(occurs_at(s@, w@, i as int));
            return true;
        }
        if i == s.len() - w.len() {
            assert forall|k: int| !occurs_at(s@, w@, k) by {
                if 0 <= k <= i {
                }
            }
            return false;
        }
        i = i + 1;
    }
    false
}

/// The first index of `c` in `s`.
pub open spec fn index_of_from(s: Seq<char>, c: char, k: int) -> Option<int>
    decreases s.len() - k,
{
    if k < 0 || k >= s.len() {
        None
    } else if s[k] == c {
        Some(k)
    } else {
        index_of_from(s, c, k + 1)
    }
}

/// `index_of_from` finds `c` exactly when `s` holds it.
pub proof fn lemma_index_of_contains(s: Seq<char>, c: char)
    ensures
        (index_of_from(s, c, 0) is Some) == s.contains(c),
{
    lemma_index_of_from_all(s, c, 0);
    if let Some(i) = index_of_from(s, c, 0) {
        assert(s[i] == c);
    }
}

proof fn lemma_index_of_from_all(s: Seq<char>, c: char, k: int)
    requires
        0 <= k,
    ensures
        match index_of_from(s, c, k) {
            Some(i) => k <= i < s.len() && s[i] == c,
            None => forall|i: int| k <= i < s.len() ==> s[i] != c,
        },
    decreases s.len() - k,
{
    if k < s.len() && s[k] != c {
        lemma_index_of_from_all(s, c, k + 1);
    }
}

pub fn index_of(v: &Vec<char>, c: char) -> (r: Option<usize>)
    ensures
        match r {
            Some(i) => index_of_from(v@, c, 0) == Some(i as int) && i < v.len(),
            None => index_of_from(v@, c, 0) is None,
        },
{
    let mut k: usize = 0;
    while k < v.len()
        invariant
            k <= v.len(),
            index_of_from(v@, c, 0) == index_of_from(v@, c, k as int),
        decreases v.len() - k,
    {
        if v[k] == c {
            return Some(k);
        }
        k = k + 1;
    }
    None
}

/// The characters `v[from..to]`.
pub fn slice_chars(v: &Vec<char>, from: usize, to: usize) -> (r: Vec<char>)
    requires
        from <= to <= v.len(),
    ensures
        r@ == v@.subrange(from as int, to as int),
{
    let mut r: Vec<char> = Vec::new();
    let mut k: usize = from;
    while k < to
        invariant
            from <= k <= to,
            to <= v.len(),
            r@ == v@.subrange(from as int, k as int),
        decreases to - k,
    {
        r.push(v[k]);
        k = k + 1;
        assert(r@ =~= v@.subrange(from as int, k as int));
    }
    r
}

/// `c` is the lower-case letter `p`, or its ASCII upper-case form.
pub open spec fn same_letter(c: char, p: char) -> bool {
    c == p || ('a' <= p && p <= 'z' && c as int + 32 == p as int)
}

pub fn same_letter_exec(c: char, p: char) -> (r: bool)
    ensures
        r == same_letter(c, p),
{
    c == p || ('a' <= p && p <= 'z' && (c as u32) + 32 == p as u32)
}

/// `s` spells the lower-case word `w`, in any mix of ASCII case.
pub open spec fn eq_ignore_case(s: Seq<char>, w: Seq<char>) -> bool {
    s.len() == w.len() && forall|i: int| 0 <= i < s.len() ==> same_letter(#[trigger] s[i], w[i])
}

pub fn eq_ignore_case_exec(s: &Vec<char>, w: &str) -> (r: bool)
    ensures
        r == eq_ignore_case(s@, w@),
{
    let wv = chars_of(w);
    if s.len() != wv.len() {
        return false;
    }
    let mut i: usize = 0;
    while i < s.len()
        invariant
            s.len() == wv.len(),
            wv@ == w@,
            i <= s.len(),
            forall|k: int| 0 <= k < i ==> same_letter(#[trigger] s@[k], wv@[k]),
        decreases s.len() - i,
    {
        if !same_letter_exec(s[i], wv[i]) {
            return false;
        }
        i = i + 1;
    }
    true
}

} // verus!
