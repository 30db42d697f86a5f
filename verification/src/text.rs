//! Character-level text helpers shared by the whole crate.
//!
//! All text the core manipulates is kept as `Vec<char>`, one entry per
//! Unicode scalar value, so every position in a contract is a character
//! index and byte-level encoding questions never arise inside the engine.

use vstd::prelude::*;

verus! {

/// Convert a string slice into the character vector the engine works on.
pub fn to_chars(s: &str) -> (r: Vec<char>)
    ensures
        r@ == s@,
{
    let n: usize = s.unicode_len();
    let mut r: Vec<char> = Vec::new();
    let mut i: usize = 0;
    while i < n
        invariant
            i <= n,
            n == s@.len(),
            r@ == s@.subrange(0, i as int),
        decreases n - i,
    {
        r.push(s.get_char(i));
        assert(r@ == s@.subrange(0, i + 1 as int));
        i = i + 1;
    }
    assert(s@.subrange(0, n as int) == s@);
    r
}

/// Character-wise equality of two string slices.
pub fn str_eq(a: &str, b: &str) -> (r: bool)
    ensures
        r == (a@ == b@),
{
    let na: usize = a.unicode_len();
    let nb: usize = b.unicode_len();
    if na != nb {
        return false;
    }
    let mut i: usize = 0;
    while i < na
        invariant
            i <= na,
            na == a@.len(),
            na == b@.len(),
            forall|j: int| 0 <= j < i ==> a@[j] == b@[j],
        decreases na - i,
    {
        if a.get_char(i) != b.get_char(i) {
            return false;
        }
        i = i + 1;
    }
    proof {
        assert(a@ =~= b@);
    }
    true
}

} // verus!

verus! {

// ---------------------------------------------------------------------
// Splitting text into lines and joining lines back into text.
// ---------------------------------------------------------------------

/// Index of the first newline in `t`, or `t.len()` when there is none.
pub open spec fn find_nl(t: Seq<char>) -> int
    decreases t.len(),
{
    if t.len() == 0 {
        0
    } else if t[0] == '\n' {
        0
    } else {
        1 + find_nl(t.drop_first())
    }
}

pub proof fn lemma_find_nl(t: Seq<char>)
    ensures
        0 <= find_nl(t) <= t.len(),
        find_nl(t) < t.len() ==> t[find_nl(t)] == '\n',
        forall|j: int| 0 <= j < find_nl(t) ==> t[j] != '\n',
    decreases t.len(),
{
    if t.len() > 0 && t[0] != '\n' {
        lemma_find_nl(t.drop_first());
        assert forall|j: int| 0 <= j < find_nl(t) implies t[j] != '\n' by {
            if j > 0 {
                assert(t.drop_first()[j - 1] != '\n');
            }
        }
    }
}

/// `find_nl` named by its characterisation: `k` is the first newline.
pub proof fn lemma_find_nl_at(t: Seq<char>, k: int)
    requires
        0 <= k < t.len(),
        t[k] == '\n',
        forall|j: int| 0 <= j < k ==> t[j] != '\n',
    ensures
        find_nl(t) == k,
    decreases t.len(),
{
    if k > 0 {
        assert(forall|j: int| 0 <= j < k - 1 ==> t.drop_first()[j] != '\n');
        lemma_find_nl_at(t.drop_first(), k - 1);
    }
}

/// No newline at all: `find_nl` is the length.
pub proof fn lemma_find_nl_none(t: Seq<char>)
    requires
        forall|j: int| 0 <= j < t.len() ==> t[j] != '\n',
    ensures
        find_nl(t) == t.len(),
    decreases t.len(),
{
    if t.len() > 0 {
        lemma_find_nl_none(t.drop_first());
    }
}

/// Split `t` at every newline.  The result has one part per segment and is
/// never empty; newlines themselves are not kept.
pub open spec fn split_text(t: Seq<char>) -> Seq<Seq<char>>
    decreases t.len(),
{
    let k = find_nl(t);
    if k == t.len() {
        seq![t]
    } else if 0 <= k < t.len() {
        seq![t.subrange(0, k)] + split_text(t.subrange(k + 1, t.len() as int))
    } else {
        seq![t]
    }
}

/// Join parts with single newlines; the inverse of [`split_text`].
pub open spec fn join_texts(ts: Seq<Seq<char>>) -> Seq<char>
    decreases ts.len(),
{
    if ts.len() == 0 {
        Seq::empty()
    } else if ts.len() == 1 {
        ts[0]
    } else {
        ts[0] + seq!['\n'] + join_texts(ts.drop_first())
    }
}

pub proof fn lemma_split_text_len(t: Seq<char>)
    ensures
        split_text(t).len() >= 1,
        forall|i: int, j: int|
            0 <= i < split_text(t).len() && 0 <= j < split_text(t)[i].len()
                ==> #[trigger] split_text(t)[i][j] != '\n',
    decreases t.len(),
{
    lemma_find_nl(t);
    let k = find_nl(t);
    if k == t.len() {
        assert(split_text(t) == seq![t]);
    } else {
        lemma_split_text_len(t.subrange(k + 1, t.len() as int));
    }
}

/// Joining what splitting produced gives the text back.
pub proof fn lemma_join_split(t: Seq<char>)
    ensures
        join_texts(split_text(t)) == t,
    decreases t.len(),
{
    lemma_find_nl(t);
    let k = find_nl(t);
    if k == t.len() {
        assert(join_texts(split_text(t)) == t);
    } else {
        let rest = t.subrange(k + 1, t.len() as int);
        lemma_join_split(rest);
        lemma_split_text_len(rest);
        let parts = seq![t.subrange(0, k)] + split_text(rest);
        assert(split_text(t) == parts);
        assert(parts.drop_first() =~= split_text(rest));
        assert(join_texts(parts) == t.subrange(0, k) + seq!['\n'] + rest);
        assert(t.subrange(0, k) + seq!['\n'] + rest =~= t);
    }
}

/// How `join_texts` grows when one more part is taken.
pub proof fn lemma_join_take_step(ts: Seq<Seq<char>>, k: int)
    requires
        1 <= k < ts.len(),
    ensures
        join_texts(ts.take(k + 1)) == join_texts(ts.take(k)) + seq!['\n'] + ts[k],
    decreases k,
{
    if k == 1 {
        assert(ts.take(2).drop_first() =~= seq![ts[1]]);
        assert(ts.take(1) =~= seq![ts[0]]);
        assert(ts.take(2)[0] == ts[0]);
        assert(join_texts(seq![ts[1]]) == ts[1]);
        assert(join_texts(ts.take(2)) == ts[0] + seq!['\n'] + ts[1]);
        assert(join_texts(ts.take(1)) == ts[0]);
    } else {
        lemma_join_take_step(ts.drop_first(), k - 1);
        assert(ts.take(k + 1).drop_first() =~= ts.drop_first().take(k));
        assert(ts.take(k).drop_first() =~= ts.drop_first().take(k - 1));
        assert(join_texts(ts.take(k + 1)) == ts[0] + seq!['\n'] + join_texts(
            ts.drop_first().take(k),
        ));
        assert(join_texts(ts.take(k)) == ts[0] + seq!['\n'] + join_texts(
            ts.drop_first().take(k - 1),
        ));
        assert(ts.drop_first()[k - 1] == ts[k]);
        assert(ts[0] + seq!['\n'] + (join_texts(ts.drop_first().take(k - 1)) + seq!['\n'] + ts[k])
            =~= (ts[0] + seq!['\n'] + join_texts(ts.drop_first().take(k - 1))) + seq!['\n']
            + ts[k]);
    }
}

/// Splitting the text a buffer was loaded from: a trailing newline does
/// not open one more (empty) line, and empty text gives one empty line.
pub open spec fn load_parts(t: Seq<char>) -> Seq<Seq<char>> {
    if t.len() > 0 && t[t.len() - 1] == '\n' {
        split_text(t.take(t.len() - 1))
    } else {
        split_text(t)
    }
}

/// A single-line splice: `ins` dropped into `l` at position `x`.
pub open spec fn splice_line(l: Seq<char>, x: int, ins: Seq<char>) -> Seq<char> {
    l.take(x) + ins + l.skip(x)
}

// ---------------------------------------------------------------------
// Executable splitting and joining.
// ---------------------------------------------------------------------

/// The line texts a vector of parts stands for.
pub open spec fn texts_of(v: Seq<Vec<char>>) -> Seq<Seq<char>> {
    v.map(|i: int, p: Vec<char>| p@)
}

/// Copy a character vector.
pub fn clone_chars(v: &Vec<char>) -> (r: Vec<char>)
    ensures
        r@ == v@,
{
    let r = v.clone();
    proof {
        assert(r@ =~= v@);
    }
    r
}

/// Split `t` at every newline, dropping the newlines.
pub fn split_chars(t: &Vec<char>) -> (parts: Vec<Vec<char>>)
    ensures
        texts_of(parts@) == split_text(t@),
        parts@.len() >= 1,
{
    let n = t.len();
    let mut parts: Vec<Vec<char>> = Vec::new();
    let mut cur: Vec<char> = Vec::new();
    let mut start: usize = 0;
    let mut i: usize = 0;
    proof {
        assert(t@.skip(0) =~= t@);
        assert(texts_of(parts@) =~= Seq::<Seq<char>>::empty());
        assert(texts_of(parts@) + split_text(t@) =~= split_text(t@));
    }
    while i < n
        invariant
            0 <= start <= i <= n,
            n == t@.len(),
            cur@ == t@.subrange(start as int, i as int),
            forall|j: int| start <= j < i ==> t@[j] != '\n',
            split_text(t@) == texts_of(parts@) + split_text(t@.skip(start as int)),
        decreases n - i,
    {
        let c = t[i];
        if c == '\n' {
            proof {
                let rem = t@.skip(start as int);
                assert(rem[i - start as int] == '\n');
                assert(forall|j: int| 0 <= j < i - start as int ==> rem[j] != '\n');
                lemma_find_nl_at(rem, i - start as int);
                assert(rem.subrange(0, i - start as int) =~= cur@);
                assert(rem.subrange(i - start as int + 1, rem.len() as int) =~= t@.skip(i + 1));
                assert(split_text(rem) == seq![cur@] + split_text(t@.skip(i + 1)));
                assert(texts_of(parts@.push(cur)) =~= texts_of(parts@).push(cur@));
                assert(texts_of(parts@).push(cur@) + split_text(t@.skip(i + 1)) =~= texts_of(
                    parts@,
                ) + (seq![cur@] + split_text(t@.skip(i + 1))));
            }
            parts.push(cur);
            cur = Vec::new();
            start = i + 1;
            proof {
                assert(cur@ =~= t@.subrange(start as int, i + 1 as int));
            }
        } else {
            cur.push(c);
            proof {
                assert(cur@ =~= t@.subrange(start as int, i + 1 as int));
            }
        }
        i = i + 1;
    }
    proof {
        let rem = t@.skip(start as int);
        lemma_find_nl_none(rem);
        assert(split_text(rem) == seq![rem]);
        assert(rem =~= cur@);
        assert(texts_of(parts@.push(cur)) =~= texts_of(parts@).push(cur@));
        assert(texts_of(parts@) + seq![cur@] =~= texts_of(parts@).push(cur@));
    }
    parts.push(cur);
    parts
}

} // verus!

verus! {

// ---------------------------------------------------------------------
// Splitting on an arbitrary separator, for `+`-separated token lists.
// ---------------------------------------------------------------------

/// Index of the first `sep` in `t`, or `t.len()` when there is none.
pub open spec fn find_ch(t: Seq<char>, sep: char) -> int
    decreases t.len(),
{
    if t.len() == 0 {
        0
    } else if t[0] == sep {
        0
    } else {
        1 + find_ch(t.drop_first(), sep)
    }
}

pub proof fn lemma_find_ch(t: Seq<char>, sep: char)
    ensures
        0 <= find_ch(t, sep) <= t.len(),
        find_ch(t, sep) < t.len() ==> t[find_ch(t, sep)] == sep,
        forall|j: int| 0 <= j < find_ch(t, sep) ==> t[j] != sep,
    decreases t.len(),
{
    if t.len() > 0 && t[0] != sep {
        lemma_find_ch(t.drop_first(), sep);
        assert forall|j: int| 0 <= j < find_ch(t, sep) implies t[j] != sep by {
            if j > 0 {
                assert(t.drop_first()[j - 1] != sep);
            }
        }
    }
}

pub proof fn lemma_find_ch_at(t: Seq<char>, sep: char, k: int)
    requires
        0 <= k < t.len(),
        t[k] == sep,
        forall|j: int| 0 <= j < k ==> t[j] != sep,
    ensures
        find_ch(t, sep) == k,
    decreases t.len(),
{
    if k > 0 {
        assert(forall|j: int| 0 <= j < k - 1 ==> t.drop_first()[j] != sep);
        lemma_find_ch_at(t.drop_first(), sep, k - 1);
    }
}

pub proof fn lemma_find_ch_none(t: Seq<char>, sep: char)
    requires
        forall|j: int| 0 <= j < t.len() ==> t[j] != sep,
    ensures
        find_ch(t, sep) == t.len(),
    decreases t.len(),
{
    if t.len() > 0 {
        lemma_find_ch_none(t.drop_first(), sep);
    }
}

/// Split `t` at every `sep`, dropping the separators; never empty.
pub open spec fn split_on(t: Seq<char>, sep: char) -> Seq<Seq<char>>
    decreases t.len(),
{
    let k = find_ch(t, sep);
    if k == t.len() {
        seq![t]
    } else if 0 <= k < t.len() {
        seq![t.subrange(0, k)] + split_on(t.subrange(k + 1, t.len() as int), sep)
    } else {
        seq![t]
    }
}

/// Split `t` at every `sep`, dropping the separators.
pub fn split_chars_on(t: &Vec<char>, sep: char) -> (parts: Vec<Vec<char>>)
    ensures
        texts_of(parts@) == split_on(t@, sep),
        parts@.len() >= 1,
{
    let n = t.len();
    let mut parts: Vec<Vec<char>> = Vec::new();
    let mut cur: Vec<char> = Vec::new();
    let mut start: usize = 0;
    let mut i: usize = 0;
    proof {
        assert(t@.skip(0) =~= t@);
        assert(texts_of(parts@) =~= Seq::<Seq<char>>::empty());
        assert(texts_of(parts@) + split_on(t@, sep) =~= split_on(t@, sep));
    }
    while i < n
        invariant
            0 <= start <= i <= n,
            n == t@.len(),
            cur@ == t@.subrange(start as int, i as int),
            forall|j: int| start <= j < i ==> t@[j] != sep,
            split_on(t@, sep) == texts_of(parts@) + split_on(t@.skip(start as int), sep),
        decreases n - i,
    {
        let c = t[i];
        if c == sep {
            proof {
                let rem = t@.skip(start as int);
                assert(rem[i - start as int] == sep);
                assert(forall|j: int| 0 <= j < i - start as int ==> rem[j] != sep);
                lemma_find_ch_at(rem, sep, i - start as int);
                assert(rem.subrange(0, i - start as int) =~= cur@);
                assert(rem.subrange(i - start as int + 1, rem.len() as int) =~= t@.skip(i + 1));
                assert(split_on(rem, sep) == seq![cur@] + split_on(t@.skip(i + 1), sep));
                assert(texts_of(parts@.push(cur)) =~= texts_of(parts@).push(cur@));
                assert(texts_of(parts@).push(cur@) + split_on(t@.skip(i + 1), sep) =~= texts_of(
                    parts@,
                ) + (seq![cur@] + split_on(t@.skip(i + 1), sep)));
            }
            parts.push(cur);
            cur = Vec::new();
            start = i + 1;
            proof {
                assert(cur@ =~= t@.subrange(start as int, i + 1 as int));
            }
        } else {
            cur.push(c);
            proof {
                assert(cur@ =~= t@.subrange(start as int, i + 1 as int));
            }
        }
        i = i + 1;
    }
    proof {
        let rem = t@.skip(start as int);
        lemma_find_ch_none(rem, sep);
        assert(split_on(rem, sep) == seq![rem]);
        assert(rem =~= cur@);
        assert(texts_of(parts@.push(cur)) =~= texts_of(parts@).push(cur@));
        assert(texts_of(parts@) + seq![cur@] =~= texts_of(parts@).push(cur@));
    }
    parts.push(cur);
    parts
}

/// Character-wise equality of a character vector and a string slice.
pub fn chars_eq_str(v: &Vec<char>, s: &str) -> (r: bool)
    ensures
        r == (v@ == s@),
{
    let n: usize = s.unicode_len();
    if v.len() != n {
        return false;
    }
    let mut i: usize = 0;
    while i < n
        invariant
            i <= n,
            n == s@.len(),
            n == v@.len(),
            forall|j: int| 0 <= j < i ==> v@[j] == s@[j],
        decreases n - i,
    {
        if v[i] != s.get_char(i) {
            return false;
        }
        i = i + 1;
    }
    proof {
        assert(v@ =~= s@);
    }
    true
}

} // verus!

verus! {

/// The decimal digit character for `0 <= d <= 9`.
pub open spec fn digit_char(d: int) -> char {
    if d == 0 { '0' } else if d == 1 { '1' } else if d == 2 { '2' } else if d == 3 { '3' }
    else if d == 4 { '4' } else if d == 5 { '5' } else if d == 6 { '6' } else if d == 7 { '7' }
    else if d == 8 { '8' } else { '9' }
}

/// The decimal spelling of a non-negative number.
pub open spec fn dec_digits(n: int) -> Seq<char>
    decreases n,
{
    if n < 10 {
        seq![digit_char(n)]
    } else {
        dec_digits(n / 10).push(digit_char(n % 10))
    }
}

/// Spell a number in decimal.
pub fn usize_to_chars(n: usize) -> (r: Vec<char>)
    ensures
        r@ == dec_digits(n as int),
    decreases n,
{
    if n < 10 {
        let c = digit_char_of(n);
        let mut r: Vec<char> = Vec::new();
        r.push(c);
        proof {
            assert(r@ =~= seq![digit_char(n as int)]);
        }
        r
    } else {
        let mut r = usize_to_chars(n / 10);
        r.push(digit_char_of(n % 10));
        r
    }
}

/// Spell a non-negative 64-bit number in decimal.
pub fn i64_to_chars(n: i64) -> (r: Vec<char>)
    requires
        n >= 0,
    ensures
        r@ == dec_digits(n as int),
    decreases n,
{
    if n < 10 {
        let c = digit_char_of((n as usize) % 10);
        let mut r: Vec<char> = Vec::new();
        r.push(c);
        proof {
            assert(r@ =~= seq![digit_char(n as int)]);
        }
        r
    } else {
        let mut r = i64_to_chars(n / 10);
        r.push(digit_char_of((n % 10) as usize));
        r
    }
}

/// The decimal digit character, executable side.
pub fn digit_char_of(d: usize) -> (c: char)
    requires
        d <= 9,
    ensures
        c == digit_char(d as int),
{
    if d == 0 { '0' } else if d == 1 { '1' } else if d == 2 { '2' } else if d == 3 { '3' }
    else if d == 4 { '4' } else if d == 5 { '5' } else if d == 6 { '6' } else if d == 7 { '7' }
    else if d == 8 { '8' } else { '9' }
}

/// Whether `a` begins with `prefix`.
pub fn str_starts_with(a: &str, prefix: &str) -> (r: bool)
    ensures
        r == (a@.len() >= prefix@.len() && a@.subrange(0, prefix@.len() as int) == prefix@),
{
    let np: usize = prefix.unicode_len();
    let na: usize = a.unicode_len();
    if na < np {
        return false;
    }
    let mut i: usize = 0;
    while i < np
        invariant
            i <= np,
            np == prefix@.len(),
            na == a@.len(),
            np <= na,
            forall|j: int| 0 <= j < i ==> a@[j] == prefix@[j],
        decreases np - i,
    {
        if a.get_char(i) != prefix.get_char(i) {
            proof {
                assert(a@.subrange(0, np as int)[i as int] != prefix@[i as int]);
            }
            return false;
        }
        i = i + 1;
    }
    proof {
        assert(a@.subrange(0, np as int) =~= prefix@);
    }
    true
}

/// Drop `k` characters from the front.
pub fn drop_prefix(v: &Vec<char>, k: usize) -> (r: Vec<char>)
    requires
        k <= v@.len(),
    ensures
        r@ == v@.skip(k as int),
{
    let mut r = clone_chars(v);
    let tail = r.split_off(k);
    tail
}

/// Append the characters of `b` to `a`.
pub fn push_all(a: &mut Vec<char>, b: &Vec<char>)
    ensures
        final(a)@ == old(a)@ + b@,
{
    a.extend_from_slice(b.as_slice());
    proof {
        assert(a@ =~= old(a)@ + b@);
    }
}

} // verus!

verus! {

/// Blank characters that trimming removes.
pub open spec fn is_blank(c: char) -> bool {
    c == ' ' || c == '\t'
}

/// `t` without leading blanks.
pub open spec fn lstrip(t: Seq<char>) -> Seq<char>
    decreases t.len(),
{
    if t.len() > 0 && is_blank(t[0]) {
        lstrip(t.drop_first())
    } else {
        t
    }
}

/// `t` without trailing blanks.
pub open spec fn rstrip(t: Seq<char>) -> Seq<char>
    decreases t.len(),
{
    if t.len() > 0 && is_blank(t.last()) {
        rstrip(t.drop_last())
    } else {
        t
    }
}

/// `t` without leading or trailing blanks.
pub open spec fn trimmed(t: Seq<char>) -> Seq<char> {
    rstrip(lstrip(t))
}

pub proof fn lemma_lstrip_len(t: Seq<char>)
    ensures
        lstrip(t).len() <= t.len(),
    decreases t.len(),
{
    if t.len() > 0 && is_blank(t[0]) {
        lemma_lstrip_len(t.drop_first());
    }
}

pub proof fn lemma_rstrip_len(t: Seq<char>)
    ensures
        rstrip(t).len() <= t.len(),
    decreases t.len(),
{
    if t.len() > 0 && is_blank(t.last()) {
        lemma_rstrip_len(t.drop_last());
    }
}

/// Trim leading and trailing blanks.
pub fn trim_chars(v: &Vec<char>) -> (r: Vec<char>)
    ensures
        r@ == trimmed(v@),
{
    let ghost t = v@;
    let n = v.len();
    let mut a: usize = 0;
    proof {
        assert(t.skip(0) =~= t);
    }
    while a < n && (v[a] == ' ' || v[a] == '\t')
        invariant
            0 <= a <= n,
            n == t.len(),
            v@ == t,
            lstrip(t) == lstrip(t.skip(a as int)),
        decreases n - a,
    {
        proof {
            assert(t.skip(a as int).drop_first() =~= t.skip(a + 1 as int));
        }
        a = a + 1;
    }
    proof {
        if a < n {
            assert(lstrip(t.skip(a as int)) == t.skip(a as int));
        } else {
            assert(t.skip(a as int).len() == 0);
            assert(lstrip(t.skip(a as int)) == t.skip(a as int));
        }
    }
    let ghost ls = lstrip(t);
    let mut b: usize = n;
    proof {
        assert(ls =~= t.subrange(a as int, n as int));
        assert(ls.take(ls.len() as int) =~= ls);
    }
    while b > a && (v[b - 1] == ' ' || v[b - 1] == '\t')
        invariant
            a <= b <= n,
            n == t.len(),
            v@ == t,
            ls == t.subrange(a as int, n as int),
            rstrip(ls) == rstrip(ls.take(b - a as int)),
        decreases b,
    {
        proof {
            assert(ls.take(b - a as int).last() == t[b - 1 as int]);
            assert(ls.take(b - a as int).drop_last() =~= ls.take(b - 1 - a as int));
        }
        b = b - 1;
    }
    proof {
        if b > a {
            assert(ls.take(b - a as int).last() == t[b - 1 as int]);
            assert(rstrip(ls.take(b - a as int)) == ls.take(b - a as int));
        } else {
            assert(ls.take(0).len() == 0);
            assert(rstrip(ls.take(0)) == ls.take(0));
            assert(ls.take(0) =~= Seq::<char>::empty());
        }
    }
    let mut r: Vec<char> = Vec::new();
    let mut i: usize = a;
    while i < b
        invariant
            a <= i <= b <= n,
            n == t.len(),
            v@ == t,
            r@ == t.subrange(a as int, i as int),
        decreases b - i,
    {
        r.push(v[i]);
        proof {
            assert(r@ =~= t.subrange(a as int, i + 1 as int));
        }
        i = i + 1;
    }
    proof {
        assert(ls.take(b - a as int) =~= t.subrange(a as int, b as int));
        assert(r@ =~= trimmed(t));
    }
    r
}

/// The one-based line number a goto input names: its decimal value, or
/// one when the input is not a plain number, saturating at the machine
/// limit.
pub open spec fn line_number_of(t: Seq<char>) -> int
    decreases t.len(),
{
    if t.len() == 0 {
        1
    } else if !('0' <= t.last() <= '9') {
        1
    } else if exists|j: int| 0 <= j < t.len() && !('0' <= #[trigger] t[j] <= '9') {
        1
    } else {
        dec_value(t)
    }
}

/// The decimal value of a digit string.
pub open spec fn dec_value(t: Seq<char>) -> int
    decreases t.len(),
{
    if t.len() == 0 {
        0
    } else {
        dec_value(t.drop_last()) * 10 + (t.last() as int - '0' as int)
    }
}

/// Parse a goto-line input: the decimal value of an all-digit string,
/// otherwise one; saturating at the machine limit.
pub fn parse_line_number(v: &Vec<char>) -> (r: usize)
    ensures
        r as int == if line_number_of(v@) <= usize::MAX as int {
            line_number_of(v@)
        } else {
            usize::MAX as int
        },
{
    let n = v.len();
    if n == 0 {
        return 1;
    }
    let mut i: usize = 0;
    let mut acc: usize = 0;
    let mut sat: bool = false;
    while i < n
        invariant
            0 <= i <= n,
            n == v@.len(),
            forall|j: int| 0 <= j < i ==> '0' <= #[trigger] v@[j] <= '9',
            !sat ==> acc as int == dec_value(v@.take(i as int)),
            !sat ==> dec_value(v@.take(i as int)) <= usize::MAX,
            sat ==> dec_value(v@.take(i as int)) > usize::MAX,
        decreases n - i,
    {
        let c = v[i];
        if !('0' <= c && c <= '9') {
            return 1;
        }
        let d: usize = (c as u8 - 48) as usize;
        proof {
            assert(v@.take(i + 1 as int).drop_last() =~= v@.take(i as int));
            assert(v@.take(i + 1 as int).last() == v@[i as int]);
            assert(d as int == v@[i as int] as int - '0' as int);
        }
        if !sat {
            match acc.checked_mul(10) {
                Some(m) => match m.checked_add(d) {
                    Some(s2) => {
                        acc = s2;
                    },
                    None => {
                        sat = true;
                    },
                },
                None => {
                    proof {
                        assert(acc * 10 + d as int > usize::MAX) by (nonlinear_arith)
                            requires
                                acc * 10 > usize::MAX,
                                d >= 0,
                        ;
                    }
                    sat = true;
                },
            }
        } else {
            proof {
                lemma_dec_value_monotone(v@.take(i + 1 as int));
            }
        }
        i = i + 1;
    }
    proof {
        assert(v@.take(n as int) =~= v@);
        assert('0' <= v@.last() <= '9');
        assert(!(exists|j: int| 0 <= j < v@.len() && !('0' <= #[trigger] v@[j] <= '9')));
        assert(line_number_of(v@) == dec_value(v@));
    }
    if sat {
        usize::MAX
    } else {
        acc
    }
}

/// Digit strings never lose value as they grow.
pub proof fn lemma_dec_value_monotone(t: Seq<char>)
    requires
        t.len() >= 1,
        forall|j: int| 0 <= j < t.len() ==> '0' <= #[trigger] t[j] <= '9',
    ensures
        dec_value(t) >= dec_value(t.drop_last()),
        dec_value(t) >= 0,
    decreases t.len(),
{
    if t.len() > 1 {
        assert(forall|j: int|
            0 <= j < t.drop_last().len() ==> '0' <= #[trigger] t.drop_last()[j] <= '9');
        lemma_dec_value_monotone(t.drop_last());
    }
    assert(dec_value(t.drop_last()) * 10 >= dec_value(t.drop_last())) by (nonlinear_arith)
        requires dec_value(t.drop_last()) >= 0;
}

} // verus!

verus! {

/// ASCII lower-casing of one character; other characters are unchanged.
pub open spec fn lower_char(c: char) -> char {
    if c == 'A' { 'a' } else if c == 'B' { 'b' } else if c == 'C' { 'c' } else if c == 'D' { 'd' }
    else if c == 'E' { 'e' } else if c == 'F' { 'f' } else if c == 'G' { 'g' }
    else if c == 'H' { 'h' } else if c == 'I' { 'i' } else if c == 'J' { 'j' }
    else if c == 'K' { 'k' } else if c == 'L' { 'l' } else if c == 'M' { 'm' }
    else if c == 'N' { 'n' } else if c == 'O' { 'o' } else if c == 'P' { 'p' }
    else if c == 'Q' { 'q' } else if c == 'R' { 'r' } else if c == 'S' { 's' }
    else if c == 'T' { 't' } else if c == 'U' { 'u' } else if c == 'V' { 'v' }
    else if c == 'W' { 'w' } else if c == 'X' { 'x' } else if c == 'Y' { 'y' }
    else if c == 'Z' { 'z' } else { c }
}

/// The exec side of [`lower_char`].
pub fn lower_char_of(c: char) -> (r: char)
    ensures
        r == lower_char(c),
{
    if c == 'A' { 'a' } else if c == 'B' { 'b' } else if c == 'C' { 'c' } else if c == 'D' { 'd' }
    else if c == 'E' { 'e' } else if c == 'F' { 'f' } else if c == 'G' { 'g' }
    else if c == 'H' { 'h' } else if c == 'I' { 'i' } else if c == 'J' { 'j' }
    else if c == 'K' { 'k' } else if c == 'L' { 'l' } else if c == 'M' { 'm' }
    else if c == 'N' { 'n' } else if c == 'O' { 'o' } else if c == 'P' { 'p' }
    else if c == 'Q' { 'q' } else if c == 'R' { 'r' } else if c == 'S' { 's' }
    else if c == 'T' { 't' } else if c == 'U' { 'u' } else if c == 'V' { 'v' }
    else if c == 'W' { 'w' } else if c == 'X' { 'x' } else if c == 'Y' { 'y' }
    else if c == 'Z' { 'z' } else { c }
}

/// A configuration token normalized the way the parsers match it:
/// trimmed of blanks, ASCII letters folded to lower case.
pub open spec fn norm_token(t: Seq<char>) -> Seq<char> {
    trimmed(t).map(|i: int, c: char| lower_char(c))
}

/// Trim and lower-case one token.
pub fn normalize_token(v: &Vec<char>) -> (r: Vec<char>)
    ensures
        r@ == norm_token(v@),
{
    let tr = trim_chars(v);
    let n = tr.len();
    let mut r: Vec<char> = Vec::new();
    let mut i: usize = 0;
    while i < n
        invariant
            0 <= i <= n,
            n == tr@.len(),
            tr@ == trimmed(v@),
            r@.len() == i,
            forall|j: int| 0 <= j < i ==> #[trigger] r@[j] == lower_char(tr@[j]),
        decreases n - i,
    {
        r.push(lower_char_of(tr[i]));
        i = i + 1;
    }
    proof {
        assert(r@ =~= norm_token(v@));
    }
    r
}

} // verus!
