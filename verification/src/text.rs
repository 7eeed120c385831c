//! Character-level text handling: splitting on a separator, joining pieces,
//! and reading a decimal index.
use vstd::prelude::*;

verus! {

/// The pieces of `s` that remain when the current piece began at `start`
/// and the search for the next separator resumes at `i`. Separators are
/// found leftmost first and never overlap.
pub open spec fn split_from(s: Seq<char>, sep: Seq<char>, start: int, i: int) -> Seq<Seq<char>>
    decreases s.len() - i,
{
    if sep.len() == 0 || i < 0 || i + sep.len() > s.len() {
        seq![s.subrange(start, s.len() as int)]
    } else if s.subrange(i, i + sep.len()) == sep {
        seq![s.subrange(start, i)] + split_from(s, sep, i + sep.len(), i + sep.len())
    } else {
        split_from(s, sep, start, i + 1)
    }
}

/// The pieces of `s` between the occurrences of a non-empty separator `sep`,
/// as `str::split` yields them.
pub open spec fn split(s: Seq<char>, sep: Seq<char>) -> Seq<Seq<char>> {
    split_from(s, sep, 0, 0)
}

/// The pieces joined with `sep` between consecutive pieces.
pub open spec fn join(pieces: Seq<Seq<char>>, sep: Seq<char>) -> Seq<char>
    decreases pieces.len(),
{
    if pieces.len() == 0 {
        Seq::empty()
    } else if pieces.len() == 1 {
        pieces[0]
    } else {
        pieces[0] + sep + join(pieces.drop_first(), sep)
    }
}

/// Every piece sequence that `split_from` yields is non-empty.
pub proof fn lemma_split_from_nonempty(s: Seq<char>, sep: Seq<char>, start: int, i: int)
    ensures
        split_from(s, sep, start, i).len() >= 1,
    decreases s.len() - i,
{
    if sep.len() == 0 || i < 0 || i + sep.len() > s.len() {
    } else if s.subrange(i, i + sep.len()) == sep {
        lemma_split_from_nonempty(s, sep, i + sep.len(), i + sep.len());
    } else {
        lemma_split_from_nonempty(s, sep, start, i + 1);
    }
}

proof fn lemma_join_split_from(s: Seq<char>, sep: Seq<char>, start: int, i: int)
    requires
        0 <= start <= i <= s.len(),
    ensures
        join(split_from(s, sep, start, i), sep) == s.subrange(start, s.len() as int),
    decreases s.len() - i,
{
    if sep.len() == 0 || i < 0 || i + sep.len() > s.len() {
    } else if s.subrange(i, i + sep.len()) == sep {
        let rest = split_from(s, sep, i + sep.len(), i + sep.len());
        lemma_join_split_from(s, sep, i + sep.len(), i + sep.len());
        lemma_split_from_nonempty(s, sep, i + sep.len(), i + sep.len());
        let all = seq![s.subrange(start, i)] + rest;
        assert(all.drop_first() =~= rest);
        assert(all[0] == s.subrange(start, i));
        assert(s.subrange(start, s.len() as int) =~= s.subrange(start, i) + sep + s.subrange(
            i + sep.len(),
            s.len() as int,
        ));
    } else {
        lemma_join_split_from(s, sep, start, i + 1);
    }
}

/// Splitting on a separator and joining the pieces with the same separator
/// gives back the text it started from.
pub proof fn lemma_join_split(s: Seq<char>, sep: Seq<char>)
    ensures
        join(split(s, sep), sep) == s,
{
    lemma_join_split_from(s, sep, 0, 0);
    assert(s.subrange(0, s.len() as int) =~= s);
}

/// The characters of a string, in order.
pub fn chars_of(s: &str) -> (v: Vec<char>)
    ensures
        v@ == s@,
{
    let mut v: Vec<char> = Vec::new();
    for c in it: s.chars()
        invariant
            v@ == it.seq().take(it.index() as int),
    {
        v.push(c);
    }
    v
}

/// Whether `sep` occurs in `s` at position `i`.
fn occurs_at_exec(s: &Vec<char>, sep: &Vec<char>, i: usize) -> (b: bool)
    requires
        i + sep@.len() <= s@.len(),
    ensures
        b == (s@.subrange(i as int, i + sep@.len()) == sep@),
{
    let m = sep.len();
    let mut j: usize = 0;
    while j < m
        invariant
            m == sep@.len(),
            i + m <= s@.len(),
            i + m <= s.len(),
            j <= m,
            forall|k: int| 0 <= k < j ==> s@[i + k] == sep@[k],
        decreases m - j,
    {
        if s[i + j] != sep[j] {
            assert(s@.subrange(i as int, i + m)[j as int] != sep@[j as int]);
            return false;
        }
        j = j + 1;
    }
    assert(s@.subrange(i as int, i + m) =~= sep@);
    true
}

/// Splits `s` at each occurrence of the non-empty separator `sep`, searching
/// from the left and never reusing a separator's characters.
pub fn split_chars(s: &Vec<char>, sep: &Vec<char>) -> (pieces: Vec<Vec<char>>)
    requires
        sep@.len() > 0,
    ensures
        pieces@.len() == split(s@, sep@).len(),
        forall|k: int| 0 <= k < pieces@.len() ==> #[trigger] pieces@[k]@ == split(s@, sep@)[k],
{
    let n = s.len();
    let m = sep.len();
    let mut pieces: Vec<Vec<char>> = Vec::new();
    let mut cur: Vec<char> = Vec::new();
    let ghost mut done: Seq<Seq<char>> = Seq::empty();
    let ghost mut start: int = 0;
    let mut i: usize = 0;
    while i < n && n - i >= m
        invariant
            n == s@.len(),
            m == sep@.len(),
            m > 0,
            0 <= start <= i <= n,
            cur@ == s@.subrange(start, i as int),
            pieces@.len() == done.len(),
            forall|k: int| 0 <= k < done.len() ==> #[trigger] pieces@[k]@ == done[k],
            done + split_from(s@, sep@, start, i as int) == split(s@, sep@),
        decreases n - i,
    {
        if occurs_at_exec(s, sep, i) {
            proof {
                let rest = split_from(s@, sep@, i + m, i + m);
                assert(split_from(s@, sep@, start, i as int) == seq![s@.subrange(start, i as int)]
                    + rest);
                assert(done + split_from(s@, sep@, start, i as int) =~= done.push(
                    s@.subrange(start, i as int),
                ) + rest);
                done = done.push(s@.subrange(start, i as int));
                start = i + m;
            }
            pieces.push(cur);
            cur = Vec::new();
            i = i + m;
            assert(cur@ =~= s@.subrange(start, i as int));
        } else {
            cur.push(s[i]);
            i = i + 1;
            assert(cur@ =~= s@.subrange(start, i as int));
        }
    }
    proof {
        assert(split_from(s@, sep@, start, i as int) == seq![s@.subrange(start, n as int)]);
    }
    while i < n
        invariant
            n == s@.len(),
            0 <= start <= i <= n,
            cur@ == s@.subrange(start, i as int),
        decreases n - i,
    {
        cur.push(s[i]);
        i = i + 1;
        assert(cur@ =~= s@.subrange(start, i as int));
    }
    pieces.push(cur);
    proof {
        assert(done.push(s@.subrange(start, n as int)) =~= split(s@, sep@));
    }
    pieces
}

/// Joins the pieces, putting `sep` between consecutive ones.
pub fn join_chars(pieces: &Vec<Vec<char>>, sep: &Vec<char>) -> (out: Vec<char>)
    ensures
        out@ == join(pieces@.map_values(|p: Vec<char>| p@), sep@),
{
    let ghost views = pieces@.map_values(|p: Vec<char>| p@);
    let mut out: Vec<char> = Vec::new();
    let n = pieces.len();
    if n == 0 {
        return out;
    }
    // Build from the back: out holds join(views.skip(k)).
    let mut k: usize = n - 1;
    out = pieces[k].clone();
    proof {
        assert(views.skip(k as int) =~= seq![views[k as int]]);
    }
    while k > 0
        invariant
            n == pieces@.len(),
            n >= 1,
            k < n,
            views == pieces@.map_values(|p: Vec<char>| p@),
            out@ == join(views.skip(k as int), sep@),
        decreases k,
    {
        let mut next: Vec<char> = pieces[k - 1].clone();
        let mut j: usize = 0;
        let sl = sep.len();
        while j < sl
            invariant
                sl == sep@.len(),
                j <= sl,
                next@ == pieces@[k - 1]@ + sep@.take(j as int),
            decreases sl - j,
        {
            next.push(sep[j]);
            j = j + 1;
            assert(next@ =~= pieces@[k - 1]@ + sep@.take(j as int));
        }
        let ol = out.len();
        let mut t: usize = 0;
        let ghost prefix = next@;
        while t < ol
            invariant
                ol == out@.len(),
                t <= ol,
                next@ == prefix + out@.take(t as int),
            decreases ol - t,
        {
            next.push(out[t]);
            t = t + 1;
            assert(next@ =~= prefix + out@.take(t as int));
        }
        proof {
            let tail = views.skip(k - 1);
            assert(tail.drop_first() =~= views.skip(k as int));
            assert(tail[0] == pieces@[k - 1]@);
            assert(sep@.take(sep@.len() as int) =~= sep@);
            assert(out@.take(ol as int) =~= out@);
            assert(next@ =~= tail[0] + sep@ + join(tail.drop_first(), sep@));
        }
        out = next;
        k = k - 1;
    }
    proof {
        assert(views.skip(0) =~= views);
    }
    out
}

/// Whether `c` is one of the ASCII digits `0`..=`9`.
pub open spec fn is_digit(c: char) -> bool {
    '0' <= c && c <= '9'
}

/// The number written by the decimal digits `d`.
pub open spec fn digits_value(d: Seq<char>) -> nat
    decreases d.len(),
{
    if d.len() == 0 {
        0
    } else {
        digits_value(d.drop_last()) * 10 + ((d.last() as nat) - ('0' as nat)) as nat
    }
}

/// The digits of a decimal index: the text without one leading `+`, if it has one.
pub open spec fn unsigned_digits(s: Seq<char>) -> Seq<char> {
    if s.len() > 0 && s[0] == '+' {
        s.skip(1)
    } else {
        s
    }
}

/// What `str::parse::<usize>` yields: the value of an optional `+` followed
/// by at least one ASCII digit, when it fits in a `usize`; `None` otherwise.
pub open spec fn parse_usize(s: Seq<char>) -> Option<usize> {
    let d = unsigned_digits(s);
    if d.len() > 0 && (forall|k: int| 0 <= k < d.len() ==> is_digit(#[trigger] d[k]))
        && digits_value(d) <= usize::MAX {
        Some(digits_value(d) as usize)
    } else {
        None
    }
}

proof fn lemma_digits_value_prefix(d: Seq<char>, k: int)
    requires
        0 <= k <= d.len(),
        forall|j: int| 0 <= j < d.len() ==> is_digit(#[trigger] d[j]),
    ensures
        digits_value(d.take(k)) <= digits_value(d),
    decreases d.len() - k,
{
    if k < d.len() {
        lemma_digits_value_prefix(d, k + 1);
        assert(d.take(k + 1).drop_last() =~= d.take(k));
    } else {
        assert(d.take(k) =~= d);
    }
}

/// Reads a decimal index as `str::parse::<usize>` does.
pub fn parse_index(s: &Vec<char>) -> (r: Option<usize>)
    ensures
        r == parse_usize(s@),
{
    let n = s.len();
    let mut first: usize = 0;
    if n > 0 && s[0] == '+' {
        first = 1;
    }
    let ghost d = unsigned_digits(s@);
    assert(d =~= s@.skip(first as int));
    if first >= n {
        return None;
    }
    let mut i: usize = first;
    let mut acc: usize = 0;
    while i < n
        invariant
            n == s@.len(),
            first <= i <= n,
            first < n,
            d == s@.skip(first as int),
            d == unsigned_digits(s@),
            forall|j: int| 0 <= j < i - first ==> is_digit(#[trigger] d[j]),
            acc == digits_value(d.take(i - first)),
        decreases n - i,
    {
        let c = s[i];
        if !('0' <= c && c <= '9') {
            assert(!is_digit(d[i - first]));
            return None;
        }
        let digit: usize = ((c as u32) - ('0' as u32)) as usize;
        proof {
            assert(d[i - first] == c);
            assert(d.take(i - first + 1).drop_last() =~= d.take(i - first));
            assert(d.take(i - first + 1).last() == c);
        }
        match acc.checked_mul(10) {
            None => {
                proof {
                    return_overflow_witness(d, (i - first) as int);
                }
                return None;
            },
            Some(t) => match t.checked_add(digit) {
                None => {
                    proof {
                        return_overflow_witness(d, (i - first) as int);
                    }
                    return None;
                },
                Some(v) => {
                    acc = v;
                },
            },
        }
        i = i + 1;
    }
    assert(d.take(n - first) =~= d);
    Some(acc)
}

/// When a prefix of `d` ending in a digit already exceeds `usize::MAX`, `d`
/// does not parse: either some later character is not a digit, or its value
/// exceeds the bound too.
proof fn return_overflow_witness(d: Seq<char>, k: int)
    requires
        0 <= k < d.len(),
        forall|j: int| 0 <= j <= k ==> is_digit(#[trigger] d[j]),
        digits_value(d.take(k + 1)) > usize::MAX,
    ensures
        !((forall|j: int| 0 <= j < d.len() ==> is_digit(#[trigger] d[j])) && digits_value(d)
            <= usize::MAX),
{
    if forall|j: int| 0 <= j < d.len() ==> is_digit(#[trigger] d[j]) {
        lemma_digits_value_prefix(d, k + 1);
    }
}


/// Whether two character sequences are the same.
pub fn chars_eq(a: &Vec<char>, b: &Vec<char>) -> (r: bool)
    ensures
        r == (a@ == b@),
{
    if a.len() != b.len() {
        return false;
    }
    let mut i: usize = 0;
    while i < a.len()
        invariant
            a@.len() == b@.len(),
            i <= a@.len(),
            forall|j: int| 0 <= j < i ==> a@[j] == b@[j],
        decreases a@.len() - i,
    {
        if a[i] != b[i] {
            return false;
        }
        i = i + 1;
    }
    assert(a@ =~= b@);
    true
}

/// Whether some string of the list reads `s`.
pub open spec fn has_text(v: Seq<String>, s: Seq<char>) -> bool {
    exists|i: int| 0 <= i < v.len() && #[trigger] v[i]@ == s
}

/// Whether some string of the list equals `s`.
pub fn contains_text(v: &Vec<String>, s: &String) -> (r: bool)
    ensures
        r == has_text(v@, s@),
{
    let mut i: usize = 0;
    while i < v.len()
        invariant
            i <= v@.len(),
            forall|j: int| 0 <= j < i ==> #[trigger] v@[j]@ != s@,
        decreases v@.len() - i,
    {
        if v[i] == *s {
            return true;
        }
        i = i + 1;
    }
    false
}

/// A copy of a list of strings.
pub fn copy_texts(v: &Vec<String>) -> (out: Vec<String>)
    ensures
        out@ == v@,
{
    let mut out: Vec<String> = Vec::new();
    let mut i: usize = 0;
    while i < v.len()
        invariant
            i <= v@.len(),
            out@ == v@.take(i as int),
        decreases v@.len() - i,
    {
        out.push(v[i].clone());
        i = i + 1;
        assert(out@ =~= v@.take(i as int));
    }
    assert(v@.take(v@.len() as int) =~= v@);
    out
}


/// A copy of a character sequence.
pub fn copy_chars(v: &Vec<char>) -> (out: Vec<char>)
    ensures
        out@ == v@,
{
    let mut out: Vec<char> = Vec::new();
    let mut i: usize = 0;
    while i < v.len()
        invariant
            i <= v@.len(),
            out@ == v@.take(i as int),
        decreases v@.len() - i,
    {
        out.push(v[i]);
        i = i + 1;
        assert(out@ =~= v@.take(i as int));
    }
    assert(v@.take(v@.len() as int) =~= v@);
    out
}

/// `String::from_iter` over the characters, in order: claims the string
/// holds exactly these characters.
#[verifier::external_body]
pub(crate) fn string_from_chars(chars: &Vec<char>) -> (s: String)
    ensures
        s@ == chars@,
{
    String::from_iter(chars.iter())
}

} // verus!
