//! Character-sequence model of the string operations the library needs
//! (`char::is_whitespace`, `str::trim`, `str::lines`, prefix and substring
//! tests), with executable counterparts proved against it.

use vstd::prelude::*;

verus! {

/// The Unicode `White_Space` property, which `char::is_whitespace` tests.
pub open spec fn is_space(c: char) -> bool {
    let v = c as u32;
    ||| 0x9 <= v <= 0xd
    ||| v == 0x20
    ||| v == 0x85
    ||| v == 0xa0
    ||| v == 0x1680
    ||| 0x2000 <= v <= 0x200a
    ||| v == 0x2028
    ||| v == 0x2029
    ||| v == 0x202f
    ||| v == 0x205f
    ||| v == 0x3000
}

/// `s` without its leading whitespace.
pub open spec fn trim_start(s: Seq<char>) -> Seq<char>
    decreases s.len(),
{
    if s.len() > 0 && is_space(s[0]) {
        trim_start(s.drop_first())
    } else {
        s
    }
}

/// `s` without its trailing whitespace.
pub open spec fn trim_end(s: Seq<char>) -> Seq<char>
    decreases s.len(),
{
    if s.len() > 0 && is_space(s.last()) {
        trim_end(s.drop_last())
    } else {
        s
    }
}

/// `s` without leading and trailing whitespace (`str::trim`).
pub open spec fn trim(s: Seq<char>) -> Seq<char> {
    trim_end(trim_start(s))
}

/// Whether `c` is whitespace.
pub fn is_space_char(c: char) -> (b: bool)
    ensures
        b == is_space(c),
{
    let v = c as u32;
    (0x9 <= v && v <= 0xd) || v == 0x20 || v == 0x85 || v == 0xa0 || v == 0x1680 || (0x2000 <= v
        && v <= 0x200a) || v == 0x2028 || v == 0x2029 || v == 0x202f || v == 0x205f || v
        == 0x3000
}

/// The bounds, inside `s[lo..hi]`, of that range with its surrounding
/// whitespace removed.
pub fn trim_bounds(s: &Vec<char>, lo: usize, hi: usize) -> (r: (usize, usize))
    requires
        lo <= hi <= s.len(),
    ensures
        lo <= r.0 <= r.1 <= hi,
        s@.subrange(r.0 as int, r.1 as int) == trim(s@.subrange(lo as int, hi as int)),
{
    let mut i = lo;
    while i < hi && is_space_char(s[i])
        invariant
            lo <= i <= hi <= s.len(),
            trim_start(s@.subrange(lo as int, hi as int)) == trim_start(
                s@.subrange(i as int, hi as int),
            ),
        decreases hi - i,
    {
        assert(s@.subrange(i as int, hi as int).drop_first() =~= s@.subrange(
            i + 1,
            hi as int,
        ));
        i = i + 1;
    }
    let mut j = hi;
    while j > i && is_space_char(s[j - 1])
        invariant
            lo <= i <= j <= hi <= s.len(),
            trim_end(s@.subrange(i as int, hi as int)) == trim_end(s@.subrange(i as int, j as int)),
        decreases j - i,
    {
        assert(s@.subrange(i as int, j as int).drop_last() =~= s@.subrange(
            i as int,
            j - 1,
        ));
        j = j - 1;
    }
    (i, j)
}


/// `s` without one trailing carriage return.
pub open spec fn strip_cr(s: Seq<char>) -> Seq<char> {
    if s.len() > 0 && s.last() == '\r' {
        s.drop_last()
    } else {
        s
    }
}

/// The lines of `s` already ended by a newline, and the text after the last
/// newline.
pub open spec fn lines_acc(s: Seq<char>) -> (Seq<Seq<char>>, Seq<char>)
    decreases s.len(),
{
    if s.len() == 0 {
        (seq![], seq![])
    } else {
        let prev = lines_acc(s.drop_last());
        if s.last() == '\n' {
            (prev.0.push(strip_cr(prev.1)), seq![])
        } else {
            (prev.0, prev.1.push(s.last()))
        }
    }
}

/// The lines of `s` as `str::lines` yields them: split at `\n` or `\r\n`,
/// with no empty line after a final line ending.
pub open spec fn lines(s: Seq<char>) -> Seq<Seq<char>> {
    let acc = lines_acc(s);
    if acc.1.len() == 0 {
        acc.0
    } else {
        acc.0.push(acc.1)
    }
}

/// The text that each index range selects from `s`.
pub open spec fn range_views(s: Seq<char>, r: Seq<(usize, usize)>) -> Seq<Seq<char>> {
    Seq::new(r.len(), |k: int| s.subrange(r[k].0 as int, r[k].1 as int))
}

/// Whether each range of `r` lies inside `s`.
pub open spec fn ranges_within(s: Seq<char>, r: Seq<(usize, usize)>) -> bool {
    forall|k: int| 0 <= k < r.len() ==> r[k].0 <= #[trigger] r[k].1 <= s.len()
}

/// The index ranges of the lines of `s`.
pub fn line_ranges(s: &Vec<char>) -> (r: Vec<(usize, usize)>)
    ensures
        ranges_within(s@, r@),
        range_views(s@, r@) == lines(s@),
{
    let n = s.len();
    let mut r: Vec<(usize, usize)> = Vec::new();
    let mut start: usize = 0;
    let mut i: usize = 0;
    assert(s@.take(0) =~= seq![]);
    assert(range_views(s@, r@) =~= seq![]);
    while i < n
        invariant
            n == s.len(),
            start <= i <= n,
            ranges_within(s@, r@),
            forall|k: int| 0 <= k < r.len() ==> #[trigger] r@[k].1 <= start,
            lines_acc(s@.take(i as int)) == (range_views(s@, r@), s@.subrange(
                start as int,
                i as int,
            )),
        decreases n - i,
    {
        let ghost prev_r = r@;
        assert(s@.take(i + 1).drop_last() =~= s@.take(i as int));
        assert(s@.take(i + 1).last() == s@[i as int]);
        if s[i] == '\n' {
            let end = if i > start && s[i - 1] == '\r' {
                i - 1
            } else {
                i
            };
            assert(s@.subrange(start as int, end as int) =~= strip_cr(
                s@.subrange(start as int, i as int),
            ));
            r.push((start, end));
            assert(range_views(s@, r@) =~= range_views(s@, prev_r).push(
                s@.subrange(start as int, end as int),
            ));
            start = i + 1;
            assert(s@.subrange(start as int, i + 1) =~= seq![]);
        } else {
            assert(s@.subrange(start as int, i + 1) =~= s@.subrange(start as int, i as int).push(
                s@[i as int],
            ));
        }
        i = i + 1;
    }
    assert(s@.take(n as int) =~= s@);
    if start < n {
        let ghost prev_r = r@;
        r.push((start, n));
        assert(range_views(s@, r@) =~= range_views(s@, prev_r).push(
            s@.subrange(start as int, n as int),
        ));
    }
    r
}


/// The characters of `s`.
pub fn chars_of(s: &str) -> (v: Vec<char>)
    ensures
        v@ == s@,
{
    broadcast use vstd::string::group_string_axioms;

    let mut v: Vec<char> = Vec::new();
    for c in it: s.chars()
        invariant
            v@ == it.seq().take(it.index() as int),
    {
        v.push(c);
    }
    v
}


/// Whether `s` begins with `p`.
pub open spec fn has_prefix(s: Seq<char>, p: Seq<char>) -> bool {
    p.len() <= s.len() && s.take(p.len() as int) == p
}

/// Whether `p` occurs in `s` starting at index `i`.
pub open spec fn occurs_at(s: Seq<char>, p: Seq<char>, i: int) -> bool {
    0 <= i && i + p.len() <= s.len() && s.subrange(i, i + p.len()) == p
}

/// Whether `p` occurs anywhere in `s`.
pub open spec fn contains_seq(s: Seq<char>, p: Seq<char>) -> bool {
    exists|i: int| occurs_at(s, p, i)
}

/// Whether `s[lo..hi]` begins with `p`.
pub fn has_prefix_in(s: &Vec<char>, lo: usize, hi: usize, p: &Vec<char>) -> (b: bool)
    requires
        lo <= hi <= s.len(),
    ensures
        b == has_prefix(s@.subrange(lo as int, hi as int), p@),
{
    if p.len() > hi - lo {
        return false;
    }
    let mut k: usize = 0;
    while k < p.len()
        invariant
            lo <= hi <= s.len(),
            p.len() <= hi - lo,
            k <= p.len(),
            forall|j: int| 0 <= j < k ==> s@[lo + j] == p@[j],
        decreases p.len() - k,
    {
        if s[lo + k] != p[k] {
            assert(s@.subrange(lo as int, hi as int).take(p.len() as int)[k as int] != p@[k as int]);
            return false;
        }
        k = k + 1;
    }
    assert(s@.subrange(lo as int, hi as int).take(p.len() as int) =~= p@);
    true
}

/// Whether `p` occurs in `s[lo..hi]`.
pub fn contains_in(s: &Vec<char>, lo: usize, hi: usize, p: &Vec<char>) -> (b: bool)
    requires
        lo <= hi <= s.len(),
    ensures
        b == contains_seq(s@.subrange(lo as int, hi as int), p@),
{
    let ghost t = s@.subrange(lo as int, hi as int);
    if p.len() > hi - lo {
        assert forall|i: int| !occurs_at(t, p@, i) by {}
        return false;
    }
    if p.len() == 0 {
        assert(t.subrange(0, 0) =~= p@);
        assert(occurs_at(t, p@, 0));
        return true;
    }
    let mut i: usize = lo;
    while i <= hi - p.len()
        invariant
            lo <= i <= hi - p.len() + 1,
            p.len() > 0,
            lo <= hi <= s.len(),
            p.len() <= hi - lo,
            t == s@.subrange(lo as int, hi as int),
            forall|j: int| 0 <= j < i - lo ==> !occurs_at(t, p@, j),
        decreases hi - p.len() + 1 - i,
    {
        if has_prefix_in(s, i, hi, p) {
            assert(t.subrange(i - lo, i - lo + p.len()) =~= s@.subrange(i as int, hi as int).take(
                p.len() as int,
            ));
            assert(occurs_at(t, p@, i - lo));
            return true;
        }
        assert(t.subrange(i - lo, i - lo + p.len()) =~= s@.subrange(i as int, hi as int).take(
            p.len() as int,
        ));
        i = i + 1;
    }
    assert forall|j: int| !occurs_at(t, p@, j) by {
        if 0 <= j && j + p.len() <= t.len() {
            assert(j < i - lo);
        }
    }
    false
}

/// Builds a `String` with `String::from_iter` from the characters of `v`;
/// std documents that it collects them in order.
#[verifier::external_body]
fn collect_string(v: &Vec<char>) -> (s: String)
    ensures
        s@ == v@,
{
    String::from_iter(v)
}

/// A `String` holding the characters of `v[lo..hi]`.
pub fn string_from_chars(v: &Vec<char>, lo: usize, hi: usize) -> (s: String)
    requires
        lo <= hi <= v.len(),
    ensures
        s@ == v@.subrange(lo as int, hi as int),
{
    let mut part: Vec<char> = Vec::new();
    let mut i = lo;
    while i < hi
        invariant
            lo <= i <= hi <= v.len(),
            part@ == v@.subrange(lo as int, i as int),
        decreases hi - i,
    {
        part.push(v[i]);
        assert(v@.subrange(lo as int, i + 1) =~= v@.subrange(lo as int, i as int).push(v@[i as int]));
        i = i + 1;
    }
    collect_string(&part)
}


/// `s` without the leading copies of `c`.
pub open spec fn trim_start_char(s: Seq<char>, c: char) -> Seq<char>
    decreases s.len(),
{
    if s.len() > 0 && s[0] == c {
        trim_start_char(s.drop_first(), c)
    } else {
        s
    }
}

/// `s` without the trailing copies of `c`.
pub open spec fn trim_end_char(s: Seq<char>, c: char) -> Seq<char>
    decreases s.len(),
{
    if s.len() > 0 && s.last() == c {
        trim_end_char(s.drop_last(), c)
    } else {
        s
    }
}

/// `s` without the copies of `c` at either end (`str::trim_matches(c)`).
pub open spec fn trim_char(s: Seq<char>, c: char) -> Seq<char> {
    trim_end_char(trim_start_char(s, c), c)
}

/// The bounds, inside `s[lo..hi]`, of that range with the copies of `c` at
/// either end removed.
pub fn trim_char_bounds(s: &Vec<char>, lo: usize, hi: usize, c: char) -> (r: (usize, usize))
    requires
        lo <= hi <= s.len(),
    ensures
        lo <= r.0 <= r.1 <= hi,
        s@.subrange(r.0 as int, r.1 as int) == trim_char(s@.subrange(lo as int, hi as int), c),
{
    let mut i = lo;
    while i < hi && s[i] == c
        invariant
            lo <= i <= hi <= s.len(),
            trim_start_char(s@.subrange(lo as int, hi as int), c) == trim_start_char(
                s@.subrange(i as int, hi as int),
                c,
            ),
        decreases hi - i,
    {
        assert(s@.subrange(i as int, hi as int).drop_first() =~= s@.subrange(
            i + 1,
            hi as int,
        ));
        i = i + 1;
    }
    let mut j = hi;
    while j > i && s[j - 1] == c
        invariant
            lo <= i <= j <= hi <= s.len(),
            trim_end_char(s@.subrange(i as int, hi as int), c) == trim_end_char(
                s@.subrange(i as int, j as int),
                c,
            ),
        decreases j - i,
    {
        assert(s@.subrange(i as int, j as int).drop_last() =~= s@.subrange(
            i as int,
            j - 1,
        ));
        j = j - 1;
    }
    (i, j)
}

/// A copy of `v`.
pub fn copy_chars(v: &Vec<char>) -> (r: Vec<char>)
    ensures
        r@ == v@,
{
    let mut r: Vec<char> = Vec::new();
    let mut i: usize = 0;
    while i < v.len()
        invariant
            i <= v.len(),
            r@ == v@.take(i as int),
        decreases v.len() - i,
    {
        r.push(v[i]);
        assert(v@.take(i + 1) =~= v@.take(i as int).push(v@[i as int]));
        i = i + 1;
    }
    assert(v@.take(v.len() as int) =~= v@);
    r
}

/// The characters of `key` followed by those of `tail`.
pub fn chars_then(key: &Vec<char>, tail: &str) -> (r: Vec<char>)
    ensures
        r@ == key@ + tail@,
{
    let mut r = copy_chars(key);
    let mut t = chars_of(tail);
    r.append(&mut t);
    r
}

/// Whether an optional string is present and equal to `lit`.
pub fn opt_is(o: &Option<String>, lit: &str) -> (b: bool)
    ensures
        b == (o.deep_view() == Some(lit@)),
{
    match o {
        Some(s) => {
            let l = lit.to_owned();
            s.eq(&l)
        },
        None => false,
    }
}

/// Whether an optional string is present and contains `pat`.
pub fn opt_contains(o: &Option<String>, pat: &str) -> (b: bool)
    ensures
        b == (o.deep_view() matches Some(t) && contains_seq(t, pat@)),
{
    match o {
        Some(s) => {
            let t = chars_of(s.as_str());
            let p = chars_of(pat);
            assert(t@.subrange(0, t@.len() as int) =~= t@);
            contains_in(&t, 0, t.len(), &p)
        },
        None => false,
    }
}

/// A copy of an optional string.
pub fn copy_opt(o: &Option<String>) -> (r: Option<String>)
    ensures
        r.deep_view() == o.deep_view(),
{
    match o {
        Some(s) => Some(s.clone()),
        None => None,
    }
}


/// `s` with the non-overlapping occurrences of `pat`, found from left to
/// right, replaced by `rep` (`str::replace` for a non-empty pattern).
pub open spec fn replace_all(s: Seq<char>, pat: Seq<char>, rep: Seq<char>) -> Seq<char>
    decreases s.len(),
{
    if pat.len() == 0 || s.len() < pat.len() {
        s
    } else if s.take(pat.len() as int) == pat {
        rep + replace_all(s.skip(pat.len() as int), pat, rep)
    } else {
        seq![s[0]] + replace_all(s.drop_first(), pat, rep)
    }
}

/// `s` with the occurrences of the non-empty `pat` replaced by `rep`.
pub fn replace_chars(s: &Vec<char>, pat: &Vec<char>, rep: &Vec<char>) -> (r: Vec<char>)
    requires
        pat.len() > 0,
    ensures
        r@ == replace_all(s@, pat@, rep@),
{
    let n = s.len();
    let mut out: Vec<char> = Vec::new();
    let mut i: usize = 0;
    assert(s@.skip(0) =~= s@);
    while i < n
        invariant
            n == s.len(),
            i <= n,
            pat.len() > 0,
            replace_all(s@, pat@, rep@) == out@ + replace_all(s@.skip(i as int), pat@, rep@),
        decreases n - i,
    {
        let ghost t = s@.skip(i as int);
        assert(s@.subrange(i as int, n as int) =~= t);
        if has_prefix_in(s, i, n, pat) {
            let mut r = copy_chars(rep);
            assert(t.skip(pat.len() as int) =~= s@.skip(i + pat.len()));
            out.append(&mut r);
            i = i + pat.len();
        } else {
            assert(t.drop_first() =~= s@.skip(i + 1));
            out.push(s[i]);
            i = i + 1;
        }
    }
    assert(s@.skip(n as int) =~= seq![]);
    assert(out@ + seq![] =~= out@);
    out
}


/// Appends the characters of `s` to `out`.
pub fn push_str(out: &mut Vec<char>, s: &str)
    ensures
        final(out)@ == old(out)@ + s@,
{
    let mut t = chars_of(s);
    out.append(&mut t);
}

/// The decimal digit `d` as a character.
pub open spec fn digit_char(d: nat) -> char {
    (48 + d) as char
}

/// The decimal representation of `n`, without leading zeros.
pub open spec fn decimal(n: nat) -> Seq<char>
    decreases n,
{
    if n < 10 {
        seq![digit_char(n)]
    } else {
        decimal(n / 10) + seq![digit_char(n % 10)]
    }
}

/// Appends the decimal representation of `n` to `out`.
pub fn push_decimal(out: &mut Vec<char>, n: u32)
    ensures
        final(out)@ == old(out)@ + decimal(n as nat),
    decreases n,
{
    if n >= 10 {
        push_decimal(out, n / 10);
    }
    let d = (n % 10) as u8;
    let c = (48u8 + d) as char;
    assert(c == digit_char((n % 10) as nat));
    out.push(c);
}


/// `s` without leading and trailing whitespace.
pub fn trimmed(s: &str) -> (r: String)
    ensures
        r@ == trim(s@),
{
    let v = chars_of(s);
    assert(v@.subrange(0, v@.len() as int) =~= v@);
    let (a, b) = trim_bounds(&v, 0, v.len());
    string_from_chars(&v, a, b)
}

/// Whether `s` is empty or all whitespace.
pub fn is_blank(s: &str) -> (b: bool)
    ensures
        b == (trim(s@).len() == 0),
{
    let v = chars_of(s);
    assert(v@.subrange(0, v@.len() as int) =~= v@);
    let (a, b) = trim_bounds(&v, 0, v.len());
    a == b
}


/// The strings of `ls` with `sep` between each two (`[T]::join`).
pub open spec fn join_with(ls: Seq<Seq<char>>, sep: Seq<char>) -> Seq<char>
    decreases ls.len(),
{
    if ls.len() == 0 {
        seq![]
    } else if ls.len() == 1 {
        ls[0]
    } else {
        join_with(ls.drop_last(), sep) + sep + ls.last()
    }
}

/// The strings of `items` with `sep` between each two.
pub fn join_strings(items: &Vec<String>, sep: &str) -> (r: String)
    ensures
        r@ == join_with(items.deep_view(), sep@),
{
    let ghost ls = items.deep_view();
    let mut r = String::new();
    let mut i: usize = 0;
    while i < items.len()
        invariant
            i <= items.len(),
            ls == items.deep_view(),
            r@ == join_with(ls.take(i as int), sep@),
        decreases items.len() - i,
    {
        assert(ls.take(i + 1).drop_last() =~= ls.take(i as int));
        assert(ls[i as int] == items@[i as int]@);
        if i > 0 {
            r.append(sep);
        } else {
            assert(ls.take(0) =~= Seq::<Seq<char>>::empty());
            assert(r@ =~= Seq::<char>::empty());
        }
        r.append(items[i].as_str());
        if i == 0 {
            assert(r@ =~= ls.take(1)[0]);
        }
        i = i + 1;
    }
    assert(ls.take(i as int) =~= ls);
    r
}


/// An occurrence of `p` inside `b` is an occurrence inside `a + b + c`.
pub proof fn lemma_contains_in_middle(a: Seq<char>, b: Seq<char>, c: Seq<char>, p: Seq<char>)
    requires
        contains_seq(b, p),
    ensures
        contains_seq(a + b + c, p),
{
    let i = choose|i: int| occurs_at(b, p, i);
    assert((a + b + c).subrange(a.len() + i, a.len() + i + p.len()) =~= b.subrange(
        i,
        i + p.len(),
    ));
    assert(occurs_at(a + b + c, p, a.len() + i));
}

/// Replacing a pattern that does not occur leaves the text unchanged.
pub proof fn lemma_replace_absent(s: Seq<char>, pat: Seq<char>, rep: Seq<char>)
    requires
        !contains_seq(s, pat),
    ensures
        replace_all(s, pat, rep) == s,
    decreases s.len(),
{
    if pat.len() > 0 && s.len() >= pat.len() {
        assert(s.take(pat.len() as int) =~= s.subrange(0, pat.len() as int));
        assert(!occurs_at(s, pat, 0));
        assert forall|i: int| !occurs_at(s.drop_first(), pat, i) by {
            if occurs_at(s.drop_first(), pat, i) {
                assert(s.subrange(i + 1, i + 1 + pat.len()) =~= s.drop_first().subrange(
                    i,
                    i + pat.len(),
                ));
                assert(occurs_at(s, pat, i + 1));
            }
        }
        lemma_replace_absent(s.drop_first(), pat, rep);
        assert(seq![s[0]] + s.drop_first() =~= s);
    }
}


proof fn lemma_lines_acc_concat(a: Seq<char>, b: Seq<char>)
    requires
        lines_acc(a).1.len() == 0,
    ensures
        lines_acc(a + b) == (lines_acc(a).0 + lines_acc(b).0, lines_acc(b).1),
    decreases b.len(),
{
    if b.len() == 0 {
        assert(a + b =~= a);
        assert(lines_acc(a).0 + lines_acc(b).0 =~= lines_acc(a).0);
        assert(lines_acc(a).1 =~= lines_acc(b).1);
    } else {
        assert((a + b).drop_last() =~= a + b.drop_last());
        assert((a + b).last() == b.last());
        lemma_lines_acc_concat(a, b.drop_last());
        let prev = lines_acc(b.drop_last());
        if b.last() == '\n' {
            assert(lines_acc(a).0 + prev.0.push(strip_cr(prev.1)) =~= (lines_acc(a).0 + prev.0).push(
                strip_cr(prev.1),
            ));
        }
    }
}

/// Text that is empty or ends with a line ending splits into its own lines
/// followed by the lines of whatever comes after it.
pub proof fn lemma_lines_concat(a: Seq<char>, b: Seq<char>)
    requires
        a.len() == 0 || a.last() == '\n',
    ensures
        lines(a + b) == lines(a) + lines(b),
{
    if a.len() > 0 {
        assert(lines_acc(a).1 =~= Seq::<char>::empty());
    }
    lemma_lines_acc_concat(a, b);
    let la = lines_acc(a).0;
    let acc = lines_acc(b);
    if acc.1.len() != 0 {
        assert(la + acc.0.push(acc.1) =~= (la + acc.0).push(acc.1));
    }
}

proof fn lemma_lines_acc_without_newline(t: Seq<char>)
    requires
        forall|k: int| 0 <= k < t.len() ==> t[k] != '\n',
    ensures
        lines_acc(t) == (Seq::<Seq<char>>::empty(), t),
    decreases t.len(),
{
    if t.len() > 0 {
        lemma_lines_acc_without_newline(t.drop_last());
        assert(t.drop_last().push(t.last()) =~= t);
    }
}

/// Text after the last line ending is a line of its own, even when no line
/// ending closes it: appending a non-empty piece without a line ending to
/// text that is empty or ends with a line ending adds exactly that piece as
/// the last line, and such a piece alone is one line.
pub proof fn law_unterminated_last_line_is_kept(s: Seq<char>, t: Seq<char>)
    requires
        s.len() == 0 || s.last() == '\n',
        t.len() > 0,
        forall|k: int| 0 <= k < t.len() ==> t[k] != '\n',
    ensures
        lines(t) == seq![t],
        lines(s + t) == lines(s).push(t),
{
    lemma_lines_acc_without_newline(t);
    lemma_lines_concat(s, t);
    assert(lines(s) + seq![t] =~= lines(s).push(t));
}

/// A piece without a line ending, followed by one, is a single line: the
/// piece without a final carriage return.
pub proof fn law_terminated_line(t: Seq<char>)
    requires
        forall|k: int| 0 <= k < t.len() ==> t[k] != '\n',
    ensures
        lines(t + seq!['\n']) == seq![strip_cr(t)],
{
    lemma_lines_acc_without_newline(t);
    let u = t + seq!['\n'];
    assert(u.drop_last() =~= t);
    assert(u.last() == '\n');
    assert(lines_acc(u) == (seq![strip_cr(t)], Seq::<char>::empty()));
}

} // verus!
