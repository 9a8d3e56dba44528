//! Package updates: which of the panel's packages `dnf check-update`
//! reports, and what a check or an upgrade run comes to.

use vstd::prelude::*;

use crate::commands::fallback_command_error;
use crate::i18n::{apply_all, apply_replacements, replacements_view};

use crate::text::{
    chars_of, copy_chars, has_prefix, law_terminated_line, lemma_lines_concat, strip_cr, has_prefix_in, is_space, is_space_char, line_ranges, lines,
    join_strings, join_with, range_views, ranges_within, trim, trim_start,
};

verus! {

/// The leading run of non-whitespace characters of `s`.
pub open spec fn take_until_space(s: Seq<char>) -> Seq<char>
    decreases s.len(),
{
    if s.len() == 0 || is_space(s[0]) {
        seq![]
    } else {
        seq![s[0]] + take_until_space(s.drop_first())
    }
}

/// The first whitespace-separated field of `line`, empty when the line is
/// blank (`line.split_whitespace().next().unwrap_or_default()`).
pub open spec fn first_field(line: Seq<char>) -> Seq<char> {
    take_until_space(trim_start(line))
}

/// Whether the first field of a `dnf` line names package `pkg`: exactly,
/// or qualified by an architecture (`pkg.x86_64`).
pub open spec fn package_matches(field: Seq<char>, pkg: Seq<char>) -> bool {
    field == pkg || (has_prefix(field, pkg) && field.len() > pkg.len() && field[pkg.len() as int]
        == '.')
}

/// `found` extended, in the order of `pkgs`, with each package that `field`
/// names and that is not yet in it.
pub open spec fn add_matches(found: Seq<Seq<char>>, field: Seq<char>, pkgs: Seq<Seq<char>>) -> Seq<
    Seq<char>,
>
    decreases pkgs.len(),
{
    if pkgs.len() == 0 {
        found
    } else {
        let next = if package_matches(field, pkgs[0]) && !found.contains(pkgs[0]) {
            found.push(pkgs[0])
        } else {
            found
        };
        add_matches(next, field, pkgs.drop_first())
    }
}

/// `found` extended with the packages that the lines `ls` name, line by
/// line.
pub open spec fn dnf_fold(found: Seq<Seq<char>>, ls: Seq<Seq<char>>, pkgs: Seq<Seq<char>>) -> Seq<
    Seq<char>,
>
    decreases ls.len(),
{
    if ls.len() == 0 {
        found
    } else {
        let field = first_field(ls[0]);
        let next = if field.len() == 0 {
            found
        } else {
            add_matches(found, field, pkgs)
        };
        dnf_fold(next, ls.drop_first(), pkgs)
    }
}

/// The packages of `pkgs` that a `dnf check-update` output names, in the
/// order in which it first names them.
pub open spec fn dnf_update_names(output: Seq<char>, pkgs: Seq<Seq<char>>) -> Seq<Seq<char>> {
    dnf_fold(seq![], lines(output), pkgs)
}

/// The characters of each package name.
pub open spec fn packages_view(p: Seq<&str>) -> Seq<Seq<char>> {
    p.map_values(|s: &str| s@)
}

/// The bounds of the first whitespace-separated field of `s[lo..hi]`.
fn first_field_bounds(s: &Vec<char>, lo: usize, hi: usize) -> (r: (usize, usize))
    requires
        lo <= hi <= s.len(),
    ensures
        lo <= r.0 <= r.1 <= hi,
        s@.subrange(r.0 as int, r.1 as int) == first_field(s@.subrange(lo as int, hi as int)),
{
    let mut a = lo;
    while a < hi && is_space_char(s[a])
        invariant
            lo <= a <= hi <= s.len(),
            trim_start(s@.subrange(lo as int, hi as int)) == trim_start(
                s@.subrange(a as int, hi as int),
            ),
        decreases hi - a,
    {
        assert(s@.subrange(a as int, hi as int).drop_first() =~= s@.subrange(a + 1, hi as int));
        a = a + 1;
    }
    let mut b = a;
    assert(s@.subrange(a as int, a as int) + s@.subrange(a as int, hi as int) =~= s@.subrange(
        a as int,
        hi as int,
    ));
    while b < hi && !is_space_char(s[b])
        invariant
            lo <= a <= b <= hi <= s.len(),
            trim_start(s@.subrange(lo as int, hi as int)) == s@.subrange(a as int, hi as int),
            take_until_space(s@.subrange(a as int, hi as int)) == s@.subrange(a as int, b as int)
                + take_until_space(s@.subrange(b as int, hi as int)),
        decreases hi - b,
    {
        assert(s@.subrange(b as int, hi as int).drop_first() =~= s@.subrange(b + 1, hi as int));
        assert(s@.subrange(a as int, b as int) + seq![s@[b as int]] =~= s@.subrange(
            a as int,
            b + 1,
        ));
        assert(s@.subrange(a as int, b as int) + (seq![s@[b as int]] + take_until_space(
            s@.subrange(b + 1, hi as int),
        )) =~= s@.subrange(a as int, b + 1) + take_until_space(s@.subrange(b + 1, hi as int)));
        b = b + 1;
    }
    assert(take_until_space(s@.subrange(b as int, hi as int)) == Seq::<char>::empty());
    assert(s@.subrange(a as int, b as int) + Seq::<char>::empty() =~= s@.subrange(
        a as int,
        b as int,
    ));
    (a, b)
}

/// The contents of a list of character vectors.
pub open spec fn chars_lists(v: Seq<Vec<char>>) -> Seq<Seq<char>> {
    v.map_values(|x: Vec<char>| x@)
}

/// Whether two character vectors are equal.
fn chars_equal(a: &Vec<char>, b: &Vec<char>) -> (r: bool)
    ensures
        r == (a@ == b@),
{
    if a.len() != b.len() {
        return false;
    }
    let mut i: usize = 0;
    while i < a.len()
        invariant
            a.len() == b.len(),
            i <= a.len(),
            forall|j: int| 0 <= j < i ==> a@[j] == b@[j],
        decreases a.len() - i,
    {
        if a[i] != b[i] {
            return false;
        }
        i = i + 1;
    }
    assert(a@ =~= b@);
    true
}

/// Whether `v` holds `x`.
fn holds(v: &Vec<Vec<char>>, x: &Vec<char>) -> (r: bool)
    ensures
        r == chars_lists(v@).contains(x@),
{
    let mut i: usize = 0;
    while i < v.len()
        invariant
            i <= v.len(),
            forall|j: int| 0 <= j < i ==> chars_lists(v@)[j] != x@,
        decreases v.len() - i,
    {
        assert(chars_lists(v@)[i as int] == v@[i as int]@);
        if chars_equal(&v[i], x) {
            return true;
        }
        i = i + 1;
    }
    false
}

/// Whether the field `s[a..b]` names package `p`.
fn matches_package(s: &Vec<char>, a: usize, b: usize, p: &Vec<char>) -> (r: bool)
    requires
        a <= b <= s.len(),
    ensures
        r == package_matches(s@.subrange(a as int, b as int), p@),
{
    let ghost field = s@.subrange(a as int, b as int);
    assert(field.take(field.len() as int) =~= field);
    if !has_prefix_in(s, a, b, p) {
        return false;
    }
    if b - a == p.len() {
        assert(field =~= field.take(p.len() as int));
        return true;
    }
    let dot = s[a + p.len()] == '.';
    assert(field[p.len() as int] == s@[a + p.len()]);
    assert(field.len() != p@.len());
    dot
}


/// The packages of `packages` that `dnf check-update` output names: for
/// each line in order, the first whitespace-separated field is compared
/// with each package in order, exactly or as `package.arch`, and each
/// package is listed once, where it is first named.
pub fn parse_dnf_check_update_package_names(output: &str, packages: &[&str]) -> (r: Vec<String>)
    ensures
        r.deep_view() == dnf_update_names(output@, packages_view(packages@)),
{
    let s = chars_of(output);
    let ranges = line_ranges(&s);
    let ghost ls = lines(s@);
    let ghost pk = packages_view(packages@);
    let mut pkg_chars: Vec<Vec<char>> = Vec::new();
    let mut i: usize = 0;
    while i < packages.len()
        invariant
            i <= packages.len(),
            pk == packages_view(packages@),
            chars_lists(pkg_chars@) == pk.take(i as int),
        decreases packages.len() - i,
    {
        let ghost before = chars_lists(pkg_chars@);
        let c = chars_of(packages[i]);
        assert(c@ == pk[i as int]);
        pkg_chars.push(c);
        assert(chars_lists(pkg_chars@) =~= before.push(pk[i as int]));
        assert(pk.take(i + 1) =~= pk.take(i as int).push(pk[i as int]));
        i = i + 1;
    }
    assert(pk.take(i as int) =~= pk);
    let mut found_chars: Vec<Vec<char>> = Vec::new();
    let mut found: Vec<String> = Vec::new();
    let mut k: usize = 0;
    assert(ls.skip(0) =~= ls);
    assert(chars_lists(found_chars@) =~= Seq::<Seq<char>>::empty());
    while k < ranges.len()
        invariant
            k <= ranges.len(),
            ranges_within(s@, ranges@),
            range_views(s@, ranges@) == ls,
            ls.len() == ranges.len(),
            ls == lines(output@),
            pk == packages_view(packages@),
            chars_lists(pkg_chars@) == pk,
            pkg_chars.len() == packages.len(),
            found.deep_view() == chars_lists(found_chars@),
            dnf_update_names(output@, pk) == dnf_fold(
                chars_lists(found_chars@),
                ls.skip(k as int),
                pk,
            ),
        decreases ranges.len() - k,
    {
        let (lo, hi) = ranges[k];
        assert(ranges@[k as int].0 <= ranges@[k as int].1 <= s.len());
        assert(ls.skip(k as int)[0] == s@.subrange(lo as int, hi as int));
        assert(ls.skip(k as int).drop_first() =~= ls.skip(k + 1));
        let (a, b) = first_field_bounds(&s, lo, hi);
        let ghost field = s@.subrange(a as int, b as int);
        if a < b {
            let ghost start = chars_lists(found_chars@);
            let mut j: usize = 0;
            assert(pk.skip(0) =~= pk);
            while j < pkg_chars.len()
                invariant
                    j <= pkg_chars.len(),
                    a <= b <= s.len(),
                    field == s@.subrange(a as int, b as int),
                    chars_lists(pkg_chars@) == pk,
                    pkg_chars.len() == packages.len(),
                    pk == packages_view(packages@),
                    found.deep_view() == chars_lists(found_chars@),
                    add_matches(start, field, pk) == add_matches(
                        chars_lists(found_chars@),
                        field,
                        pk.skip(j as int),
                    ),
                decreases pkg_chars.len() - j,
            {
                assert(pk.skip(j as int)[0] == pk[j as int]);
                assert(pk.skip(j as int).drop_first() =~= pk.skip(j + 1));
                assert(chars_lists(pkg_chars@)[j as int] == pkg_chars@[j as int]@);
                if matches_package(&s, a, b, &pkg_chars[j]) && !holds(&found_chars, &pkg_chars[j]) {
                    let ghost before = chars_lists(found_chars@);
                    let ghost before_found = found.deep_view();
                    found_chars.push(copy_chars(&pkg_chars[j]));
                    found.push(packages[j].to_owned());
                    assert(chars_lists(found_chars@) =~= before.push(pk[j as int]));
                    assert(found.deep_view() =~= before_found.push(pk[j as int]));
                }
                j = j + 1;
            }
            assert(pk.skip(j as int) =~= Seq::<Seq<char>>::empty());
        }
        k = k + 1;
    }
    assert(ls.skip(k as int) =~= Seq::<Seq<char>>::empty());
    found
}


proof fn lemma_add_matches(found: Seq<Seq<char>>, field: Seq<char>, pkgs: Seq<Seq<char>>)
    ensures
        found.no_duplicates() ==> add_matches(found, field, pkgs).no_duplicates(),
        forall|x: Seq<char>| #[trigger]
            add_matches(found, field, pkgs).contains(x) ==> found.contains(x) || pkgs.contains(x),
    decreases pkgs.len(),
{
    if pkgs.len() > 0 {
        let next = if package_matches(field, pkgs[0]) && !found.contains(pkgs[0]) {
            found.push(pkgs[0])
        } else {
            found
        };
        lemma_add_matches(next, field, pkgs.drop_first());
        if package_matches(field, pkgs[0]) && !found.contains(pkgs[0]) {
            assert forall|x: Seq<char>| #[trigger] next.contains(x) implies found.contains(x)
                || pkgs.contains(x) by {
                if !found.contains(x) {
                    let i = choose|i: int| 0 <= i < next.len() && next[i] == x;
                    assert(i == found.len());
                    assert(pkgs[0] == x);
                }
            }
            if found.no_duplicates() {
                assert forall|i: int, j: int|
                    0 <= i < next.len() && 0 <= j < next.len() && i != j implies next[i]
                    != next[j] by {
                    if i == found.len() {
                        assert(found[j] == next[j]);
                    } else if j == found.len() {
                        assert(found[i] == next[i]);
                    }
                }
            }
        }
        assert forall|x: Seq<char>| #[trigger]
            add_matches(found, field, pkgs).contains(x) implies found.contains(x) || pkgs.contains(
            x,
        ) by {
            assert(add_matches(next, field, pkgs.drop_first()).contains(x));
            if next.contains(x) {
                if !found.contains(x) {
                    let i = choose|i: int| 0 <= i < next.len() && next[i] == x;
                    assert(next != found);
                    assert(i == found.len());
                    assert(pkgs[0] == x);
                }
            } else {
                assert(pkgs.drop_first().contains(x));
                let i = choose|i: int|
                    0 <= i < pkgs.drop_first().len() && pkgs.drop_first()[i] == x;
                assert(pkgs[i + 1] == x);
            }
        }
    }
}

proof fn lemma_dnf_fold(found: Seq<Seq<char>>, ls: Seq<Seq<char>>, pkgs: Seq<Seq<char>>)
    ensures
        found.no_duplicates() ==> dnf_fold(found, ls, pkgs).no_duplicates(),
        forall|x: Seq<char>| #[trigger]
            dnf_fold(found, ls, pkgs).contains(x) ==> found.contains(x) || pkgs.contains(x),
    decreases ls.len(),
{
    if ls.len() > 0 {
        let field = first_field(ls[0]);
        let next = if field.len() == 0 {
            found
        } else {
            add_matches(found, field, pkgs)
        };
        lemma_add_matches(found, field, pkgs);
        lemma_dnf_fold(next, ls.drop_first(), pkgs);
        assert forall|x: Seq<char>| #[trigger]
            dnf_fold(found, ls, pkgs).contains(x) implies found.contains(x) || pkgs.contains(x) by {
            assert(dnf_fold(next, ls.drop_first(), pkgs).contains(x));
            if field.len() != 0 && next.contains(x) {
                assert(add_matches(found, field, pkgs).contains(x));
            }
        }
    }
}

/// The reported updates name each package at most once, and only packages
/// that were asked about.
pub proof fn law_update_names_are_distinct_packages(output: Seq<char>, pkgs: Seq<Seq<char>>)
    ensures
        dnf_update_names(output, pkgs).no_duplicates(),
        forall|x: Seq<char>| #[trigger]
            dnf_update_names(output, pkgs).contains(x) ==> pkgs.contains(x),
{
    lemma_dnf_fold(seq![], lines(output), pkgs);
}


/// What a `dnf check-update` run on the installed packages comes to: exit
/// code 0 means no update, exit code 100 means updates for the packages
/// that the output names, and anything else is an error carrying the
/// command's output, or `fallback` (the translated message saying that dnf
/// gave no details) when that output is blank.
pub fn check_update_result(
    exit_code: Option<i32>,
    output_text: String,
    installed_packages: &[&str],
    fallback: &str,
) -> (r: Result<Vec<String>, String>)
    ensures
        exit_code == Some(0i32) ==> (r matches Ok(v) && v.len() == 0),
        exit_code == Some(100i32) ==> (r matches Ok(v) && v.deep_view() == dnf_update_names(
            output_text@,
            packages_view(installed_packages@),
        )),
        exit_code != Some(0i32) && exit_code != Some(100i32) ==> r is Err,
        r matches Err(e) ==> e@ == (if trim(output_text@).len() == 0 {
            fallback@
        } else {
            output_text@
        }),
{
    match exit_code {
        Some(0) => Ok(Vec::new()),
        Some(100) => Ok(
            parse_dnf_check_update_package_names(output_text.as_str(), installed_packages),
        ),
        _ => Err(fallback_command_error(output_text, fallback)),
    }
}

/// What a `dnf upgrade` run comes to: its output on success, otherwise an
/// error carrying its output, or `fallback` (the translated message saying
/// that the upgrade failed without output) when that output is blank.
pub fn install_result(success: bool, output_text: String, fallback: &str) -> (r: Result<
    String,
    String,
>)
    ensures
        success ==> (r matches Ok(t) && t@ == output_text@),
        !success ==> r is Err,
        r matches Err(e) ==> e@ == (if trim(output_text@).len() == 0 {
            fallback@
        } else {
            output_text@
        }),
{
    if success {
        Ok(output_text)
    } else {
        Err(fallback_command_error(output_text, fallback))
    }
}

/// The tooltip of the update button: the translated message `template`
/// with `{packages}` replaced by the package names joined with `, `.
pub fn update_button_tooltip(template: String, packages: &Vec<String>) -> (r: String)
    ensures
        r@ == apply_all(template@, seq![("packages"@, join_with(packages.deep_view(), ", "@))]),
{
    let joined = join_strings(packages, ", ");
    let reps = [("packages", joined)];
    proof {
        assert(replacements_view(reps@) =~= seq![("packages"@, join_with(packages.deep_view(), ", "@))]);
    }
    apply_replacements(template, &reps)
}


/// The names of `s` that `f` does not hold, in order.
pub open spec fn names_not_in(s: Seq<Seq<char>>, f: Seq<Seq<char>>) -> Seq<Seq<char>>
    decreases s.len(),
{
    if s.len() == 0 {
        seq![]
    } else {
        let w = names_not_in(s.drop_last(), f);
        if f.contains(s.last()) {
            w
        } else {
            w.push(s.last())
        }
    }
}

proof fn lemma_names_not_in_contains(s: Seq<Seq<char>>, f: Seq<Seq<char>>, x: Seq<char>)
    ensures
        names_not_in(s, f).contains(x) <==> s.contains(x) && !f.contains(x),
    decreases s.len(),
{
    if s.len() > 0 {
        let init = s.drop_last();
        let l = s.last();
        lemma_names_not_in_contains(init, f, x);
        lemma_concat_contains(init, seq![l], x);
        assert(s =~= init + seq![l]);
        assert(seq![l].contains(x) <==> l == x) by {
            if l == x {
                assert(seq![l][0] == x);
            }
        }
        let w = names_not_in(init, f);
        if !f.contains(l) {
            assert(w.push(l) =~= w + seq![l]);
            lemma_concat_contains(w, seq![l], x);
        }
    }
}

proof fn lemma_concat_contains(a: Seq<Seq<char>>, b: Seq<Seq<char>>, x: Seq<char>)
    ensures
        (a + b).contains(x) <==> a.contains(x) || b.contains(x),
{
    if (a + b).contains(x) {
        let i = choose|i: int| 0 <= i < (a + b).len() && (a + b)[i] == x;
        if i < a.len() {
            assert(a[i] == x);
        } else {
            assert(b[i - a.len()] == x);
        }
    }
    if a.contains(x) {
        let i = choose|i: int| 0 <= i < a.len() && a[i] == x;
        assert((a + b)[i] == x);
    }
    if b.contains(x) {
        let i = choose|i: int| 0 <= i < b.len() && b[i] == x;
        assert((a + b)[a.len() + i] == x);
    }
}

proof fn lemma_add_matches_from(
    f0: Seq<Seq<char>>,
    e: Seq<Seq<char>>,
    field: Seq<char>,
    pkgs: Seq<Seq<char>>,
)
    ensures
        add_matches(f0 + names_not_in(e, f0), field, pkgs) == f0 + names_not_in(
            add_matches(e, field, pkgs),
            f0,
        ),
    decreases pkgs.len(),
{
    if pkgs.len() > 0 {
        let p = pkgs[0];
        let st = f0 + names_not_in(e, f0);
        lemma_concat_contains(f0, names_not_in(e, f0), p);
        lemma_names_not_in_contains(e, f0, p);
        let e2 = if package_matches(field, p) && !e.contains(p) {
            e.push(p)
        } else {
            e
        };
        let st2 = if package_matches(field, p) && !st.contains(p) {
            st.push(p)
        } else {
            st
        };
        if package_matches(field, p) && !e.contains(p) {
            assert(e.push(p).drop_last() =~= e);
            assert(e.push(p).last() == p);
            if !f0.contains(p) {
                assert(st2 =~= f0 + names_not_in(e2, f0));
            } else {
                assert(st2 =~= f0 + names_not_in(e2, f0));
            }
        }
        assert(st2 == f0 + names_not_in(e2, f0));
        lemma_add_matches_from(f0, e2, field, pkgs.drop_first());
    }
}

proof fn lemma_dnf_fold_from(f0: Seq<Seq<char>>, e: Seq<Seq<char>>, ls: Seq<Seq<char>>, pkgs: Seq<Seq<char>>)
    ensures
        dnf_fold(f0 + names_not_in(e, f0), ls, pkgs) == f0 + names_not_in(dnf_fold(e, ls, pkgs), f0),
    decreases ls.len(),
{
    if ls.len() > 0 {
        let field = first_field(ls[0]);
        if field.len() == 0 {
            lemma_dnf_fold_from(f0, e, ls.drop_first(), pkgs);
        } else {
            lemma_add_matches_from(f0, e, field, pkgs);
            lemma_dnf_fold_from(f0, add_matches(e, field, pkgs), ls.drop_first(), pkgs);
        }
    }
}

proof fn lemma_dnf_fold_concat(found: Seq<Seq<char>>, a: Seq<Seq<char>>, b: Seq<Seq<char>>, pkgs: Seq<Seq<char>>)
    ensures
        dnf_fold(found, a + b, pkgs) == dnf_fold(dnf_fold(found, a, pkgs), b, pkgs),
    decreases a.len(),
{
    if a.len() == 0 {
        assert(a + b =~= b);
    } else {
        assert((a + b).drop_first() =~= a.drop_first() + b);
        assert((a + b)[0] == a[0]);
        let field = first_field(a[0]);
        let next = if field.len() == 0 {
            found
        } else {
            add_matches(found, field, pkgs)
        };
        lemma_dnf_fold_concat(next, a.drop_first(), b, pkgs);
    }
}

/// Reading two outputs one after the other, the first ending with a line
/// ending, reports the packages of the first, followed by those of the
/// second that the first did not report, in their order.
pub proof fn law_update_names_of_concatenated_outputs(
    o1: Seq<char>,
    o2: Seq<char>,
    pkgs: Seq<Seq<char>>,
)
    requires
        o1.len() == 0 || o1.last() == '\n',
    ensures
        dnf_update_names(o1 + o2, pkgs) == dnf_update_names(o1, pkgs) + names_not_in(
            dnf_update_names(o2, pkgs),
            dnf_update_names(o1, pkgs),
        ),
{
    let r1 = dnf_update_names(o1, pkgs);
    lemma_lines_concat(o1, o2);
    lemma_dnf_fold_concat(seq![], lines(o1), lines(o2), pkgs);
    assert(names_not_in(Seq::<Seq<char>>::empty(), r1) == Seq::<Seq<char>>::empty());
    assert(r1 + names_not_in(Seq::<Seq<char>>::empty(), r1) =~= r1);
    lemma_dnf_fold_from(r1, seq![], lines(o2), pkgs);
}

proof fn lemma_take_until_space_after_word(a: Seq<char>, b: Seq<char>)
    requires
        forall|k: int| 0 <= k < a.len() ==> !is_space(a[k]),
    ensures
        take_until_space(a + b) == a + take_until_space(b),
    decreases a.len(),
{
    if a.len() > 0 {
        assert((a + b).drop_first() =~= a.drop_first() + b);
        assert((a + b)[0] == a[0]);
        lemma_take_until_space_after_word(a.drop_first(), b);
        assert(seq![a[0]] + (a.drop_first() + take_until_space(b)) =~= a + take_until_space(b));
    } else {
        assert(a + b =~= b);
        assert(a + take_until_space(b) =~= take_until_space(b));
    }
}

/// A line whose first field is `field`, followed by a space and any
/// text, reports the single package `pkg` exactly when `field` names it.
proof fn lemma_single_line_report(field: Seq<char>, rest: Seq<char>, pkg: Seq<char>)
    requires
        field.len() > 0,
        forall|k: int| 0 <= k < field.len() ==> !is_space(field[k]),
        forall|k: int| 0 <= k < rest.len() ==> rest[k] != '\n',
    ensures
        dnf_update_names(field + seq![' '] + rest + seq!['\n'], seq![pkg]) == (if package_matches(
            field,
            pkg,
        ) {
            seq![pkg]
        } else {
            Seq::<Seq<char>>::empty()
        }),
{
    let x = field + seq![' '] + rest;
    assert forall|k: int| 0 <= k < x.len() implies x[k] != '\n' by {
        if k < field.len() {
            assert(x[k] == field[k]);
            assert(!is_space(field[k]));
        } else if k > field.len() {
            assert(x[k] == rest[k - field.len() - 1]);
        }
    }
    law_terminated_line(x);
    let y = strip_cr(x);
    let r2 = strip_cr(rest);
    if rest.len() > 0 {
        assert(x.last() == rest.last());
        if rest.last() == '\r' {
            assert(x.drop_last() =~= field + seq![' '] + rest.drop_last());
        }
    } else {
        assert(x.last() == ' ');
    }
    assert(y =~= field + (seq![' '] + r2));
    assert(y[0] == field[0]);
    assert(trim_start(y) == y);
    lemma_take_until_space_after_word(field, seq![' '] + r2);
    assert(take_until_space(seq![' '] + r2) == Seq::<char>::empty());
    assert(field + Seq::<char>::empty() =~= field);
    assert(first_field(y) == field);
    let ls = seq![y];
    assert(ls[0] == y);
    assert(ls.drop_first() =~= Seq::<Seq<char>>::empty());
    let pk = seq![pkg];
    assert(pk.drop_first() =~= Seq::<Seq<char>>::empty());
    assert(pk[0] == pkg);
    assert(!Seq::<Seq<char>>::empty().contains(pkg));
    assert(Seq::<Seq<char>>::empty().push(pkg) =~= seq![pkg]);
    let e = Seq::<Seq<char>>::empty();
    let next = if package_matches(field, pkg) {
        seq![pkg]
    } else {
        e
    };
    assert(add_matches(next, field, pk.drop_first()) == next);
    assert(add_matches(e, field, pk) == next);
    assert(dnf_fold(next, ls.drop_first(), pk) == next);
    assert(dnf_fold(e, ls, pk) == next);
    assert(lines(field + seq![' '] + rest + seq!['\n']) == ls);
}

/// A `dnf` line names a package whether its first field is the package's
/// bare name or the name qualified by any architecture (`pkg.x86_64`,
/// `pkg.noarch`, ...), the architecture taken verbatim from the line.
pub proof fn law_any_architecture_names_package(pkg: Seq<char>, arch: Seq<char>, rest: Seq<char>)
    requires
        forall|k: int| 0 <= k < pkg.len() ==> !is_space(pkg[k]),
        forall|k: int| 0 <= k < arch.len() ==> !is_space(arch[k]),
        forall|k: int| 0 <= k < rest.len() ==> rest[k] != '\n',
    ensures
        dnf_update_names(pkg + seq!['.'] + arch + seq![' '] + rest + seq!['\n'], seq![pkg])
            == seq![pkg],
        pkg.len() > 0 ==> dnf_update_names(pkg + seq![' '] + rest + seq!['\n'], seq![pkg])
            == seq![pkg],
{
    let f = pkg + seq!['.'] + arch;
    assert forall|k: int| 0 <= k < f.len() implies !is_space(f[k]) by {
        if k < pkg.len() {
            assert(f[k] == pkg[k]);
        } else if k > pkg.len() {
            assert(f[k] == arch[k - pkg.len() - 1]);
        } else {
            assert(f[k] == '.');
        }
    }
    assert(f.take(pkg.len() as int) =~= pkg);
    assert(f[pkg.len() as int] == '.');
    assert(package_matches(f, pkg));
    lemma_single_line_report(f, rest, pkg);
    if pkg.len() > 0 {
        lemma_single_line_report(pkg, rest, pkg);
    }
}

} // verus!
