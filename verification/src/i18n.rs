//! Marking of messages for translation, and the substitution of named
//! placeholders in translated messages.

use vstd::prelude::*;

use crate::text::{
    chars_of, contains_seq, lemma_replace_absent, occurs_at, replace_all, replace_chars,
    string_from_chars,
};

verus! {

/// Marks `message` for extraction into the translation catalog and returns
/// it unchanged; the caller translates it later.
pub fn tr_mark(message: &'static str) -> (r: &'static str)
    ensures
        r == message,
{
    message
}

/// The placeholder `{key}` that a message holds for a named value.
pub open spec fn placeholder(key: Seq<char>) -> Seq<char> {
    seq!['{'] + key + seq!['}']
}

/// The keys and values of a list of replacements.
pub open spec fn replacements_view(r: Seq<(&str, String)>) -> Seq<(Seq<char>, Seq<char>)> {
    r.map_values(|p: (&str, String)| (p.0@, p.1@))
}

/// `t` with, for each replacement in order, every `{key}` replaced by its
/// value.
pub open spec fn apply_all(t: Seq<char>, reps: Seq<(Seq<char>, Seq<char>)>) -> Seq<char>
    decreases reps.len(),
{
    if reps.len() == 0 {
        t
    } else {
        apply_all(replace_all(t, placeholder(reps[0].0), reps[0].1), reps.drop_first())
    }
}

/// Substitutes the named placeholders of an already translated message:
/// for each `(key, value)` in order, every `{key}` becomes `value`.
pub fn apply_replacements(translated: String, replacements: &[(&str, String)]) -> (r: String)
    ensures
        r@ == apply_all(translated@, replacements_view(replacements@)),
{
    let ghost reps = replacements_view(replacements@);
    let mut t = chars_of(translated.as_str());
    let mut i: usize = 0;
    assert(reps.skip(0) =~= reps);
    while i < replacements.len()
        invariant
            i <= replacements.len(),
            reps == replacements_view(replacements@),
            apply_all(translated@, reps) == apply_all(t@, reps.skip(i as int)),
        decreases replacements.len() - i,
    {
        let (key, value) = &replacements[i];
        let mut pat: Vec<char> = Vec::new();
        pat.push('{');
        let mut k = chars_of(key);
        pat.append(&mut k);
        pat.push('}');
        assert(pat@ =~= placeholder(reps[i as int].0));
        let v = chars_of(value.as_str());
        assert(reps.skip(i as int)[0] == reps[i as int]);
        assert(reps.skip(i as int).drop_first() =~= reps.skip(i + 1));
        t = replace_chars(&t, &pat, &v);
        i = i + 1;
    }
    assert(reps.skip(i as int) =~= seq![]);
    string_from_chars(&t, 0, t.len())
}

/// A message without the placeholder `{key}` is left unchanged by that
/// key's replacement; in particular a message without placeholders comes
/// out of [`apply_replacements`] as it went in.
pub proof fn law_absent_placeholder_is_kept(t: Seq<char>, key: Seq<char>, value: Seq<char>)
    requires
        !contains_seq(t, placeholder(key)),
    ensures
        replace_all(t, placeholder(key), value) == t,
        apply_all(t, seq![(key, value)]) == t,
{
    lemma_replace_absent(t, placeholder(key), value);
    let reps = seq![(key, value)];
    assert(reps[0] == (key, value));
    assert(reps.drop_first() =~= Seq::<(Seq<char>, Seq<char>)>::empty());
    assert(apply_all(t, reps.drop_first()) == t);
}

proof fn lemma_replace_after_plain_text(a: Seq<char>, rest: Seq<char>, key: Seq<char>, value: Seq<char>)
    requires
        forall|k: int| 0 <= k < a.len() ==> a[k] != '{',
    ensures
        replace_all(a + rest, placeholder(key), value) == a + replace_all(
            rest,
            placeholder(key),
            value,
        ),
    decreases a.len(),
{
    let p = placeholder(key);
    let s = a + rest;
    if a.len() == 0 {
        assert(s =~= rest);
        assert(a + replace_all(rest, p, value) =~= replace_all(rest, p, value));
    } else if s.len() < p.len() {
        assert(rest.len() < p.len());
        assert(a + rest =~= a + replace_all(rest, p, value));
    } else {
        assert(s.take(p.len() as int)[0] == a[0]);
        assert(p[0] == '{');
        assert(s.take(p.len() as int) != p);
        assert(s.drop_first() =~= a.drop_first() + rest);
        lemma_replace_after_plain_text(a.drop_first(), rest, key, value);
        assert(seq![a[0]] + (a.drop_first() + replace_all(rest, p, value)) =~= a + replace_all(
            rest,
            p,
            value,
        ));
    }
}

/// A message with one placeholder `{key}` and no other opening brace comes
/// out of the substitution with the value in the placeholder's place and
/// the text around it unchanged.
pub proof fn law_placeholder_is_replaced(
    before: Seq<char>,
    after: Seq<char>,
    key: Seq<char>,
    value: Seq<char>,
)
    requires
        forall|k: int| 0 <= k < before.len() ==> before[k] != '{',
        forall|k: int| 0 <= k < after.len() ==> after[k] != '{',
    ensures
        apply_all(before + placeholder(key) + after, seq![(key, value)]) == before + value + after,
{
    let p = placeholder(key);
    let t = before + p + after;
    assert(t =~= before + (p + after));
    lemma_replace_after_plain_text(before, p + after, key, value);
    assert((p + after).take(p.len() as int) =~= p);
    assert((p + after).skip(p.len() as int) =~= after);
    assert(!contains_seq(after, p)) by {
        if contains_seq(after, p) {
            let i = choose|i: int| occurs_at(after, p, i);
            assert(after.subrange(i, i + p.len())[0] == p[0]);
            assert(after[i] == '{');
        }
    }
    lemma_replace_absent(after, p, value);
    assert(replace_all(p + after, p, value) == value + after);
    let reps = seq![(key, value)];
    assert(reps[0] == (key, value));
    assert(reps.drop_first() =~= Seq::<(Seq<char>, Seq<char>)>::empty());
    assert(before + (value + after) =~= before + value + after);
    let r = replace_all(t, p, value);
    assert(r == before + value + after);
    assert(apply_all(r, reps.drop_first()) == r);
    assert(reps[0].0 == key && reps[0].1 == value);
    assert(apply_all(t, reps) == apply_all(r, reps.drop_first()));
}

} // verus!
