//! "Did you mean" support for unknown transporter names: Levenshtein
//! distance, the closest registered name, and the diagnostic text.

use vstd::prelude::*;

use crate::text::{
    chars_of, join, join_strings, owned, starts_with, starts_with_chars, string_views,
};

verus! {

/// Levenshtein distance: the fewest single-character insertions,
/// deletions and substitutions turning `a` into `b`.
pub open spec fn lev(a: Seq<char>, b: Seq<char>) -> nat
    decreases a.len() + b.len(),
{
    if a.len() == 0 {
        b.len()
    } else if b.len() == 0 {
        a.len()
    } else {
        let del = lev(a.drop_last(), b) + 1;
        let ins = lev(a, b.drop_last()) + 1;
        let sub = lev(a.drop_last(), b.drop_last()) + if a.last() == b.last() {
            0nat
        } else {
            1nat
        };
        min3(del, ins, sub)
    }
}

pub open spec fn min3(x: nat, y: nat, z: nat) -> nat {
    let m = if x < y {
        x
    } else {
        y
    };
    if m < z {
        m
    } else {
        z
    }
}

pub open spec fn max2(x: nat, y: nat) -> nat {
    if x < y {
        y
    } else {
        x
    }
}

/// The distance never exceeds the longer length.
pub proof fn lemma_lev_bound(a: Seq<char>, b: Seq<char>)
    ensures
        lev(a, b) <= max2(a.len(), b.len()),
    decreases a.len() + b.len(),
{
    if a.len() > 0 && b.len() > 0 {
        lemma_lev_bound(a.drop_last(), b.drop_last());
    }
}

/// The length difference of two sequences.
pub open spec fn len_gap(a: Seq<char>, b: Seq<char>) -> nat {
    if a.len() >= b.len() {
        (a.len() - b.len()) as nat
    } else {
        (b.len() - a.len()) as nat
    }
}

proof fn lemma_lev_symmetric(a: Seq<char>, b: Seq<char>)
    ensures
        lev(a, b) == lev(b, a),
    decreases a.len() + b.len(),
{
    if a.len() > 0 && b.len() > 0 {
        lemma_lev_symmetric(a.drop_last(), b);
        lemma_lev_symmetric(a, b.drop_last());
        lemma_lev_symmetric(a.drop_last(), b.drop_last());
    }
}

proof fn lemma_lev_self(a: Seq<char>)
    ensures
        lev(a, a) == 0,
    decreases a.len(),
{
    if a.len() > 0 {
        lemma_lev_self(a.drop_last());
    }
}

proof fn lemma_lev_zero(a: Seq<char>, b: Seq<char>)
    requires
        lev(a, b) == 0,
    ensures
        a == b,
    decreases a.len() + b.len(),
{
    if a.len() == 0 {
        assert(b.len() == 0);
        assert(a =~= b);
    } else if b.len() == 0 {
    } else {
        lemma_lev_zero(a.drop_last(), b.drop_last());
        assert(a =~= a.drop_last().push(a.last()));
        assert(b =~= b.drop_last().push(b.last()));
    }
}

proof fn lemma_lev_gap(a: Seq<char>, b: Seq<char>)
    ensures
        len_gap(a, b) <= lev(a, b),
    decreases a.len() + b.len(),
{
    if a.len() > 0 && b.len() > 0 {
        lemma_lev_gap(a.drop_last(), b);
        lemma_lev_gap(a, b.drop_last());
        lemma_lev_gap(a.drop_last(), b.drop_last());
    }
}

/// Levenshtein distance is a distance on the characters of strings: it is
/// symmetric, zero exactly between equal strings, and lies between the
/// difference of the lengths and the longer length.
pub proof fn law_edit_distance_metric(a: Seq<char>, b: Seq<char>)
    ensures
        lev(a, b) == lev(b, a),
        lev(a, b) == 0 <==> a == b,
        len_gap(a, b) <= lev(a, b) <= max2(a.len(), b.len()),
{
    lemma_lev_symmetric(a, b);
    if lev(a, b) == 0 {
        lemma_lev_zero(a, b);
    }
    if a == b {
        lemma_lev_self(a);
    }
    lemma_lev_gap(a, b);
    lemma_lev_bound(a, b);
}

/// The distance between prefixes: `d(i, j) = lev(a[..i], b[..j])`.
pub open spec fn d(a: Seq<char>, b: Seq<char>, i: int, j: int) -> nat {
    lev(a.take(i), b.take(j))
}

proof fn lemma_d_step(a: Seq<char>, b: Seq<char>, i: int, j: int)
    requires
        0 <= i < a.len(),
        0 <= j < b.len(),
    ensures
        d(a, b, i + 1, j + 1) == min3(
            d(a, b, i, j + 1) + 1,
            d(a, b, i + 1, j) + 1,
            d(a, b, i, j) + if a[i] == b[j] {
                0nat
            } else {
                1nat
            },
        ),
{
    assert(a.take(i + 1).drop_last() == a.take(i));
    assert(b.take(j + 1).drop_last() == b.take(j));
    assert(a.take(i + 1).last() == a[i]);
    assert(b.take(j + 1).last() == b[j]);
}

proof fn lemma_d_edges(a: Seq<char>, b: Seq<char>, i: int, j: int)
    requires
        0 <= i <= a.len(),
        0 <= j <= b.len(),
    ensures
        d(a, b, 0, j) == j,
        d(a, b, i, 0) == i,
        d(a, b, i, j) <= max2(a.len(), b.len()),
{
    lemma_lev_bound(a.take(i), b.take(j));
}

/// Levenshtein distance between two strings, computed over their
/// characters with the classic two-row dynamic program.
pub fn edit_distance(a: &str, b: &str) -> (r: usize)
    requires
        a@.len() < usize::MAX,
        b@.len() < usize::MAX,
    ensures
        r == lev(a@, b@),
{
    let av = chars_of(a);
    let bv = chars_of(b);
    let m = av.len();
    let n = bv.len();
    let mut prev: Vec<usize> = Vec::new();
    let mut k: usize = 0;
    while k <= n
        invariant
            k <= n + 1,
            n < usize::MAX,
            n == bv@.len(),
            prev@.len() == k,
            forall|j: int| 0 <= j < k ==> prev@[j] == j,
        decreases n + 1 - k,
    {
        prev.push(k);
        k = k + 1;
    }
    let mut curr: Vec<usize> = prev.clone();
    proof {
        assert forall|j: int| 0 <= j <= n implies prev@[j] == d(av@, bv@, 0, j) by {
            lemma_d_edges(av@, bv@, 0, j);
        }
    }
    let mut i: usize = 0;
    while i < m
        invariant
            m == av@.len(),
            n == bv@.len(),
            m < usize::MAX,
            n < usize::MAX,
            i <= m,
            prev@.len() == n + 1,
            curr@.len() == n + 1,
            forall|j: int| 0 <= j <= n ==> prev@[j] == d(av@, bv@, i as int, j),
        decreases m - i,
    {
        proof {
            lemma_d_edges(av@, bv@, i + 1, 0);
        }
        curr.set(0, i + 1);
        let mut j: usize = 0;
        while j < n
            invariant
                m == av@.len(),
                n == bv@.len(),
                m < usize::MAX,
                n < usize::MAX,
                i < m,
                j <= n,
                prev@.len() == n + 1,
                curr@.len() == n + 1,
                forall|k: int| 0 <= k <= n ==> prev@[k] == d(av@, bv@, i as int, k),
                forall|k: int| 0 <= k <= j ==> curr@[k] == d(av@, bv@, i + 1, k),
            decreases n - j,
        {
            proof {
                lemma_d_step(av@, bv@, i as int, j as int);
                lemma_d_edges(av@, bv@, i as int, j + 1);
                lemma_d_edges(av@, bv@, i + 1, j as int);
                lemma_d_edges(av@, bv@, i as int, j as int);
            }
            let cost: usize = if av[i] != bv[j] {
                1
            } else {
                0
            };
            let del = prev[j + 1] + 1;
            let ins = curr[j] + 1;
            let sub = prev[j] + cost;
            let best = if del < ins {
                del
            } else {
                ins
            };
            let best = if best < sub {
                best
            } else {
                sub
            };
            curr.set(j + 1, best);
            j = j + 1;
        }
        std::mem::swap(&mut prev, &mut curr);
        i = i + 1;
    }
    assert(av@.take(m as int) == av@);
    assert(bv@.take(n as int) == bv@);
    prev[n]
}

/// `name` counts as close to `input`: within two edits, or `input` is a
/// prefix of it.
pub open spec fn is_close(input: Seq<char>, name: Seq<char>) -> bool {
    lev(input, name) <= 2 || starts_with(name, input)
}

/// `i` picks the closest name: it is close, strictly closer than every
/// earlier close name, and no later close name is closer.
pub open spec fn is_closest(input: Seq<char>, names: Seq<Seq<char>>, i: int) -> bool {
    &&& 0 <= i < names.len()
    &&& is_close(input, names[i])
    &&& forall|j: int|
        0 <= j < i && is_close(input, #[trigger] names[j]) ==> lev(input, names[j]) > lev(
            input,
            names[i],
        )
    &&& forall|j: int|
        i < j < names.len() && is_close(input, #[trigger] names[j]) ==> lev(input, names[j])
            >= lev(input, names[i])
}

/// The closest registered name for the "did you mean" hint: the first name
/// at the least distance among the close ones, if any is close.
pub fn closest_name<'a>(input: &str, names: &'a Vec<String>) -> (r: Option<&'a String>)
    requires
        input@.len() < usize::MAX,
        forall|i: int| 0 <= i < names@.len() ==> (#[trigger] names@[i])@.len() < usize::MAX,
    ensures
        r is None <==> forall|i: int|
            0 <= i < names@.len() ==> !is_close(input@, #[trigger] string_views(names@)[i]),
        r matches Some(n) ==> exists|i: int|
            is_closest(input@, string_views(names@), i) && names@[i] == n,
{
    let ghost ns = string_views(names@);
    let iv = chars_of(input);
    let mut best: Option<(usize, usize)> = None;
    for k in 0..names.len()
        invariant
            ns == string_views(names@),
            iv@ == input@,
            input@.len() < usize::MAX,
            forall|i: int| 0 <= i < names@.len() ==> (#[trigger] names@[i])@.len() < usize::MAX,
            best is None ==> forall|j: int| 0 <= j < k ==> !is_close(input@, #[trigger] ns[j]),
            best matches Some(b) ==> {
                &&& b.0 < k
                &&& b.1 == lev(input@, ns[b.0 as int])
                &&& is_close(input@, ns[b.0 as int])
                &&& forall|j: int|
                    0 <= j < b.0 && is_close(input@, #[trigger] ns[j]) ==> lev(input@, ns[j])
                        > b.1
                &&& forall|j: int|
                    b.0 < j < k && is_close(input@, #[trigger] ns[j]) ==> lev(input@, ns[j])
                        >= b.1
            },
    {
        let name = &names[k];
        assert(ns[k as int] == name@);
        let dist = edit_distance(input, name.as_str());
        let nv = chars_of(name.as_str());
        let close = dist <= 2 || starts_with_chars(&nv, &iv);
        let better = match best {
            None => true,
            Some((_, best_dist)) => dist < best_dist,
        };
        if close && better {
            best = Some((k, dist));
        }
    }
    match best {
        Some((k, _)) => Some(&names[k]),
        None => None,
    }
}

/// The diagnostic for an unknown transporter: the offending value, every
/// registered name, and a hint when one name is close.
pub open spec fn unknown_transporter_text(
    value: Seq<char>,
    label: Seq<char>,
    names: Seq<Seq<char>>,
    hint: Option<Seq<char>>,
) -> Seq<char> {
    "invalid value '"@ + value + "' for '"@ + label + "'"@ + "\n  [possible values: "@ + join(
        names,
        ", "@,
    ) + "]"@ + match hint {
        Some(h) => "\n\n  tip: a similar value exists: '"@ + h + "'"@,
        None => Seq::empty(),
    }
}

/// Builds the unknown-transporter diagnostic (`label` names the argument,
/// e.g. `<TRANSPORTER>`).
pub fn unknown_transporter_message(value: &str, label: &str, names: &Vec<String>) -> (r: String)
    requires
        value@.len() < usize::MAX,
        forall|i: int| 0 <= i < names@.len() ==> (#[trigger] names@[i])@.len() < usize::MAX,
    ensures
        exists|hint: Option<Seq<char>>|
            {
                &&& r@ == unknown_transporter_text(value@, label@, string_views(names@), hint)
                &&& hint is None <==> forall|i: int|
                    0 <= i < names@.len() ==> !is_close(value@, #[trigger] string_views(names@)[i])
                &&& hint matches Some(h) ==> exists|i: int|
                    is_closest(value@, string_views(names@), i) && string_views(names@)[i] == h
            },
{
    let mut r = owned("invalid value '");
    r.append(value);
    r.append("' for '");
    r.append(label);
    r.append("'");
    r.append("\n  [possible values: ");
    let joined = join_strings(names, ", ");
    r.append(joined.as_str());
    r.append("]");
    match closest_name(value, names) {
        Some(best) => {
            r.append("\n\n  tip: a similar value exists: '");
            r.append(best.as_str());
            r.append("'");
            assert(r@ == unknown_transporter_text(
                value@,
                label@,
                string_views(names@),
                Some(best@),
            ));
        },
        None => {
            assert(r@ == unknown_transporter_text(value@, label@, string_views(names@), None));
        },
    }
    r
}

} // verus!
