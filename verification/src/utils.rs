//! Suggestion helpers: edit distance, best-match lookup and ordinals.
use vstd::prelude::*;
use crate::text::{chars_of, dec_nat, push_char, usize_to_string};

verus! {

/// The smaller of two natural numbers.
pub open spec fn min_nat(a: nat, b: nat) -> nat {
    if a <= b { a } else { b }
}

/// Levenshtein edit distance between two character sequences: the least number of
/// single-character insertions, deletions and substitutions that turn `a` into `b`.
pub open spec fn edit_distance(a: Seq<char>, b: Seq<char>) -> nat
    decreases a.len() + b.len(),
{
    if a.len() == 0 {
        b.len()
    } else if b.len() == 0 {
        a.len()
    } else {
        let cost: nat = if a.last() == b.last() { 0 } else { 1 };
        min_nat(
            min_nat(edit_distance(a, b.drop_last()) + 1, edit_distance(a.drop_last(), b) + 1),
            edit_distance(a.drop_last(), b.drop_last()) + cost,
        )
    }
}

/// The edit distance never exceeds the length of the longer sequence.
pub proof fn lemma_edit_distance_bound(a: Seq<char>, b: Seq<char>)
    ensures
        edit_distance(a, b) <= if a.len() >= b.len() { a.len() } else { b.len() },
    decreases a.len() + b.len(),
{
    if a.len() > 0 && b.len() > 0 {
        lemma_edit_distance_bound(a.drop_last(), b.drop_last());
    }
}

/// Levenshtein distance between two strings, counted in characters.
pub fn levenshtein_distance(a: &str, b: &str) -> (r: usize)
    ensures
        r == edit_distance(a@, b@),
{
    let av = chars_of(a);
    let bv = chars_of(b);
    let b_len = bv.len();
    if av.len() == 0 {
        return b_len;
    }
    if b_len == 0 {
        return av.len();
    }
    let ghost sa = a@;
    let ghost sb = b@;
    let mut row: Vec<usize> = Vec::new();
    let mut k: usize = 0;
    while k < b_len
        invariant
            b_len == sb.len(),
            k <= b_len,
            row@.len() == k,
            forall|j: int| 0 <= j < k ==> row@[j] == edit_distance(sa.take(0), sb.take(j)),
        decreases b_len + 1 - k,
    {
        proof {
            assert(sa.take(0) =~= Seq::<char>::empty());
        }
        row.push(k);
        k = k + 1;
    }
    proof {
        assert(sa.take(0) =~= Seq::<char>::empty());
        assert(sb.take(b_len as int) =~= sb);
    }
    row.push(b_len);
    let mut i: usize = 0;
    while i < av.len()
        invariant
            av@ == sa,
            bv@ == sb,
            b_len == sb.len(),
            i <= sa.len(),
            row@.len() == b_len + 1,
            forall|j: int| 0 <= j <= b_len ==> #[trigger] row@[j] == edit_distance(sa.take(i as int), sb.take(j)),
        decreases sa.len() - i,
    {
        let char_a = av[i];
        let ghost a0 = sa.take(i as int);
        let ghost a1 = sa.take(i + 1);
        assert(a1.drop_last() =~= a0);
        assert(a1.last() == char_a);
        let mut previous_diagonal = row[0];
        proof {
            lemma_edit_distance_bound(a1, sb.take(0));
            assert(sb.take(0) =~= Seq::<char>::empty());
        }
        row.set(0, i + 1);
        let mut j: usize = 0;
        while j < b_len
            invariant
                av@ == sa,
                bv@ == sb,
                b_len == sb.len(),
                i < sa.len(),
                a0 == sa.take(i as int),
                a1 == sa.take(i + 1),
                a1.drop_last() == a0,
                a1.last() == char_a,
                j <= b_len,
                row@.len() == b_len + 1,
                previous_diagonal == edit_distance(a0, sb.take(j as int)),
                forall|k: int| 0 <= k <= j ==> #[trigger] row@[k] == edit_distance(a1, sb.take(k)),
                forall|k: int| j < k <= b_len ==> #[trigger] row@[k] == edit_distance(a0, sb.take(k)),
            decreases b_len - j,
        {
            let char_b = bv[j];
            let old_row_j = row[j + 1];
            let ghost b1 = sb.take(j + 1);
            assert(b1.drop_last() =~= sb.take(j as int));
            assert(b1.last() == char_b);
            proof {
                lemma_edit_distance_bound(a1, b1);
                lemma_edit_distance_bound(a1, sb.take(j as int));
                lemma_edit_distance_bound(a0, b1);
                lemma_edit_distance_bound(a0, sb.take(j as int));
                assert(a0.len() == i);
                assert(sb.take(j as int).len() == j);
                assert(av@.len() == av.len());
                assert(i < usize::MAX);
                assert(j < usize::MAX);
                assert(previous_diagonal < usize::MAX);
            }
            let cost: usize = if char_a == char_b { 0 } else { 1 };
            let z = previous_diagonal + cost;
            let m0 = if row[j] <= row[j + 1] { row[j] } else { row[j + 1] };
            let m = if m0 < z { m0 + 1 } else { z };
            row.set(j + 1, m);
            previous_diagonal = old_row_j;
            j = j + 1;
        }
        i = i + 1;
    }
    assert(sa.take(sa.len() as int) =~= sa);
    assert(sb.take(b_len as int) =~= sb);
    row[b_len]
}

/// The texts of a list of strings.
pub open spec fn names_view(v: Seq<String>) -> Seq<Seq<char>> {
    v.map_values(|x: String| x@)
}

/// Name `i` is the best match for `input`: within distance 3, no farther than any other
/// name within distance 3, and strictly closer than every earlier name.
pub open spec fn is_best_match(input: Seq<char>, names: Seq<Seq<char>>, i: int) -> bool {
    &&& 0 <= i < names.len()
    &&& edit_distance(input, names[i]) <= 3
    &&& forall|j: int| 0 <= j < names.len() && edit_distance(input, #[trigger] names[j]) <= 3
            ==> edit_distance(input, names[i]) <= edit_distance(input, names[j])
    &&& forall|j: int| 0 <= j < i
            ==> edit_distance(input, names[i]) < edit_distance(input, #[trigger] names[j])
}

/// The name closest to `input` (the first of the closest), if one is within distance 3.
pub open spec fn best_match(input: Seq<char>, names: Seq<Seq<char>>) -> Option<Seq<char>> {
    if exists|i: int| is_best_match(input, names, i) {
        Some(names[choose|i: int| is_best_match(input, names, i)])
    } else {
        None
    }
}

/// At most one name is the best match.
pub proof fn lemma_best_match_unique(input: Seq<char>, names: Seq<Seq<char>>, i: int, j: int)
    requires
        is_best_match(input, names, i),
        is_best_match(input, names, j),
    ensures
        i == j,
{
    if i < j {
        assert(edit_distance(input, names[j]) < edit_distance(input, names[i]));
    } else if j < i {
        assert(edit_distance(input, names[i]) < edit_distance(input, names[j]));
    }
}

/// The best match is the name at the best index; there is none exactly when every
/// name is farther than 3.
pub proof fn lemma_best_match(input: Seq<char>, names: Seq<Seq<char>>)
    ensures
        best_match(input, names) is None <==> forall|j: int| 0 <= j < names.len()
            ==> edit_distance(input, #[trigger] names[j]) > 3,
        forall|i: int| #[trigger] is_best_match(input, names, i) ==> best_match(input, names) == Some(names[i]),
{
    assert forall|i: int| #[trigger] is_best_match(input, names, i) implies best_match(input, names) == Some(names[i]) by {
        let c = choose|k: int| is_best_match(input, names, k);
        lemma_best_match_unique(input, names, i, c);
    }
    if !(forall|j: int| 0 <= j < names.len() ==> edit_distance(input, #[trigger] names[j]) > 3) {
        let j0 = choose|j: int| 0 <= j < names.len() && edit_distance(input, #[trigger] names[j]) <= 3;
        lemma_best_exists(input, names, j0);
    }
}

/// Some name is the best match as soon as one is within distance 3.
proof fn lemma_best_exists(input: Seq<char>, names: Seq<Seq<char>>, j0: int)
    requires
        0 <= j0 < names.len(),
        edit_distance(input, names[j0]) <= 3,
    ensures
        exists|i: int| is_best_match(input, names, i),
{
    // The first name at the least distance among those within 3.
    let d = least_distance(input, names, j0, 0);
    lemma_least_distance(input, names, j0, 0);
    let i = first_at(input, names, d);
    lemma_first_at(input, names, d, j0);
    assert(is_best_match(input, names, i));
}

/// The least distance to `input` among the names from index `k` on that are within
/// distance `edit_distance(input, names[j0])`, starting from that bound.
spec fn least_distance(input: Seq<char>, names: Seq<Seq<char>>, j0: int, k: int) -> nat
    decreases names.len() - k,
{
    if k >= names.len() || k < 0 {
        edit_distance(input, names[j0])
    } else {
        let rest = least_distance(input, names, j0, k + 1);
        let dk = edit_distance(input, names[k]);
        if dk < rest { dk } else { rest }
    }
}

proof fn lemma_least_distance(input: Seq<char>, names: Seq<Seq<char>>, j0: int, k: int)
    requires
        0 <= j0 < names.len(),
        0 <= k <= names.len(),
    ensures
        least_distance(input, names, j0, k) <= edit_distance(input, names[j0]),
        forall|j: int| k <= j < names.len() ==> least_distance(input, names, j0, k) <= edit_distance(input, #[trigger] names[j]),
        exists|j: int| 0 <= j < names.len() && least_distance(input, names, j0, k) == edit_distance(input, #[trigger] names[j]),
    decreases names.len() - k,
{
    if k < names.len() {
        lemma_least_distance(input, names, j0, k + 1);
        let rest = least_distance(input, names, j0, k + 1);
        let dk = edit_distance(input, names[k]);
        if dk < rest {
            assert(least_distance(input, names, j0, k) == edit_distance(input, names[k]));
        }
    } else {
        assert(least_distance(input, names, j0, k) == edit_distance(input, names[j0]));
    }
}

/// The first index whose name is at distance `d` (the length when there is none).
spec fn first_at(input: Seq<char>, names: Seq<Seq<char>>, d: nat) -> int
    decreases names.len(),
{
    if names.len() == 0 {
        0
    } else {
        let i = first_at(input, names.drop_last(), d);
        if i < names.len() - 1 { i }
        else if edit_distance(input, names.last()) == d { names.len() - 1 }
        else { names.len() as int }
    }
}

proof fn lemma_first_at(input: Seq<char>, names: Seq<Seq<char>>, d: nat, j0: int)
    requires
        0 <= j0 < names.len(),
        d == least_distance(input, names, j0, 0),
    ensures
        ({
            let i = first_at(input, names, d);
            &&& 0 <= i < names.len()
            &&& edit_distance(input, names[i]) == d
            &&& forall|j: int| 0 <= j < i ==> edit_distance(input, #[trigger] names[j]) != d
        }),
{
    lemma_least_distance(input, names, j0, 0);
    let w = choose|j: int| 0 <= j < names.len() && d == edit_distance(input, #[trigger] names[j]);
    lemma_first_at_prefix(input, names, d, w);
}

proof fn lemma_first_at_prefix(input: Seq<char>, names: Seq<Seq<char>>, d: nat, w: int)
    requires
        0 <= w < names.len(),
        edit_distance(input, names[w]) == d,
    ensures
        ({
            let i = first_at(input, names, d);
            &&& 0 <= i <= w
            &&& edit_distance(input, names[i]) == d
            &&& forall|j: int| 0 <= j < i ==> edit_distance(input, #[trigger] names[j]) != d
        }),
    decreases names.len(),
{
    let n = names.len() - 1;
    let p = names.drop_last();
    if w < n {
        lemma_first_at_prefix(input, p, d, w);
        assert forall|j: int| 0 <= j < first_at(input, p, d) implies edit_distance(input, #[trigger] names[j]) != d by {
            assert(names[j] == p[j]);
        }
        assert(names[first_at(input, p, d)] == p[first_at(input, p, d)]);
    } else {
        lemma_first_at_none(input, p, d);
        let i = first_at(input, p, d);
        if i < n {
            assert forall|j: int| 0 <= j < i implies edit_distance(input, #[trigger] names[j]) != d by {
                assert(names[j] == p[j]);
            }
            assert(names[i] == p[i]);
        } else {
            assert forall|j: int| 0 <= j < n implies edit_distance(input, #[trigger] names[j]) != d by {
                assert(names[j] == p[j]);
            }
        }
    }
}

proof fn lemma_first_at_none(input: Seq<char>, names: Seq<Seq<char>>, d: nat)
    ensures
        ({
            let i = first_at(input, names, d);
            &&& 0 <= i <= names.len()
            &&& i < names.len() ==> edit_distance(input, names[i]) == d
            &&& forall|j: int| 0 <= j < i ==> edit_distance(input, #[trigger] names[j]) != d
        }),
    decreases names.len(),
{
    if names.len() > 0 {
        let p = names.drop_last();
        lemma_first_at_none(input, p, d);
        let i = first_at(input, p, d);
        assert forall|j: int| 0 <= j < i implies edit_distance(input, #[trigger] names[j]) != d by {
            assert(names[j] == p[j]);
        }
        if i < p.len() {
            assert(names[i] == p[i]);
        } else {
            assert forall|j: int| 0 <= j < p.len() implies edit_distance(input, #[trigger] names[j]) != d by {
                assert(names[j] == p[j]);
            }
        }
    }
}

/// `Did you mean "x"?` for the best match `x` of `input` among `names`, if there is one.
pub open spec fn suggestion(input: Seq<char>, names: Seq<Seq<char>>) -> Option<Seq<char>> {
    match best_match(input, names) {
        Some(x) => Some("Did you mean \""@ + x + "\"?"@),
        None => None,
    }
}

/// Among `candidates`, the first one at minimal edit distance from `input`, provided
/// that distance is at most 3.
pub fn find_best_match(input: &str, candidates: &Vec<String>) -> (r: Option<String>)
    ensures
        match r {
            Some(s) => best_match(input@, names_view(candidates@)) == Some(s@),
            None => best_match(input@, names_view(candidates@)) is None,
        },
{
    let ghost names = names_view(candidates@);
    proof { lemma_best_match(input@, names); }
    let mut best: Option<(usize, usize)> = None;
    let mut k: usize = 0;
    while k < candidates.len()
        invariant
            k <= candidates@.len(),
            names == names_view(candidates@),
            names.len() == candidates@.len(),
            best is None <==> forall|j: int| 0 <= j < k ==> edit_distance(input@, #[trigger] names[j]) > 3,
            best matches Some((bi, bd)) ==> {
                &&& bi < k
                &&& bd == edit_distance(input@, names[bi as int])
                &&& bd <= 3
                &&& forall|j: int| 0 <= j < k && edit_distance(input@, #[trigger] names[j]) <= 3 ==> bd <= edit_distance(input@, names[j])
                &&& forall|j: int| 0 <= j < bi ==> bd < edit_distance(input@, #[trigger] names[j])
            },
        decreases candidates@.len() - k,
    {
        let dist = levenshtein_distance(input, candidates[k].as_str());
        assert(names[k as int] == candidates@[k as int]@);
        if dist <= 3 {
            match best {
                None => {
                    best = Some((k, dist));
                },
                Some((_, bd)) => {
                    if dist < bd {
                        best = Some((k, dist));
                    }
                },
            }
        }
        k = k + 1;
    }
    match best {
        None => None,
        Some((bi, _)) => {
            assert(is_best_match(input@, names, bi as int));
            Some(candidates[bi].clone())
        },
    }
}

/// The English ordinal suffix of `n`: "st", "nd", "rd" or "th".
pub open spec fn ordinal_suffix(n: nat) -> Seq<char> {
    if n % 10 == 1 && n % 100 != 11 {
        seq!['s', 't']
    } else if n % 10 == 2 && n % 100 != 12 {
        seq!['n', 'd']
    } else if n % 10 == 3 && n % 100 != 13 {
        seq!['r', 'd']
    } else {
        seq!['t', 'h']
    }
}

/// The ordinal of `n` in English, e.g. "1st", "12th", "23rd".
pub fn ordinal(n: usize) -> (r: String)
    ensures
        r@ == dec_nat(n as nat) + ordinal_suffix(n as nat),
{
    let mut s = usize_to_string(n);
    if n % 10 == 1 && n % 100 != 11 {
        push_char(&mut s, 's');
        push_char(&mut s, 't');
    } else if n % 10 == 2 && n % 100 != 12 {
        push_char(&mut s, 'n');
        push_char(&mut s, 'd');
    } else if n % 10 == 3 && n % 100 != 13 {
        push_char(&mut s, 'r');
        push_char(&mut s, 'd');
    } else {
        push_char(&mut s, 't');
        push_char(&mut s, 'h');
    }
    assert(s@ =~= dec_nat(n as nat) + ordinal_suffix(n as nat));
    s
}

} // verus!
