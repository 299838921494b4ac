//! The order of names: strings compared character by character, as `String`
//! orders them (comparing UTF-8 bytes orders the same as comparing code points).
use vstd::prelude::*;
use vstd::string::StrSliceExecFns;

verus! {

/// `a` comes strictly before `b`: at the first position where they differ the
/// character of `a` is smaller, or `a` is a proper prefix of `b`
pub open spec fn spec_str_lt(a: Seq<char>, b: Seq<char>) -> bool
    decreases a.len(),
{
    if a.len() == 0 {
        b.len() > 0
    } else if b.len() == 0 {
        false
    } else if a[0] != b[0] {
        a[0] < b[0]
    } else {
        spec_str_lt(a.drop_first(), b.drop_first())
    }
}

/// The names in `s` are in strictly increasing order
pub open spec fn spec_strictly_sorted(s: Seq<String>) -> bool {
    forall|i: int, j: int| 0 <= i < j < s.len() ==> spec_str_lt(#[trigger] s[i]@, #[trigger] s[j]@)
}

/// No name comes before itself
pub proof fn lemma_str_lt_irreflexive(a: Seq<char>)
    ensures
        !spec_str_lt(a, a),
    decreases a.len(),
{
    if a.len() > 0 {
        lemma_str_lt_irreflexive(a.drop_first());
    }
}

/// Of two different names one comes before the other
pub proof fn lemma_str_lt_total(a: Seq<char>, b: Seq<char>)
    requires
        a != b,
    ensures
        spec_str_lt(a, b) || spec_str_lt(b, a),
    decreases a.len(),
{
    if a.len() > 0 && b.len() > 0 && a[0] == b[0] {
        if a.drop_first() == b.drop_first() {
            assert(a =~= seq![a[0]] + a.drop_first());
            assert(b =~= seq![b[0]] + b.drop_first());
        }
        lemma_str_lt_total(a.drop_first(), b.drop_first());
    } else if a.len() == 0 && b.len() == 0 {
        assert(a =~= b);
    }
}

/// The order of names is transitive
pub proof fn lemma_str_lt_transitive(a: Seq<char>, b: Seq<char>, c: Seq<char>)
    requires
        spec_str_lt(a, b),
        spec_str_lt(b, c),
    ensures
        spec_str_lt(a, c),
    decreases a.len(),
{
    if a.len() > 0 && b.len() > 0 && c.len() > 0 && a[0] == b[0] && b[0] == c[0] {
        lemma_str_lt_transitive(a.drop_first(), b.drop_first(), c.drop_first());
    }
}

/// Whether `a` comes strictly before `b`
pub fn str_lt(a: &String, b: &String) -> (r: bool)
    ensures
        r == spec_str_lt(a@, b@),
{
    let sa = a.as_str();
    let sb = b.as_str();
    let la = sa.unicode_len();
    let lb = sb.unicode_len();
    let mut i: usize = 0;
    assert(a@.skip(0) =~= a@);
    assert(b@.skip(0) =~= b@);
    while i < la && i < lb
        invariant
            la == a@.len(),
            lb == b@.len(),
            sa@ == a@,
            sb@ == b@,
            i <= la,
            i <= lb,
            spec_str_lt(a@, b@) == spec_str_lt(a@.skip(i as int), b@.skip(i as int)),
        decreases la - i,
    {
        let ca = sa.get_char(i);
        let cb = sb.get_char(i);
        assert(a@.skip(i as int)[0] == ca);
        assert(b@.skip(i as int)[0] == cb);
        if ca != cb {
            return ca < cb;
        }
        assert(a@.skip(i as int).drop_first() =~= a@.skip(i + 1));
        assert(b@.skip(i as int).drop_first() =~= b@.skip(i + 1));
        i = i + 1;
    }
    i < lb
}

/// Put `name` in its place in the strictly sorted `names`, unless a name
/// equal to it is there; whether it was put in
pub fn insert_sorted(names: &mut Vec<String>, name: String) -> (inserted: bool)
    requires
        spec_strictly_sorted(old(names)@),
    ensures
        spec_strictly_sorted(final(names)@),
        inserted ==> exists|p: int|
            0 <= p <= old(names)@.len() && final(names)@ == old(names)@.insert(p, name),
        !inserted ==> final(names)@ == old(names)@ && exists|j: int|
            0 <= j < old(names)@.len() && (#[trigger] old(names)@[j])@ == name@,
{
    let mut p: usize = 0;
    while p < names.len() && str_lt(&names[p], &name)
        invariant
            0 <= p <= names.len(),
            names@ == old(names)@,
            spec_strictly_sorted(old(names)@),
            forall|j: int| 0 <= j < p ==> spec_str_lt((#[trigger] names@[j])@, name@),
        decreases names.len() - p,
    {
        p = p + 1;
    }
    if p < names.len() && names[p] == name {
        return false;
    }
    let ghost before = names@;
    proof {
        if p < before.len() {
            // `name` is not after names[p], and differs from it: it is before
            assert(!spec_str_lt(before[p as int]@, name@));
            lemma_str_lt_total(before[p as int]@, name@);
            // and so before every later name
            assert forall|q: int| p <= q < before.len() implies spec_str_lt(name@, #[trigger] before[q]@) by {
                if q > p {
                    assert(spec_str_lt(before[p as int]@, before[q]@));
                    lemma_str_lt_transitive(name@, before[p as int]@, before[q]@);
                }
            }
        }
    }
    names.insert(p, name);
    proof {
        let after = names@;
        assert forall|i: int, j: int| 0 <= i < j < after.len() implies spec_str_lt(
            #[trigger] after[i]@,
            #[trigger] after[j]@,
        ) by {
            if j < p {
                assert(after[i] == before[i] && after[j] == before[j]);
            } else if j == p {
                assert(after[i] == before[i]);
            } else if i == p {
                assert(after[j] == before[j - 1]);
                assert(spec_str_lt(name@, before[j - 1]@));
            } else if i < p {
                assert(after[i] == before[i] && after[j] == before[j - 1]);
                assert(spec_str_lt(name@, before[j - 1]@));
                lemma_str_lt_transitive(before[i]@, name@, before[j - 1]@);
            } else {
                assert(after[i] == before[i - 1] && after[j] == before[j - 1]);
            }
        }
    }
    true
}

/// Some name among the first `upto` of `s` is `n`
pub open spec fn spec_named_in(s: Seq<String>, upto: int, n: Seq<char>) -> bool {
    exists|k: int| 0 <= k < upto && (#[trigger] s[k])@ == n
}

/// The names of `v` in strictly increasing order, each once: a name is in the
/// result exactly when it is in `v`
pub fn sort_names(v: Vec<String>) -> (r: Vec<String>)
    ensures
        spec_strictly_sorted(r@),
        forall|i: int| 0 <= i < r@.len() ==> spec_named_in(v@, v@.len() as int, (#[trigger] r@[i])@),
        forall|k: int| 0 <= k < v@.len() ==> spec_named_in(r@, r@.len() as int, (#[trigger] v@[k])@),
{
    let mut r: Vec<String> = Vec::new();
    let mut i: usize = 0;
    while i < v.len()
        invariant
            0 <= i <= v.len(),
            spec_strictly_sorted(r@),
            forall|j: int| 0 <= j < r@.len() ==> spec_named_in(v@, i as int, (#[trigger] r@[j])@),
            forall|k: int| 0 <= k < i ==> spec_named_in(r@, r@.len() as int, (#[trigger] v@[k])@),
        decreases v.len() - i,
    {
        let ghost before = r@;
        let name = v[i].clone();
        let inserted = insert_sorted(&mut r, name);
        proof {
            let after = r@;
            assert(v@[i as int]@ == name@);
            if inserted {
                let p = choose|p: int| 0 <= p <= before.len() && after == before.insert(p, name);
                assert forall|j: int| 0 <= j < after.len() implies spec_named_in(
                    v@,
                    i + 1,
                    (#[trigger] after[j])@,
                ) by {
                    if j < p {
                        assert(after[j] == before[j]);
                        assert(spec_named_in(v@, i as int, before[j]@));
                    } else if j == p {
                        assert(v@[i as int]@ == after[j]@);
                    } else {
                        assert(after[j] == before[j - 1]);
                        assert(spec_named_in(v@, i as int, before[j - 1]@));
                    }
                }
                assert forall|k: int| 0 <= k < i + 1 implies spec_named_in(
                    after,
                    after.len() as int,
                    (#[trigger] v@[k])@,
                ) by {
                    if k < i {
                        assert(spec_named_in(before, before.len() as int, v@[k]@));
                        let j = choose|j: int| 0 <= j < before.len() && (#[trigger] before[j])@ == v@[k]@;
                        if j < p {
                            assert(after[j] == before[j]);
                        } else {
                            assert(after[j + 1] == before[j]);
                        }
                    } else {
                        assert(after[p] == name);
                    }
                }
            } else {
                assert forall|j: int| 0 <= j < after.len() implies spec_named_in(
                    v@,
                    i + 1,
                    (#[trigger] after[j])@,
                ) by {
                    assert(spec_named_in(v@, i as int, after[j]@));
                }
                assert forall|k: int| 0 <= k < i + 1 implies spec_named_in(
                    after,
                    after.len() as int,
                    (#[trigger] v@[k])@,
                ) by {
                    if k == i {
                        let j = choose|j: int| 0 <= j < before.len() && (#[trigger] before[j])@ == name@;
                        assert(after[j]@ == v@[k]@);
                    }
                }
            }
        }
        i = i + 1;
    }
    r
}

} // verus!
