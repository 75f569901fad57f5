//! The order in which names are listed: the lexicographic order of their
//! characters, each compared by its code point.

use vstd::prelude::*;
use vstd::std_specs::iter::IteratorSpec;

verus! {

/// Whether `a` comes before `b`: at the first place where they differ `a` has
/// the smaller character, or `a` ends there and `b` goes on.
pub open spec fn precedes(a: Seq<char>, b: Seq<char>) -> bool
    decreases a.len(),
{
    if b.len() == 0 {
        false
    } else if a.len() == 0 {
        true
    } else if a[0] != b[0] {
        (a[0] as int) < (b[0] as int)
    } else {
        precedes(a.skip(1), b.skip(1))
    }
}

/// Nothing comes before itself.
pub proof fn lemma_precedes_irreflexive(a: Seq<char>)
    ensures
        !precedes(a, a),
    decreases a.len(),
{
    if a.len() > 0 {
        lemma_precedes_irreflexive(a.skip(1));
    }
}

/// What comes before something that comes before a third comes before the
/// third.
pub proof fn lemma_precedes_transitive(a: Seq<char>, b: Seq<char>, c: Seq<char>)
    requires
        precedes(a, b),
        precedes(b, c),
    ensures
        precedes(a, c),
    decreases a.len(),
{
    if a.len() > 0 && a[0] == b[0] && b[0] == c[0] {
        lemma_precedes_transitive(a.skip(1), b.skip(1), c.skip(1));
    }
}

/// Of two different names one comes before the other.
pub proof fn lemma_precedes_total(a: Seq<char>, b: Seq<char>)
    ensures
        a == b || precedes(a, b) || precedes(b, a),
    decreases a.len(),
{
    if a.len() > 0 && b.len() > 0 && a[0] == b[0] {
        lemma_precedes_total(a.skip(1), b.skip(1));
        if a.skip(1) == b.skip(1) {
            assert(a =~= seq![a[0]] + a.skip(1));
            assert(b =~= seq![b[0]] + b.skip(1));
        }
    } else if a.len() == 0 && b.len() == 0 {
        assert(a =~= b);
    }
}

/// Whether `a` comes before `b` in the lexicographic order of their
/// characters.
pub fn str_precedes(a: &str, b: &str) -> (r: bool)
    ensures
        r == precedes(a@, b@),
{
    let mut xs = a.chars();
    let mut ys = b.chars();
    let ghost mut i: int = 0;
    proof {
        assert(a@.skip(0) =~= a@);
        assert(b@.skip(0) =~= b@);
    }
    loop
        invariant
            0 <= i <= a@.len(),
            i <= b@.len(),
            xs.remaining() == a@.skip(i),
            ys.remaining() == b@.skip(i),
            precedes(a@, b@) == precedes(a@.skip(i), b@.skip(i)),
        decreases a@.len() - i,
    {
        let y = ys.next();
        let x = xs.next();
        match (x, y) {
            (_, None) => {
                return false;
            },
            (None, Some(_)) => {
                return true;
            },
            (Some(x), Some(y)) => {
                if x != y {
                    return x < y;
                }
                proof {
                    assert(a@.skip(i).skip(1) =~= a@.skip(i + 1));
                    assert(b@.skip(i).skip(1) =~= b@.skip(i + 1));
                    i = i + 1;
                }
            },
        }
    }
}

/// The names that a list of strings holds, in the order of the list.
pub open spec fn names(list: Seq<String>) -> Seq<Seq<char>> {
    Seq::new(list.len(), |i: int| list[i]@)
}

/// Whether each name of a list comes before all the names behind it, so that
/// the list is in ascending order and holds no name twice.
pub open spec fn ascending(list: Seq<Seq<char>>) -> bool {
    forall|i: int, j: int| 0 <= i < j < list.len() ==> precedes(list[i], list[j])
}

/// Two lists in ascending order that hold the same names are the same list:
/// the order of a list of names depends on nothing but the names.
pub proof fn lemma_ascending_unique(a: Seq<Seq<char>>, b: Seq<Seq<char>>)
    requires
        ascending(a),
        ascending(b),
        a.to_set() == b.to_set(),
    ensures
        a == b,
    decreases a.len(),
{
    if a.len() == 0 {
        if b.len() > 0 {
            assert(b.to_set().contains(b[0]));
            assert(a.contains(b[0]));
        }
        assert(a =~= b);
    } else {
        assert(a.to_set().contains(a[0]));
        assert(b.contains(a[0]));
        let j = choose|j: int| 0 <= j < b.len() && b[j] == a[0];
        assert(b.to_set().contains(b[0]));
        assert(a.contains(b[0]));
        let i = choose|i: int| 0 <= i < a.len() && a[i] == b[0];
        // a[0] is the least of a, b[0] the least of b, and each is in the other
        if i > 0 && j > 0 {
            assert(precedes(a[0], a[i]));
            assert(precedes(b[0], b[j]));
            lemma_precedes_transitive(a[0], b[0], a[0]);
            lemma_precedes_irreflexive(a[0]);
        }
        if i > 0 && j == 0 {
            assert(precedes(a[0], a[i]));
            lemma_precedes_irreflexive(a[0]);
        }
        if i == 0 && j > 0 {
            assert(precedes(b[0], b[j]));
            lemma_precedes_irreflexive(b[0]);
        }
        assert(a[0] == b[0]);
        let a_rest = a.skip(1);
        let b_rest = b.skip(1);
        assert forall|n: Seq<char>| a_rest.to_set().contains(n) <==> b_rest.to_set().contains(
            n,
        ) by {
            if a_rest.contains(n) {
                let k = choose|k: int| 0 <= k < a_rest.len() && a_rest[k] == n;
                assert(a[k + 1] == n);
                assert(precedes(a[0], a[k + 1]));
                assert(a.to_set().contains(n));
                assert(b.contains(n));
                let m = choose|m: int| 0 <= m < b.len() && b[m] == n;
                if m == 0 {
                    lemma_precedes_irreflexive(n);
                }
                assert(b_rest[m - 1] == n);
            }
            if b_rest.contains(n) {
                let k = choose|k: int| 0 <= k < b_rest.len() && b_rest[k] == n;
                assert(b[k + 1] == n);
                assert(precedes(b[0], b[k + 1]));
                assert(b.to_set().contains(n));
                assert(a.contains(n));
                let m = choose|m: int| 0 <= m < a.len() && a[m] == n;
                if m == 0 {
                    lemma_precedes_irreflexive(n);
                }
                assert(a_rest[m - 1] == n);
            }
        }
        assert(a_rest.to_set() =~= b_rest.to_set());
        assert forall|x: int, y: int| 0 <= x < y < a_rest.len() implies precedes(
            a_rest[x],
            a_rest[y],
        ) by {
            assert(precedes(a[x + 1], a[y + 1]));
        }
        assert forall|x: int, y: int| 0 <= x < y < b_rest.len() implies precedes(
            b_rest[x],
            b_rest[y],
        ) by {
            assert(precedes(b[x + 1], b[y + 1]));
        }
        lemma_ascending_unique(a_rest, b_rest);
        assert(a =~= seq![a[0]] + a_rest);
        assert(b =~= seq![b[0]] + b_rest);
    }
}

/// Puts `name` into a list in ascending order, at its place in that order,
/// unless the list holds it already.
pub fn insert_ascending(list: &mut Vec<String>, name: &String)
    requires
        ascending(names(old(list)@)),
    ensures
        ascending(names(final(list)@)),
        names(final(list)@).to_set() == names(old(list)@).to_set().insert(name@),
{
    let mut at: usize = 0;
    while at < list.len() && str_precedes(list[at].as_str(), name.as_str())
        invariant
            at <= list.len(),
            forall|k: int| 0 <= k < at ==> precedes(#[trigger] list@[k]@, name@),
        decreases list.len() - at,
    {
        at += 1;
    }
    let ghost before = names(list@);
    if at < list.len() && list[at] == *name {
        proof {
            assert(before[at as int] == name@);
            assert(before.contains(name@));
            assert(before.to_set().insert(name@) =~= before.to_set());
        }
        return ;
    }
    proof {
        if at < list.len() {
            lemma_precedes_total(list@[at as int]@, name@);
        }
    }
    list.insert(at, name.clone());
    proof {
        let after = names(list@);
        assert(after =~= before.insert(at as int, name@));
        assert forall|i: int, j: int| 0 <= i < j < after.len() implies precedes(
            after[i],
            after[j],
        ) by {
            if j == at {
                assert(after[i] == before[i]);
            } else if i == at {
                assert(after[j] == before[j - 1]);
                if j - 1 > at {
                    assert(precedes(before[at as int], before[j - 1]));
                    lemma_precedes_transitive(name@, before[at as int], before[j - 1]);
                }
            } else {
                let x = if i < at { i } else { i - 1 };
                let y = if j < at { j } else { j - 1 };
                assert(after[i] == before[x]);
                assert(after[j] == before[y]);
                assert(precedes(before[x], before[y]));
            }
        }
        assert forall|n: Seq<char>| after.to_set().contains(n) <==> before.to_set().insert(
            name@,
        ).contains(n) by {
            if after.contains(n) {
                let k = choose|k: int| 0 <= k < after.len() && after[k] == n;
                if k < at {
                    assert(before[k] == n);
                } else if k > at {
                    assert(before[k - 1] == n);
                }
            }
            if before.contains(n) {
                let k = choose|k: int| 0 <= k < before.len() && before[k] == n;
                if k < at {
                    assert(after[k] == n);
                } else {
                    assert(after[k + 1] == n);
                }
            }
            if n == name@ {
                assert(after[at as int] == n);
            }
        }
        assert(after.to_set() =~= before.to_set().insert(name@));
    }
}

/// The names of a list in ascending order, each of them once.
pub fn sorted(list: &Vec<String>) -> (r: Vec<String>)
    ensures
        ascending(names(r@)),
        names(r@).to_set() == names(list@).to_set(),
{
    let mut r: Vec<String> = Vec::new();
    let mut i: usize = 0;
    proof {
        assert(names(r@).to_set() =~= names(list@.take(0)).to_set());
    }
    while i < list.len()
        invariant
            i <= list.len(),
            ascending(names(r@)),
            names(r@).to_set() == names(list@.take(i as int)).to_set(),
        decreases list.len() - i,
    {
        insert_ascending(&mut r, &list[i]);
        proof {
            let head = names(list@.take(i as int));
            let next = names(list@.take(i + 1));
            assert(next =~= head.push(list@[i as int]@));
            assert forall|n: Seq<char>| next.to_set().contains(n) <==> head.to_set().insert(
                list@[i as int]@,
            ).contains(n) by {
                if next.contains(n) {
                    let k = choose|k: int| 0 <= k < next.len() && next[k] == n;
                    if k < i {
                        assert(head[k] == n);
                    }
                }
                if head.contains(n) {
                    let k = choose|k: int| 0 <= k < head.len() && head[k] == n;
                    assert(next[k] == n);
                }
                if n == list@[i as int]@ {
                    assert(next[i as int] == n);
                }
            }
            assert(next.to_set() =~= head.to_set().insert(list@[i as int]@));
        }
        i += 1;
    }
    proof {
        assert(list@.take(list.len() as int) =~= list@);
    }
    r
}

} // verus!
