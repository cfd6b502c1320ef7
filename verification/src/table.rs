//! Values kept under names, in the order of the names.
use crate::text;
use vstd::prelude::*;
use vstd::string::*;

verus! {

/// The order of texts: by the first character in which they differ, a text that ends
/// before another coming first.
pub open spec fn before(a: Seq<char>, b: Seq<char>) -> bool
    decreases a.len(),
{
    if b.len() == 0 {
        false
    } else if a.len() == 0 {
        true
    } else if a[0] != b[0] {
        a[0] < b[0]
    } else {
        before(a.subrange(1, a.len() as int), b.subrange(1, b.len() as int))
    }
}

pub proof fn lemma_before_trichotomy(a: Seq<char>, b: Seq<char>)
    ensures
        before(a, b) ==> a != b && !before(b, a),
        !before(a, b) && !before(b, a) ==> a == b,
    decreases a.len(),
{
    if a.len() > 0 && b.len() > 0 && a[0] == b[0] {
        let x = a.subrange(1, a.len() as int);
        let y = b.subrange(1, b.len() as int);
        lemma_before_trichotomy(x, y);
        assert(a =~= seq![a[0]] + x);
        assert(b =~= seq![b[0]] + y);
    } else if a.len() == 0 && b.len() == 0 {
        assert(a =~= b);
    }
}

pub proof fn lemma_before_transitive(a: Seq<char>, b: Seq<char>, c: Seq<char>)
    requires
        before(a, b),
        before(b, c),
    ensures
        before(a, c),
    decreases a.len(),
{
    if a.len() > 0 && b.len() > 0 && c.len() > 0 && a[0] == b[0] && b[0] == c[0] {
        lemma_before_transitive(
            a.subrange(1, a.len() as int),
            b.subrange(1, b.len() as int),
            c.subrange(1, c.len() as int),
        );
    }
}

/// Whether `a` comes before `b`.
pub fn comes_before(a: &str, b: &str) -> (r: bool)
    ensures
        r == before(a@, b@),
{
    let x = text::to_chars(a);
    let y = text::to_chars(b);
    let n: usize = x.len();
    let m: usize = y.len();
    let mut i: usize = 0;
    assert(x@.subrange(0, n as int) =~= x@);
    assert(y@.subrange(0, m as int) =~= y@);
    while i < n && i < m && x[i] == y[i]
        invariant
            n == x.len(),
            m == y.len(),
            x@ == a@,
            y@ == b@,
            i <= n,
            i <= m,
            before(a@, b@) == before(x@.subrange(i as int, n as int), y@.subrange(i as int, m as int)),
        decreases n - i,
    {
        let ghost p = x@.subrange(i as int, n as int);
        let ghost q = y@.subrange(i as int, m as int);
        assert(p.subrange(1, p.len() as int) =~= x@.subrange(i + 1, n as int));
        assert(q.subrange(1, q.len() as int) =~= y@.subrange(i + 1, m as int));
        i = i + 1;
    }
    if i == m {
        false
    } else if i == n {
        true
    } else {
        x[i] < y[i]
    }
}

pub open spec fn entries<X: View>(v: Seq<(String, X)>) -> Seq<(Seq<char>, X::V)> {
    v.map_values(|p: (String, X)| (p.0@, p.1@))
}

/// What stands under `name`, the first of it.
pub open spec fn under_name<T>(all: Seq<(Seq<char>, T)>, name: Seq<char>) -> Option<T>
    decreases all.len(),
{
    if all.len() == 0 {
        None
    } else if all[0].0 == name {
        Some(all[0].1)
    } else {
        under_name(all.subrange(1, all.len() as int), name)
    }
}

pub fn find<'a, X: View>(v: &'a Vec<(String, X)>, name: &str) -> (r: Option<&'a X>)
    ensures
        match r {
            Some(x) => under_name(entries(v@), name@) == Some(x@),
            None => under_name(entries(v@), name@) is None,
        },
{
    let ghost all = entries(v@);
    let n: usize = v.len();
    let mut i: usize = 0;
    assert(all.subrange(0, n as int) =~= all);
    while i < n
        invariant
            n == v.len(),
            all == entries(v@),
            i <= n,
            under_name(all, name@) == under_name(all.subrange(i as int, n as int), name@),
        decreases n - i,
    {
        let ghost rest = all.subrange(i as int, n as int);
        assert(rest[0] == (v@[i as int].0@, v@[i as int].1@));
        if text::same(v[i].0.as_str(), name) {
            return Some(&v[i].1);
        }
        assert(rest.subrange(1, rest.len() as int) =~= all.subrange(i + 1, n as int));
        i = i + 1;
    }
    None
}

/// Puts a value under a name, in place of the one that stands there.
pub open spec fn put<T>(all: Seq<(Seq<char>, T)>, name: Seq<char>, value: T) -> Seq<(Seq<char>, T)>
    decreases all.len(),
{
    if all.len() == 0 {
        seq![(name, value)]
    } else if before(all[0].0, name) {
        seq![all[0]] + put(all.subrange(1, all.len() as int), name, value)
    } else if all[0].0 == name {
        seq![(name, value)] + all.subrange(1, all.len() as int)
    } else {
        seq![(name, value)] + all
    }
}

/// The names stand in order, and each of them once.
pub open spec fn ordered<T>(all: Seq<(Seq<char>, T)>) -> bool {
    forall|i: int, j: int|
        0 <= i < j < all.len() ==> before((#[trigger] all[i]).0, (#[trigger] all[j]).0)
}

/// Every entry of a table that one was put into is that one, or was there before.
pub proof fn lemma_put_entries<T>(all: Seq<(Seq<char>, T)>, name: Seq<char>, value: T)
    ensures
        forall|i: int|
            0 <= i < put(all, name, value).len() ==> (#[trigger] put(all, name, value)[i]) == (
                name,
                value,
            )
                || exists|k: int|
                0 <= k < all.len() && put(all, name, value)[i] == #[trigger] all[k],
    decreases all.len(),
{
    let after = put(all, name, value);
    if all.len() > 0 && before(all[0].0, name) {
        let rest = all.subrange(1, all.len() as int);
        lemma_put_entries(rest, name, value);
        assert forall|i: int| 0 <= i < after.len() implies (#[trigger] after[i]) == (name, value)
            || exists|k: int| 0 <= k < all.len() && after[i] == #[trigger] all[k] by {
            if i == 0 {
                assert(after[0] == all[0]);
            } else {
                let tail = put(rest, name, value);
                assert(after[i] == tail[i - 1]);
                if after[i] != (name, value) {
                    let k = choose|k: int| 0 <= k < rest.len() && tail[i - 1] == #[trigger] rest[k];
                    assert(all[k + 1] == rest[k]);
                }
            }
        }
    } else if all.len() > 0 && all[0].0 == name {
        let rest = all.subrange(1, all.len() as int);
        assert forall|i: int| 0 <= i < after.len() implies (#[trigger] after[i]) == (name, value)
            || exists|k: int| 0 <= k < all.len() && after[i] == #[trigger] all[k] by {
            if i > 0 {
                assert(after[i] == all[i]);
            }
        }
    } else if all.len() > 0 {
        assert forall|i: int| 0 <= i < after.len() implies (#[trigger] after[i]) == (name, value)
            || exists|k: int| 0 <= k < all.len() && after[i] == #[trigger] all[k] by {
            if i > 0 {
                assert(after[i] == all[i - 1]);
            }
        }
    }
}

/// Putting a value under a name keeps the names in order, and each of them once.
pub proof fn law_put_keeps_order<T>(all: Seq<(Seq<char>, T)>, name: Seq<char>, value: T)
    requires
        ordered(all),
    ensures
        ordered(put(all, name, value)),
    decreases all.len(),
{
    let after = put(all, name, value);
    if all.len() > 0 {
        let rest = all.subrange(1, all.len() as int);
        lemma_before_trichotomy(all[0].0, name);
        if before(all[0].0, name) {
            assert(ordered(rest)) by {
                assert forall|i: int, j: int| 0 <= i < j < rest.len() implies before(
                    (#[trigger] rest[i]).0,
                    (#[trigger] rest[j]).0,
                ) by {
                    assert(rest[i] == all[i + 1] && rest[j] == all[j + 1]);
                }
            }
            law_put_keeps_order(rest, name, value);
            lemma_put_entries(rest, name, value);
            let tail = put(rest, name, value);
            assert forall|i: int, j: int| 0 <= i < j < after.len() implies before(
                (#[trigger] after[i]).0,
                (#[trigger] after[j]).0,
            ) by {
                assert(after[j] == tail[j - 1]);
                if i == 0 {
                    if after[j] != (name, value) {
                        let k = choose|k: int|
                            0 <= k < rest.len() && tail[j - 1] == #[trigger] rest[k];
                        assert(all[k + 1] == rest[k]);
                    }
                } else {
                    assert(after[i] == tail[i - 1]);
                }
            }
        } else if all[0].0 == name {
            assert forall|i: int, j: int| 0 <= i < j < after.len() implies before(
                (#[trigger] after[i]).0,
                (#[trigger] after[j]).0,
            ) by {
                assert(after[j] == all[j]);
                assert(after[i].0 == all[i].0);
            }
        } else {
            assert forall|i: int, j: int| 0 <= i < j < after.len() implies before(
                (#[trigger] after[i]).0,
                (#[trigger] after[j]).0,
            ) by {
                assert(after[j] == all[j - 1]);
                if i > 0 {
                    assert(after[i] == all[i - 1]);
                } else if j > 1 {
                    lemma_before_transitive(name, all[0].0, all[j - 1].0);
                }
            }
        }
    }
}

/// What was put under a name is found there, and what stands under others is untouched.
pub proof fn law_put_then_find<T>(
    all: Seq<(Seq<char>, T)>,
    name: Seq<char>,
    value: T,
    other: Seq<char>,
)
    requires
        ordered(all),
    ensures
        under_name(put(all, name, value), name) == Some(value),
        other != name ==> under_name(put(all, name, value), other) == under_name(all, other),
    decreases all.len(),
{
    let after = put(all, name, value);
    let tail = after.subrange(1, after.len() as int);
    if all.len() > 0 {
        let rest = all.subrange(1, all.len() as int);
        lemma_before_trichotomy(all[0].0, name);
        if before(all[0].0, name) {
            assert(ordered(rest)) by {
                assert forall|i: int, j: int| 0 <= i < j < rest.len() implies before(
                    (#[trigger] rest[i]).0,
                    (#[trigger] rest[j]).0,
                ) by {
                    assert(rest[i] == all[i + 1] && rest[j] == all[j + 1]);
                }
            }
            law_put_then_find(rest, name, value, other);
            assert(tail =~= put(rest, name, value));
        } else if all[0].0 == name {
            assert(tail =~= rest);
        } else {
            assert(tail =~= all);
        }
    } else {
        assert(tail =~= all);
    }
}

/// Puts `value` under `name`.
pub fn put_entry<X: View>(v: &mut Vec<(String, X)>, name: String, value: X)
    ensures
        entries(final(v)@) == put(entries(old(v)@), name@, value@),
{
    let ghost all = entries(v@);
    let n: usize = v.len();
    let mut i: usize = 0;
    assert(all.subrange(0, n as int) =~= all);
    assert(all.take(0) + put(all, name@, value@) =~= put(all, name@, value@));
    while i < n && comes_before(v[i].0.as_str(), name.as_str())
        invariant
            n == v.len(),
            v@ == old(v)@,
            all == entries(old(v)@),
            i <= n,
            put(all, name@, value@) == all.take(i as int) + put(
                all.subrange(i as int, n as int),
                name@,
                value@,
            ),
        decreases n - i,
    {
        let ghost rest = all.subrange(i as int, n as int);
        assert(rest[0] == all[i as int]);
        assert(rest.subrange(1, rest.len() as int) =~= all.subrange(i + 1, n as int));
        let ghost tail = put(all.subrange(i + 1, n as int), name@, value@);
        assert(all.take(i as int) + (seq![rest[0]] + tail) =~= all.take(i + 1) + tail);
        i = i + 1;
    }
    let ghost rest = all.subrange(i as int, n as int);
    let ghost item = (name@, value@);
    if i < n {
        assert(rest[0] == all[i as int]);
        if text::same(v[i].0.as_str(), name.as_str()) {
            v.set(i, (name, value));
            assert(entries(v@) =~= all.take(i as int) + (seq![item] + rest.subrange(
                1,
                rest.len() as int,
            )));
            return;
        }
    }
    v.insert(i, (name, value));
    assert(rest.len() > 0 ==> !before(rest[0].0, name@));
    assert(entries(v@) =~= all.take(i as int) + (seq![item] + rest));
    assert(rest.len() == 0 ==> seq![item] + rest =~= seq![item]);
}

proof fn lemma_under_name<T>(all: Seq<(Seq<char>, T)>, name: Seq<char>, i: int)
    requires
        0 <= i < all.len(),
        all[i].0 == name,
        forall|j: int| 0 <= j < i ==> (#[trigger] all[j]).0 != name,
    ensures
        under_name(all, name) == Some(all[i].1),
    decreases i,
{
    if i > 0 {
        assert(all[0].0 != name);
        let rest = all.subrange(1, all.len() as int);
        assert forall|j: int| 0 <= j < i - 1 implies (#[trigger] rest[j]).0 != name by {
            assert(rest[j] == all[j + 1]);
        }
        lemma_under_name(rest, name, i - 1);
    }
}

proof fn lemma_under_no_name<T>(all: Seq<(Seq<char>, T)>, name: Seq<char>)
    requires
        forall|j: int| 0 <= j < all.len() ==> (#[trigger] all[j]).0 != name,
    ensures
        under_name(all, name) is None,
    decreases all.len(),
{
    if all.len() > 0 {
        assert(all[0].0 != name);
        let rest = all.subrange(1, all.len() as int);
        assert forall|j: int| 0 <= j < rest.len() implies (#[trigger] rest[j]).0 != name by {
            assert(rest[j] == all[j + 1]);
        }
        lemma_under_no_name(rest, name);
    }
}

/// Under a name stands the first value that has it, and nothing where none has.
pub proof fn law_first_of_a_name<T>(all: Seq<(Seq<char>, T)>, name: Seq<char>)
    ensures
        forall|i: int|
            0 <= i < all.len() && (#[trigger] all[i]).0 == name && (forall|j: int|
                0 <= j < i ==> (#[trigger] all[j]).0 != name) ==> under_name(all, name) == Some(
                all[i].1,
            ),
        (forall|j: int| 0 <= j < all.len() ==> (#[trigger] all[j]).0 != name) ==> under_name(
            all,
            name,
        ) is None,
{
    assert forall|i: int|
        0 <= i < all.len() && (#[trigger] all[i]).0 == name && (forall|j: int|
            0 <= j < i ==> (#[trigger] all[j]).0 != name) implies under_name(all, name) == Some(
        all[i].1,
    ) by {
        lemma_under_name(all, name, i);
    }
    if forall|j: int| 0 <= j < all.len() ==> (#[trigger] all[j]).0 != name {
        lemma_under_no_name(all, name);
    }
}

/// Names stand in the order of the dictionary: by the first character in which they differ,
/// and a name before all those that go on from it.
pub proof fn law_names_in_dictionary_order(
    front: Seq<char>,
    a: char,
    x: Seq<char>,
    b: char,
    y: Seq<char>,
)
    ensures
        a < b ==> before(front + seq![a] + x, front + seq![b] + y),
        a > b ==> !before(front + seq![a] + x, front + seq![b] + y),
        before(front, front + seq![b] + y),
        !before(front + seq![b] + y, front),
        !before(front, front),
    decreases front.len(),
{
    let s = front + seq![a] + x;
    let t = front + seq![b] + y;
    if front.len() == 0 {
        assert(s[0] == a && t[0] == b);
    } else {
        let rest = front.subrange(1, front.len() as int);
        law_names_in_dictionary_order(rest, a, x, b, y);
        assert(s[0] == front[0] && t[0] == front[0]);
        assert(s.subrange(1, s.len() as int) =~= rest + seq![a] + x);
        assert(t.subrange(1, t.len() as int) =~= rest + seq![b] + y);
    }
}

} // verus!
