//! Text helpers shared by the generators: joining token texts, the
//! ordering of names, and sorted sets of names.
use vstd::prelude::*;

verus! {

/// `parts` joined by `sep`: nothing for no parts, the part itself for one.
pub open spec fn join(parts: Seq<Seq<char>>, sep: Seq<char>) -> Seq<char>
    decreases parts.len(),
{
    if parts.len() == 0 {
        Seq::empty()
    } else if parts.len() == 1 {
        parts[0]
    } else {
        join(parts.drop_last(), sep) + sep + parts.last()
    }
}

/// `parts` concatenated with nothing between them.
pub open spec fn concat(parts: Seq<Seq<char>>) -> Seq<char>
    decreases parts.len(),
{
    if parts.len() == 0 {
        Seq::empty()
    } else {
        concat(parts.drop_last()) + parts.last()
    }
}

/// A brace group as a token printer writes it: `{ }` when empty, else
/// `{ inner }`.
pub open spec fn brace(inner: Seq<char>) -> Seq<char> {
    if inner.len() == 0 {
        "{ }"@
    } else {
        "{ "@ + inner + " }"@
    }
}

/// Joining one more part adds the separator and the part.
pub proof fn lemma_join_take(parts: Seq<Seq<char>>, sep: Seq<char>, i: int)
    requires
        0 <= i < parts.len(),
    ensures
        join(parts.take(i + 1), sep) == if i == 0 {
            parts[0]
        } else {
            join(parts.take(i), sep) + sep + parts[i]
        },
{
    let t = parts.take(i + 1);
    assert(t.drop_last() =~= parts.take(i));
    assert(t.last() == parts[i]);
}

/// Concatenating one more part appends it.
pub proof fn lemma_concat_take(parts: Seq<Seq<char>>, i: int)
    requires
        0 <= i < parts.len(),
    ensures
        concat(parts.take(i + 1)) == concat(parts.take(i)) + parts[i],
{
    let t = parts.take(i + 1);
    assert(t.drop_last() =~= parts.take(i));
    assert(t.last() == parts[i]);
}

/// `brace(inner)` written after `s`.
pub(crate) fn append_brace(s: &mut String, inner: &String)
    ensures
        final(s)@ == old(s)@ + brace(inner@),
{
    if inner.unicode_len() == 0 {
        s.append("{ }");
    } else {
        s.append("{ ");
        s.append(inner.as_str());
        s.append(" }");
    }
}

/// Concatenating two lists of parts one after the other.
pub proof fn lemma_concat_append(x: Seq<Seq<char>>, y: Seq<Seq<char>>)
    ensures
        concat(x + y) == concat(x) + concat(y),
    decreases y.len(),
{
    if y.len() == 0 {
        assert(x + y =~= x);
        assert(concat(x) + Seq::<char>::empty() =~= concat(x));
    } else {
        lemma_concat_append(x, y.drop_last());
        assert((x + y).drop_last() =~= x + y.drop_last());
        assert((x + y).last() == y.last());
        assert(concat(x) + concat(y.drop_last()) + y.last() =~= concat(x) + (concat(y.drop_last())
            + y.last()));
    }
}

/// `t` without its spaces.
pub open spec fn without_spaces(t: Seq<char>) -> Seq<char>
    decreases t.len(),
{
    if t.len() == 0 {
        Seq::empty()
    } else if t.last() == ' ' {
        without_spaces(t.drop_last())
    } else {
        without_spaces(t.drop_last()).push(t.last())
    }
}

/// Code-point order of characters.
pub open spec fn char_lt(a: char, b: char) -> bool {
    (a as u32) < (b as u32)
}

/// Lexicographic order of texts by code points, the order of Rust strings.
pub open spec fn text_lt(a: Seq<char>, b: Seq<char>) -> bool
    decreases a.len(),
{
    if a.len() == 0 {
        b.len() > 0
    } else if b.len() == 0 {
        false
    } else if a[0] == b[0] {
        text_lt(a.drop_first(), b.drop_first())
    } else {
        char_lt(a[0], b[0])
    }
}

/// Every element is below every later one.
pub open spec fn strictly_sorted(s: Seq<Seq<char>>) -> bool {
    forall|i: int, j: int| 0 <= i < j < s.len() ==> text_lt(#[trigger] s[i], #[trigger] s[j])
}

/// The ascending list of the texts in a finite set.
pub open spec fn sorted_list(s: Set<Seq<char>>) -> Seq<Seq<char>> {
    choose|q: Seq<Seq<char>>| strictly_sorted(q) && q.to_set() == s
}

pub proof fn lemma_char_as_u32_injective(a: char, b: char)
    ensures
        (a as u32) == (b as u32) ==> a == b,
{
}

pub proof fn lemma_text_lt_irreflexive(a: Seq<char>)
    ensures
        !text_lt(a, a),
    decreases a.len(),
{
    if a.len() > 0 {
        lemma_text_lt_irreflexive(a.drop_first());
    }
}

pub proof fn lemma_text_lt_transitive(a: Seq<char>, b: Seq<char>, c: Seq<char>)
    requires
        text_lt(a, b),
        text_lt(b, c),
    ensures
        text_lt(a, c),
    decreases a.len(),
{
    if a.len() > 0 && b.len() > 0 && c.len() > 0 {
        if a[0] == b[0] && b[0] == c[0] {
            lemma_text_lt_transitive(a.drop_first(), b.drop_first(), c.drop_first());
        } else {
            lemma_char_as_u32_injective(a[0], c[0]);
        }
    }
}

pub proof fn lemma_text_lt_total(a: Seq<char>, b: Seq<char>)
    ensures
        a == b || text_lt(a, b) || text_lt(b, a),
    decreases a.len(),
{
    if a.len() > 0 && b.len() > 0 {
        if a[0] == b[0] {
            lemma_text_lt_total(a.drop_first(), b.drop_first());
            if a.drop_first() == b.drop_first() {
                assert(a =~= seq![a[0]] + a.drop_first());
                assert(b =~= seq![b[0]] + b.drop_first());
            }
        } else {
            lemma_char_as_u32_injective(a[0], b[0]);
        }
    } else if a.len() == 0 && b.len() == 0 {
        assert(a =~= b);
    }
}

pub proof fn lemma_text_lt_asymmetric(a: Seq<char>, b: Seq<char>)
    ensures
        !(text_lt(a, b) && text_lt(b, a)),
{
    if text_lt(a, b) && text_lt(b, a) {
        lemma_text_lt_transitive(a, b, a);
        lemma_text_lt_irreflexive(a);
    }
}

pub proof fn lemma_sorted_no_duplicates(s: Seq<Seq<char>>)
    requires
        strictly_sorted(s),
    ensures
        s.no_duplicates(),
{
    assert forall|i: int, j: int| 0 <= i < s.len() && 0 <= j < s.len() && i != j implies s[i]
        != s[j] by {
        if i < j {
            lemma_text_lt_irreflexive(s[i]);
            assert(text_lt(s[i], s[j]));
        } else {
            lemma_text_lt_irreflexive(s[j]);
            assert(text_lt(s[j], s[i]));
        }
    }
}

/// Two ascending lists of the same texts are the same list.
pub proof fn lemma_sorted_unique(a: Seq<Seq<char>>, b: Seq<Seq<char>>)
    requires
        strictly_sorted(a),
        strictly_sorted(b),
        a.to_set() == b.to_set(),
    ensures
        a == b,
    decreases a.len(),
{
    if a.len() == 0 {
        if b.len() > 0 {
            assert(b.to_set().contains(b[0]));
        }
        assert(a =~= b);
    } else {
        assert(a.to_set().contains(a[0]));
        assert(b.len() > 0);
        assert(b.to_set().contains(b[0]));
        let k = choose|k: int| 0 <= k < b.len() && b[k] == a[0];
        let m = choose|m: int| 0 <= m < a.len() && a[m] == b[0];
        if k > 0 {
            assert(text_lt(b[0], b[k]));
            if m == 0 {
                lemma_text_lt_irreflexive(a[0]);
            } else {
                assert(text_lt(a[0], a[m]));
                lemma_text_lt_asymmetric(a[0], b[0]);
            }
        }
        assert(a[0] == b[0]);
        lemma_sorted_no_duplicates(a);
        lemma_sorted_no_duplicates(b);
        let a1 = a.drop_first();
        let b1 = b.drop_first();
        assert(strictly_sorted(a1)) by {
            assert forall|i: int, j: int| 0 <= i < j < a1.len() implies text_lt(
                #[trigger] a1[i],
                #[trigger] a1[j],
            ) by {
                assert(a1[i] == a[i + 1]);
                assert(a1[j] == a[j + 1]);
            }
        }
        assert(strictly_sorted(b1)) by {
            assert forall|i: int, j: int| 0 <= i < j < b1.len() implies text_lt(
                #[trigger] b1[i],
                #[trigger] b1[j],
            ) by {
                assert(b1[i] == b[i + 1]);
                assert(b1[j] == b[j + 1]);
            }
        }
        assert(a1.to_set() =~= b1.to_set()) by {
            assert forall|x: Seq<char>| a1.to_set().contains(x) implies b1.to_set().contains(
                x,
            ) by {
                let i = choose|i: int| 0 <= i < a1.len() && a1[i] == x;
                assert(a[i + 1] == x);
                assert(a.to_set().contains(x));
                let j = choose|j: int| 0 <= j < b.len() && b[j] == x;
                assert(j != 0);
                assert(b1[j - 1] == x);
            }
            assert forall|x: Seq<char>| b1.to_set().contains(x) implies a1.to_set().contains(
                x,
            ) by {
                let i = choose|i: int| 0 <= i < b1.len() && b1[i] == x;
                assert(b[i + 1] == x);
                assert(b.to_set().contains(x));
                let j = choose|j: int| 0 <= j < a.len() && a[j] == x;
                assert(j != 0);
                assert(a1[j - 1] == x);
            }
        }
        lemma_sorted_unique(a1, b1);
        assert(a =~= seq![a[0]] + a1);
        assert(b =~= seq![b[0]] + b1);
    }
}

/// An ascending list of a set's texts is the set's sorted list.
pub proof fn lemma_sorted_list_is(q: Seq<Seq<char>>, s: Set<Seq<char>>)
    requires
        strictly_sorted(q),
        q.to_set() == s,
    ensures
        sorted_list(s) == q,
{
    let r = sorted_list(s);
    assert(strictly_sorted(r) && r.to_set() == s);
    lemma_sorted_unique(q, r);
}

/// A finite, nonempty set of texts has a greatest element.
pub proof fn lemma_greatest_exists(s: Set<Seq<char>>) -> (m: Seq<char>)
    requires
        s.finite(),
        s.len() > 0,
    ensures
        s.contains(m),
        forall|x: Seq<char>| s.contains(x) && x != m ==> text_lt(x, m),
    decreases s.len(),
{
    let a = s.choose();
    assert(s.contains(a));
    let rest = s.remove(a);
    if rest.len() == 0 {
        assert forall|x: Seq<char>| s.contains(x) && x != a implies text_lt(x, a) by {
            assert(rest.contains(x));
        }
        a
    } else {
        let r = lemma_greatest_exists(rest);
        lemma_text_lt_total(a, r);
        if text_lt(a, r) {
            assert forall|x: Seq<char>| s.contains(x) && x != r implies text_lt(x, r) by {
                if x != a {
                    assert(rest.contains(x));
                }
            }
            r
        } else {
            assert forall|x: Seq<char>| s.contains(x) && x != a implies text_lt(x, a) by {
                assert(rest.contains(x));
                if x != r {
                    lemma_text_lt_transitive(x, r, a);
                }
            }
            a
        }
    }
}

/// Every finite set of texts has an ascending list of its elements, so
/// its sorted list is one.
pub proof fn lemma_sorted_list_exists(s: Set<Seq<char>>)
    requires
        s.finite(),
    ensures
        strictly_sorted(sorted_list(s)),
        sorted_list(s).to_set() == s,
    decreases s.len(),
{
    if s.len() == 0 {
        let q = Seq::<Seq<char>>::empty();
        assert(q.to_set() =~= s);
        lemma_sorted_list_is(q, s);
    } else {
        let m = lemma_greatest_exists(s);
        let rest = s.remove(m);
        lemma_sorted_list_exists(rest);
        let r = sorted_list(rest);
        let q = r.push(m);
        assert(strictly_sorted(q)) by {
            assert forall|i: int, j: int| 0 <= i < j < q.len() implies text_lt(
                #[trigger] q[i],
                #[trigger] q[j],
            ) by {
                if j < r.len() {
                    assert(q[i] == r[i] && q[j] == r[j]);
                } else {
                    assert(q[i] == r[i]);
                    assert(r.to_set().contains(r[i]));
                }
            }
        }
        assert(q.to_set() =~= s) by {
            assert forall|x: Seq<char>| q.to_set().contains(x) implies s.contains(x) by {
                let k = choose|k: int| 0 <= k < q.len() && q[k] == x;
                if k < r.len() {
                    assert(r[k] == x);
                    assert(r.to_set().contains(x));
                }
            }
            assert forall|x: Seq<char>| s.contains(x) implies q.to_set().contains(x) by {
                if x == m {
                    assert(q[r.len() as int] == x);
                } else {
                    assert(rest.contains(x));
                    assert(r.to_set().contains(x));
                    let k = choose|k: int| 0 <= k < r.len() && r[k] == x;
                    assert(q[k] == x);
                }
            }
        }
        lemma_sorted_list_is(q, s);
    }
}

/// Whether `a` comes before `b` in the order of Rust strings.
pub fn less_than(a: &str, b: &str) -> (r: bool)
    ensures
        r == text_lt(a@, b@),
{
    let n = a.unicode_len();
    let m = b.unicode_len();
    let mut i: usize = 0;
    assert(a@.skip(0) =~= a@);
    assert(b@.skip(0) =~= b@);
    while i < n && i < m
        invariant
            n == a@.len(),
            m == b@.len(),
            i <= n,
            i <= m,
            a@.subrange(0, i as int) == b@.subrange(0, i as int),
            text_lt(a@, b@) == text_lt(a@.skip(i as int), b@.skip(i as int)),
        decreases n - i,
    {
        let ca = a.get_char(i);
        let cb = b.get_char(i);
        let ghost sa = a@.skip(i as int);
        let ghost sb = b@.skip(i as int);
        assert(sa[0] == ca && sb[0] == cb);
        if ca != cb {
            assert(text_lt(sa, sb) == char_lt(ca, cb));
            return (ca as u32) < (cb as u32);
        }
        assert(sa.drop_first() =~= a@.skip(i + 1));
        assert(sb.drop_first() =~= b@.skip(i + 1));
        assert(a@.subrange(0, i + 1) =~= a@.subrange(0, i as int).push(ca));
        assert(b@.subrange(0, i + 1) =~= b@.subrange(0, i as int).push(cb));
        i = i + 1;
    }
    assert(a@.skip(i as int).len() == n - i);
    assert(b@.skip(i as int).len() == m - i);
    i < m
}

/// Inserts `name` into the ascending list `names`, keeping it ascending
/// and free of repeats.
pub fn insert_sorted(names: &mut Vec<String>, name: &str)
    requires
        strictly_sorted(old(names)@.map_values(|s: String| s@)),
    ensures
        strictly_sorted(final(names)@.map_values(|s: String| s@)),
        final(names)@.map_values(|s: String| s@).to_set() == old(names)@.map_values(
            |s: String| s@,
        ).to_set().insert(name@),
{
    let ghost old_v = names@.map_values(|s: String| s@);
    let mut i: usize = 0;
    while i < names.len()
        invariant
            names@.map_values(|s: String| s@) == old_v,
            strictly_sorted(old_v),
            i <= names.len(),
            forall|j: int| 0 <= j < i ==> text_lt(#[trigger] old_v[j], name@),
        ensures
            names@.map_values(|s: String| s@) == old_v,
            i <= names.len(),
            forall|j: int| 0 <= j < i ==> text_lt(#[trigger] old_v[j], name@),
            i < names.len() ==> !text_lt(old_v[i as int], name@),
        decreases names.len() - i,
    {
        if !less_than(names[i].as_str(), name) {
            break;
        }
        i = i + 1;
    }
    if i < names.len() && !less_than(name, names[i].as_str()) {
        proof {
            lemma_text_lt_total(old_v[i as int], name@);
            assert(old_v[i as int] == name@);
            assert(old_v.to_set().contains(name@));
            assert(old_v.to_set().insert(name@) =~= old_v.to_set());
        }
        return;
    }
    names.insert(i, String::from_str(name));
    let ghost new_v = names@.map_values(|s: String| s@);
    assert(new_v =~= old_v.insert(i as int, name@));
    assert(strictly_sorted(new_v)) by {
        assert forall|p: int, q: int| 0 <= p < q < new_v.len() implies text_lt(
            #[trigger] new_v[p],
            #[trigger] new_v[q],
        ) by {
            if q < i {
            } else if q == i {
            } else if p < i {
                assert(new_v[q] == old_v[q - 1]);
                assert(text_lt(name@, old_v[i as int]));
                if q - 1 > i {
                    lemma_text_lt_transitive(name@, old_v[i as int], old_v[q - 1]);
                }
                lemma_text_lt_transitive(new_v[p], name@, new_v[q]);
            } else if p == i {
                if q - 1 > i {
                    lemma_text_lt_transitive(name@, old_v[i as int], old_v[q - 1]);
                }
            } else {
                assert(new_v[p] == old_v[p - 1]);
                assert(new_v[q] == old_v[q - 1]);
            }
        }
    }
    assert(new_v.to_set() =~= old_v.to_set().insert(name@)) by {
        assert forall|x: Seq<char>| new_v.to_set().contains(x) implies old_v.to_set().insert(
            name@,
        ).contains(x) by {
            let k = choose|k: int| 0 <= k < new_v.len() && new_v[k] == x;
            if k < i {
                assert(old_v[k] == x);
            } else if k > i {
                assert(old_v[k - 1] == x);
            }
        }
        assert forall|x: Seq<char>| old_v.to_set().insert(name@).contains(x) implies new_v.to_set().contains(
            x,
        ) by {
            if x == name@ {
                assert(new_v[i as int] == x);
            } else {
                let k = choose|k: int| 0 <= k < old_v.len() && old_v[k] == x;
                if k < i {
                    assert(new_v[k] == x);
                } else {
                    assert(new_v[k + 1] == x);
                }
            }
        }
    }
}

/// Whether the two texts are equal.
pub fn same_text(a: &str, b: &str) -> (r: bool)
    ensures
        r == (a@ == b@),
{
    let n = a.unicode_len();
    if n != b.unicode_len() {
        return false;
    }
    let mut i: usize = 0;
    while i < n
        invariant
            n == a@.len(),
            n == b@.len(),
            i <= n,
            forall|j: int| 0 <= j < i ==> a@[j] == b@[j],
        decreases n - i,
    {
        if a.get_char(i) != b.get_char(i) {
            return false;
        }
        i = i + 1;
    }
    assert(a@ =~= b@);
    true
}

} // verus!
