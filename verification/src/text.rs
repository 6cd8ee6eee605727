//! Cutting and cleaning text, one character at a time.

use vstd::prelude::*;

verus! {

/// The part of `s` in front of its first `c`; all of `s` where it holds none.
pub open spec fn before(s: Seq<char>, c: char) -> Seq<char>
    decreases s.len(),
{
    if s.len() == 0 || s[0] == c {
        Seq::empty()
    } else {
        seq![s[0]] + before(s.drop_first(), c)
    }
}

/// Whether `a` stands at place `i` of `s` with `b` directly behind it.
pub open spec fn pair_at(s: Seq<char>, i: int, a: char, b: char) -> bool {
    0 <= i && i + 1 < s.len() && s[i] == a && s[i + 1] == b
}

/// The part of `s` in front of the first place where `a` is directly followed
/// by `b`; `None` where `s` has no such place.
pub open spec fn before_pair(s: Seq<char>, a: char, b: char) -> Option<Seq<char>>
    decreases s.len(),
{
    if s.len() < 2 {
        None
    } else if s[0] == a && s[1] == b {
        Some(Seq::empty())
    } else {
        match before_pair(s.drop_first(), a, b) {
            Some(rest) => Some(seq![s[0]] + rest),
            None => None,
        }
    }
}

/// `s` with every `c` taken out.
pub open spec fn without(s: Seq<char>, c: char) -> Seq<char> {
    s.filter(|x: char| x != c)
}

/// `before(s, c)` is the prefix of `s` that ends where the first `c` stands.
pub proof fn lemma_before_is_prefix(s: Seq<char>, c: char, n: int)
    requires
        0 <= n <= s.len(),
        forall|j: int| 0 <= j < n ==> s[j] != c,
        n == s.len() || s[n] == c,
    ensures
        before(s, c) == s.take(n),
    decreases n,
{
    if n == 0 {
        assert(before(s, c) =~= s.take(0));
    } else {
        let rest = s.drop_first();
        assert forall|j: int| 0 <= j < n - 1 implies rest[j] != c by {
            assert(rest[j] == s[j + 1]);
        }
        lemma_before_is_prefix(rest, c, n - 1);
        assert(seq![s[0]] + rest.take(n - 1) =~= s.take(n));
    }
}

/// Text without `c` is not cut at any `c`.
pub proof fn lemma_before_absent(s: Seq<char>, c: char)
    requires
        !s.contains(c),
    ensures
        before(s, c) == s,
{
    lemma_before_is_prefix(s, c, s.len() as int);
    assert(s.take(s.len() as int) =~= s);
}

/// Text without `c`, then a `c`, then anything: cut at `c`, the first part is
/// left.
pub proof fn lemma_before_cut(head: Seq<char>, c: char, tail: Seq<char>)
    requires
        !head.contains(c),
    ensures
        before(head + seq![c] + tail, c) == head,
{
    let s = head + seq![c] + tail;
    let n = head.len() as int;
    assert forall|j: int| 0 <= j < n implies s[j] != c by {
        assert(s[j] == head[j]);
        assert(head.contains(head[j]));
    }
    assert(s[n] == c);
    lemma_before_is_prefix(s, c, n);
    assert(s.take(n) =~= head);
}

/// `before_pair(s, a, b)` is the prefix of `s` that ends where `a` followed by
/// `b` first stands.
pub proof fn lemma_before_pair_found(s: Seq<char>, a: char, b: char, n: int)
    requires
        pair_at(s, n, a, b),
        forall|j: int| 0 <= j < n ==> !pair_at(s, j, a, b),
    ensures
        before_pair(s, a, b) == Some(s.take(n)),
    decreases n,
{
    if n == 0 {
        assert(s.take(0) =~= Seq::<char>::empty());
    } else {
        let rest = s.drop_first();
        assert forall|j: int| 0 <= j < n - 1 implies !pair_at(rest, j, a, b) by {
            assert(!pair_at(s, j + 1, a, b));
        }
        assert(!pair_at(s, 0, a, b));
        lemma_before_pair_found(rest, a, b, n - 1);
        assert(seq![s[0]] + rest.take(n - 1) =~= s.take(n));
    }
}

/// `before_pair(s, a, b)` is `None` where `a` is nowhere followed by `b`.
pub proof fn lemma_before_pair_missing(s: Seq<char>, a: char, b: char)
    requires
        forall|j: int| !pair_at(s, j, a, b),
    ensures
        before_pair(s, a, b) is None,
    decreases s.len(),
{
    if s.len() >= 2 {
        let rest = s.drop_first();
        assert forall|j: int| !pair_at(rest, j, a, b) by {
            assert(!pair_at(s, j + 1, a, b));
        }
        assert(!pair_at(s, 0, a, b));
        lemma_before_pair_missing(rest, a, b);
    }
}

/// Text without `a`, then `a` and `b`, then anything: cut at the pair, the
/// first part is left.
pub proof fn lemma_before_pair_cut(head: Seq<char>, a: char, b: char, tail: Seq<char>)
    requires
        !head.contains(a),
    ensures
        before_pair(head + seq![a, b] + tail, a, b) == Some(head),
{
    let s = head + seq![a, b] + tail;
    let n = head.len() as int;
    assert(s[n] == a && s[n + 1] == b);
    assert forall|j: int| 0 <= j < n implies !pair_at(s, j, a, b) by {
        assert(s[j] == head[j]);
        assert(head.contains(head[j]));
    }
    lemma_before_pair_found(s, a, b, n);
    assert(s.take(n) =~= head);
}

/// Taking `c` out of `s` followed by `x` takes it out of `s`, and then keeps
/// `x` unless it is `c`.
pub proof fn lemma_without_push(s: Seq<char>, x: char, c: char)
    ensures
        without(s.push(x), c) == if x != c {
            without(s, c).push(x)
        } else {
            without(s, c)
        },
{
    reveal(Seq::filter);
    assert(s.push(x).drop_last() =~= s);
}

/// Taking `c` out of a single character leaves it, unless it is `c`.
pub proof fn lemma_without_one(x: char, c: char)
    ensures
        without(seq![x], c) == if x != c {
            seq![x]
        } else {
            Seq::empty()
        },
{
    reveal(Seq::filter);
    lemma_without_push(Seq::empty(), x, c);
    assert(Seq::<char>::empty().push(x) =~= seq![x]);
}

/// Taking `c` out of two texts put together takes it out of each.
pub proof fn lemma_without_joined(a: Seq<char>, b: Seq<char>, c: char)
    ensures
        without(a + b, c) == without(a, c) + without(b, c),
{
    Seq::filter_distributes_over_add(a, b, |x: char| x != c);
}

/// Taking `c` out of text that holds none changes nothing.
pub proof fn lemma_without_absent(s: Seq<char>, c: char)
    requires
        !s.contains(c),
    ensures
        without(s, c) == s,
    decreases s.len(),
{
    if s.len() == 0 {
        reveal(Seq::filter);
    } else {
        let init = s.drop_last();
        assert forall|j: int| 0 <= j < init.len() implies init[j] != c by {
            assert(init[j] == s[j]);
            assert(s.contains(s[j]));
        }
        assert(s.contains(s.last()));
        lemma_without_absent(init, c);
        lemma_without_push(init, s.last(), c);
        assert(init.push(s.last()) =~= s);
    }
}

/// What is left when `c` is taken out holds no `c`, and nothing that was not
/// there before.
pub proof fn lemma_without_holds(s: Seq<char>, c: char, x: char)
    ensures
        without(s, c).contains(x) <==> s.contains(x) && x != c,
    decreases s.len(),
{
    if s.len() == 0 {
        reveal(Seq::filter);
    } else {
        let init = s.drop_last();
        let last = s.last();
        lemma_without_holds(init, c, x);
        lemma_without_push(init, last, c);
        assert(init.push(last) =~= s);
        let kept = without(init, c);
        if without(s, c).contains(x) {
            let i = choose|i: int| 0 <= i < without(s, c).len() && without(s, c)[i] == x;
            if last != c && i == kept.len() {
                assert(s[s.len() - 1] == x);
            } else {
                assert(kept[i] == x);
                assert(kept.contains(x));
                let j = choose|j: int| 0 <= j < init.len() && init[j] == x;
                assert(s[j] == x);
            }
        }
        if s.contains(x) && x != c {
            let j = choose|j: int| 0 <= j < s.len() && s[j] == x;
            if j == s.len() - 1 {
                assert(without(s, c)[kept.len() as int] == x);
            } else {
                assert(init[j] == x);
                assert(init.contains(x));
                let i = choose|i: int| 0 <= i < kept.len() && kept[i] == x;
                assert(without(s, c)[i] == x);
            }
        }
    }
}

/// Whether `x` occurs in two texts put together is whether it occurs in one.
pub proof fn lemma_joined_holds(a: Seq<char>, b: Seq<char>, x: char)
    ensures
        (a + b).contains(x) <==> a.contains(x) || b.contains(x),
{
    let s = a + b;
    if a.contains(x) {
        let i = choose|i: int| 0 <= i < a.len() && a[i] == x;
        assert(s[i] == x);
    }
    if b.contains(x) {
        let i = choose|i: int| 0 <= i < b.len() && b[i] == x;
        assert(s[a.len() + i] == x);
    }
    if s.contains(x) {
        let i = choose|i: int| 0 <= i < s.len() && s[i] == x;
        if i < a.len() {
            assert(a[i] == x);
        } else {
            assert(b[i - a.len()] == x);
        }
    }
}

/// `String::push` appends one character to the end of the string.
pub assume_specification[ String::push ](s: &mut String, c: char)
    ensures
        final(s)@ == old(s)@.push(c),
;

/// Whether `c` occurs in `s`.
pub fn has_char(s: &str, c: char) -> (found: bool)
    ensures
        found == s@.contains(c),
{
    for ch in it: s.chars()
        invariant
            it.seq() == s@,
            forall|j: int| 0 <= j < it.index() ==> s@[j] != c,
    {
        if ch == c {
            return true;
        }
    }
    false
}

/// Copies `s` up to its first `c`, or whole where it holds none.
pub fn take_before(s: &str, c: char) -> (r: String)
    ensures
        r@ == before(s@, c),
{
    let mut out = String::new();
    for ch in it: s.chars()
        invariant
            it.seq() == s@,
            out@ == s@.take(it.index() as int),
            forall|j: int| 0 <= j < it.index() ==> s@[j] != c,
    {
        if ch == c {
            proof {
                lemma_before_is_prefix(s@, c, it.index() as int);
            }
            return out;
        }
        out.push(ch);
        assert(out@ =~= s@.take(it.index() + 1));
    }
    proof {
        lemma_before_is_prefix(s@, c, s@.len() as int);
    }
    out
}

/// Copies `s` up to the first place where `a` is directly followed by `b`;
/// `None` where there is no such place.
pub fn take_before_pair(s: &str, a: char, b: char) -> (r: Option<String>)
    ensures
        r is Some <==> before_pair(s@, a, b) is Some,
        r matches Some(t) ==> Some(t@) == before_pair(s@, a, b),
{
    let mut out = String::new();
    // An `a` that was read and not yet copied: the next character decides
    // whether it belongs to the result.
    let mut held = false;
    for ch in it: s.chars()
        invariant
            it.seq() == s@,
            held <==> it.index() > 0 && s@[it.index() - 1] == a,
            out@ == s@.take(
                if held {
                    it.index() - 1
                } else {
                    it.index() as int
                },
            ),
            forall|j: int| j + 1 < it.index() ==> !pair_at(s@, j, a, b),
    {
        if held {
            if ch == b {
                proof {
                    assert(pair_at(s@, it.index() - 1, a, b));
                    lemma_before_pair_found(s@, a, b, it.index() - 1);
                }
                return Some(out);
            }
            out.push(a);
            assert(out@ =~= s@.take(it.index() as int));
        }
        if ch == a {
            held = true;
        } else {
            held = false;
            out.push(ch);
            assert(out@ =~= s@.take(it.index() + 1));
        }
    }
    proof {
        lemma_before_pair_missing(s@, a, b);
    }
    None
}

/// Copies `s` without its occurrences of `c`.
pub fn strip_char(s: &str, c: char) -> (r: String)
    ensures
        r@ == without(s@, c),
{
    let mut out = String::new();
    for ch in it: s.chars()
        invariant
            it.seq() == s@,
            out@ == without(s@.take(it.index() as int), c),
    {
        proof {
            let n = it.index() as int;
            lemma_without_push(s@.take(n), ch, c);
            assert(s@.take(n).push(ch) =~= s@.take(n + 1));
        }
        if ch != c {
            out.push(ch);
        }
    }
    assert(s@.take(s@.len() as int) =~= s@);
    out
}

} // verus!
