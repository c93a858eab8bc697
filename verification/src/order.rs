use vstd::prelude::*;

verus! {

/// Strict lexicographic order on character sequences, by code point.
pub open spec fn lex_lt(a: Seq<char>, b: Seq<char>) -> bool
    decreases a.len(),
{
    if b.len() == 0 {
        false
    } else if a.len() == 0 {
        true
    } else if a[0] != b[0] {
        (a[0] as u32) < (b[0] as u32)
    } else {
        lex_lt(a.skip(1), b.skip(1))
    }
}

/// Distinct characters have distinct code points.
proof fn lemma_char_cast_injective(a: char, b: char)
    requires
        a != b,
    ensures
        a as u32 != b as u32,
{
}

/// The order is irreflexive: nothing sits below itself.
pub proof fn lemma_lex_irrefl(a: Seq<char>)
    ensures
        !lex_lt(a, a),
    decreases a.len(),
{
    if a.len() > 0 {
        lemma_lex_irrefl(a.skip(1));
    }
}

/// The order is asymmetric.
pub proof fn lemma_lex_asym(a: Seq<char>, b: Seq<char>)
    requires
        lex_lt(a, b),
    ensures
        !lex_lt(b, a),
    decreases a.len(),
{
    if b.len() == 0 {
    } else if a.len() == 0 {
    } else if a[0] != b[0] {
    } else {
        lemma_lex_asym(a.skip(1), b.skip(1));
    }
}

/// The order is transitive.
pub proof fn lemma_lex_trans(a: Seq<char>, b: Seq<char>, c: Seq<char>)
    requires
        lex_lt(a, b),
        lex_lt(b, c),
    ensures
        lex_lt(a, c),
    decreases a.len() + b.len() + c.len(),
{
    if b.len() == 0 {
    } else if c.len() == 0 {
    } else if a.len() == 0 {
    } else if a[0] == b[0] && b[0] == c[0] {
        lemma_lex_trans(a.skip(1), b.skip(1), c.skip(1));
    }
}

/// Equal prefixes keep both the order and equality questions intact.
proof fn lemma_lex_skip(a: Seq<char>, b: Seq<char>, i: int)
    requires
        0 <= i <= a.len(),
        i <= b.len(),
        a.subrange(0, i) == b.subrange(0, i),
    ensures
        lex_lt(a, b) == lex_lt(a.skip(i), b.skip(i)),
        (a == b) == (a.skip(i) == b.skip(i)),
    decreases i,
{
    if i == 0 {
        assert(a.skip(0) =~= a);
        assert(b.skip(0) =~= b);
    } else {
        assert(a.subrange(0, i)[0] == a[0]);
        assert(b.subrange(0, i)[0] == b[0]);
        let a1 = a.skip(1);
        let b1 = b.skip(1);
        assert(a1.subrange(0, i - 1) =~= b1.subrange(0, i - 1)) by {
            assert forall|k: int| 0 <= k < i - 1 implies #[trigger] a1.subrange(0, i - 1)[k]
                == b1.subrange(0, i - 1)[k] by {
                assert(a1.subrange(0, i - 1)[k] == a[k + 1]);
                assert(b1.subrange(0, i - 1)[k] == b[k + 1]);
                assert(a.subrange(0, i)[k + 1] == a[k + 1]);
                assert(b.subrange(0, i)[k + 1] == b[k + 1]);
            }
        }
        lemma_lex_skip(a1, b1, i - 1);
        assert(a1.skip(i - 1) =~= a.skip(i));
        assert(b1.skip(i - 1) =~= b.skip(i));
        if a1 == b1 {
            assert forall|k: int| 0 <= k < a.len() implies a[k] == b[k] by {
                if k > 0 {
                    assert(a1[k - 1] == a[k]);
                    assert(b1[k - 1] == b[k]);
                }
            }
            assert(a =~= b);
        }
        if a == b {
            assert(a1 =~= b1);
        }
    }
}

/// Three-way comparison of two strings in lexicographic code point order.
/// Returns -1, 0, or 1 as `a` sits below, at, or above `b`.
pub fn lex_compare(a: &str, b: &str) -> (r: i8)
    ensures
        r == -1 ==> lex_lt(a@, b@),
        r == 0 ==> a@ == b@,
        r == 1 ==> lex_lt(b@, a@),
        r == -1 || r == 0 || r == 1,
{
    let alen = a.unicode_len();
    let blen = b.unicode_len();
    let mut i: usize = 0;
    loop
        invariant
            i <= alen,
            i <= blen,
            alen == a@.len(),
            blen == b@.len(),
            a@.subrange(0, i as int) == b@.subrange(0, i as int),
        decreases alen - i,
    {
        if i == alen && i == blen {
            proof {
                lemma_lex_skip(a@, b@, i as int);
                assert(a@.skip(i as int) =~= b@.skip(i as int));
            }
            return 0;
        }
        if i == alen {
            proof {
                lemma_lex_skip(a@, b@, i as int);
                assert(a@.skip(i as int).len() == 0);
                assert(b@.skip(i as int).len() > 0);
            }
            return -1;
        }
        if i == blen {
            proof {
                lemma_lex_skip(b@, a@, i as int);
                assert(b@.subrange(0, i as int) =~= a@.subrange(0, i as int));
                assert(b@.skip(i as int).len() == 0);
                assert(a@.skip(i as int).len() > 0);
            }
            return 1;
        }
        let ca = a.get_char(i);
        let cb = b.get_char(i);
        if (ca as u32) < (cb as u32) {
            proof {
                lemma_lex_skip(a@, b@, i as int);
                assert(a@.skip(i as int)[0] == ca);
                assert(b@.skip(i as int)[0] == cb);
            }
            return -1;
        }
        if (cb as u32) < (ca as u32) {
            proof {
                lemma_lex_skip(b@, a@, i as int);
                assert(b@.subrange(0, i as int) =~= a@.subrange(0, i as int));
                assert(a@.skip(i as int)[0] == ca);
                assert(b@.skip(i as int)[0] == cb);
            }
            return 1;
        }
        proof {
            assert(ca == cb) by {
                assert(ca as u32 == cb as u32);
            }
            assert(a@.subrange(0, i as int + 1) =~= b@.subrange(0, i as int + 1)) by {
                assert forall|k: int| 0 <= k < i + 1 implies #[trigger] a@.subrange(
                    0,
                    i as int + 1,
                )[k] == b@.subrange(0, i as int + 1)[k] by {
                    if k < i {
                        assert(a@.subrange(0, i as int)[k] == a@[k]);
                        assert(b@.subrange(0, i as int)[k] == b@[k]);
                    } else {
                        assert(a@[k] == ca);
                        assert(b@[k] == cb);
                    }
                }
            }
        }
        i = i + 1;
    }
}

/// A strictly ascending sequence of names.
pub open spec fn strictly_sorted(names: Seq<Seq<char>>) -> bool {
    forall|i: int, j: int| 0 <= i < j < names.len() ==> lex_lt(#[trigger] names[i], #[trigger] names[j])
}

/// Two strictly ascending sequences over the same set of names are the
/// same sequence: sorting is a canonical form.
pub proof fn lemma_sorted_unique(a: Seq<Seq<char>>, b: Seq<Seq<char>>)
    requires
        strictly_sorted(a),
        strictly_sorted(b),
        a.to_set() == b.to_set(),
    ensures
        a == b,
    decreases a.len(),
{
    if a.len() == 0 {
        if b.len() > 0 {
            assert(b.to_set().contains(b[0]));
            assert(a.to_set().contains(b[0]));
        }
        assert(a =~= b);
    } else if b.len() == 0 {
        assert(a.to_set().contains(a[0]));
        assert(b.to_set().contains(a[0]));
    } else {
        // the heads are both the least element, so they agree
        assert(a.to_set().contains(b[0]));
        let ia = choose|ia: int| 0 <= ia < a.len() && a[ia] == b[0];
        assert(b.to_set().contains(a[0]));
        let ib = choose|ib: int| 0 <= ib < b.len() && b[ib] == a[0];
        if ia > 0 {
            assert(lex_lt(a[0], a[ia]));
        }
        if ib > 0 {
            assert(lex_lt(b[0], b[ib]));
        }
        if a[0] != b[0] {
            lemma_lex_asym(a[0], b[0]);
            lemma_lex_irrefl(a[0]);
            lemma_lex_irrefl(b[0]);
        }
        assert(a[0] == b[0]);
        // the tails cover the same set: the head never reappears
        let at = a.skip(1);
        let bt = b.skip(1);
        assert forall|x: Seq<char>| at.to_set().contains(x) implies bt.to_set().contains(x) by {
            let i = choose|i: int| 0 <= i < at.len() && at[i] == x;
            assert(a[i + 1] == x);
            assert(lex_lt(a[0], x));
            assert(b.to_set().contains(x));
            let j = choose|j: int| 0 <= j < b.len() && b[j] == x;
            if j == 0 {
                lemma_lex_irrefl(x);
            }
            assert(bt[j - 1] == x);
        }
        assert forall|x: Seq<char>| bt.to_set().contains(x) implies at.to_set().contains(x) by {
            let i = choose|i: int| 0 <= i < bt.len() && bt[i] == x;
            assert(b[i + 1] == x);
            assert(lex_lt(b[0], x));
            assert(a.to_set().contains(x));
            let j = choose|j: int| 0 <= j < a.len() && a[j] == x;
            if j == 0 {
                lemma_lex_irrefl(x);
            }
            assert(at[j - 1] == x);
        }
        assert(at.to_set() =~= bt.to_set());
        lemma_sorted_unique(at, bt);
        assert forall|i: int| 0 <= i < a.len() implies a[i] == b[i] by {
            if i > 0 {
                assert(at[i - 1] == a[i]);
                assert(bt[i - 1] == b[i]);
            }
        }
        assert(a =~= b);
    }
}

/// The names of a list of strings, as sequences.
pub open spec fn views_of(names: Seq<String>) -> Seq<Seq<char>> {
    names.map_values(|s: String| s@)
}

/// Inserts a name into a strictly ascending list, keeping it ascending;
/// a name already present is not repeated.
pub fn insert_sorted(names: &mut Vec<String>, name: &str)
    requires
        strictly_sorted(views_of(old(names)@)),
    ensures
        strictly_sorted(views_of(final(names)@)),
        views_of(final(names)@).to_set() == views_of(old(names)@).to_set().insert(name@),
{
    let ghost olds = views_of(names@);
    let mut i: usize = 0;
    loop
        invariant_except_break
            i <= names@.len(),
            views_of(names@) == olds,
            strictly_sorted(olds),
            forall|j: int| 0 <= j < i ==> lex_lt(#[trigger] olds[j], name@),
        ensures
            i <= names@.len(),
            views_of(names@) == olds,
            forall|j: int| 0 <= j < i ==> lex_lt(#[trigger] olds[j], name@),
            i == names@.len() || lex_lt(name@, olds[i as int]),
        decreases names@.len() - i,
    {
        if i == names.len() {
            break ;
        }
        let c = lex_compare(names[i].as_str(), name);
        if c == 0 {
            // already present
            proof {
                assert(olds[i as int] == name@);
                assert(olds.to_set().contains(name@));
                assert(views_of(names@).to_set() =~= olds.to_set().insert(name@));
            }
            return ;
        }
        if c == 1 {
            break ;
        }
        i = i + 1;
    }
    // every name before i sits below, and the name at i, if any, above
    let ghost pos = i as int;
    names.insert(i, name.to_owned());
    proof {
        let news = views_of(names@);
        assert(news.len() == olds.len() + 1);
        assert(forall|k: int| 0 <= k < pos ==> #[trigger] news[k] == olds[k]);
        assert(news[pos] == name@);
        assert(forall|k: int| pos < k < news.len() ==> #[trigger] news[k] == olds[k - 1]);
        assert forall|x: int, y: int| 0 <= x < y < news.len() implies lex_lt(
            #[trigger] news[x],
            #[trigger] news[y],
        ) by {
            if y < pos {
                assert(lex_lt(olds[x], olds[y]));
            } else if y == pos {
                assert(lex_lt(olds[x], name@));
            } else if x < pos {
                if y - 1 == pos {
                    assert(lex_lt(olds[x], olds[pos]));
                } else {
                    assert(lex_lt(olds[x], olds[y - 1]));
                }
            } else if x == pos {
                if y - 1 == pos {
                    assert(lex_lt(name@, olds[pos]));
                } else {
                    assert(lex_lt(name@, olds[pos]));
                    assert(lex_lt(olds[pos], olds[y - 1]));
                    lemma_lex_trans(name@, olds[pos], olds[y - 1]);
                }
            } else {
                assert(lex_lt(olds[x - 1], olds[y - 1]));
            }
        }
        assert forall|x: Seq<char>|
            news.to_set().contains(x) == olds.to_set().insert(name@).contains(x) by {
            if news.to_set().contains(x) {
                let k = choose|k: int| 0 <= k < news.len() && news[k] == x;
                if k < pos {
                    assert(olds[k] == x);
                } else if k > pos {
                    assert(olds[k - 1] == x);
                }
            }
            if olds.to_set().contains(x) {
                let k = choose|k: int| 0 <= k < olds.len() && olds[k] == x;
                if k < pos {
                    assert(news[k] == x);
                } else {
                    assert(news[k + 1] == x);
                }
            }
            if x == name@ {
                assert(news[pos] == x);
            }
        }
        assert(news.to_set() =~= olds.to_set().insert(name@));
    }
}

} // verus!
