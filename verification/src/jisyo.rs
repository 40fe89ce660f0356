use vstd::prelude::*;
use crate::text::{to_chars, lines_view};
use crate::renderer::push_all;

verus! {

/// `a` comes before `b` in code point order (a proper prefix comes
/// first).
pub open spec fn text_lt(a: Seq<char>, b: Seq<char>) -> bool
    decreases a.len(),
{
    if a.len() == 0 {
        b.len() > 0
    } else if b.len() == 0 {
        false
    } else if a[0] != b[0] {
        (a[0] as u32) < (b[0] as u32)
    } else {
        text_lt(a.drop_first(), b.drop_first())
    }
}

/// No text comes before itself.
pub proof fn lemma_text_lt_irreflexive(a: Seq<char>)
    ensures
        !text_lt(a, a),
    decreases a.len(),
{
    if a.len() > 0 {
        lemma_text_lt_irreflexive(a.drop_first());
    }
}

/// Of two different texts one comes first, and not both.
pub proof fn lemma_text_lt_total(a: Seq<char>, b: Seq<char>)
    requires
        a != b,
    ensures
        text_lt(a, b) != text_lt(b, a),
    decreases a.len(),
{
    if a.len() == 0 && b.len() == 0 {
        assert(a =~= b);
    } else if a.len() > 0 && b.len() > 0 {
        if a[0] == b[0] {
            if a.drop_first() =~= b.drop_first() {
                assert(a =~= seq![a[0]] + a.drop_first());
                assert(b =~= seq![b[0]] + b.drop_first());
                assert(a =~= b);
            } else {
                lemma_text_lt_total(a.drop_first(), b.drop_first());
            }
        } else {
            vstd::utf8::char_u32_cast(a[0], a[0] as u32);
            vstd::utf8::char_u32_cast(b[0], b[0] as u32);
        }
    }
}

/// Coming first is transitive.
pub proof fn lemma_text_lt_transitive(a: Seq<char>, b: Seq<char>, c: Seq<char>)
    requires
        text_lt(a, b),
        text_lt(b, c),
    ensures
        text_lt(a, c),
    decreases a.len(),
{
    if a.len() > 0 && b.len() > 0 && c.len() > 0 && a[0] == b[0] && b[0] == c[0] {
        lemma_text_lt_transitive(a.drop_first(), b.drop_first(), c.drop_first());
    }
}

/// The texts of `ks` are in increasing order.
pub open spec fn sorted_texts(ks: Seq<Seq<char>>) -> bool {
    forall|i: int, j: int| 0 <= i < j < ks.len() ==> text_lt(#[trigger] ks[i], #[trigger] ks[j])
}

/// `parts` joined with `sep` between each two.
pub open spec fn join_with(parts: Seq<Seq<char>>, sep: char) -> Seq<char>
    decreases parts.len(),
{
    if parts.len() == 0 {
        Seq::<char>::empty()
    } else if parts.len() == 1 {
        parts[0]
    } else {
        parts[0] + seq![sep] + join_with(parts.drop_first(), sep)
    }
}

/// Joining one more part adds a separator and the part.
pub proof fn lemma_join_with_push(parts: Seq<Seq<char>>, x: Seq<char>, sep: char)
    requires
        parts.len() >= 1,
    ensures
        join_with(parts.push(x), sep) == join_with(parts, sep) + seq![sep] + x,
    decreases parts.len(),
{
    if parts.len() == 1 {
        assert(parts.push(x).drop_first() =~= seq![x]);
        assert(join_with(seq![x], sep) == x);
        assert(join_with(parts.push(x), sep) =~= join_with(parts, sep) + seq![sep] + x);
    } else {
        assert(parts.push(x).drop_first() =~= parts.drop_first().push(x));
        lemma_join_with_push(parts.drop_first(), x, sep);
        assert(join_with(parts.push(x), sep) =~= join_with(parts, sep) + seq![sep] + x);
    }
}

/// Whether `a` comes before `b` in code point order.
pub fn text_less(a: &str, b: &str) -> (r: bool)
    ensures
        r == text_lt(a@, b@),
{
    let x = to_chars(a);
    let y = to_chars(b);
    let mut i: usize = 0;
    proof {
        assert(x@.skip(0) =~= x@);
        assert(y@.skip(0) =~= y@);
    }
    while i < x.len() && i < y.len() && x[i] == y[i]
        invariant
            i <= x@.len(),
            i <= y@.len(),
            text_lt(x@, y@) == text_lt(x@.skip(i as int), y@.skip(i as int)),
        decreases x@.len() - i,
    {
        proof {
            assert(x@.skip(i as int).drop_first() =~= x@.skip(i + 1));
            assert(y@.skip(i as int).drop_first() =~= y@.skip(i + 1));
        }
        i = i + 1;
    }
    proof {
        if i < x.len() && i < y.len() {
            assert(x@.skip(i as int)[0] == x@[i as int]);
            assert(y@.skip(i as int)[0] == y@[i as int]);
        }
    }
    if i < x.len() && i < y.len() {
        (x[i] as u32) < (y[i] as u32)
    } else {
        i == x.len() && i < y.len()
    }
}

/// `parts` joined with `sep`.
pub fn join_strings(parts: &Vec<String>, sep: char) -> (r: String)
    ensures
        r@ == join_with(lines_view(parts@), sep),
{
    let mut r = String::new();
    let mut i: usize = 0;
    while i < parts.len()
        invariant
            i <= parts@.len(),
            r@ == join_with(lines_view(parts@).subrange(0, i as int), sep),
        decreases parts@.len() - i,
    {
        let ghost before = lines_view(parts@).subrange(0, i as int);
        if i > 0 {
            crate::text::push_char(&mut r, sep);
        }
        push_all(&mut r, parts[i].as_str());
        proof {
            let next = lines_view(parts@).subrange(0, i + 1);
            assert(next =~= before.push(parts@[i as int]@));
            if i > 0 {
                lemma_join_with_push(before, parts@[i as int]@, sep);
            } else {
                assert(next.len() == 1);
            }
        }
        i = i + 1;
    }
    proof {
        assert(lines_view(parts@).subrange(0, parts@.len() as int) =~= lines_view(parts@));
    }
    r
}

/// `keys` in increasing code point order (the keys must differ).
pub fn sort_texts(keys: &Vec<String>) -> (out: Vec<String>)
    requires
        forall|i: int, j: int| 0 <= i < j < keys@.len() ==> keys@[i]@ != keys@[j]@,
    ensures
        sorted_texts(lines_view(out@)),
        forall|x: Seq<char>| lines_view(out@).contains(x) <==> lines_view(keys@).contains(x),
{
    let mut out: Vec<String> = Vec::new();
    let mut i: usize = 0;
    while i < keys.len()
        invariant
            i <= keys@.len(),
            forall|a: int, b: int| 0 <= a < b < keys@.len() ==> keys@[a]@ != keys@[b]@,
            sorted_texts(lines_view(out@)),
            forall|x: Seq<char>|
                lines_view(out@).contains(x) <==> lines_view(keys@).subrange(0, i as int).contains(x),
        decreases keys@.len() - i,
    {
        let k = &keys[i];
        let ghost kv = k@;
        let ghost ov = lines_view(out@);
        proof {
            assert forall|a: int| 0 <= a < ov.len() implies ov[a] != kv by {
                assert(ov.contains(ov[a]));
                assert(lines_view(keys@).subrange(0, i as int).contains(ov[a]));
                let b = choose|b: int| 0 <= b < i && lines_view(keys@).subrange(0, i as int)[b] == ov[a];
                assert(keys@[b]@ == ov[a]);
            }
        }
        let mut p: usize = 0;
        while p < out.len() && !text_less(k.as_str(), out[p].as_str())
            invariant
                p <= out@.len(),
                ov == lines_view(out@),
                kv == k@,
                forall|a: int| 0 <= a < p ==> text_lt(#[trigger] ov[a], kv),
                forall|a: int| 0 <= a < ov.len() ==> ov[a] != kv,
            decreases out@.len() - p,
        {
            proof {
                lemma_text_lt_total(ov[p as int], kv);
            }
            p = p + 1;
        }
        out.insert(p, k.clone());
        proof {
            let nv = lines_view(out@);
            assert(nv =~= ov.insert(p as int, kv));
            ov.insert_ensures(p as int, kv);
            assert forall|a: int, b: int| 0 <= a < b < nv.len() implies text_lt(#[trigger] nv[a], #[trigger] nv[b]) by {
                if b < p {
                } else if a < p && b == p {
                } else if a < p && b > p {
                    lemma_text_lt_total(kv, ov[p as int]);
                    if p + 1 < b {
                        lemma_text_lt_transitive(kv, ov[p as int], ov[b - 1]);
                    }
                    lemma_text_lt_transitive(ov[a], kv, ov[b - 1]);
                } else if a == p {
                    if p < ov.len() {
                        if p + 1 < b {
                            lemma_text_lt_transitive(kv, ov[p as int], ov[b - 1]);
                        }
                    }
                } else {
                    assert(nv[a] == ov[a - 1]);
                    assert(nv[b] == ov[b - 1]);
                }
            }
            let prev = lines_view(keys@).subrange(0, i as int);
            let next = lines_view(keys@).subrange(0, i + 1);
            assert(next =~= prev.push(kv));
            assert forall|x: Seq<char>| nv.contains(x) <==> next.contains(x) by {
                if nv.contains(x) {
                    let a = choose|a: int| 0 <= a < nv.len() && nv[a] == x;
                    if a < p {
                        assert(ov[a] == x);
                        assert(ov.contains(x));
                        let b = choose|b: int| 0 <= b < prev.len() && prev[b] == x;
                        assert(next[b] == x);
                    } else if a == p {
                        assert(next[i as int] == x);
                    } else {
                        assert(ov[a - 1] == x);
                        assert(ov.contains(x));
                        let b = choose|b: int| 0 <= b < prev.len() && prev[b] == x;
                        assert(next[b] == x);
                    }
                }
                if next.contains(x) {
                    let b = choose|b: int| 0 <= b < next.len() && next[b] == x;
                    if b == i {
                        assert(nv[p as int] == x);
                    } else {
                        assert(prev[b] == x);
                        assert(prev.contains(x));
                        assert(ov.contains(x));
                        let a = choose|a: int| 0 <= a < ov.len() && ov[a] == x;
                        if a < p {
                            assert(nv[a] == x);
                        } else {
                            assert(nv[a + 1] == x);
                        }
                    }
                }
            }
        }
        i = i + 1;
    }
    proof {
        assert(lines_view(keys@).subrange(0, keys@.len() as int) =~= lines_view(keys@));
    }
    out
}

} // verus!
