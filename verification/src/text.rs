use vstd::prelude::*;

verus! {

/// `s` holds no line break.
pub open spec fn no_newline(s: Seq<char>) -> bool {
    forall|i: int| 0 <= i < s.len() ==> s[i] != '\n'
}

/// Every `"\r\n"` of `t` replaced by `"\n"`, scanning left to right.
pub open spec fn normalize_crlf(t: Seq<char>) -> Seq<char>
    decreases t.len(),
{
    if t.len() == 0 {
        t
    } else if t.len() >= 2 && t[0] == '\r' && t[1] == '\n' {
        seq!['\n'] + normalize_crlf(t.subrange(2, t.len() as int))
    } else {
        seq![t[0]] + normalize_crlf(t.drop_first())
    }
}

/// The pieces of `t` between line breaks; there is always at least one.
pub open spec fn split_lines(t: Seq<char>) -> Seq<Seq<char>>
    decreases t.len(),
{
    if t.len() == 0 {
        seq![Seq::<char>::empty()]
    } else if t[0] == '\n' {
        seq![Seq::<char>::empty()] + split_lines(t.drop_first())
    } else {
        let r = split_lines(t.drop_first());
        r.update(0, seq![t[0]] + r[0])
    }
}

/// The lines of `ls` joined with a line break between each two.
pub open spec fn join_lines(ls: Seq<Seq<char>>) -> Seq<char>
    decreases ls.len(),
{
    if ls.len() == 0 {
        Seq::<char>::empty()
    } else if ls.len() == 1 {
        ls[0]
    } else {
        ls[0] + seq!['\n'] + join_lines(ls.drop_first())
    }
}

/// Every line of `ls` is free of line breaks.
pub open spec fn all_no_newline(ls: Seq<Seq<char>>) -> bool {
    forall|i: int| 0 <= i < ls.len() ==> no_newline(#[trigger] ls[i])
}

pub proof fn lemma_split_len(t: Seq<char>)
    ensures
        split_lines(t).len() >= 1,
    decreases t.len(),
{
    if t.len() > 0 {
        lemma_split_len(t.drop_first());
    }
}

pub proof fn lemma_split_no_newline(t: Seq<char>)
    ensures
        all_no_newline(split_lines(t)),
        split_lines(t).len() >= 1,
    decreases t.len(),
{
    if t.len() > 0 {
        lemma_split_no_newline(t.drop_first());
        let r = split_lines(t.drop_first());
        if t[0] != '\n' {
            assert forall|i: int| 0 <= i < r.update(0, seq![t[0]] + r[0]).len() implies no_newline(
                #[trigger] r.update(0, seq![t[0]] + r[0])[i],
            ) by {
                if i == 0 {
                    assert(no_newline(r[0]));
                }
            }
        } else {
            let s = seq![Seq::<char>::empty()] + r;
            assert forall|i: int| 0 <= i < s.len() implies no_newline(#[trigger] s[i]) by {
                if i > 0 {
                    assert(s[i] == r[i - 1]);
                }
            }
        }
    }
}

/// A piece without line breaks is its own single line.
pub proof fn lemma_split_single(t: Seq<char>)
    requires
        no_newline(t),
    ensures
        split_lines(t) == seq![t],
    decreases t.len(),
{
    if t.len() > 0 {
        lemma_split_single(t.drop_first());
        assert(seq![t[0]] + t.drop_first() =~= t);
        assert(split_lines(t) =~= seq![t]);
    } else {
        assert(t =~= Seq::<char>::empty());
    }
}

/// Text without line breaks put in front of `x` lengthens its first line.
pub proof fn lemma_split_prefix(a: Seq<char>, x: Seq<char>)
    requires
        no_newline(a),
    ensures
        split_lines(a + x) == split_lines(x).update(0, a + split_lines(x)[0]),
    decreases a.len(),
{
    lemma_split_len(x);
    if a.len() == 0 {
        assert(a + x =~= x);
        assert(a + split_lines(x)[0] =~= split_lines(x)[0]);
        assert(split_lines(x).update(0, split_lines(x)[0]) =~= split_lines(x));
    } else {
        let a2 = a.drop_first();
        lemma_split_prefix(a2, x);
        assert((a + x).drop_first() =~= a2 + x);
        assert((a + x)[0] == a[0]);
        let r = split_lines(a2 + x);
        assert(seq![a[0]] + (a2 + split_lines(x)[0]) =~= a + split_lines(x)[0]);
        assert(split_lines(a + x) =~= split_lines(x).update(0, a + split_lines(x)[0]));
    }
}

/// Text without line breaks put after `x` lengthens its last line.
pub proof fn lemma_split_suffix(x: Seq<char>, z: Seq<char>)
    requires
        no_newline(z),
    ensures
        split_lines(x + z) == split_lines(x).update(
            split_lines(x).len() - 1,
            split_lines(x).last() + z,
        ),
    decreases x.len(),
{
    lemma_split_len(x);
    if x.len() == 0 {
        assert(x + z =~= z);
        lemma_split_single(z);
        assert(split_lines(x) =~= seq![Seq::<char>::empty()]);
        assert(Seq::<char>::empty() + z =~= z);
        assert(split_lines(x).update(0, Seq::<char>::empty() + z) =~= seq![z]);
    } else {
        let x2 = x.drop_first();
        lemma_split_suffix(x2, z);
        lemma_split_len(x2);
        assert((x + z).drop_first() =~= x2 + z);
        assert((x + z)[0] == x[0]);
        let r = split_lines(x2);
        let n = r.len();
        if x[0] == '\n' {
            assert(split_lines(x + z) =~= split_lines(x).update(
                split_lines(x).len() - 1,
                split_lines(x).last() + z,
            ));
        } else {
            if n == 1 {
                assert(seq![x[0]] + (r[0] + z) =~= (seq![x[0]] + r[0]) + z);
            }
            assert(split_lines(x + z) =~= split_lines(x).update(
                split_lines(x).len() - 1,
                split_lines(x).last() + z,
            ));
        }
    }
}

pub proof fn lemma_join_prefix(a: Seq<char>, ls: Seq<Seq<char>>)
    requires
        ls.len() >= 1,
    ensures
        a + join_lines(ls) == join_lines(ls.update(0, a + ls[0])),
{
    let ls2 = ls.update(0, a + ls[0]);
    if ls.len() == 1 {
    } else {
        assert(ls2.drop_first() =~= ls.drop_first());
        assert(a + join_lines(ls) =~= join_lines(ls2));
    }
}

/// Joining the pieces of a text gives the text back.
pub proof fn lemma_join_split(t: Seq<char>)
    ensures
        join_lines(split_lines(t)) == t,
    decreases t.len(),
{
    if t.len() == 0 {
    } else {
        let t2 = t.drop_first();
        lemma_join_split(t2);
        lemma_split_len(t2);
        let r = split_lines(t2);
        if t[0] == '\n' {
            let s = seq![Seq::<char>::empty()] + r;
            assert(s.drop_first() =~= r);
            assert(Seq::<char>::empty() + seq!['\n'] + join_lines(r) =~= t);
        } else {
            lemma_join_prefix(seq![t[0]], r);
            assert(seq![t[0]] + t2 =~= t);
        }
    }
}

/// Splitting joined lines that hold no line breaks gives the lines back.
pub proof fn lemma_split_join(ls: Seq<Seq<char>>)
    requires
        ls.len() >= 1,
        all_no_newline(ls),
    ensures
        split_lines(join_lines(ls)) == ls,
    decreases ls.len(),
{
    assert(no_newline(ls[0]));
    if ls.len() == 1 {
        lemma_split_single(ls[0]);
    } else {
        let rest = ls.drop_first();
        assert forall|i: int| 0 <= i < rest.len() implies no_newline(#[trigger] rest[i]) by {
            assert(rest[i] == ls[i + 1]);
        }
        lemma_split_join(rest);
        let t = seq!['\n'] + join_lines(rest);
        assert(t.drop_first() =~= join_lines(rest));
        assert(split_lines(t) =~= seq![Seq::<char>::empty()] + rest);
        assert(ls[0] + seq!['\n'] + join_lines(rest) =~= ls[0] + t);
        lemma_split_prefix(ls[0], t);
        assert(ls[0] + Seq::<char>::empty() =~= ls[0]);
        assert(split_lines(join_lines(ls)) =~= ls);
    }
}

/// Joining lines with one more line appended.
pub proof fn lemma_join_push(ls: Seq<Seq<char>>, x: Seq<char>)
    requires
        ls.len() >= 1,
    ensures
        join_lines(ls.push(x)) == join_lines(ls) + seq!['\n'] + x,
    decreases ls.len(),
{
    if ls.len() == 1 {
        assert(ls.push(x).drop_first() =~= seq![x]);
        assert(ls.push(x)[0] == ls[0]);
        assert(join_lines(seq![x]) == x);
        assert(join_lines(ls.push(x)) =~= join_lines(ls) + seq!['\n'] + x);
    } else {
        assert(ls.push(x)[0] == ls[0]);
        lemma_join_push(ls.drop_first(), x);
        assert(ls.push(x).drop_first() =~= ls.drop_first().push(x));
        assert(join_lines(ls.push(x)) =~= join_lines(ls) + seq!['\n'] + x);
    }
}

/// Normalizing line endings keeps the number of lines and the last line.
pub proof fn lemma_normalize_split(t: Seq<char>)
    ensures
        split_lines(normalize_crlf(t)).len() == split_lines(t).len(),
        split_lines(normalize_crlf(t)).last() == split_lines(t).last(),
        no_newline(t) ==> normalize_crlf(t) == t,
    decreases t.len(),
{
    lemma_split_len(t);
    lemma_split_len(normalize_crlf(t));
    if t.len() == 0 {
    } else if t.len() >= 2 && t[0] == '\r' && t[1] == '\n' {
        let t3 = t.subrange(2, t.len() as int);
        lemma_normalize_split(t3);
        lemma_split_len(t3);
        let n = normalize_crlf(t);
        assert(n.drop_first() =~= normalize_crlf(t3));
        let t2 = t.drop_first();
        assert(t2.drop_first() =~= t3);
        assert(split_lines(t2) =~= seq![Seq::<char>::empty()] + split_lines(t3));
        assert(split_lines(n) =~= seq![Seq::<char>::empty()] + split_lines(normalize_crlf(t3)));
        assert(!no_newline(t)) by {
            assert(t[1] == '\n');
        }
    } else {
        let t2 = t.drop_first();
        lemma_normalize_split(t2);
        lemma_split_len(t2);
        let n = normalize_crlf(t);
        assert(n.drop_first() =~= normalize_crlf(t2));
        assert(n[0] == t[0]);
        if no_newline(t) {
            assert(no_newline(t2));
            assert(seq![t[0]] + t2 =~= t);
        }
    }
}


/// Appends `c` to `s`: std's `String::push`, which adds one character at
/// the end and changes nothing else.
#[verifier::external_body]
pub(crate) fn push_char(s: &mut String, c: char)
    ensures
        final(s)@ == old(s)@.push(c),
{
    s.push(c);
}

/// The characters of `t`, in order.
pub fn to_chars(t: &str) -> (v: Vec<char>)
    ensures
        v@ == t@,
{
    let mut v: Vec<char> = Vec::new();
    for c in it: t.chars()
        invariant
            v@ == it.seq().take(it.index() as int),
    {
        v.push(c);
    }
    v
}

/// The characters `v[from..to]` as a string.
pub fn string_of(v: &Vec<char>, from: usize, to: usize) -> (s: String)
    requires
        from <= to <= v@.len(),
    ensures
        s@ == v@.subrange(from as int, to as int),
{
    let mut s = String::new();
    let mut i = from;
    while i < to
        invariant
            from <= i <= to <= v@.len(),
            s@ == v@.subrange(from as int, i as int),
        decreases to - i,
    {
        push_char(&mut s, v[i]);
        proof {
            assert(v@.subrange(from as int, i + 1) =~= v@.subrange(from as int, i as int).push(v@[i as int]));
        }
        i = i + 1;
    }
    s
}

/// A one-character string.
pub fn char_string(c: char) -> (s: String)
    ensures
        s@ == seq![c],
{
    let mut s = String::new();
    push_char(&mut s, c);
    proof {
        assert(s@ =~= seq![c]);
    }
    s
}

/// Appends `v[from..to]` to `out`.
pub fn extend_chars(out: &mut Vec<char>, v: &Vec<char>, from: usize, to: usize)
    requires
        from <= to <= v@.len(),
    ensures
        final(out)@ == old(out)@ + v@.subrange(from as int, to as int),
{
    let mut i = from;
    while i < to
        invariant
            from <= i <= to <= v@.len(),
            out@ == old(out)@ + v@.subrange(from as int, i as int),
        decreases to - i,
    {
        out.push(v[i]);
        proof {
            assert(v@.subrange(from as int, i + 1) =~= v@.subrange(from as int, i as int).push(v@[i as int]));
        }
        i = i + 1;
    }
}

/// `t` with every `"\r\n"` turned into `"\n"`.
pub fn normalize_chars(t: &Vec<char>) -> (r: Vec<char>)
    ensures
        r@ == normalize_crlf(t@),
{
    let n = t.len();
    let mut out: Vec<char> = Vec::new();
    let mut i: usize = 0;
    proof {
        assert(t@.subrange(0, n as int) =~= t@);
        assert(out@ + t@ =~= t@);
    }
    while i < n
        invariant
            n == t@.len(),
            i <= n,
            normalize_crlf(t@) == out@ + normalize_crlf(t@.subrange(i as int, n as int)),
        decreases n - i,
    {
        let ghost rest = t@.subrange(i as int, n as int);
        if t[i] == '\r' && i + 1 < n && t[i + 1] == '\n' {
            out.push('\n');
            proof {
                assert(rest[0] == '\r' && rest[1] == '\n');
                assert(rest.subrange(2, rest.len() as int) =~= t@.subrange(i + 2, n as int));
            }
            i = i + 2;
        } else {
            out.push(t[i]);
            proof {
                assert(rest[0] == t@[i as int]);
                assert(rest.drop_first() =~= t@.subrange(i + 1, n as int));
            }
            i = i + 1;
        }
    }
    proof {
        assert(t@.subrange(n as int, n as int) =~= Seq::<char>::empty());
        assert(out@ + Seq::<char>::empty() =~= out@);
    }
    out
}

/// The pieces of `t` between line breaks, as strings.
pub fn split_chars(t: &Vec<char>) -> (r: Vec<String>)
    ensures
        r@.map_values(|s: String| s@) == split_lines(t@),
        r@.len() >= 1,
{
    let n = t.len();
    let mut segs: Vec<String> = Vec::new();
    let mut cur = String::new();
    let mut i: usize = 0;
    proof {
        lemma_split_len(t@);
        assert(t@.subrange(0, n as int) =~= t@);
        let s = split_lines(t@);
        assert(s.update(0, Seq::<char>::empty() + s[0]) =~= s);
        assert(segs@.map_values(|s: String| s@) + s =~= s);
    }
    while i < n
        invariant
            n == t@.len(),
            i <= n,
            split_lines(t@) == segs@.map_values(|s: String| s@) + split_lines(
                t@.subrange(i as int, n as int),
            ).update(0, cur@ + split_lines(t@.subrange(i as int, n as int))[0]),
        decreases n - i,
    {
        let ghost rest = t@.subrange(i as int, n as int);
        let ghost old_segs = segs@.map_values(|s: String| s@);
        let ghost old_cur = cur@;
        proof {
            assert(rest[0] == t@[i as int]);
            assert(rest.drop_first() =~= t@.subrange(i + 1, n as int));
            lemma_split_len(rest.drop_first());
        }
        if t[i] == '\n' {
            segs.push(cur);
            cur = String::new();
            proof {
                let r2 = split_lines(rest.drop_first());
                assert(segs@.map_values(|s: String| s@) =~= old_segs.push(old_cur));
                assert(r2.update(0, Seq::<char>::empty() + r2[0]) =~= r2);
                assert(split_lines(rest) =~= seq![Seq::<char>::empty()] + r2);
                assert(old_segs + split_lines(rest).update(0, old_cur + split_lines(rest)[0])
                    =~= segs@.map_values(|s: String| s@) + r2.update(0, cur@ + r2[0]));
            }
        } else {
            push_char(&mut cur, t[i]);
            proof {
                let r2 = split_lines(rest.drop_first());
                assert(split_lines(rest) == r2.update(0, seq![rest[0]] + r2[0]));
                assert(old_cur + (seq![rest[0]] + r2[0]) =~= cur@ + r2[0]);
                assert(split_lines(rest).update(0, old_cur + split_lines(rest)[0])
                    =~= r2.update(0, cur@ + r2[0]));
            }
        }
        i = i + 1;
    }
    let ghost before = segs@.map_values(|s: String| s@);
    segs.push(cur);
    proof {
        assert(t@.subrange(n as int, n as int) =~= Seq::<char>::empty());
        let e = split_lines(Seq::<char>::empty());
        assert(e.update(0, cur@ + e[0]) =~= seq![cur@]);
        assert(segs@.map_values(|s: String| s@) =~= before.push(cur@));
        assert(segs@.map_values(|s: String| s@) =~= before + seq![cur@]);
    }
    segs
}


/// The contents of a vector of strings, as character sequences.
pub open spec fn lines_view(v: Seq<String>) -> Seq<Seq<char>> {
    v.map_values(|s: String| s@)
}

pub proof fn lemma_split_count(t: Seq<char>)
    ensures
        split_lines(t).len() <= t.len() + 1,
        split_lines(t).len() == 1 <==> no_newline(t),
    decreases t.len(),
{
    lemma_split_len(t);
    if t.len() > 0 {
        let t2 = t.drop_first();
        lemma_split_count(t2);
        lemma_split_len(t2);
        if no_newline(t) {
            assert(no_newline(t2));
        }
        if t[0] != '\n' && no_newline(t2) {
            assert forall|i: int| 0 <= i < t.len() implies t[i] != '\n' by {
                if i > 0 {
                    assert(t[i] == t2[i - 1]);
                }
            }
        }
    }
}

pub proof fn lemma_normalize_len(t: Seq<char>)
    ensures
        normalize_crlf(t).len() <= t.len(),
    decreases t.len(),
{
    if t.len() == 0 {
    } else if t.len() >= 2 && t[0] == '\r' && t[1] == '\n' {
        lemma_normalize_len(t.subrange(2, t.len() as int));
    } else {
        lemma_normalize_len(t.drop_first());
    }
}

/// Appends clones of `src[from..to]` to `out`.
pub fn push_lines(out: &mut Vec<String>, src: &Vec<String>, from: usize, to: usize)
    requires
        from <= to <= src@.len(),
    ensures
        lines_view(final(out)@) == lines_view(old(out)@) + lines_view(src@).subrange(
            from as int,
            to as int,
        ),
{
    let mut i = from;
    proof {
        assert(lines_view(out@) =~= lines_view(old(out)@) + lines_view(src@).subrange(from as int, i as int));
    }
    while i < to
        invariant
            from <= i <= to <= src@.len(),
            lines_view(out@) == lines_view(old(out)@) + lines_view(src@).subrange(
                from as int,
                i as int,
            ),
        decreases to - i,
    {
        let ghost before = lines_view(out@);
        out.push(src[i].clone());
        proof {
            assert(lines_view(out@) =~= before.push(src@[i as int]@));
            assert(lines_view(out@) =~= lines_view(old(out)@) + lines_view(src@).subrange(from as int, i + 1));
        }
        i = i + 1;
    }
}


pub proof fn lemma_join_suffix(ls: Seq<Seq<char>>, z: Seq<char>)
    requires
        ls.len() >= 1,
    ensures
        join_lines(ls) + z == join_lines(ls.update(ls.len() - 1, ls.last() + z)),
    decreases ls.len(),
{
    let ls2 = ls.update(ls.len() - 1, ls.last() + z);
    if ls.len() == 1 {
    } else {
        lemma_join_suffix(ls.drop_first(), z);
        assert(ls2.drop_first() =~= ls.drop_first().update(
            ls.drop_first().len() - 1,
            ls.drop_first().last() + z,
        ));
        assert(ls2[0] == ls[0]);
        assert(join_lines(ls) + z =~= join_lines(ls2));
    }
}


/// Each piece of a text is no longer than the text.
pub proof fn lemma_split_piece_len(t: Seq<char>)
    ensures
        forall|k: int| 0 <= k < split_lines(t).len() ==> #[trigger] split_lines(t)[k].len() <= t.len(),
    decreases t.len(),
{
    lemma_split_len(t);
    if t.len() > 0 {
        lemma_split_piece_len(t.drop_first());
        lemma_split_len(t.drop_first());
        let r = split_lines(t.drop_first());
        if t[0] == '\n' {
            assert forall|k: int| 0 <= k < split_lines(t).len() implies #[trigger] split_lines(t)[k].len() <= t.len() by {
                if k > 0 {
                    assert(split_lines(t)[k] == r[k - 1]);
                }
            }
        } else {
            assert forall|k: int| 0 <= k < split_lines(t).len() implies #[trigger] split_lines(t)[k].len() <= t.len() by {
                if k > 0 {
                    assert(split_lines(t)[k] == r[k]);
                }
            }
        }
    }
}


/// A copy of a vector of strings.
pub fn clone_strings(v: &Vec<String>) -> (r: Vec<String>)
    ensures
        lines_view(r@) == lines_view(v@),
{
    let mut r: Vec<String> = Vec::new();
    push_lines(&mut r, v, 0, v.len());
    proof {
        assert(lines_view(v@).subrange(0, v@.len() as int) =~= lines_view(v@));
        assert(lines_view(r@) =~= lines_view(v@));
    }
    r
}

/// The pieces of `t` between occurrences of `sep`; there is always at
/// least one.
pub open spec fn split_by(t: Seq<char>, sep: char) -> Seq<Seq<char>>
    decreases t.len(),
{
    if t.len() == 0 {
        seq![Seq::<char>::empty()]
    } else if t[0] == sep {
        seq![Seq::<char>::empty()] + split_by(t.drop_first(), sep)
    } else {
        let r = split_by(t.drop_first(), sep);
        r.update(0, seq![t[0]] + r[0])
    }
}

pub proof fn lemma_split_by_len(t: Seq<char>, sep: char)
    ensures
        split_by(t, sep).len() >= 1,
    decreases t.len(),
{
    if t.len() > 0 {
        lemma_split_by_len(t.drop_first(), sep);
    }
}

/// The pieces of `t[from..to]` between occurrences of `sep`, as strings.
pub fn split_chars_by(t: &Vec<char>, from: usize, to: usize, sep: char) -> (r: Vec<String>)
    requires
        from <= to <= t@.len(),
    ensures
        lines_view(r@) == split_by(t@.subrange(from as int, to as int), sep),
{
    let ghost tt = t@.subrange(from as int, to as int);
    let mut segs: Vec<String> = Vec::new();
    let mut cur = String::new();
    let mut i: usize = from;
    proof {
        lemma_split_by_len(tt, sep);
        assert(t@.subrange(i as int, to as int) =~= tt);
        let s = split_by(tt, sep);
        assert(s.update(0, Seq::<char>::empty() + s[0]) =~= s);
        assert(lines_view(segs@) + s =~= s);
    }
    while i < to
        invariant
            from <= i <= to <= t@.len(),
            tt == t@.subrange(from as int, to as int),
            split_by(tt, sep) == lines_view(segs@) + split_by(t@.subrange(i as int, to as int), sep).update(
                0,
                cur@ + split_by(t@.subrange(i as int, to as int), sep)[0],
            ),
        decreases to - i,
    {
        let ghost rest = t@.subrange(i as int, to as int);
        let ghost old_segs = lines_view(segs@);
        let ghost old_cur = cur@;
        proof {
            assert(rest[0] == t@[i as int]);
            assert(rest.drop_first() =~= t@.subrange(i + 1, to as int));
            lemma_split_by_len(rest.drop_first(), sep);
        }
        if t[i] == sep {
            segs.push(cur);
            cur = String::new();
            proof {
                let r2 = split_by(rest.drop_first(), sep);
                assert(lines_view(segs@) =~= old_segs.push(old_cur));
                assert(r2.update(0, Seq::<char>::empty() + r2[0]) =~= r2);
                assert(split_by(rest, sep) =~= seq![Seq::<char>::empty()] + r2);
                assert(old_segs + split_by(rest, sep).update(0, old_cur + split_by(rest, sep)[0])
                    =~= lines_view(segs@) + r2.update(0, cur@ + r2[0]));
            }
        } else {
            push_char(&mut cur, t[i]);
            proof {
                let r2 = split_by(rest.drop_first(), sep);
                assert(split_by(rest, sep) == r2.update(0, seq![rest[0]] + r2[0]));
                assert(old_cur + (seq![rest[0]] + r2[0]) =~= cur@ + r2[0]);
                assert(split_by(rest, sep).update(0, old_cur + split_by(rest, sep)[0])
                    =~= r2.update(0, cur@ + r2[0]));
            }
        }
        i = i + 1;
    }
    let ghost before = lines_view(segs@);
    segs.push(cur);
    proof {
        assert(t@.subrange(to as int, to as int) =~= Seq::<char>::empty());
        let e = split_by(Seq::<char>::empty(), sep);
        assert(e.update(0, cur@ + e[0]) =~= seq![cur@]);
        assert(lines_view(segs@) =~= before.push(cur@));
        assert(lines_view(segs@) =~= before + seq![cur@]);
    }
    segs
}

/// Whether two character vectors are equal.
pub fn chars_eq(a: &Vec<char>, b: &Vec<char>) -> (r: bool)
    ensures
        r == (a@ == b@),
{
    if a.len() != b.len() {
        return false;
    }
    let mut i: usize = 0;
    while i < a.len()
        invariant
            a@.len() == b@.len(),
            i <= a@.len(),
            forall|k: int| 0 <= k < i ==> a@[k] == b@[k],
        decreases a@.len() - i,
    {
        if a[i] != b[i] {
            return false;
        }
        i = i + 1;
    }
    proof {
        assert(a@ =~= b@);
    }
    true
}

/// Whether two strings are equal.
pub fn str_eq(a: &str, b: &str) -> (r: bool)
    ensures
        r == (a@ == b@),
{
    let ac = to_chars(a);
    let bc = to_chars(b);
    chars_eq(&ac, &bc)
}

} // verus!
