use vstd::prelude::*;

verus! {

/// Which separator class a split uses: the path separator `/`, or ASCII
/// whitespace (as when breaking a report line into columns).
#[derive(Clone, Copy, Debug, PartialEq, Eq, Structural)]
pub enum SepClass {
    Slash,
    Whitespace,
}

pub open spec fn is_ascii_ws(b: u8) -> bool {
    b == 32 || b == 9 || b == 10 || b == 13
}

pub open spec fn is_sep(c: SepClass, b: u8) -> bool {
    match c {
        SepClass::Slash => b == 47,
        SepClass::Whitespace => is_ascii_ws(b),
    }
}

/// Deep view of a vector of byte vectors.
pub open spec fn deep(v: Seq<Vec<u8>>) -> Seq<Seq<u8>> {
    v.map_values(|x: Vec<u8>| x@)
}

/// The empty-token-free split of `cur + s` on the class `c`, where `cur` is
/// the partial token read before `s`. Runs of separators, and leading or
/// trailing ones, contribute no token.
pub open spec fn split_acc(c: SepClass, s: Seq<u8>, cur: Seq<u8>) -> Seq<Seq<u8>>
    decreases s.len(),
{
    if s.len() == 0 {
        if cur.len() == 0 {
            Seq::empty()
        } else {
            seq![cur]
        }
    } else if is_sep(c, s[0]) {
        (if cur.len() == 0 {
            Seq::<Seq<u8>>::empty()
        } else {
            seq![cur]
        }) + split_acc(c, s.skip(1), Seq::empty())
    } else {
        split_acc(c, s.skip(1), cur.push(s[0]))
    }
}

/// The tokens of `s` under separator class `c`, in order, all nonempty.
pub open spec fn tokens_of(c: SepClass, s: Seq<u8>) -> Seq<Seq<u8>> {
    split_acc(c, s, Seq::empty())
}

pub fn sep_byte(c: SepClass, b: u8) -> (r: bool)
    ensures
        r == is_sep(c, b),
{
    match c {
        SepClass::Slash => b == 47,
        SepClass::Whitespace => b == 32 || b == 9 || b == 10 || b == 13,
    }
}

/// Splits `s` into its tokens under the class `c`.
pub fn split_tokens(c: SepClass, s: &Vec<u8>) -> (r: Vec<Vec<u8>>)
    ensures
        deep(r@) == tokens_of(c, s@),
{
    let mut done: Vec<Vec<u8>> = Vec::new();
    let mut cur: Vec<u8> = Vec::new();
    let mut i: usize = 0;
    proof {
        assert(s@.skip(0) =~= s@);
        assert(deep(done@) + split_acc(c, s@, cur@) =~~= split_acc(c, s@, cur@));
    }
    while i < s.len()
        invariant
            i <= s@.len(),
            tokens_of(c, s@) == deep(done@) + split_acc(c, s@.skip(i as int), cur@),
        decreases s@.len() - i,
    {
        let ghost pre_done = done@;
        let ghost pre_cur = cur@;
        let ghost rest = s@.skip(i as int);
        proof {
            assert(rest.len() > 0);
            assert(rest[0] == s@[i as int]);
            assert(rest.skip(1) =~= s@.skip(i as int + 1));
        }
        let b = s[i];
        if sep_byte(c, b) {
            proof {
                assert(split_acc(c, rest, pre_cur) == (if pre_cur.len() == 0 {
                    Seq::<Seq<u8>>::empty()
                } else {
                    seq![pre_cur]
                }) + split_acc(c, rest.skip(1), Seq::empty()));
            }
            if cur.len() > 0 {
                done.push(cur);
                cur = Vec::new();
                proof {
                    assert(deep(done@) =~~= deep(pre_done) + seq![pre_cur]);
                    assert(split_acc(c, rest, pre_cur) =~~= seq![pre_cur] + split_acc(
                        c,
                        s@.skip(i as int + 1),
                        Seq::empty(),
                    ));
                    assert(deep(pre_done) + (seq![pre_cur] + split_acc(
                        c,
                        s@.skip(i as int + 1),
                        Seq::<u8>::empty(),
                    )) =~~= (deep(pre_done) + seq![pre_cur]) + split_acc(
                        c,
                        s@.skip(i as int + 1),
                        Seq::<u8>::empty(),
                    ));
                }
            } else {
                proof {
                    assert(pre_cur =~= Seq::<u8>::empty());
                    assert(split_acc(c, rest, pre_cur) =~~= split_acc(
                        c,
                        s@.skip(i as int + 1),
                        pre_cur,
                    ));
                }
            }
        } else {
            cur.push(b);
            proof {
                assert(cur@ =~= pre_cur.push(s@[i as int]));
                assert(split_acc(c, rest, pre_cur) == split_acc(c, rest.skip(1), pre_cur.push(
                    rest[0],
                )));
            }
        }
        i = i + 1;
    }
    proof {
        assert(s@.skip(i as int) =~= Seq::<u8>::empty());
    }
    if cur.len() > 0 {
        let ghost pre_done = done@;
        let ghost pre_cur = cur@;
        done.push(cur);
        proof {
            assert(deep(done@) =~~= deep(pre_done) + seq![pre_cur]);
            assert(deep(done@) =~~= tokens_of(c, s@));
        }
    } else {
        proof {
            assert(deep(done@) + split_acc(c, s@.skip(i as int), cur@) =~~= deep(done@));
        }
    }
    done
}

/// The lines of `s`: the maximal runs between newline bytes. Unlike token
/// splitting, empty lines are kept, and a text with no newline is one line.
pub open spec fn lines_acc(s: Seq<u8>, cur: Seq<u8>) -> Seq<Seq<u8>>
    decreases s.len(),
{
    if s.len() == 0 {
        seq![cur]
    } else if s[0] == 10 {
        seq![cur] + lines_acc(s.skip(1), Seq::empty())
    } else {
        lines_acc(s.skip(1), cur.push(s[0]))
    }
}

pub open spec fn lines_of(s: Seq<u8>) -> Seq<Seq<u8>> {
    lines_acc(s, Seq::empty())
}

/// Splits `s` into its lines at newline bytes.
pub fn split_lines(s: &Vec<u8>) -> (r: Vec<Vec<u8>>)
    ensures
        deep(r@) == lines_of(s@),
{
    let mut done: Vec<Vec<u8>> = Vec::new();
    let mut cur: Vec<u8> = Vec::new();
    let mut i: usize = 0;
    proof {
        assert(s@.skip(0) =~= s@);
        assert(deep(done@) + lines_acc(s@, cur@) =~~= lines_acc(s@, cur@));
    }
    while i < s.len()
        invariant
            i <= s@.len(),
            lines_of(s@) == deep(done@) + lines_acc(s@.skip(i as int), cur@),
        decreases s@.len() - i,
    {
        let ghost pre_done = done@;
        let ghost pre_cur = cur@;
        let ghost rest = s@.skip(i as int);
        proof {
            assert(rest.len() > 0);
            assert(rest[0] == s@[i as int]);
            assert(rest.skip(1) =~= s@.skip(i as int + 1));
        }
        let b = s[i];
        if b == 10 {
            proof {
                assert(lines_acc(rest, pre_cur) == seq![pre_cur] + lines_acc(
                    rest.skip(1),
                    Seq::empty(),
                ));
            }
            done.push(cur);
            cur = Vec::new();
            proof {
                assert(deep(done@) =~~= deep(pre_done) + seq![pre_cur]);
                assert(lines_acc(rest, pre_cur) =~~= seq![pre_cur] + lines_acc(
                    s@.skip(i as int + 1),
                    Seq::empty(),
                ));
                assert(deep(pre_done) + (seq![pre_cur] + lines_acc(
                    s@.skip(i as int + 1),
                    Seq::<u8>::empty(),
                )) =~~= (deep(pre_done) + seq![pre_cur]) + lines_acc(
                    s@.skip(i as int + 1),
                    Seq::<u8>::empty(),
                ));
            }
        } else {
            cur.push(b);
            proof {
                assert(cur@ =~= pre_cur.push(s@[i as int]));
                assert(lines_acc(rest, pre_cur) == lines_acc(rest.skip(1), pre_cur.push(rest[0])));
            }
        }
        i = i + 1;
    }
    proof {
        assert(s@.skip(i as int) =~= Seq::<u8>::empty());
    }
    let ghost pre_done = done@;
    let ghost pre_cur = cur@;
    done.push(cur);
    proof {
        assert(deep(done@) =~~= deep(pre_done) + seq![pre_cur]);
        assert(deep(done@) =~~= lines_of(s@));
    }
    done
}

/// The tokens joined with the single byte `sep` between adjacent ones.
pub open spec fn join_with(sep: u8, toks: Seq<Seq<u8>>) -> Seq<u8>
    decreases toks.len(),
{
    if toks.len() == 0 {
        Seq::empty()
    } else if toks.len() == 1 {
        toks[0]
    } else {
        toks[0] + seq![sep] + join_with(sep, toks.skip(1))
    }
}

proof fn lemma_join_push(sep: u8, toks: Seq<Seq<u8>>, t: Seq<u8>)
    ensures
        join_with(sep, toks.push(t)) == if toks.len() == 0 {
            t
        } else {
            join_with(sep, toks) + seq![sep] + t
        },
    decreases toks.len(),
{
    if toks.len() == 0 {
        assert(toks.push(t)[0] == t);
    } else if toks.len() == 1 {
        assert(toks.push(t)[0] == toks[0]);
        assert(toks.push(t).skip(1) =~~= seq![t]);
        assert(join_with(sep, seq![t]) == t);
    } else {
        assert(toks.push(t).skip(1) =~~= toks.skip(1).push(t));
        lemma_join_push(sep, toks.skip(1), t);
        assert((toks[0] + seq![sep] + (join_with(sep, toks.skip(1)) + seq![sep] + t)) =~= (toks[0]
            + seq![sep] + join_with(sep, toks.skip(1)) + seq![sep] + t));
    }
}

/// Joins the tokens with `sep` between adjacent ones.
pub fn join_tokens(sep: u8, toks: &Vec<Vec<u8>>) -> (r: Vec<u8>)
    ensures
        r@ == join_with(sep, deep(toks@)),
{
    let mut r: Vec<u8> = Vec::new();
    let mut i: usize = 0;
    while i < toks.len()
        invariant
            i <= toks@.len(),
            r@ == join_with(sep, deep(toks@).take(i as int)),
        decreases toks@.len() - i,
    {
        let ghost pre = r@;
        if i > 0 {
            r.push(sep);
        }
        let t = &toks[i];
        let mut j: usize = 0;
        while j < t.len()
            invariant
                j <= t@.len(),
                r@ == (if i > 0 {
                    pre + seq![sep]
                } else {
                    pre
                }) + t@.take(j as int),
            decreases t@.len() - j,
        {
            r.push(t[j]);
            proof {
                assert(t@.take(j as int + 1) =~= t@.take(j as int).push(t@[j as int]));
            }
            j = j + 1;
        }
        proof {
            assert(t@.take(t@.len() as int) =~= t@);
            lemma_join_push(sep, deep(toks@).take(i as int), t@);
            assert(deep(toks@).take(i as int + 1) =~~= deep(toks@).take(i as int).push(t@));
            if i > 0 {
                assert(r@ =~= join_with(sep, deep(toks@).take(i as int)) + seq![sep] + t@);
            } else {
                assert(deep(toks@).take(0) =~~= Seq::<Seq<u8>>::empty());
            }
        }
        i = i + 1;
    }
    proof {
        assert(deep(toks@).take(toks@.len() as int) =~~= deep(toks@));
    }
    r
}

/// A token a split can produce: nonempty, with no separator byte in it.
pub open spec fn good_token(c: SepClass, t: Seq<u8>) -> bool {
    t.len() > 0 && forall|i: int| 0 <= i < t.len() ==> !is_sep(c, #[trigger] t[i])
}

pub open spec fn good_tokens(c: SepClass, ts: Seq<Seq<u8>>) -> bool {
    forall|k: int| 0 <= k < ts.len() ==> good_token(c, #[trigger] ts[k])
}

proof fn lemma_split_acc_good(c: SepClass, s: Seq<u8>, cur: Seq<u8>)
    requires
        forall|i: int| 0 <= i < cur.len() ==> !is_sep(c, #[trigger] cur[i]),
    ensures
        good_tokens(c, split_acc(c, s, cur)),
    decreases s.len(),
{
    if s.len() == 0 {
        if cur.len() > 0 {
            assert(good_token(c, cur));
            assert(split_acc(c, s, cur) == seq![cur]);
            assert(seq![cur][0] == cur);
        }
    } else if is_sep(c, s[0]) {
        lemma_split_acc_good(c, s.skip(1), Seq::empty());
        let head: Seq<Seq<u8>> = if cur.len() == 0 {
            Seq::empty()
        } else {
            seq![cur]
        };
        let rec = split_acc(c, s.skip(1), Seq::empty());
        assert(split_acc(c, s, cur) == head + rec);
        assert forall|k: int| 0 <= k < (head + rec).len() implies good_token(
            c,
            #[trigger] (head + rec)[k],
        ) by {
            if k < head.len() {
                assert((head + rec)[k] == cur);
                assert(good_token(c, cur));
            } else {
                assert((head + rec)[k] == rec[k - head.len()]);
            }
        }
    } else {
        assert(forall|i: int|
            0 <= i < cur.push(s[0]).len() ==> !is_sep(c, #[trigger] cur.push(s[0])[i]));
        lemma_split_acc_good(c, s.skip(1), cur.push(s[0]));
    }
}

/// Every token a split produces is nonempty and free of the separator.
pub proof fn lemma_tokens_wellformed(c: SepClass, s: Seq<u8>)
    ensures
        good_tokens(c, tokens_of(c, s)),
{
    lemma_split_acc_good(c, s, Seq::empty());
}

proof fn lemma_split_acc_sep_free(c: SepClass, t: Seq<u8>, s: Seq<u8>, cur: Seq<u8>)
    requires
        forall|i: int| 0 <= i < t.len() ==> !is_sep(c, #[trigger] t[i]),
    ensures
        split_acc(c, t + s, cur) == split_acc(c, s, cur + t),
    decreases t.len(),
{
    if t.len() == 0 {
        assert(t + s =~= s);
        assert(cur + t =~= cur);
    } else {
        assert((t + s)[0] == t[0]);
        assert((t + s).skip(1) =~= t.skip(1) + s);
        lemma_split_acc_sep_free(c, t.skip(1), s, cur.push(t[0]));
        assert(cur.push(t[0]) + t.skip(1) =~= cur + t);
    }
}

/// Splitting undoes joining: tokens that are nonempty and free of the
/// separator class are recovered exactly from their joined text.
pub proof fn lemma_join_then_split(c: SepClass, sep: u8, ts: Seq<Seq<u8>>)
    requires
        is_sep(c, sep),
        good_tokens(c, ts),
    ensures
        tokens_of(c, join_with(sep, ts)) == ts,
    decreases ts.len(),
{
    if ts.len() == 0 {
        assert(tokens_of(c, join_with(sep, ts)) =~~= ts);
    } else if ts.len() == 1 {
        assert(join_with(sep, ts) == ts[0]);
        lemma_split_acc_sep_free(c, ts[0], Seq::empty(), Seq::empty());
        assert(ts[0] + Seq::<u8>::empty() =~= ts[0]);
        assert(Seq::<u8>::empty() + ts[0] =~= ts[0]);
        assert(good_token(c, ts[0]));
        assert(split_acc(c, Seq::<u8>::empty(), ts[0]) == seq![ts[0]]);
        assert(tokens_of(c, join_with(sep, ts)) =~~= ts);
    } else {
        let j = join_with(sep, ts.skip(1));
        assert(join_with(sep, ts) == ts[0] + seq![sep] + j);
        assert(ts[0] + seq![sep] + j =~= ts[0] + (seq![sep] + j));
        assert(good_token(c, ts[0]));
        lemma_split_acc_sep_free(c, ts[0], seq![sep] + j, Seq::empty());
        assert(Seq::<u8>::empty() + ts[0] =~= ts[0]);
        assert((seq![sep] + j)[0] == sep);
        assert((seq![sep] + j).skip(1) =~= j);
        assert(split_acc(c, seq![sep] + j, ts[0]) == seq![ts[0]] + split_acc(c, j, Seq::empty()));
        assert(good_tokens(c, ts.skip(1))) by {
            assert forall|k: int| 0 <= k < ts.skip(1).len() implies good_token(
                c,
                #[trigger] ts.skip(1)[k],
            ) by {
                assert(ts.skip(1)[k] == ts[k + 1]);
            }
        }
        lemma_join_then_split(c, sep, ts.skip(1));
        assert(seq![ts[0]] + ts.skip(1) =~~= ts);
    }
}

/// Byte-for-byte equality of two byte vectors.
pub fn bytes_eq(a: &Vec<u8>, b: &Vec<u8>) -> (r: bool)
    ensures
        r == (a@ == b@),
{
    if a.len() != b.len() {
        return false;
    }
    let mut i: usize = 0;
    while i < a.len()
        invariant
            a@.len() == b@.len(),
            i <= a@.len(),
            forall|j: int| 0 <= j < i ==> a@[j] == b@[j],
        decreases a@.len() - i,
    {
        if a[i] != b[i] {
            return false;
        }
        i = i + 1;
    }
    proof {
        assert(a@ =~= b@);
    }
    true
}

/// A fresh copy of a byte vector.
pub fn copy_bytes(a: &Vec<u8>) -> (r: Vec<u8>)
    ensures
        r@ == a@,
{
    let mut r: Vec<u8> = Vec::new();
    let mut i: usize = 0;
    while i < a.len()
        invariant
            i <= a@.len(),
            r@ == a@.take(i as int),
        decreases a@.len() - i,
    {
        r.push(a[i]);
        proof {
            assert(a@.take(i as int + 1) =~= a@.take(i as int).push(a@[i as int]));
        }
        i = i + 1;
    }
    proof {
        assert(a@.take(a@.len() as int) =~= a@);
    }
    r
}

} // verus!
