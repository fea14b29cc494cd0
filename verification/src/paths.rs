use vstd::prelude::*;
use crate::errors::Error;
use crate::text::{
    SepClass, deep, tokens_of, split_acc, split_tokens, bytes_eq, copy_bytes, is_sep, good_tokens,
    join_with, lemma_tokens_wellformed, lemma_join_then_split,
};

verus! {

/// The segments of a canonicalized absolute path: its nonempty components
/// between `/` separators. Two such paths name the same directory iff their
/// segments agree, whatever slashes the spelling carried.
pub open spec fn segments_of(s: Seq<u8>) -> Seq<Seq<u8>> {
    tokens_of(SepClass::Slash, s)
}

/// Splits a path into its segments.
pub fn split_path(s: &Vec<u8>) -> (r: Vec<Vec<u8>>)
    ensures
        deep(r@) == segments_of(s@),
{
    split_tokens(SepClass::Slash, s)
}

proof fn lemma_split_acc_trailing_sep(c: SepClass, s: Seq<u8>, cur: Seq<u8>, b: u8)
    requires
        is_sep(c, b),
    ensures
        split_acc(c, s.push(b), cur) == split_acc(c, s, cur),
    decreases s.len(),
{
    if s.len() == 0 {
        assert(s.push(b)[0] == b);
        assert(s.push(b).skip(1) =~= Seq::<u8>::empty());
        assert(split_acc(c, Seq::<u8>::empty(), Seq::<u8>::empty()) =~~= Seq::<Seq<u8>>::empty());
        assert(split_acc(c, s.push(b), cur) == (if cur.len() == 0 {
            Seq::<Seq<u8>>::empty()
        } else {
            seq![cur]
        }) + split_acc(c, s.push(b).skip(1), Seq::empty()));
        assert(split_acc(c, s.push(b), cur) =~~= split_acc(c, s, cur));
    } else {
        assert(s.push(b)[0] == s[0]);
        assert(s.push(b).skip(1) =~= s.skip(1).push(b));
        if is_sep(c, s[0]) {
            lemma_split_acc_trailing_sep(c, s.skip(1), Seq::empty(), b);
            assert(split_acc(c, s.push(b), cur) == split_acc(c, s, cur));
        } else {
            lemma_split_acc_trailing_sep(c, s.skip(1), cur.push(s[0]), b);
            assert(split_acc(c, s.push(b), cur) == split_acc(c, s, cur));
        }
    }
}

/// A trailing slash changes nothing: the segments of `s` followed by `/`
/// are those of `s`.
pub proof fn lemma_trailing_slash(s: Seq<u8>)
    ensures
        segments_of(s.push(47u8)) == segments_of(s),
{
    lemma_split_acc_trailing_sep(SepClass::Slash, s, Seq::empty(), 47u8);
}

/// The outcome of path mapping: the directory the server must serve and
/// the URL path fragment below it, both as path segments.
#[derive(Debug, PartialEq, Eq)]
pub struct PathMapping {
    pub served_dir: Vec<Vec<u8>>,
    pub url_path: Vec<Vec<u8>>,
}

pub open spec fn opt_bytes(o: Option<&Vec<u8>>) -> Option<Seq<u8>> {
    match o {
        Option::Some(v) => Option::Some(v@),
        Option::None => Option::None,
    }
}

/// What `resolve` computes, over segment sequences.
///
/// With no site root the current directory itself is served at the URL
/// root, and a filename is an input-validation error. With a site root the
/// current directory must equal the root or lie below it; the whole site
/// tree is served (so relative links keep resolving), and the URL path is
/// the caller's position below the root with the filename appended.
pub open spec fn resolve_spec(root: Option<Seq<u8>>, cur: Seq<u8>, file: Option<Seq<u8>>) -> Result<
    (Seq<Seq<u8>>, Seq<Seq<u8>>),
    Error,
> {
    match root {
        Option::None => match file {
            Option::Some(_) => Result::Err(Error::FilenameRequiresRoot),
            Option::None => Result::Ok((segments_of(cur), Seq::empty())),
        },
        Option::Some(r) => if !segments_of(r).is_prefix_of(segments_of(cur)) {
            Result::Err(Error::NotUnderSiteRoot)
        } else {
            let rel = segments_of(cur).skip(segments_of(r).len() as int);
            let url = match file {
                Option::Some(f) => rel + segments_of(f),
                Option::None => rel,
            };
            Result::Ok((segments_of(r), url))
        },
    }
}

/// One segment sequence is a prefix of another, decided segment by segment.
pub fn segs_prefix_of(a: &Vec<Vec<u8>>, b: &Vec<Vec<u8>>) -> (r: bool)
    ensures
        r == deep(a@).is_prefix_of(deep(b@)),
{
    if a.len() > b.len() {
        return false;
    }
    let mut i: usize = 0;
    while i < a.len()
        invariant
            a@.len() <= b@.len(),
            i <= a@.len(),
            forall|j: int| 0 <= j < i ==> deep(a@)[j] == deep(b@)[j],
        decreases a@.len() - i,
    {
        if !bytes_eq(&a[i], &b[i]) {
            proof {
                if deep(a@).is_prefix_of(deep(b@)) {
                    assert(deep(a@)[i as int] == deep(b@).subrange(0, a@.len() as int)[i as int]);
                }
            }
            return false;
        }
        i = i + 1;
    }
    proof {
        assert(deep(a@) =~~= deep(b@).subrange(0, a@.len() as int));
    }
    true
}

/// Maps the configured site root and the caller's current directory to the
/// directory to serve and the URL path fragment, per `resolve_spec`. All
/// paths are expected canonicalized and absolute; the mapping itself works
/// purely on their segments.
pub fn resolve(root: Option<&Vec<u8>>, cur: &Vec<u8>, file: Option<&Vec<u8>>) -> (r: Result<
    PathMapping,
    Error,
>)
    ensures
        ({
            let s = resolve_spec(opt_bytes(root), cur@, opt_bytes(file));
            match r {
                Result::Ok(m) => s == Result::Ok::<_, Error>(
                    (deep(m.served_dir@), deep(m.url_path@)),
                ),
                Result::Err(e) => s == Result::Err::<(Seq<Seq<u8>>, Seq<Seq<u8>>), _>(e),
            }
        }),
{
    match root {
        Option::None => {
            match file {
                Option::Some(_) => Result::Err(Error::FilenameRequiresRoot),
                Option::None => {
                    let served = split_path(cur);
                    let url: Vec<Vec<u8>> = Vec::new();
                    proof {
                        assert(deep(url@) =~~= Seq::<Seq<u8>>::empty());
                    }
                    Result::Ok(PathMapping { served_dir: served, url_path: url })
                },
            }
        },
        Option::Some(rt) => {
            let root_segs = split_path(rt);
            let cur_segs = split_path(cur);
            if !segs_prefix_of(&root_segs, &cur_segs) {
                return Result::Err(Error::NotUnderSiteRoot);
            }
            let mut url: Vec<Vec<u8>> = Vec::new();
            let mut i: usize = root_segs.len();
            while i < cur_segs.len()
        invariant
            root_segs@.len() <= i <= cur_segs@.len(),
            deep(url@) == deep(cur_segs@).subrange(root_segs@.len() as int, i as int),
        decreases cur_segs@.len() - i,
            {
                let ghost pre = url@;
                url.push(copy_bytes(&cur_segs[i]));
                proof {
                    assert(deep(url@) =~~= deep(pre).push(cur_segs@[i as int]@));
                    assert(deep(cur_segs@).subrange(root_segs@.len() as int, i as int + 1) =~~= deep(
                        cur_segs@,
                    ).subrange(root_segs@.len() as int, i as int).push(deep(cur_segs@)[i as int]));
                }
                i = i + 1;
            }
            proof {
                assert(deep(cur_segs@).subrange(
                    root_segs@.len() as int,
                    cur_segs@.len() as int,
                ) =~~= deep(cur_segs@).skip(root_segs@.len() as int));
            }
            match file {
                Option::Some(f) => {
                    let fsegs = split_path(f);
                    let ghost rel = deep(url@);
                    let mut k: usize = 0;
                    while k < fsegs.len()
        invariant
            k <= fsegs@.len(),
            deep(url@) == rel + deep(fsegs@).take(k as int),
        decreases fsegs@.len() - k,
                    {
                        let ghost pre = url@;
                        url.push(copy_bytes(&fsegs[k]));
                        proof {
                            assert(deep(url@) =~~= deep(pre).push(fsegs@[k as int]@));
                            assert(deep(fsegs@).take(k as int + 1) =~~= deep(fsegs@).take(
                                k as int,
                            ).push(deep(fsegs@)[k as int]));
                            assert(deep(pre).push(fsegs@[k as int]@) =~~= rel + deep(fsegs@).take(
                                k as int + 1,
                            ));
                        }
                        k = k + 1;
                    }
                    proof {
                        assert(deep(fsegs@).take(fsegs@.len() as int) =~~= deep(fsegs@));
                    }
                    Result::Ok(PathMapping { served_dir: root_segs, url_path: url })
                },
                Option::None => Result::Ok(PathMapping { served_dir: root_segs, url_path: url }),
            }
        },
    }
}

/// For a current directory under the site root at relative depth `d`, the
/// computed URL path begins with exactly the `d` segments separating the
/// two, in order; a filename only appends segments after them.
pub proof fn lemma_url_leading_segments(root: Seq<u8>, cur: Seq<u8>, file: Option<Seq<u8>>)
    requires
        segments_of(root).is_prefix_of(segments_of(cur)),
    ensures
        resolve_spec(Option::Some(root), cur, file) matches Result::Ok(m) && m.1.len()
            >= segments_of(cur).len() - segments_of(root).len() && m.1.take(
            segments_of(cur).len() - segments_of(root).len(),
        ) == segments_of(cur).skip(segments_of(root).len() as int),
{
    let rs = segments_of(root);
    let cs = segments_of(cur);
    let rel = cs.skip(rs.len() as int);
    match file {
        Option::Some(f) => {
            assert((rel + segments_of(f)).take(rel.len() as int) =~~= rel);
        },
        Option::None => {
            assert(rel.take(rel.len() as int) =~~= rel);
        },
    }
}

/// The segments of any path are nonempty and slash-free, and joining them
/// with slashes and splitting again recovers them exactly: the URL path
/// fragment a mapping reports denotes precisely its segments.
pub proof fn lemma_segments_roundtrip(s: Seq<u8>)
    ensures
        good_tokens(SepClass::Slash, segments_of(s)),
        segments_of(join_with(47u8, segments_of(s))) == segments_of(s),
{
    lemma_tokens_wellformed(SepClass::Slash, s);
    lemma_join_then_split(SepClass::Slash, 47u8, segments_of(s));
}

/// Trailing slashes on the site root or the current directory change
/// neither the mapping nor its verdict.
pub proof fn lemma_resolve_trailing_slash(root: Seq<u8>, cur: Seq<u8>, file: Option<Seq<u8>>)
    ensures
        resolve_spec(Option::Some(root.push(47u8)), cur.push(47u8), file) == resolve_spec(
            Option::Some(root),
            cur,
            file,
        ),
{
    lemma_trailing_slash(root);
    lemma_trailing_slash(cur);
}

/// A current directory strictly outside the site root is always rejected
/// with `NotUnderSiteRoot`; no best-effort mapping is ever produced.
pub proof fn lemma_outside_root_rejected(root: Seq<u8>, cur: Seq<u8>, file: Option<Seq<u8>>)
    requires
        !segments_of(root).is_prefix_of(segments_of(cur)),
    ensures
        resolve_spec(Option::Some(root), cur, file) == Result::Err::<
            (Seq<Seq<u8>>, Seq<Seq<u8>>),
            Error,
        >(Error::NotUnderSiteRoot),
{
}

} // verus!
