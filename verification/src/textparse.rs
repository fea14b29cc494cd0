use vstd::prelude::*;
use crate::text::{
    SepClass, deep, tokens_of, split_tokens, lines_of, lines_acc, split_lines, join_with,
    join_tokens, is_ascii_ws, copy_bytes,
};

verus! {

/// `s` with its leading ASCII whitespace removed.
pub open spec fn trim_front(s: Seq<u8>) -> Seq<u8>
    decreases s.len(),
{
    if s.len() == 0 {
        s
    } else if is_ascii_ws(s[0]) {
        trim_front(s.skip(1))
    } else {
        s
    }
}

/// `s` with its trailing ASCII whitespace removed.
pub open spec fn trim_back(s: Seq<u8>) -> Seq<u8>
    decreases s.len(),
{
    if s.len() == 0 {
        s
    } else if is_ascii_ws(s[s.len() - 1]) {
        trim_back(s.take(s.len() - 1))
    } else {
        s
    }
}

/// `s` with ASCII whitespace removed from both ends.
pub open spec fn trimmed(s: Seq<u8>) -> Seq<u8> {
    trim_back(trim_front(s))
}

pub fn ws_byte(b: u8) -> (r: bool)
    ensures
        r == is_ascii_ws(b),
{
    b == 32 || b == 9 || b == 10 || b == 13
}

proof fn lemma_trim_front_at(s: Seq<u8>, lo: int)
    requires
        0 <= lo <= s.len(),
        forall|j: int| 0 <= j < lo ==> is_ascii_ws(s[j]),
        lo < s.len() ==> !is_ascii_ws(s[lo]),
    ensures
        trim_front(s) == s.skip(lo),
    decreases lo,
{
    if lo == 0 {
        assert(s.skip(0) =~= s);
    } else {
        assert(is_ascii_ws(s[0]));
        lemma_trim_front_at(s.skip(1), lo - 1);
        assert(s.skip(1).skip(lo - 1) =~= s.skip(lo));
    }
}

proof fn lemma_trim_back_at(s: Seq<u8>, hi: int)
    requires
        0 <= hi <= s.len(),
        forall|j: int| hi <= j < s.len() ==> is_ascii_ws(s[j]),
        hi > 0 ==> !is_ascii_ws(s[hi - 1]),
    ensures
        trim_back(s) == s.take(hi),
    decreases s.len(),
{
    if hi == s.len() {
        assert(s.take(hi) =~= s);
        if s.len() > 0 {
            assert(!is_ascii_ws(s[s.len() - 1]));
        }
    } else {
        assert(is_ascii_ws(s[s.len() - 1]));
        lemma_trim_back_at(s.take(s.len() - 1), hi);
        assert(s.take(s.len() - 1).take(hi) =~= s.take(hi));
    }
}

/// Removes ASCII whitespace from both ends of `s`.
pub fn trim_bytes(s: &Vec<u8>) -> (r: Vec<u8>)
    ensures
        r@ == trimmed(s@),
{
    let mut lo: usize = 0;
    while lo < s.len() && ws_byte(s[lo])
        invariant
            lo <= s@.len(),
            forall|j: int| 0 <= j < lo ==> is_ascii_ws(s@[j]),
        decreases s@.len() - lo,
    {
        lo = lo + 1;
    }
    proof {
        lemma_trim_front_at(s@, lo as int);
    }
    let mut hi: usize = s.len();
    while hi > lo && ws_byte(s[hi - 1])
        invariant
            lo <= hi <= s@.len(),
            forall|j: int| hi <= j < s@.len() ==> is_ascii_ws(s@[j]),
        decreases hi,
    {
        hi = hi - 1;
    }
    proof {
        let t = s@.skip(lo as int);
        lemma_trim_back_at(t, hi - lo);
        assert(t.take(hi - lo) =~= s@.subrange(lo as int, hi as int));
    }
    let mut r: Vec<u8> = Vec::new();
    let mut i: usize = lo;
    while i < hi
        invariant
            lo <= i <= hi <= s@.len(),
            r@ == s@.subrange(lo as int, i as int),
        decreases hi - i,
    {
        r.push(s[i]);
        proof {
            assert(s@.subrange(lo as int, i as int + 1) =~= s@.subrange(lo as int, i as int).push(
                s@[i as int],
            ));
        }
        i = i + 1;
    }
    r
}

/// Every byte of `s` is a decimal digit.
pub open spec fn all_digits(s: Seq<u8>) -> bool {
    forall|i: int| 0 <= i < s.len() ==> 48 <= #[trigger] s[i] <= 57
}

/// The number the decimal digits of `s` denote.
pub open spec fn dec_val(s: Seq<u8>) -> int
    decreases s.len(),
{
    if s.len() == 0 {
        0
    } else {
        dec_val(s.take(s.len() - 1)) * 10 + (s[s.len() - 1] - 48)
    }
}

proof fn lemma_dec_val_nonneg(s: Seq<u8>)
    requires
        all_digits(s),
    ensures
        dec_val(s) >= 0,
    decreases s.len(),
{
    if s.len() > 0 {
        assert(all_digits(s.take(s.len() - 1)));
        lemma_dec_val_nonneg(s.take(s.len() - 1));
    }
}

proof fn lemma_dec_val_prefix_mono(s: Seq<u8>, k: int)
    requires
        all_digits(s),
        0 <= k <= s.len(),
    ensures
        dec_val(s.take(k)) <= dec_val(s),
    decreases s.len() - k,
{
    if k < s.len() {
        assert(all_digits(s.take(k + 1)));
        assert(s.take(k + 1).take(k) =~= s.take(k));
        assert(s.take(k + 1)[k] == s[k]);
        assert(dec_val(s.take(k + 1)) == dec_val(s.take(k)) * 10 + (s[k] - 48));
        assert(all_digits(s.take(k)));
        lemma_dec_val_nonneg(s.take(k));
        lemma_dec_val_prefix_mono(s, k + 1);
    } else {
        assert(s.take(k) =~= s);
    }
}

/// Reads a run of decimal digits as a `u32`: the whole of `s` must be
/// nonempty digits denoting a value in range, else nothing.
pub fn parse_u32_digits(s: &Vec<u8>) -> (r: Option<u32>)
    ensures
        match r {
            Option::Some(v) => s@.len() > 0 && all_digits(s@) && dec_val(s@) == v as int,
            Option::None => s@.len() == 0 || !all_digits(s@) || dec_val(s@) > u32::MAX,
        },
{
    if s.len() == 0 {
        return Option::None;
    }
    let mut acc: u64 = 0;
    let mut i: usize = 0;
    proof {
        assert(s@.take(0) =~= Seq::<u8>::empty());
    }
    while i < s.len()
        invariant
            i <= s@.len(),
            all_digits(s@.take(i as int)),
            acc as int == dec_val(s@.take(i as int)),
            acc <= u32::MAX,
        decreases s@.len() - i,
    {
        let b = s[i];
        if b < 48 || b > 57 {
            assert(!all_digits(s@)) by {
                assert(s@[i as int] == b);
            }
            return Option::None;
        }
        proof {
            assert(s@.take(i as int + 1).take(i as int) =~= s@.take(i as int));
            assert(s@.take(i as int + 1)[i as int] == s@[i as int]);
            assert(dec_val(s@.take(i as int + 1)) == dec_val(s@.take(i as int)) * 10 + (b - 48));
            assert(all_digits(s@.take(i as int + 1)));
        }
        acc = acc * 10 + ((b - 48) as u64);
        i = i + 1;
        if acc > 0xFFFF_FFFF {
            proof {
                if all_digits(s@) {
                    lemma_dec_val_prefix_mono(s@, i as int);
                }
            }
            return Option::None;
        }
    }
    proof {
        assert(s@.take(s@.len() as int) =~= s@);
    }
    Option::Some(acc as u32)
}

proof fn lemma_lines_acc_nonempty(s: Seq<u8>, cur: Seq<u8>)
    ensures
        lines_acc(s, cur).len() >= 1,
    decreases s.len(),
{
    if s.len() > 0 {
        if s[0] == 10 {
        } else {
            lemma_lines_acc_nonempty(s.skip(1), cur.push(s[0]));
        }
    }
}

/// The first line of a terse listener listing, trimmed of whitespace. The
/// inspector prints one process id per line; only the first is read.
pub open spec fn first_pid_text(s: Seq<u8>) -> Seq<u8> {
    trimmed(lines_of(s)[0])
}

/// Reads the process id from a terse listener listing: the first line,
/// trimmed, as a decimal number; nothing when that line is empty, is not
/// all digits, or denotes a value too large for a process id.
pub fn parse_pid_output(out: &Vec<u8>) -> (r: Option<u32>)
    ensures
        match r {
            Option::Some(v) => first_pid_text(out@).len() > 0 && all_digits(first_pid_text(out@))
                && dec_val(first_pid_text(out@)) == v as int,
            Option::None => first_pid_text(out@).len() == 0 || !all_digits(first_pid_text(out@))
                || dec_val(first_pid_text(out@)) > u32::MAX,
        },
{
    let lines = split_lines(out);
    proof {
        lemma_lines_acc_nonempty(out@, Seq::empty());
        assert(deep(lines@).len() == lines@.len());
        assert(deep(lines@)[0] == lines@[0]@);
    }
    let first = &lines[0];
    let t = trim_bytes(first);
    parse_u32_digits(&t)
}

/// The line mentions the `cwd` file-descriptor label.
pub open spec fn contains_cwd(s: Seq<u8>) -> bool {
    exists|i: int|
        0 <= i && i + 3 <= s.len() && #[trigger] s[i] == 99 && s[i + 1] == 119 && s[i + 2] == 100
}

/// Decides whether a line mentions `cwd`.
pub fn line_contains_cwd(s: &Vec<u8>) -> (r: bool)
    ensures
        r == contains_cwd(s@),
{
    if s.len() < 3 {
        return false;
    }
    let mut i: usize = 0;
    while i <= s.len() - 3
        invariant
            s@.len() >= 3,
            i <= s@.len() - 2,
            forall|j: int|
                0 <= j < i ==> !(#[trigger] s@[j] == 99 && s@[j + 1] == 119 && s@[j + 2] == 100),
        decreases s@.len() - i,
    {
        if s[i] == 99 && s[i + 1] == 119 && s[i + 2] == 100 {
            assert(contains_cwd(s@));
            return true;
        }
        i = i + 1;
    }
    false
}

/// The whitespace-separated columns of a line.
pub open spec fn words_of(s: Seq<u8>) -> Seq<Seq<u8>> {
    tokens_of(SepClass::Whitespace, s)
}

/// The working directory the listing's lines report: on the first line
/// that mentions `cwd` and has at least nine columns, the ninth and later
/// columns joined with single spaces (the path itself may contain spaces);
/// nothing when no line qualifies.
pub open spec fn cwd_from_lines(ls: Seq<Seq<u8>>) -> Option<Seq<u8>>
    decreases ls.len(),
{
    if ls.len() == 0 {
        Option::None
    } else if contains_cwd(ls[0]) && words_of(ls[0]).len() >= 9 {
        Option::Some(join_with(32u8, words_of(ls[0]).skip(8)))
    } else {
        cwd_from_lines(ls.skip(1))
    }
}

/// The working directory a full per-process listing reports.
pub open spec fn cwd_of_listing(s: Seq<u8>) -> Option<Seq<u8>> {
    cwd_from_lines(lines_of(s))
}

/// Reads the process's working directory out of a full per-process
/// listing, per `cwd_of_listing`.
pub fn parse_cwd_output(out: &Vec<u8>) -> (r: Option<Vec<u8>>)
    ensures
        match r {
            Option::Some(v) => cwd_of_listing(out@) == Option::Some(v@),
            Option::None => cwd_of_listing(out@) is None,
        },
{
    let lines = split_lines(out);
    let mut i: usize = 0;
    proof {
        assert(deep(lines@).skip(0) =~~= deep(lines@));
    }
    while i < lines.len()
        invariant
            i <= lines@.len(),
            cwd_of_listing(out@) == cwd_from_lines(deep(lines@).skip(i as int)),
            deep(lines@) == lines_of(out@),
        decreases lines@.len() - i,
    {
        let ghost tail = deep(lines@).skip(i as int);
        proof {
            assert(tail.len() > 0);
            assert(tail[0] == lines@[i as int]@);
            assert(tail.skip(1) =~~= deep(lines@).skip(i as int + 1));
        }
        if line_contains_cwd(&lines[i]) {
            let words = split_tokens(SepClass::Whitespace, &lines[i]);
            if words.len() >= 9 {
                let mut tail_words: Vec<Vec<u8>> = Vec::new();
                let mut k: usize = 8;
                proof {
                    assert(deep(tail_words@) =~~= deep(words@).subrange(8, 8));
                }
                while k < words.len()
                    invariant
                        8 <= k <= words@.len(),
                        deep(tail_words@) == deep(words@).subrange(8, k as int),
                    decreases words@.len() - k,
                {
                    let ghost pre = tail_words@;
                    tail_words.push(copy_bytes(&words[k]));
                    proof {
                        assert(deep(tail_words@) =~~= deep(pre).push(words@[k as int]@));
                        assert(deep(words@).subrange(8, k as int + 1) =~~= deep(words@).subrange(
                            8,
                            k as int,
                        ).push(deep(words@)[k as int]));
                    }
                    k = k + 1;
                }
                let joined = join_tokens(32, &tail_words);
                proof {
                    assert(deep(words@).subrange(8, words@.len() as int) =~~= deep(words@).skip(8));
                    assert(words_of(tail[0]) == deep(words@));
                }
                return Option::Some(joined);
            }
            proof {
                assert(words_of(tail[0]).len() < 9);
            }
        }
        i = i + 1;
    }
    proof {
        assert(deep(lines@).skip(lines@.len() as int) =~~= Seq::<Seq<u8>>::empty());
    }
    Option::None
}

} // verus!
