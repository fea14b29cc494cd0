use vstd::prelude::*;
use crate::text::{deep, join_with, join_tokens};

verus! {

/// The decimal digits of `n`, most significant first; empty for zero.
pub open spec fn dec_digits(n: nat) -> Seq<u8>
    decreases n,
{
    if n == 0 {
        Seq::empty()
    } else {
        dec_digits(n / 10).push((48 + n % 10) as u8)
    }
}

/// The decimal rendering of `n`, with zero written as `0`.
pub open spec fn dec_of(n: nat) -> Seq<u8> {
    if n == 0 {
        seq![48u8]
    } else {
        dec_digits(n)
    }
}

/// Renders `n` in decimal.
pub fn u64_to_dec(n: u64) -> (r: Vec<u8>)
    ensures
        r@ == dec_of(n as nat),
{
    if n == 0 {
        let mut r: Vec<u8> = Vec::new();
        r.push(48);
        proof {
            assert(r@ =~= seq![48u8]);
        }
        return r;
    }
    let mut m = n;
    let mut acc: Vec<u8> = Vec::new();
    proof {
        assert(dec_digits(n as nat) + Seq::<u8>::empty() =~= dec_digits(n as nat));
    }
    while m > 0
        invariant
            dec_digits(n as nat) == dec_digits(m as nat) + acc@,
        decreases m,
    {
        let ghost pre = acc@;
        let d = (m % 10) as u8 + 48;
        acc.insert(0, d);
        proof {
            assert(acc@ =~= seq![d] + pre);
            assert(dec_digits(m as nat) == dec_digits((m as nat) / 10).push(
                (48 + (m as nat) % 10) as u8,
            ));
            assert((m / 10) as nat == (m as nat) / 10);
            assert(dec_digits((m as nat) / 10).push(d) + pre =~= dec_digits((m as nat) / 10) + (
            seq![d] + pre));
        }
        m = m / 10;
    }
    proof {
        assert(dec_digits(0nat) + acc@ =~= acc@);
    }
    acc
}

/// Renders a port number in decimal.
pub fn u16_to_dec(n: u16) -> (r: Vec<u8>)
    ensures
        r@ == dec_of(n as nat),
{
    u64_to_dec(n as u64)
}

/// Appends `a` to `r`.
pub fn append_bytes(r: &mut Vec<u8>, a: &Vec<u8>)
    ensures
        final(r)@ == old(r)@ + a@,
{
    let mut i: usize = 0;
    while i < a.len()
        invariant
            i <= a@.len(),
            r@ == old(r)@ + a@.take(i as int),
        decreases a@.len() - i,
    {
        r.push(a[i]);
        proof {
            assert(old(r)@ + a@.take(i as int + 1) =~= (old(r)@ + a@.take(i as int)).push(
                a@[i as int],
            ));
        }
        i = i + 1;
    }
    proof {
        assert(a@.take(a@.len() as int) =~= a@);
    }
}

/// The bytes of `http://localhost:`.
pub open spec fn scheme_host() -> Seq<u8> {
    seq![
        104u8,
        116u8,
        116u8,
        112u8,
        58u8,
        47u8,
        47u8,
        108u8,
        111u8,
        99u8,
        97u8,
        108u8,
        104u8,
        111u8,
        115u8,
        116u8,
        58u8,
    ]
}

/// The full loopback URL for a port and a URL path fragment: the scheme and
/// host, the decimal port, and — only when the fragment is nonempty — a
/// slash and the fragment's segments joined with slashes.
pub open spec fn url_of(port: nat, segs: Seq<Seq<u8>>) -> Seq<u8> {
    scheme_host() + dec_of(port) + if segs.len() == 0 {
        Seq::<u8>::empty()
    } else {
        seq![47u8] + join_with(47u8, segs)
    }
}

/// Builds the browser URL for a port and a URL path fragment.
pub fn build_url(port: u16, path: &Vec<Vec<u8>>) -> (r: Vec<u8>)
    ensures
        r@ == url_of(port as nat, deep(path@)),
{
    let mut r: Vec<u8> = Vec::new();
    r.push(104);
    r.push(116);
    r.push(116);
    r.push(112);
    r.push(58);
    r.push(47);
    r.push(47);
    r.push(108);
    r.push(111);
    r.push(99);
    r.push(97);
    r.push(108);
    r.push(104);
    r.push(111);
    r.push(115);
    r.push(116);
    r.push(58);
    proof {
        assert(r@ =~= scheme_host());
    }
    let dec = u16_to_dec(port);
    append_bytes(&mut r, &dec);
    if path.len() > 0 {
        r.push(47);
        let ghost head = r@;
        let joined = join_tokens(47, path);
        append_bytes(&mut r, &joined);
        proof {
            assert(head =~= scheme_host() + dec_of(port as nat) + seq![47u8]);
            assert(r@ =~= scheme_host() + dec_of(port as nat) + (seq![47u8] + join_with(
                47u8,
                deep(path@),
            )));
        }
    } else {
        proof {
            assert(deep(path@).len() == 0);
            assert(r@ =~= scheme_host() + dec_of(port as nat) + Seq::<u8>::empty());
        }
    }
    r
}

/// The bytes of `/tmp/hopen-server-`.
pub open spec fn log_prefix() -> Seq<u8> {
    seq![
        47u8,
        116u8,
        109u8,
        112u8,
        47u8,
        104u8,
        111u8,
        112u8,
        101u8,
        110u8,
        45u8,
        115u8,
        101u8,
        114u8,
        118u8,
        101u8,
        114u8,
        45u8,
    ]
}

/// The bytes of `.log`.
pub open spec fn log_suffix() -> Seq<u8> {
    seq![46u8, 108u8, 111u8, 103u8]
}

/// The per-launch log file path for a spawning process id: a well-known
/// temporary-directory name keyed by that id.
pub open spec fn log_path_of(pid: nat) -> Seq<u8> {
    log_prefix() + dec_of(pid) + log_suffix()
}

/// Builds the log file path used for one background launch.
pub fn log_file_path(pid: u32) -> (r: Vec<u8>)
    ensures
        r@ == log_path_of(pid as nat),
{
    let mut r: Vec<u8> = Vec::new();
    r.push(47);
    r.push(116);
    r.push(109);
    r.push(112);
    r.push(47);
    r.push(104);
    r.push(111);
    r.push(112);
    r.push(101);
    r.push(110);
    r.push(45);
    r.push(115);
    r.push(101);
    r.push(114);
    r.push(118);
    r.push(101);
    r.push(114);
    r.push(45);
    proof {
        assert(r@ =~= log_prefix());
    }
    let dec = u64_to_dec(pid as u64);
    append_bytes(&mut r, &dec);
    r.push(46);
    r.push(108);
    r.push(111);
    r.push(103);
    proof {
        assert(r@ =~= log_prefix() + dec_of(pid as nat) + log_suffix());
    }
    r
}

} // verus!
