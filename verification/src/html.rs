use vstd::prelude::*;

verus! {

/// ASCII lower-casing of a single byte.
pub open spec fn lower_byte(b: u8) -> u8 {
    if 65 <= b && b <= 90 {
        (b + 32) as u8
    } else {
        b
    }
}

/// `s` ends with `suf` up to ASCII case; `suf` is given in lower case.
pub open spec fn ends_with_ci(s: Seq<u8>, suf: Seq<u8>) -> bool {
    &&& s.len() >= suf.len()
    &&& forall|i: int| 0 <= i < suf.len() ==> lower_byte(s[s.len() - suf.len() + i]) == suf[i]
}

/// The lower-case suffix `.html` as bytes.
pub open spec fn html_suffix() -> Seq<u8> {
    seq![46u8, 104u8, 116u8, 109u8, 108u8]
}

/// The lower-case suffix `.htm` as bytes.
pub open spec fn htm_suffix() -> Seq<u8> {
    seq![46u8, 104u8, 116u8, 109u8]
}

/// A file name that the tool counts as an HTML page: its name ends in
/// `.html` or `.htm`, compared case-insensitively.
pub open spec fn is_html_name(s: Seq<u8>) -> bool {
    ends_with_ci(s, html_suffix()) || ends_with_ci(s, htm_suffix())
}

pub fn lower(b: u8) -> (r: u8)
    ensures
        r == lower_byte(b),
{
    if 65 <= b && b <= 90 {
        b + 32
    } else {
        b
    }
}

/// Decides whether one file name counts as an HTML page.
pub fn name_is_html(name: &Vec<u8>) -> (r: bool)
    ensures
        r == is_html_name(name@),
{
    let n = name.len();
    if n >= 5 {
        let r5 = lower(name[n - 5]) == 46 && lower(name[n - 4]) == 104 && lower(name[n - 3]) == 116
            && lower(name[n - 2]) == 109 && lower(name[n - 1]) == 108;
        if r5 {
            assert(ends_with_ci(name@, html_suffix()));
            return true;
        }
        assert(!ends_with_ci(name@, html_suffix())) by {
            let k = name@.len() - 5;
            assert(!(forall|i: int|
                0 <= i < 5 ==> lower_byte(name@[k + i]) == html_suffix()[i])) by {
                if forall|i: int| 0 <= i < 5 ==> lower_byte(name@[k + i]) == html_suffix()[i] {
                    assert(lower_byte(name@[k + 0]) == html_suffix()[0]);
                    assert(lower_byte(name@[k + 1]) == html_suffix()[1]);
                    assert(lower_byte(name@[k + 2]) == html_suffix()[2]);
                    assert(lower_byte(name@[k + 3]) == html_suffix()[3]);
                    assert(lower_byte(name@[k + 4]) == html_suffix()[4]);
                }
            }
        }
    } else {
        assert(!ends_with_ci(name@, html_suffix()));
    }
    if n >= 4 {
        let r4 = lower(name[n - 4]) == 46 && lower(name[n - 3]) == 104 && lower(name[n - 2]) == 116
            && lower(name[n - 1]) == 109;
        if r4 {
            assert(ends_with_ci(name@, htm_suffix()));
            return true;
        }
        assert(!ends_with_ci(name@, htm_suffix())) by {
            let k = name@.len() - 4;
            assert(!(forall|i: int| 0 <= i < 4 ==> lower_byte(name@[k + i]) == htm_suffix()[i]))
                by {
                if forall|i: int| 0 <= i < 4 ==> lower_byte(name@[k + i]) == htm_suffix()[i] {
                    assert(lower_byte(name@[k + 0]) == htm_suffix()[0]);
                    assert(lower_byte(name@[k + 1]) == htm_suffix()[1]);
                    assert(lower_byte(name@[k + 2]) == htm_suffix()[2]);
                    assert(lower_byte(name@[k + 3]) == htm_suffix()[3]);
                }
            }
        }
        false
    } else {
        assert(!ends_with_ci(name@, htm_suffix()));
        false
    }
}

/// Some entry of the listing is an HTML page.
pub open spec fn some_html_name(names: Seq<Vec<u8>>) -> bool {
    exists|i: int| 0 <= i < names.len() && is_html_name(names[i]@)
}

/// Decides whether a directory listing, given as the file names of its
/// entries, holds at least one HTML page. Starting or restarting a server
/// is allowed only when this holds of the current directory.
pub fn has_html_files(names: &Vec<Vec<u8>>) -> (r: bool)
    ensures
        r == some_html_name(names@),
{
    let mut i: usize = 0;
    while i < names.len()
        invariant
            i <= names@.len(),
            forall|j: int| 0 <= j < i ==> !is_html_name(names@[j]@),
        decreases names@.len() - i,
    {
        if name_is_html(&names[i]) {
            return true;
        }
        i = i + 1;
    }
    false
}

} // verus!
