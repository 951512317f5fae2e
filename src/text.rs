//! Text predicates used by the process scanner.
use vstd::prelude::*;
use vstd::std_specs::iter::IteratorSpec;

verus! {

/// The characters of `s`, one pass over the string.
pub fn chars_of(s: &str) -> (r: Vec<char>)
    ensures
        r@ == s@,
{
    broadcast use vstd::string::axiom_spec_iter, vstd::string::next_postcondition;

    let mut it = s.chars();
    let mut out: Vec<char> = Vec::new();
    loop
        invariant
            out@ + IteratorSpec::remaining(&it) == s@,
            it.obeys_prophetic_iter_laws(),
        ensures
            out@ == s@,
        decreases s@.len() - out@.len(),
    {
        let ghost before = IteratorSpec::remaining(&it);
        match it.next() {
            Some(c) => {
                out.push(c);
                assert(out@ + IteratorSpec::remaining(&it) =~= s@) by {
                    assert(before =~= seq![c] + before.drop_first());
                }
            },
            None => {
                assert(out@ + before =~= out@);
                break;
            },
        }
    }
    out
}

/// `needle` occurs in `hay` starting at position `i`.
pub open spec fn occurs_at(hay: Seq<char>, needle: Seq<char>, i: int) -> bool {
    0 <= i && i + needle.len() <= hay.len() && hay.subrange(i, i + needle.len()) == needle
}

/// `needle` is a literal, case-sensitive substring of `hay`.
pub open spec fn contains_spec(hay: Seq<char>, needle: Seq<char>) -> bool {
    exists|i: int| occurs_at(hay, needle, i)
}

/// Whether `needle` occurs in `hay` as a literal substring.
pub fn contains(hay: &str, needle: &str) -> (r: bool)
    ensures
        r == contains_spec(hay@, needle@),
{
    let hv = chars_of(hay);
    let nv = chars_of(needle);
    let h = hv.len();
    let n = nv.len();
    if n > h {
        assert(forall|i: int| !occurs_at(hay@, needle@, i));
        return false;
    }
    let mut i: usize = 0;
    while i <= h - n
        invariant
            h == hay@.len(),
            n == needle@.len(),
            hv@ == hay@,
            nv@ == needle@,
            n <= h,
            i <= h - n + 1,
            forall|k: int| 0 <= k < i ==> !occurs_at(hay@, needle@, k),
        decreases h - n + 1 - i,
    {
        let mut j: usize = 0;
        let mut same = true;
        while j < n && same
            invariant
                h == hay@.len(),
                n == needle@.len(),
                hv@ == hay@,
                nv@ == needle@,
                i + n <= h,
                j <= n,
                same == (forall|m: int| 0 <= m < j ==> hay@[i + m] == needle@[m]),
            decreases n - j,
        {
            if hv[i + j] != nv[j] {
                same = false;
            }
            j = j + 1;
        }
        if same {
            assert(hay@.subrange(i as int, i + n) =~= needle@);
            assert(occurs_at(hay@, needle@, i as int));
            return true;
        }
        assert(!occurs_at(hay@, needle@, i as int)) by {
            if occurs_at(hay@, needle@, i as int) {
                let m = choose|m: int| 0 <= m < j && hay@[i + m] != needle@[m];
                assert(hay@.subrange(i as int, i + n)[m] == hay@[i + m]);
            }
        }
        i = i + 1;
    }
    false
}

/// A decimal digit, `0` to `9`.
pub open spec fn is_digit(c: char) -> bool {
    '0' <= c && c <= '9'
}

/// A non-empty run of decimal digits: the shape of a process entry's name.
pub open spec fn all_digits(s: Seq<char>) -> bool {
    s.len() > 0 && forall|i: int| 0 <= i < s.len() ==> is_digit(#[trigger] s[i])
}

/// The number that a run of decimal digits spells, most significant first.
pub open spec fn digits_value(s: Seq<char>) -> nat
    decreases s.len(),
{
    if s.len() == 0 {
        0
    } else {
        digits_value(s.drop_last()) * 10 + (s.last() as nat - '0' as nat) as nat
    }
}

/// The process identifier that an entry's name spells: digits only, and a
/// value from 1 to `u32::MAX`.
pub open spec fn pid_of_spec(s: Seq<char>) -> Option<u32> {
    if all_digits(s) && 0 < digits_value(s) <= u32::MAX {
        Some(digits_value(s) as u32)
    } else {
        None
    }
}

/// Whether every character of a non-empty name is a decimal digit.
pub fn is_numeric_name(name: &str) -> (r: bool)
    ensures
        r == all_digits(name@),
{
    let cs = chars_of(name);
    let n = cs.len();
    let mut i: usize = 0;
    while i < n
        invariant
            n == name@.len(),
            cs@ == name@,
            i <= n,
            forall|k: int| 0 <= k < i ==> is_digit(#[trigger] name@[k]),
        decreases n - i,
    {
        let c = cs[i];
        if !('0' <= c && c <= '9') {
            return false;
        }
        i = i + 1;
    }
    n > 0
}

/// Reads a process identifier from an entry's name.
pub fn parse_pid(name: &str) -> (r: Option<u32>)
    ensures
        r == pid_of_spec(name@),
{
    if !is_numeric_name(name) {
        return None;
    }
    let cs = chars_of(name);
    let n = cs.len();
    let mut acc: u64 = 0;
    let mut too_big = false;
    let mut i: usize = 0;
    while i < n
        invariant
            n == name@.len(),
            cs@ == name@,
            i <= n,
            all_digits(name@),
            !too_big ==> acc == digits_value(name@.take(i as int)) && acc <= u32::MAX,
            too_big ==> digits_value(name@.take(i as int)) > u32::MAX,
        decreases n - i,
    {
        let c = cs[i];
        assert(is_digit(name@[i as int]));
        let d = (c as u32 - '0' as u32) as u64;
        assert(name@.take(i + 1).drop_last() =~= name@.take(i as int));
        assert(name@.take(i + 1).last() == c);
        let ghost prev = digits_value(name@.take(i as int));
        assert(digits_value(name@.take(i + 1)) == prev * 10 + d);
        if !too_big {
            acc = acc * 10 + d;
            if acc > 4294967295 {
                too_big = true;
            }
        } else {
            assert(prev * 10 + d >= prev) by (nonlinear_arith)
                requires prev >= 0, d >= 0;
        }
        i = i + 1;
    }
    assert(name@.take(n as int) =~= name@);
    if too_big || acc == 0 {
        None
    } else {
        Some(acc as u32)
    }
}

} // verus!
