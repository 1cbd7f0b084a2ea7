//! Text helpers over the characters of strings.

use vstd::prelude::*;
use vstd::utf8::*;
use vstd::string::StringSliceAdditionalSpecFns;
use vstd::std_specs::iter::IteratorSpec;

verus! {

/// Whether two strings hold the same characters.
pub fn str_eq(a: &str, b: &str) -> (r: bool)
    ensures
        r == (a@ == b@),
{
    let x = a.as_bytes();
    let y = b.as_bytes();
    proof {
        encode_utf8_decode_utf8(a@);
        encode_utf8_decode_utf8(b@);
    }
    if x.len() != y.len() {
        assert(a@ != b@) by {
            if a@ == b@ {
                assert(x@ == y@);
            }
        }
        return false;
    }
    let mut i: usize = 0;
    while i < x.len()
        invariant
            x@ == a.spec_bytes(),
            y@ == b.spec_bytes(),
            x@.len() == y@.len(),
            i <= x@.len(),
            x@.subrange(0, i as int) == y@.subrange(0, i as int),
        decreases x.len() - i,
    {
        if x[i] != y[i] {
            assert(x@[i as int] != y@[i as int]);
            assert(x@ != y@);
            assert(a@ != b@) by {
                if a@ == b@ {
                    assert(x@ == y@);
                }
            }
            return false;
        }
        i = i + 1;
        assert(x@.subrange(0, i as int) =~= y@.subrange(0, i as int));
    }
    assert(x@ =~= x@.subrange(0, i as int));
    assert(y@ =~= y@.subrange(0, i as int));
    true
}

/// Appends a character.
///
/// Calls `String::push`, which appends the character at the end.
#[verifier::external_body]
pub(crate) fn push_char(s: &mut String, c: char)
    ensures
        final(s)@ == old(s)@.push(c),
{
    s.push(c);
}

/// Appends a string.
///
/// Calls `String::push_str`, which appends the characters of `t` at the end.
#[verifier::external_body]
pub(crate) fn push_str(s: &mut String, t: &str)
    ensures
        final(s)@ == old(s)@ + t@,
{
    s.push_str(t);
}

/// The decimal digit character of `d`.
pub open spec fn digit_char(d: nat) -> char {
    (48 + d) as char
}

/// The decimal digits of `n`, most significant first, without leading
/// zeros.
pub open spec fn digits(n: nat) -> Seq<char>
    decreases n,
{
    if n < 10 {
        seq![digit_char(n)]
    } else {
        digits(n / 10).push(digit_char(n % 10))
    }
}

/// The decimal text of `x`, with a leading '-' when it is negative.
pub open spec fn int_text(x: int) -> Seq<char> {
    if x < 0 {
        seq!['-'] + digits((-x) as nat)
    } else {
        digits(x as nat)
    }
}

fn push_digits(s: &mut String, n: u64)
    ensures
        final(s)@ == old(s)@ + digits(n as nat),
    decreases n,
{
    if n >= 10 {
        push_digits(s, n / 10);
    }
    let d: u8 = (n % 10) as u8;
    push_char(s, (48u8 + d) as char);
    assert(s@ =~= old(s)@ + digits(n as nat));
}

/// Appends the decimal text of `x`.
pub fn push_decimal(s: &mut String, x: i64)
    ensures
        final(s)@ == old(s)@ + int_text(x as int),
{
    if x < 0 {
        push_char(s, '-');
        let m: u64 = (0 - (x as i128)) as u64;
        push_digits(s, m);
        assert(s@ =~= old(s)@ + int_text(x as int));
    } else {
        push_digits(s, x as u64);
    }
}

/// The characters of a string, in order.
pub fn chars_of(s: &str) -> (v: Vec<char>)
    ensures
        v@ == s@,
{
    broadcast use vstd::string::group_string_axioms;
    let mut it = s.chars();
    let mut v: Vec<char> = Vec::new();
    assert(it.remaining() == s@);
    loop
        invariant
            v@ + it.remaining() == s@,
            it.obeys_prophetic_iter_laws(),
            it.decrease() is Some,
        decreases it.decrease()->0,
    {
        match it.next() {
            Some(c) => {
                v.push(c);
                assert(v@ + it.remaining() =~= s@);
            },
            None => {
                assert(v@ =~= s@);
                return v;
            },
        }
    }
}

/// `s` with every non-overlapping occurrence of `p`, from the left,
/// replaced by `r`.
pub open spec fn replace_all(s: Seq<char>, p: Seq<char>, r: Seq<char>) -> Seq<char>
    decreases s.len(),
{
    if p.len() == 0 || s.len() < p.len() {
        s
    } else if s.take(p.len() as int) == p {
        r + replace_all(s.skip(p.len() as int), p, r)
    } else {
        seq![s[0]] + replace_all(s.skip(1), p, r)
    }
}

/// Whether `p` occurs in `s` at index `i`.
fn occurs_at(s: &Vec<char>, p: &Vec<char>, i: usize) -> (b: bool)
    requires
        i + p.len() <= s.len(),
    ensures
        b == (s@.skip(i as int).take(p.len() as int) == p@),
{
    let mut k: usize = 0;
    while k < p.len()
        invariant
            k <= p.len(),
            i + p.len() <= s.len(),
            s@.subrange(i as int, i + k) == p@.take(k as int),
        decreases p.len() - k,
    {
        if s[i + k] != p[k] {
            assert(s@.skip(i as int).take(p.len() as int)[k as int] != p@[k as int]);
            return false;
        }
        k = k + 1;
        assert(s@.subrange(i as int, i + k) =~= p@.take(k as int));
    }
    assert(s@.skip(i as int).take(p.len() as int) =~= p@);
    true
}

/// Whether `p` occurs in `s`.
pub open spec fn occurs_in(s: Seq<char>, p: Seq<char>) -> bool {
    exists|i: int| 0 <= i && i + p.len() <= s.len() && #[trigger] s.skip(i).take(p.len() as int) == p
}

/// Whether `p` occurs in `s`, as `str::contains` does for a string pattern.
pub fn contains_str(s: &str, p: &str) -> (r: bool)
    ensures
        r == occurs_in(s@, p@),
{
    let sc = chars_of(s);
    let pc = chars_of(p);
    if pc.len() > sc.len() {
        return false;
    }
    let last = sc.len() - pc.len();
    let mut i: usize = 0;
    while i < last
        invariant
            sc@ == s@,
            pc@ == p@,
            last == sc.len() - pc.len(),
            i <= last,
            forall|j: int| 0 <= j < i ==> #[trigger] s@.skip(j).take(p@.len() as int) != p@,
        decreases last - i,
    {
        if occurs_at(&sc, &pc, i) {
            return true;
        }
        i = i + 1;
    }
    occurs_at(&sc, &pc, last)
}

/// `s` with every occurrence of the non-empty `pattern` replaced by
/// `replacement`, as `str::replace` does.
pub fn replace_all_of(s: &str, pattern: &str, replacement: &str) -> (r: String)
    requires
        pattern@.len() > 0,
    ensures
        r@ == replace_all(s@, pattern@, replacement@),
{
    let cs = chars_of(s);
    let ps = chars_of(pattern);
    let mut out = String::new();
    let mut i: usize = 0;
    assert(cs@.skip(0) =~= cs@);
    assert(out@ + replace_all(cs@.skip(0), ps@, replacement@) =~= replace_all(s@, pattern@, replacement@));
    while i < cs.len()
        invariant
            cs@ == s@,
            ps@ == pattern@,
            ps@.len() > 0,
            i <= cs@.len(),
            out@ + replace_all(cs@.skip(i as int), ps@, replacement@) == replace_all(s@, pattern@, replacement@),
        decreases cs.len() - i,
    {
        let ghost rest = cs@.skip(i as int);
        if ps.len() <= cs.len() - i && occurs_at(&cs, &ps, i) {
            push_str(&mut out, replacement);
            assert(rest.skip(ps@.len() as int) =~= cs@.skip(i + ps@.len()));
            i = i + ps.len();
        } else {
            if ps.len() > cs.len() - i {
                assert(replace_all(rest, ps@, replacement@) == rest);
                let mut j = i;
                while j < cs.len()
                    invariant
                        i <= j <= cs@.len(),
                        out@ + cs@.skip(j as int) == replace_all(s@, pattern@, replacement@),
                    decreases cs.len() - j,
                {
                    push_char(&mut out, cs[j]);
                    assert(seq![cs@[j as int]] + cs@.skip(j + 1) =~= cs@.skip(j as int));
                    j = j + 1;
                }
                assert(cs@.skip(j as int) =~= Seq::<char>::empty());
                return out;
            }
            push_char(&mut out, cs[i]);
            assert(rest.skip(1) =~= cs@.skip(i + 1));
            assert(rest[0] == cs@[i as int]);
            i = i + 1;
        }
    }
    assert(cs@.skip(i as int) =~= Seq::<char>::empty());
    out
}

} // verus!
