//! Small verified string helpers shared by the rest of the crate: equality and
//! prefix tests on string slices, ASCII lowercasing, splitting, and rendering
//! of decimal numbers.

use vstd::prelude::*;
use vstd::string::*;

verus! {

/// True when `p` is a prefix of `s`.
pub open spec fn spec_starts_with(s: Seq<char>, p: Seq<char>) -> bool {
    p.len() <= s.len() && s.subrange(0, p.len() as int) == p
}

/// Character-for-character equality of two string slices.
pub fn str_eq(a: &str, b: &str) -> (r: bool)
    ensures
        r == (a@ == b@),
{
    let a_len = a.unicode_len();
    let b_len = b.unicode_len();
    if a_len != b_len {
        return false;
    }
    for i in 0..a_len
        invariant
            a_len == a@.len(),
            b_len == b@.len(),
            a_len == b_len,
            forall|j: int| 0 <= j < i ==> a@[j] == b@[j],
    {
        if a.get_char(i) != b.get_char(i) {
            return false;
        }
    }
    assert(a@ =~= b@);
    true
}

/// Prefix test on string slices.
pub fn str_starts_with(s: &str, p: &str) -> (r: bool)
    ensures
        r == spec_starts_with(s@, p@),
{
    let s_len = s.unicode_len();
    let p_len = p.unicode_len();
    if p_len > s_len {
        return false;
    }
    for i in 0..p_len
        invariant
            s_len == s@.len(),
            p_len == p@.len(),
            p_len <= s_len,
            forall|j: int| 0 <= j < i ==> s@[j] == p@[j],
    {
        if s.get_char(i) != p.get_char(i) {
            assert(!spec_starts_with(s@, p@));
            return false;
        }
    }
    assert(s@.subrange(0, p@.len() as int) =~= p@);
    true
}

/// Two nonempty sequences with the same head and the same tail are equal.
pub proof fn lemma_seq_head_tail_eq(a: Seq<char>, b: Seq<char>)
    requires
        a.len() > 0,
        b.len() > 0,
        a[0] == b[0],
        a.drop_first() == b.drop_first(),
    ensures
        a == b,
{
    assert(a.drop_first() == a.subrange(1, a.len() as int));
    assert(b.drop_first() == b.subrange(1, b.len() as int));
    assert(a.len() == b.len()) by {
        assert(a.drop_first().len() == a.len() - 1);
        assert(b.drop_first().len() == b.len() - 1);
    }
    assert forall|t: int| 0 <= t < a.len() implies a[t] == b[t] by {
        if t > 0 {
            assert(a.subrange(1, a.len() as int)[t - 1] == a[t]);
            assert(b.subrange(1, b.len() as int)[t - 1] == b[t]);
        }
    }
    assert(a =~= b);
}

/// The characters of a string slice, as a vector.
pub fn chars_of(s: &str) -> (v: Vec<char>)
    ensures
        v@ == s@,
{
    let len = s.unicode_len();
    let mut v: Vec<char> = Vec::new();
    for i in 0..len
        invariant
            len == s@.len(),
            v@ == s@.subrange(0, i as int),
    {
        v.push(s.get_char(i));
        assert(v@ =~= s@.subrange(0, i as int + 1));
    }
    assert(v@ =~= s@);
    v
}

/// Relies on `String::push`: appends exactly the one given character
/// to the end of the string.
#[verifier::external_body]
pub fn push_char(s: &mut String, c: char)
    ensures
        final(s)@ == old(s)@.push(c),
{
    s.push(c);
}

/// The ASCII-lowercased image of one character: letters `A` through `Z` map
/// to their lowercase forms, every other character is unchanged.
pub open spec fn spec_lower_char(c: char) -> char {
    if 65 <= c as u32 && c as u32 <= 90 {
        (((c as u32) + 32) as u8) as char
    } else {
        c
    }
}

/// The ASCII-lowercased image of a string.
pub open spec fn spec_lower(s: Seq<char>) -> Seq<char> {
    s.map_values(|c: char| spec_lower_char(c))
}

/// ASCII lowercasing: `A` through `Z` become `a` through `z`; all other
/// characters are kept as they are.
pub fn lowercase(s: &str) -> (r: String)
    ensures
        r@ == spec_lower(s@),
{
    let len = s.unicode_len();
    let mut out = String::new();
    for i in 0..len
        invariant
            len == s@.len(),
            out@ == spec_lower(s@.subrange(0, i as int)),
    {
        let c = s.get_char(i);
        let u = c as u32;
        let lc: char = if 65 <= u && u <= 90 {
            ((u + 32) as u8) as char
        } else {
            c
        };
        assert(lc == spec_lower_char(s@[i as int]));
        push_char(&mut out, lc);
        assert(out@ =~= spec_lower(s@.subrange(0, i as int + 1)));
    }
    assert(s@.subrange(0, s@.len() as int) =~= s@);
    out
}

/// The string with its leading spaces removed.
pub open spec fn spec_trim_leading(s: Seq<char>) -> Seq<char>
    decreases s.len(),
{
    if s.len() > 0 && s[0] == ' ' {
        spec_trim_leading(s.drop_first())
    } else {
        s
    }
}

/// The longest space-free prefix of the string.
pub open spec fn spec_head_token(s: Seq<char>) -> Seq<char>
    decreases s.len(),
{
    if s.len() > 0 && s[0] != ' ' {
        seq![s[0]] + spec_head_token(s.drop_first())
    } else {
        Seq::empty()
    }
}

/// What remains of the string after its longest space-free prefix.
pub open spec fn spec_after_token(s: Seq<char>) -> Seq<char>
    decreases s.len(),
{
    if s.len() > 0 && s[0] != ' ' {
        spec_after_token(s.drop_first())
    } else {
        s
    }
}

/// The first index at or past `from` holding a character other than a space.
pub fn skip_spaces(cs: &Vec<char>, from: usize) -> (r: usize)
    requires
        from <= cs@.len(),
    ensures
        from <= r <= cs@.len(),
        spec_trim_leading(cs@.skip(from as int)) == cs@.skip(r as int),
    decreases cs@.len() - from,
{
    if from < cs.len() && cs[from] == ' ' {
        proof {
            assert(cs@.skip(from as int)[0] == cs@[from as int]);
            assert(cs@.skip(from as int).drop_first() =~= cs@.skip(from as int + 1));
        }
        skip_spaces(cs, from + 1)
    } else {
        proof {
            if from < cs@.len() {
                assert(cs@.skip(from as int)[0] == cs@[from as int]);
            }
        }
        from
    }
}

/// The index just past the space-free run that starts at `from`.
pub fn token_end(cs: &Vec<char>, from: usize) -> (e: usize)
    requires
        from <= cs@.len(),
    ensures
        from <= e <= cs@.len(),
        spec_head_token(cs@.skip(from as int)) == cs@.subrange(from as int, e as int),
        spec_after_token(cs@.skip(from as int)) == cs@.skip(e as int),
    decreases cs@.len() - from,
{
    if from < cs.len() && cs[from] != ' ' {
        proof {
            assert(cs@.skip(from as int)[0] == cs@[from as int]);
            assert(cs@.skip(from as int).drop_first() =~= cs@.skip(from as int + 1));
        }
        let e = token_end(cs, from + 1);
        proof {
            assert(seq![cs@[from as int]] + cs@.subrange(from as int + 1, e as int) =~= cs@.subrange(
                from as int,
                e as int,
            ));
        }
        e
    } else {
        proof {
            if from < cs@.len() {
                assert(cs@.skip(from as int)[0] == cs@[from as int]);
            }
            assert(cs@.subrange(from as int, from as int) =~= Seq::<char>::empty());
        }
        from
    }
}

/// The characters `cs[a..b]`, as a fresh string.
pub fn string_from_range(cs: &Vec<char>, a: usize, b: usize) -> (s: String)
    requires
        a <= b <= cs@.len(),
    ensures
        s@ == cs@.subrange(a as int, b as int),
{
    let mut s = String::new();
    let mut i: usize = a;
    proof {
        assert(s@ =~= cs@.subrange(a as int, a as int));
    }
    while i < b
        invariant
            a <= i <= b,
            b <= cs@.len(),
            s@ == cs@.subrange(a as int, i as int),
        decreases b - i,
    {
        push_char(&mut s, cs[i]);
        i = i + 1;
        assert(s@ =~= cs@.subrange(a as int, i as int));
    }
    s
}

/// The decimal digit character for a value below ten.
pub open spec fn spec_digit(d: nat) -> char {
    ((d + 48) as u8) as char
}

/// The usual decimal rendering of a natural number, most significant digit
/// first, with no leading zeros (zero itself renders as "0").
pub open spec fn spec_dec(n: nat) -> Seq<char>
    decreases n,
{
    if n < 10 {
        seq![spec_digit(n)]
    } else {
        spec_dec(n / 10).push(spec_digit(n % 10))
    }
}

/// Appends the decimal rendering of `n` to `out`.
pub fn push_decimal(n: u64, out: &mut String)
    ensures
        final(out)@ == old(out)@ + spec_dec(n as nat),
    decreases n,
{
    if n >= 10 {
        push_decimal(n / 10, out);
        let d = n % 10;
        push_char(out, ((d + 48) as u8) as char);
        assert(out@ =~= old(out)@ + spec_dec(n as nat));
    } else {
        push_char(out, ((n + 48) as u8) as char);
        assert(out@ =~= old(out)@ + spec_dec(n as nat));
    }
}

/// The decimal rendering of a machine integer as a fresh string.
pub fn usize_to_string(n: usize) -> (r: String)
    ensures
        r@ == spec_dec(n as nat),
{
    let mut out = String::new();
    push_decimal(n as u64, &mut out);
    assert(out@ =~= spec_dec(n as nat));
    out
}

} // verus!
