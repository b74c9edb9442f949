//! Verified string building blocks: decimal rendering, joining, character
//! replacement and prefix tests.

use vstd::prelude::*;

verus! {

/// Relies on `String::push` from std: appends the given character to the end
/// of the string.
#[verifier::external_body]
pub fn push_char(s: &mut String, c: char)
    ensures
        final(s)@ == old(s)@.push(c),
{
    s.push(c);
}

/// The decimal digit character for a value in 0..=9.
pub open spec fn digit_char(d: int) -> char {
    if d == 0 {
        '0'
    } else if d == 1 {
        '1'
    } else if d == 2 {
        '2'
    } else if d == 3 {
        '3'
    } else if d == 4 {
        '4'
    } else if d == 5 {
        '5'
    } else if d == 6 {
        '6'
    } else if d == 7 {
        '7'
    } else if d == 8 {
        '8'
    } else {
        '9'
    }
}

/// The decimal rendering of a non-negative integer, most significant digit
/// first, with no leading zeros (except for zero itself).
pub open spec fn spec_dec(n: nat) -> Seq<char>
    decreases n,
{
    if n < 10 {
        seq![digit_char(n as int)]
    } else {
        spec_dec(n / 10).push(digit_char((n % 10) as int))
    }
}

/// The decimal rendering padded on the left with '0' to at least two digits.
pub open spec fn spec_dec2(n: nat) -> Seq<char> {
    if n < 10 {
        seq!['0'].add(spec_dec(n))
    } else {
        spec_dec(n)
    }
}

fn digit_to_char(d: u64) -> (c: char)
    requires
        d < 10,
    ensures
        c == digit_char(d as int),
{
    match d {
        0 => '0',
        1 => '1',
        2 => '2',
        3 => '3',
        4 => '4',
        5 => '5',
        6 => '6',
        7 => '7',
        8 => '8',
        _ => '9',
    }
}

/// Renders a number in decimal.
pub fn u64_string(n: u64) -> (r: String)
    ensures
        r@ == spec_dec(n as nat),
    decreases n,
{
    if n < 10 {
        let mut s = String::new();
        push_char(&mut s, digit_to_char(n));
        s
    } else {
        let mut s = u64_string(n / 10);
        push_char(&mut s, digit_to_char(n % 10));
        s
    }
}

/// Renders a number in decimal, zero-padded to at least two digits.
pub fn u64_string2(n: u64) -> (r: String)
    ensures
        r@ == spec_dec2(n as nat),
{
    if n < 10 {
        let mut s = String::from_str("0");
        proof {
            reveal_strlit("0");
        }
        push_char(&mut s, digit_to_char(n));
        proof {
            assert(s@ =~= seq!['0'].add(spec_dec(n as nat)));
        }
        s
    } else {
        u64_string(n)
    }
}

/// The parts joined with the separator between consecutive parts.
pub open spec fn spec_join(parts: Seq<Seq<char>>, sep: Seq<char>) -> Seq<char>
    decreases parts.len(),
{
    if parts.len() == 0 {
        Seq::empty()
    } else if parts.len() == 1 {
        parts[0]
    } else {
        parts[0].add(sep.add(spec_join(parts.drop_first(), sep)))
    }
}

proof fn lemma_join_push(parts: Seq<Seq<char>>, sep: Seq<char>, x: Seq<char>)
    requires
        parts.len() >= 1,
    ensures
        spec_join(parts.push(x), sep) == spec_join(parts, sep).add(sep.add(x)),
    decreases parts.len(),
{
    if parts.len() == 1 {
        assert(parts.push(x).drop_first() =~= seq![x]);
        assert(spec_join(seq![x], sep) == seq![x][0]);
        assert(spec_join(parts.push(x), sep) =~= parts[0].add(sep.add(x)));
        assert(spec_join(parts, sep).add(sep.add(x)) =~= parts[0].add(sep.add(x)));
    } else {
        lemma_join_push(parts.drop_first(), sep, x);
        assert(parts.push(x).drop_first() =~= parts.drop_first().push(x));
        assert(spec_join(parts.push(x), sep) =~= spec_join(parts, sep).add(sep.add(x)));
    }
}

/// Joins the strings with the separator.
pub fn join(parts: &Vec<String>, sep: &str) -> (r: String)
    ensures
        r@ == spec_join(parts.deep_view(), sep@),
{
    let mut acc = String::new();
    let mut i: usize = 0;
    while i < parts.len()
        invariant
            i <= parts.len(),
            parts.deep_view().len() == parts.len(),
            forall|j: int| 0 <= j < parts.len() ==> parts.deep_view()[j] == parts@[j]@,
            acc@ == spec_join(parts.deep_view().take(i as int), sep@),
        decreases parts.len() - i,
    {
        if i > 0 {
            acc.append(sep);
        }
        acc.append(parts[i].as_str());
        proof {
            let dv = parts.deep_view();
            assert(dv.take(i + 1) =~= dv.take(i as int).push(dv[i as int]));
            if i > 0 {
                lemma_join_push(dv.take(i as int), sep@, dv[i as int]);
            } else {
                assert(dv.take(1) =~= seq![dv[0]]);
            }
        }
        i = i + 1;
    }
    proof {
        assert(parts.deep_view().take(parts.len() as int) =~= parts.deep_view());
    }
    acc
}

/// Every space replaced by an underscore.
pub open spec fn spec_underscored(s: Seq<char>) -> Seq<char> {
    s.map_values(|c: char| if c == ' ' { '_' } else { c })
}

/// Replaces every space with an underscore.
pub fn underscored(s: &str) -> (r: String)
    ensures
        r@ == spec_underscored(s@),
{
    let n = s.unicode_len();
    let mut acc = String::new();
    let mut i: usize = 0;
    while i < n
        invariant
            i <= n,
            n == s@.len(),
            acc@ == spec_underscored(s@.take(i as int)),
        decreases n - i,
    {
        let c = s.get_char(i);
        let out = if c == ' ' { '_' } else { c };
        push_char(&mut acc, out);
        proof {
            assert(spec_underscored(s@.take(i + 1)) =~= spec_underscored(
                s@.take(i as int),
            ).push(out));
        }
        i = i + 1;
    }
    proof {
        assert(s@.take(n as int) =~= s@);
    }
    acc
}

/// Whether `p` is a prefix of `s`.
pub open spec fn spec_starts_with(s: Seq<char>, p: Seq<char>) -> bool {
    p.len() <= s.len() && s.subrange(0, p.len() as int) == p
}

/// Whether the string starts with the given prefix.
pub fn starts_with(s: &str, prefix: &str) -> (r: bool)
    ensures
        r == spec_starts_with(s@, prefix@),
{
    let n = prefix.unicode_len();
    if s.unicode_len() < n {
        proof {
            assert(!spec_starts_with(s@, prefix@));
        }
        false
    } else {
        let head = s.substring_char(0, n).to_owned();
        let p = prefix.to_owned();
        let r = head == p;
        proof {
            if s@.subrange(0, n as int) == prefix@ {
                assert(r);
            }
        }
        r
    }
}

/// Appends `tail` to a copy of `s`.
pub fn concat_str(s: &str, tail: &str) -> (r: String)
    ensures
        r@ == s@.add(tail@),
{
    let mut acc = s.to_owned();
    acc.append(tail);
    acc
}

} // verus!
