//! Text measurement and construction helpers: UTF-16 lengths, decimal
//! rendering of integers, string equality and joining.

use vstd::prelude::*;
use vstd::string::StrSliceExecFns;
use vstd::string::StringExecFns;

verus! {

/// Width of one character when encoded in UTF-16: one code unit for
/// characters in the Basic Multilingual Plane, two for all others.
pub open spec fn char_utf16(c: char) -> nat {
    if (c as u32) < 0x10000 {
        1
    } else {
        2
    }
}

/// UTF-16 length of a character sequence: the sum of the widths of its
/// characters.
pub open spec fn utf16_len(s: Seq<char>) -> nat
    decreases s.len(),
{
    if s.len() == 0 {
        0
    } else {
        char_utf16(s[0]) + utf16_len(s.drop_first())
    }
}

/// UTF-16 length distributes over concatenation.
pub proof fn lemma_utf16_concat(a: Seq<char>, b: Seq<char>)
    ensures
        utf16_len(a + b) == utf16_len(a) + utf16_len(b),
    decreases a.len(),
{
    if a.len() == 0 {
        assert(a + b =~= b);
    } else {
        assert((a + b).drop_first() =~= a.drop_first() + b);
        lemma_utf16_concat(a.drop_first(), b);
    }
}

/// UTF-16 length of a whole sequence splits at any cut point.
pub proof fn lemma_utf16_split(s: Seq<char>, i: int)
    requires
        0 <= i <= s.len(),
    ensures
        utf16_len(s) == utf16_len(s.take(i)) + utf16_len(s.skip(i)),
{
    assert(s =~= s.take(i) + s.skip(i));
    lemma_utf16_concat(s.take(i), s.skip(i));
}

/// Taking one more character adds exactly that character's width.
pub proof fn lemma_utf16_take_succ(s: Seq<char>, i: int)
    requires
        0 <= i < s.len(),
    ensures
        utf16_len(s.take(i + 1)) == utf16_len(s.take(i)) + char_utf16(s[i]),
{
    assert(s.take(i + 1) =~= s.take(i) + seq![s[i]]);
    lemma_utf16_concat(s.take(i), seq![s[i]]);
    assert(utf16_len(seq![s[i]].drop_first()) == 0);
    assert(utf16_len(seq![s[i]]) == char_utf16(s[i]));
}

/// Executable UTF-16 width of one character.
pub fn utf16_width(c: char) -> (n: usize)
    ensures
        n == char_utf16(c),
{
    if (c as u32) < 0x10000 {
        1
    } else {
        2
    }
}

/// UTF-16 length of a string, or `None` where it would exceed `i64::MAX`.
pub fn utf16_len_checked(s: &str) -> (r: Option<i64>)
    ensures
        match r {
            Some(n) => n == utf16_len(s@),
            None => utf16_len(s@) > i64::MAX,
        },
{
    let n = s.unicode_len();
    let mut acc: i64 = 0;
    let mut i: usize = 0;
    while i < n
        invariant
            i <= n,
            n == s@.len(),
            0 <= acc,
            acc == utf16_len(s@.take(i as int)),
        decreases n - i,
    {
        let w = utf16_width(s.get_char(i));
        proof {
            lemma_utf16_take_succ(s@, i as int);
        }
        if acc > i64::MAX - (w as i64) {
            proof {
                lemma_utf16_split(s@, i + 1);
            }
            return None;
        }
        acc = acc + (w as i64);
        i = i + 1;
    }
    proof {
        assert(s@.take(n as int) =~= s@);
    }
    Some(acc)
}

/// UTF-16 length of a string whose length is known to fit in `i64`.
pub fn utf16_len_i64(s: &str) -> (n: i64)
    requires
        utf16_len(s@) <= i64::MAX,
    ensures
        n == utf16_len(s@),
{
    match utf16_len_checked(s) {
        Some(n) => n,
        None => {
            proof {
                assert(false);
            }
            0
        },
    }
}

/// The characters of a string, as a vector.
pub fn str_chars(s: &str) -> (v: Vec<char>)
    ensures
        v@ == s@,
{
    let n = s.unicode_len();
    let mut v: Vec<char> = Vec::new();
    let mut i: usize = 0;
    while i < n
        invariant
            i <= n,
            n == s@.len(),
            v@ == s@.take(i as int),
        decreases n - i,
    {
        let c = s.get_char(i);
        v.push(c);
        i = i + 1;
        proof {
            assert(v@ =~= s@.take(i as int));
        }
    }
    proof {
        assert(v@ =~= s@);
    }
    v
}

/// Character-wise string equality.
pub fn str_eq(a: &str, b: &str) -> (r: bool)
    ensures
        r == (a@ == b@),
{
    let na = a.unicode_len();
    let nb = b.unicode_len();
    if na != nb {
        return false;
    }
    let mut i: usize = 0;
    while i < na
        invariant
            i <= na,
            na == a@.len(),
            na == b@.len(),
            forall|j: int| 0 <= j < i ==> a@[j] == b@[j],
        decreases na - i,
    {
        if a.get_char(i) != b.get_char(i) {
            return false;
        }
        i = i + 1;
    }
    proof {
        assert(a@ =~= b@);
    }
    true
}

/// Relies on `String: FromIterator<char>` of std: collecting a vector of
/// characters yields the string with exactly those characters.
#[verifier::external_body]
pub fn chars_to_string(v: &Vec<char>) -> (s: String)
    ensures
        s@ == v@,
{
    v.iter().collect()
}

/// The decimal digit character for a value below ten.
pub open spec fn dec_digit(d: nat) -> char {
    ((48 + d) as u8) as char
}

/// Decimal rendering of a natural number, most significant digit first.
pub open spec fn dec_nat(n: nat) -> Seq<char>
    decreases n,
{
    if n < 10 {
        seq![dec_digit(n)]
    } else {
        dec_nat(n / 10) + seq![dec_digit(n % 10)]
    }
}

/// Decimal rendering of an integer, with a leading minus sign if negative.
pub open spec fn dec_int(n: int) -> Seq<char> {
    if n < 0 {
        seq!['-'] + dec_nat((-n) as nat)
    } else {
        dec_nat(n as nat)
    }
}

/// Decimal digits of an unsigned number.
fn dec_digits_u64(n: u64) -> (v: Vec<char>)
    ensures
        v@ == dec_nat(n as nat),
    decreases n,
{
    let d: u8 = 48 + (n % 10) as u8;
    let c: char = d as char;
    if n < 10 {
        let mut v: Vec<char> = Vec::new();
        v.push(c);
        proof {
            assert(v@ =~= dec_nat(n as nat));
        }
        v
    } else {
        let mut v = dec_digits_u64(n / 10);
        v.push(c);
        proof {
            assert(v@ =~= dec_nat(n as nat));
        }
        v
    }
}

/// Decimal rendering of an unsigned number.
pub fn u64_to_dec(n: u64) -> (s: String)
    ensures
        s@ == dec_nat(n as nat),
{
    let v = dec_digits_u64(n);
    chars_to_string(&v)
}

/// Decimal rendering of a signed number, with a minus sign if negative.
pub fn i64_to_dec(n: i64) -> (s: String)
    ensures
        s@ == dec_int(n as int),
{
    if n >= 0 {
        u64_to_dec(n as u64)
    } else {
        let m: u64 = ((-(n + 1)) as u64) + 1;
        proof {
            assert(m as int == -(n as int));
        }
        let v = dec_digits_u64(m);
        let mut w: Vec<char> = Vec::new();
        w.push('-');
        let mut i: usize = 0;
        while i < v.len()
            invariant
                i <= v@.len(),
                v@ == dec_nat(m as nat),
                w@ == seq!['-'] + v@.take(i as int),
            decreases v@.len() - i,
        {
            w.push(v[i]);
            i = i + 1;
            proof {
                assert(w@ =~= seq!['-'] + v@.take(i as int));
            }
        }
        proof {
            assert(w@ =~= seq!['-'] + v@);
        }
        chars_to_string(&w)
    }
}

/// Sequence of parts joined with a separator between neighbours.
pub open spec fn join_with(parts: Seq<Seq<char>>, sep: Seq<char>) -> Seq<char>
    decreases parts.len(),
{
    if parts.len() == 0 {
        Seq::empty()
    } else if parts.len() == 1 {
        parts[0]
    } else {
        parts[0] + sep + join_with(parts.drop_first(), sep)
    }
}

/// Joining one more part appends a separator (when anything precedes it)
/// and the part.
pub proof fn lemma_join_take_succ(parts: Seq<Seq<char>>, sep: Seq<char>, i: int)
    requires
        0 <= i < parts.len(),
    ensures
        join_with(parts.take(i + 1), sep) == if i == 0 {
            parts[0]
        } else {
            join_with(parts.take(i), sep) + sep + parts[i]
        },
    decreases i,
{
    if i == 0 {
        assert(parts.take(1).len() == 1);
        assert(parts.take(1)[0] == parts[0]);
    } else {
        lemma_join_take_succ(parts.drop_first(), sep, i - 1);
        assert(parts.take(i + 1).drop_first() =~= parts.drop_first().take(i));
        assert(parts.take(i).drop_first() =~= parts.drop_first().take(i - 1));
        if i == 1 {
            assert(join_with(parts.take(2), sep) == parts[0] + sep + parts[1]);
            assert(join_with(parts.take(1), sep) == parts[0]);
        }
    }
}

/// Parts joined with a separator.
pub fn join(parts: &Vec<String>, sep: &str) -> (r: String)
    ensures
        r@ == join_with(parts.deep_view(), sep@),
{
    let mut r = String::new();
    let mut i: usize = 0;
    while i < parts.len()
        invariant
            i <= parts@.len(),
            parts.deep_view().len() == parts@.len(),
            r@ == join_with(parts.deep_view().take(i as int), sep@),
        decreases parts@.len() - i,
    {
        if i > 0 {
            r.append(sep);
        }
        r.append(parts[i].as_str());
        proof {
            assert(parts.deep_view()[i as int] == parts@[i as int]@);
            lemma_join_take_succ(parts.deep_view(), sep@, i as int);
        }
        i = i + 1;
    }
    proof {
        assert(parts.deep_view().take(parts@.len() as int) =~= parts.deep_view());
    }
    r
}

} // verus!
