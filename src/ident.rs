//! Identifiers and their 60-bit name codes.
//!
//! A name code packs the first ten characters of a name, six bits each,
//! over the alphabet `.`, digits, upper case letters, lower case letters
//! and `_`. A character outside that alphabet is coded as `_`.
use vstd::prelude::*;
use crate::range::{Range, ghost_range_spec};
use crate::text::push_char;

verus! {

/// A local name with the range where it was written.
#[derive(Clone, Debug)]
pub struct Ident {
    pub data: String,
    pub range: Range,
}

/// A global (dotted) name of a function or constructor.
#[derive(Clone, Debug)]
pub struct QualifiedIdent {
    pub name: String,
    pub range: Range,
}

/// How many characters of a name its code keeps.
pub const CODE_CHARS: usize = 10;

pub open spec fn char_code(c: char) -> nat {
    let v = c as nat;
    if v == 46 {
        0
    } else if 48 <= v <= 57 {
        (v - 47) as nat
    } else if 65 <= v <= 90 {
        (v - 54) as nat
    } else if 97 <= v <= 122 {
        (v - 60) as nat
    } else {
        63
    }
}

pub open spec fn code_char(d: nat) -> char {
    if d == 0 {
        '.'
    } else if d <= 10 {
        ((d + 47) as u8) as char
    } else if d <= 36 {
        ((d + 54) as u8) as char
    } else if d <= 62 {
        ((d + 60) as u8) as char
    } else {
        '_'
    }
}

pub open spec fn code_of(s: Seq<char>) -> nat
    decreases s.len(),
{
    if s.len() == 0 {
        0
    } else {
        code_of(s.drop_last()) * 64 + char_code(s.last())
    }
}

/// The name code of a name.
pub open spec fn name_code(s: Seq<char>) -> nat {
    code_of(s.take(if s.len() < 10 { s.len() as int } else { 10 }))
}

/// The name that a name code stands for.
pub open spec fn code_name(n: nat) -> Seq<char>
    decreases n,
{
    if n == 0 {
        Seq::empty()
    } else {
        code_name(n / 64).push(code_char(n % 64))
    }
}

pub open spec fn pow64(k: nat) -> nat
    decreases k,
{
    if k == 0 {
        1
    } else {
        64 * pow64((k - 1) as nat)
    }
}

proof fn lemma_pow64_bound(k: nat)
    requires
        k <= 10,
    ensures
        pow64(k) <= pow64(10),
        pow64(10) == 0x1000_0000_0000_0000,
    decreases 10 - k,
{
    reveal_with_fuel(pow64, 11);
    if k < 10 {
        lemma_pow64_bound(k + 1);
    }
}

fn char_code_exec(c: char) -> (r: u64)
    ensures
        r == char_code(c),
{
    let v = c as u64;
    if v == 46 {
        0
    } else if 48 <= v && v <= 57 {
        v - 47
    } else if 65 <= v && v <= 90 {
        v - 54
    } else if 97 <= v && v <= 122 {
        v - 60
    } else {
        63
    }
}

fn code_char_exec(d: u64) -> (c: char)
    requires
        d < 64,
    ensures
        c == code_char(d as nat),
{
    if d == 0 {
        '.'
    } else if d <= 10 {
        ((d + 47) as u8) as char
    } else if d <= 36 {
        ((d + 54) as u8) as char
    } else if d <= 62 {
        ((d + 60) as u8) as char
    } else {
        '_'
    }
}

/// Appends the name that `n` codes to `s`.
fn push_code_name(s: &mut String, n: u64)
    ensures
        final(s)@ == old(s)@ + code_name(n as nat),
    decreases n,
{
    if n == 0 {
        assert(old(s)@ + code_name(0) =~= old(s)@);
    } else {
        push_code_name(s, n / 64);
        push_char(s, code_char_exec(n % 64));
        assert(old(s)@ + code_name((n / 64) as nat) + seq![code_char((n % 64) as nat)] =~= old(
            s,
        )@ + code_name(n as nat));
    }
}

impl Ident {
    pub fn new(data: String, range: Range) -> (r: Ident)
        ensures
            r.data@ == data@,
            r.range == range,
    {
        Ident { data, range }
    }

    /// A name made by the compiler, with no place in the source.
    pub fn generate(data: &str) -> (r: Ident)
        ensures
            r.data@ == data@,
            r.range == ghost_range_spec(),
    {
        Ident { data: String::from_str(data), range: Range::ghost_range() }
    }

    pub fn to_str(&self) -> (r: &str)
        ensures
            r@ == self.data@,
    {
        self.data.as_str()
    }

    /// The name code of this name: the first ten characters, six bits each.
    pub fn encode(&self) -> (r: u64)
        ensures
            r == name_code(self.data@),
            r < 0x1000_0000_0000_0000u64,
    {
        let s = self.data.as_str();
        let len = s.unicode_len();
        let stop: usize = if len < CODE_CHARS { len } else { CODE_CHARS };
        let mut num: u64 = 0;
        let mut i: usize = 0;
        proof {
            lemma_pow64_bound(0);
            assert(s@.take(0) =~= Seq::<char>::empty());
        }
        while i < stop
            invariant
                stop <= len,
                stop <= 10,
                len == s@.len(),
                s@ == self.data@,
                i <= stop,
                num == code_of(s@.take(i as int)),
                num < pow64(i as nat),
            decreases stop - i,
        {
            let c = s.get_char(i);
            let d = char_code_exec(c);
            proof {
                lemma_pow64_bound(i as nat);
                lemma_pow64_bound((i + 1) as nat);
                assert(s@.take(i + 1).drop_last() =~= s@.take(i as int));
                assert(num * 64 + d < pow64((i + 1) as nat)) by (nonlinear_arith)
                    requires
                        num < pow64(i as nat),
                        d < 64,
                        pow64((i + 1) as nat) == 64 * pow64(i as nat),
                ;
            }
            num = num * 64 + d;
            i = i + 1;
        }
        proof {
            lemma_pow64_bound(i as nat);
        }
        num
    }

    /// The name that a name code stands for.
    pub fn decode(num: u64) -> (r: String)
        ensures
            r@ == code_name(num as nat),
    {
        let mut s = String::new();
        push_code_name(&mut s, num);
        assert(Seq::<char>::empty() + code_name(num as nat) =~= code_name(num as nat));
        s
    }
}

impl QualifiedIdent {
    pub fn new_static(name: &str, range: Range) -> (r: QualifiedIdent)
        ensures
            r.name@ == name@,
            r.range == range,
    {
        QualifiedIdent { name: String::from_str(name), range }
    }

    pub fn to_str(&self) -> (r: &str)
        ensures
            r@ == self.name@,
    {
        self.name.as_str()
    }
}

} // verus!
