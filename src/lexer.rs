//! Lexing of character literals and their escape sequences.
use vstd::prelude::*;
use crate::range::Range;

verus! {

/// The notations of an encoded character or number.
#[derive(Clone, Copy, Debug, PartialEq, Eq, Structural)]
pub enum EncodeSequence {
    Hexa,
    Octal,
    Binary,
    Unicode,
    Decimal,
}

#[derive(Debug)]
pub enum SyntaxDiagnostic {
    UnfinishedChar(Range),
    UnfinishedString(Range),
    InvalidEscapeSequence(EncodeSequence, Range),
}

/// A cursor over the characters of one source file.
#[derive(Debug)]
pub struct Lexer {
    pub input: Vec<char>,
    pub pos: usize,
    /// The file id that ranges carry.
    pub ctx: u64,
}

/// The value of a hexadecimal digit, if the character is one.
pub open spec fn hex_value(c: char) -> Option<nat> {
    let v = c as nat;
    if 48 <= v <= 57 {
        Some((v - 48) as nat)
    } else if 65 <= v <= 70 {
        Some((v - 55) as nat)
    } else if 97 <= v <= 102 {
        Some((v - 87) as nat)
    } else {
        None
    }
}

/// The value of a run of hexadecimal digits, if all of them are digits.
pub open spec fn hex_number(s: Seq<char>) -> Option<nat>
    decreases s.len(),
{
    if s.len() == 0 {
        Some(0)
    } else {
        match (hex_number(s.drop_last()), hex_value(s.last())) {
            (Some(a), Some(d)) => Some(a * 16 + d),
            _ => None,
        }
    }
}

/// The Unicode scalar values: the code points that are characters.
pub open spec fn is_scalar(v: nat) -> bool {
    v < 0xD800 || (0xE000 <= v && v <= 0x10FFFF)
}

/// The character written by an escape sequence's letter, for the letters
/// that stand for themselves or for a control character.
pub open spec fn simple_escape(x: char) -> char {
    if x == 'n' {
        '\n'
    } else if x == 'r' {
        '\r'
    } else if x == 't' {
        '\t'
    } else if x == '0' {
        '\0'
    } else {
        x
    }
}

/// The character that `size` hexadecimal digits at `pos` encode, if they
/// are there and encode one.
pub open spec fn encoded_spec(input: Seq<char>, pos: int, size: int) -> Option<char> {
    if pos + size > input.len() {
        None
    } else {
        match hex_number(input.subrange(pos, pos + size)) {
            Some(v) => if is_scalar(v) {
                Some(v as char)
            } else {
                None
            },
            None => None,
        }
    }
}

/// What an escape sequence after its backslash at `pos` reads, and where
/// the cursor ends: `None` where the sequence is unfinished or invalid.
pub open spec fn escape_spec(input: Seq<char>, pos: int) -> Option<(char, int)> {
    if pos >= input.len() {
        None
    } else if input[pos] == 'x' || input[pos] == 'u' {
        let size: int = if input[pos] == 'x' {
            2
        } else {
            4
        };
        match encoded_spec(input, pos + 1, size) {
            Some(c) => Some((c, pos + 1 + size)),
            None => None,
        }
    } else {
        Some((simple_escape(input[pos]), pos + 1))
    }
}

/// The error of an escape sequence that `escape_spec` rejects: a backslash
/// at the end of the input leaves the string unfinished; bad digits after
/// `x` or `u` are an invalid hexadecimal or Unicode escape.
pub open spec fn escape_error(input: Seq<char>, pos: int, r: Result<char, SyntaxDiagnostic>) -> bool {
    if pos >= input.len() {
        r matches Err(SyntaxDiagnostic::UnfinishedString(_))
    } else if input[pos] == 'x' {
        r matches Err(SyntaxDiagnostic::InvalidEscapeSequence(EncodeSequence::Hexa, _))
    } else {
        r matches Err(SyntaxDiagnostic::InvalidEscapeSequence(EncodeSequence::Unicode, _))
    }
}

/// Relies on `char::from_u32`: the character of a Unicode scalar value,
/// and `None` for any other number.
#[verifier::external_body]
fn char_from_u32(v: u32) -> (r: Option<char>)
    ensures
        r is Some <==> is_scalar(v as nat),
        r matches Some(c) ==> c == v as char,
{
    char::from_u32(v)
}

fn hex_digit(c: char) -> (r: Option<u32>)
    ensures
        r matches Some(d) ==> hex_value(c) == Some(d as nat),
        r is None ==> hex_value(c) is None,
{
    let v = c as u32;
    if 48 <= v && v <= 57 {
        Some(v - 48)
    } else if 65 <= v && v <= 70 {
        Some(v - 55)
    } else if 97 <= v && v <= 102 {
        Some(v - 87)
    } else {
        None
    }
}

impl Lexer {
    pub fn new(input: Vec<char>, ctx: u64) -> (r: Lexer)
        ensures
            r.input@ == input@,
            r.pos == 0,
            r.ctx == ctx,
    {
        Lexer { input, pos: 0, ctx }
    }

    /// The range from `start` to the cursor.
    pub fn mk_range(&self, start: usize) -> (r: Range)
        ensures
            r == (Range { ctx: self.ctx, start: start as u64, end: self.pos as u64 }),
    {
        Range { ctx: self.ctx, start: start as u64, end: self.pos as u64 }
    }

    /// The one-column range at `start`.
    pub fn mk_one_column_range(&self, start: usize) -> (r: Range)
        requires
            start < usize::MAX,
        ensures
            r == (Range { ctx: self.ctx, start: start as u64, end: (start + 1) as u64 }),
    {
        Range { ctx: self.ctx, start: start as u64, end: (start + 1) as u64 }
    }

    /// Reads `size` hexadecimal digits as one character.
    fn lex_char_encoded(&mut self, start: usize, size: usize, err: EncodeSequence) -> (r: Result<
        char,
        SyntaxDiagnostic,
    >)
        requires
            old(self).pos <= old(self).input@.len(),
            size == 2 || size == 4,
        ensures
            final(self).input@ == old(self).input@,
            final(self).ctx == old(self).ctx,
            final(self).pos <= final(self).input@.len(),
            match encoded_spec(old(self).input@, old(self).pos as int, size as int) {
                Some(c) => r == Ok::<char, SyntaxDiagnostic>(c) && final(self).pos == old(self).pos
                    + size,
                None => r matches Err(SyntaxDiagnostic::InvalidEscapeSequence(s, _)) && s == err,
            },
    {
        let p = self.pos;
        if size > self.input.len() - p {
            return Err(SyntaxDiagnostic::InvalidEscapeSequence(err, self.mk_range(start)));
        }
        let ghost digits = self.input@.subrange(p as int, p + size);
        let mut v: u32 = 0;
        let mut i: usize = 0;
        assert(digits.take(0) =~= Seq::<char>::empty());
        while i < size
            invariant
                i <= size,
                size == 2 || size == 4,
                self.pos == p,
                self.input@ == old(self).input@,
                self.ctx == old(self).ctx,
                p == old(self).pos,
                self.input@.len() <= usize::MAX,
                p + size <= self.input@.len(),
                digits == self.input@.subrange(p as int, p + size),
                hex_number(digits.take(i as int)) == Some(v as nat),
                v < 0x10000,
                i == 0 ==> v == 0,
                i == 1 ==> v < 0x10,
                i == 2 ==> v < 0x100,
                i == 3 ==> v < 0x1000,
            decreases size - i,
        {
            proof {
                assert(digits.take(i + 1).drop_last() =~= digits.take(i as int));
                assert(digits.take(i + 1).last() == self.input@[p + i]);
            }
            match hex_digit(self.input[p + i]) {
                Some(d) => {
                    v = v * 16 + d;
                },
                None => {
                    proof {
                        lemma_hex_none(digits, (i + 1) as int);
                    }
                    return Err(SyntaxDiagnostic::InvalidEscapeSequence(err, self.mk_range(start)));
                },
            }
            i = i + 1;
        }
        assert(digits.take(size as int) =~= digits);
        self.pos = p + size;
        match char_from_u32(v) {
            Some(c) => Ok(c),
            None => Err(SyntaxDiagnostic::InvalidEscapeSequence(err, self.mk_range(start))),
        }
    }

    /// Reads an escape sequence whose backslash was at `start`.
    fn lex_escaped_char(&mut self, start: usize) -> (r: Result<char, SyntaxDiagnostic>)
        requires
            old(self).pos <= old(self).input@.len(),
            start < usize::MAX,
        ensures
            final(self).input@ == old(self).input@,
            final(self).ctx == old(self).ctx,
            final(self).pos <= final(self).input@.len(),
            match escape_spec(old(self).input@, old(self).pos as int) {
                Some((c, end)) => r == Ok::<char, SyntaxDiagnostic>(c) && final(self).pos == end,
                None => escape_error(old(self).input@, old(self).pos as int, r),
            },
    {
        if self.pos >= self.input.len() {
            return Err(SyntaxDiagnostic::UnfinishedString(self.mk_one_column_range(start)));
        }
        let x = self.input[self.pos];
        self.pos = self.pos + 1;
        if x == 'x' {
            self.lex_char_encoded(start, 2, EncodeSequence::Hexa)
        } else if x == 'u' {
            self.lex_char_encoded(start, 4, EncodeSequence::Unicode)
        } else if x == 'n' {
            Ok('\n')
        } else if x == 'r' {
            Ok('\r')
        } else if x == 't' {
            Ok('\t')
        } else if x == '0' {
            Ok('\0')
        } else {
            Ok(x)
        }
    }

    /// Reads one character of a character literal: a plain character, or
    /// a backslash and an escape sequence.
    pub fn lex_char(&mut self) -> (r: Result<char, SyntaxDiagnostic>)
        requires
            old(self).pos <= old(self).input@.len(),
            old(self).input@.len() < usize::MAX,
        ensures
            final(self).input@ == old(self).input@,
            final(self).ctx == old(self).ctx,
            final(self).pos <= final(self).input@.len(),
            old(self).pos == old(self).input@.len() ==> final(self).pos == old(self).pos,
            old(self).pos == old(self).input@.len() ==> r == Err::<char, SyntaxDiagnostic>(
                SyntaxDiagnostic::UnfinishedChar(
                    Range {
                        ctx: old(self).ctx,
                        start: old(self).pos as u64,
                        end: old(self).pos as u64,
                    },
                ),
            ),
            old(self).pos < old(self).input@.len() && old(self).input@[old(self).pos as int] != '\\'
                ==> r == Ok::<char, SyntaxDiagnostic>(old(self).input@[old(self).pos as int])
                && final(self).pos == old(self).pos + 1,
            old(self).pos < old(self).input@.len() && old(self).input@[old(self).pos as int] == '\\'
                ==> match escape_spec(old(self).input@, old(self).pos + 1) {
                Some((c, end)) => r == Ok::<char, SyntaxDiagnostic>(c) && final(self).pos == end,
                None => escape_error(old(self).input@, old(self).pos + 1, r),
            },
    {
        let start = self.pos;
        if self.pos < self.input.len() {
            let x = self.input[self.pos];
            self.pos = self.pos + 1;
            if x == '\\' {
                self.lex_escaped_char(start)
            } else {
                Ok(x)
            }
        } else {
            Err(SyntaxDiagnostic::UnfinishedChar(self.mk_range(start)))
        }
    }
}

proof fn lemma_hex_none(s: Seq<char>, k: int)
    requires
        0 < k <= s.len(),
        hex_value(s[k - 1]) is None,
    ensures
        hex_number(s) is None,
    decreases s.len() - k,
{
    if k == s.len() {
        assert(s.drop_last() =~= s.take(k - 1));
    } else {
        assert(hex_number(s.take(k)) is None) by {
            assert(s.take(k).drop_last() =~= s.take(k - 1));
            assert(s.take(k).last() == s[k - 1]);
        }
        lemma_hex_none_prefix(s, k);
    }
}

proof fn lemma_hex_none_prefix(s: Seq<char>, k: int)
    requires
        0 <= k <= s.len(),
        hex_number(s.take(k)) is None,
    ensures
        hex_number(s) is None,
    decreases s.len() - k,
{
    if k == s.len() {
        assert(s.take(k) =~= s);
    } else {
        assert(s.take(k + 1).drop_last() =~= s.take(k));
        lemma_hex_none_prefix(s, k + 1);
    }
}

} // verus!
