//! Numbers as text.

use vstd::prelude::*;
use vstd::string::StrSliceExecFns;
use vstd::string::StringExecFns;

verus! {

/// The character of a digit, in capitals beyond nine.
pub open spec fn digit(d: nat) -> char {
    if d < 10 {
        ('0' as nat + d) as char
    } else {
        ('A' as nat + d - 10) as char
    }
}

/// A number written in a base, without leading zeros.
pub open spec fn numeral(n: nat, base: nat) -> Seq<char>
    decreases n,
    when base >= 2
{
    if n < base {
        seq![digit(n)]
    } else {
        proof {
            assert(n / base < n) by (nonlinear_arith)
                requires
                    n >= base,
                    base >= 2,
            ;
        }
        numeral(n / base, base).push(digit(n % base))
    }
}

/// A number written in base ten.
pub open spec fn decimal(n: nat) -> Seq<char> {
    numeral(n, 10)
}

fn digit_text(d: u64) -> (result: &'static str)
    requires
        d < 16,
    ensures
        result@ == seq![digit(d as nat)],
{
    proof {
        reveal_strlit("0");
        reveal_strlit("1");
        reveal_strlit("2");
        reveal_strlit("3");
        reveal_strlit("4");
        reveal_strlit("5");
        reveal_strlit("6");
        reveal_strlit("7");
        reveal_strlit("8");
        reveal_strlit("9");
        reveal_strlit("A");
        reveal_strlit("B");
        reveal_strlit("C");
        reveal_strlit("D");
        reveal_strlit("E");
        reveal_strlit("F");
    }
    match d {
        0 => "0",
        1 => "1",
        2 => "2",
        3 => "3",
        4 => "4",
        5 => "5",
        6 => "6",
        7 => "7",
        8 => "8",
        9 => "9",
        10 => "A",
        11 => "B",
        12 => "C",
        13 => "D",
        14 => "E",
        _ => "F",
    }
}

/// Appends a number, written in a base.
fn push_numeral(text: &mut String, n: u64, base: u64)
    requires
        2 <= base <= 16,
    ensures
        final(text)@ == old(text)@ + numeral(n as nat, base as nat),
    decreases n,
{
    if n < base {
        text.append(digit_text(n));
    } else {
        assert(n / base < n) by (nonlinear_arith)
            requires
                n >= base,
                base >= 2,
        ;
        assert(n % base < base) by (nonlinear_arith)
            requires
                base >= 2,
        ;
        push_numeral(text, n / base, base);
        text.append(digit_text(n % base));
        assert(text@ =~= old(text)@ + numeral(n as nat, base as nat));
    }
}

/// Appends a number in base ten.
pub fn push_decimal(text: &mut String, n: u64)
    ensures
        final(text)@ == old(text)@ + decimal(n as nat),
{
    push_numeral(text, n, 10);
}

/// Appends a number in base sixteen, after `0x`.
pub fn push_hex(text: &mut String, n: u64)
    ensures
        final(text)@ == old(text)@ + "0x"@ + numeral(n as nat, 16),
{
    text.append("0x");
    push_numeral(text, n, 16);
}

/// Whether a character is white space, as Unicode has it.
pub open spec fn white(c: char) -> bool {
    let n = c as int;
    ||| 0x9 <= n <= 0xD
    ||| n == 0x20
    ||| n == 0x85
    ||| n == 0xA0
    ||| n == 0x1680
    ||| 0x2000 <= n <= 0x200A
    ||| n == 0x2028
    ||| n == 0x2029
    ||| n == 0x202F
    ||| n == 0x205F
    ||| n == 0x3000
}

/// What is trimmed off the ends of a text.
#[derive(Clone, Copy, Debug, PartialEq, Eq, Structural)]
pub enum Trimming {
    /// NUL characters.
    Nul,
    /// White space.
    White,
}

impl Trimming {
    /// Whether a character is trimmed off.
    pub open spec fn drops(self, c: char) -> bool {
        match self {
            Trimming::Nul => c == '\0',
            Trimming::White => white(c),
        }
    }

    fn takes(self, c: char) -> (result: bool)
        ensures
            result == self.drops(c),
    {
        let n: u32 = c as u32;
        match self {
            Trimming::Nul => n == 0,
            Trimming::White => (0x9 <= n && n <= 0xD) || n == 0x20 || n == 0x85 || n == 0xA0 || n
                == 0x1680 || (0x2000 <= n && n <= 0x200A) || n == 0x2028 || n == 0x2029 || n
                == 0x202F || n == 0x205F || n == 0x3000,
        }
    }

    /// Whether something is left to trim off a text.
    pub open spec fn at_an_end(self, text: Seq<char>) -> bool {
        text.len() > 0 && (self.drops(text.first()) || self.drops(text.last()))
    }

    /// What is left of a text.
    pub open spec fn rest(self, text: Seq<char>) -> Seq<char>
        decreases text.len(),
    {
        if text.len() > 0 && self.drops(text.last()) {
            self.rest(text.drop_last())
        } else if text.len() > 0 && self.drops(text.first()) {
            self.rest(text.drop_first())
        } else {
            text
        }
    }

    /// What is left of a text.
    pub fn trim(self, text: &str) -> (result: String)
        ensures
            result@ == self.rest(text@),
    {
        let count: usize = text.unicode_len();
        let mut end: usize = count;
        assert(text@.subrange(0, end as int) =~= text@);
        while end > 0 && self.takes(text.get_char(end - 1))
            invariant
                end <= count == text@.len(),
                self.rest(text@.subrange(0, end as int)) == self.rest(text@),
            ensures
                end <= count,
                end > 0 ==> !self.drops(text@[end - 1]),
                self.rest(text@.subrange(0, end as int)) == self.rest(text@),
            decreases end,
        {
            assert(text@.subrange(0, end as int).drop_last() =~= text@.subrange(0, end - 1));
            end = end - 1;
        }
        let mut start: usize = 0;
        while start < end && self.takes(text.get_char(start))
            invariant
                start <= end <= count == text@.len(),
                start < end ==> !self.drops(text@[end - 1]),
                self.rest(text@.subrange(start as int, end as int)) == self.rest(text@),
            ensures
                start <= end,
                start < end ==> !self.drops(text@[start as int]) && !self.drops(text@[end - 1]),
                self.rest(text@.subrange(start as int, end as int)) == self.rest(text@),
            decreases end - start,
        {
            assert(text@.subrange(start as int, end as int).drop_first() =~= text@.subrange(
                start + 1,
                end as int,
            ));
            start = start + 1;
        }
        proof {
            let middle = text@.subrange(start as int, end as int);
            assert(!self.at_an_end(middle));
            assert(self.rest(middle) == middle);
        }
        String::from_str(text.substring_char(start, end))
    }
}

/// Law: trimming leaves nothing to trim at either end, and takes away nothing
/// from a text that has nothing to trim there.
pub proof fn lemma_trimmed_text_is_trimmed(trimming: Trimming, text: Seq<char>)
    ensures
        !trimming.at_an_end(trimming.rest(text)),
        !trimming.at_an_end(text) ==> trimming.rest(text) == text,
    decreases text.len(),
{
    if text.len() > 0 && trimming.drops(text.last()) {
        lemma_trimmed_text_is_trimmed(trimming, text.drop_last());
    } else if text.len() > 0 && trimming.drops(text.first()) {
        lemma_trimmed_text_is_trimmed(trimming, text.drop_first());
    }
}

/// Whether a UTF-16 code unit is the first half of a pair.
pub open spec fn first_half(unit: u16) -> bool {
    0xD800 <= unit < 0xDC00
}

/// Whether a UTF-16 code unit is the second half of a pair.
pub open spec fn second_half(unit: u16) -> bool {
    0xDC00 <= unit < 0xE000
}

/// The text of some UTF-16 code units, with a replacement character for every
/// half that has no other.
pub open spec fn utf16_text(units: Seq<u16>) -> Seq<char>
    decreases units.len(),
{
    if units.len() == 0 {
        Seq::empty()
    } else if !first_half(units[0]) && !second_half(units[0]) {
        seq![units[0] as char] + utf16_text(units.skip(1))
    } else if first_half(units[0]) && units.len() > 1 && second_half(units[1]) {
        seq![(0x1_0000 + (units[0] - 0xD800) * 0x400 + (units[1] - 0xDC00)) as char] + utf16_text(
            units.skip(2),
        )
    } else {
        seq!['\u{FFFD}'] + utf16_text(units.skip(1))
    }
}

/// The text of some UTF-16 code units.
///
/// This is the standard library's `String::from_utf16_lossy`, which decodes
/// pairs of halves and replaces every half without its other by U+FFFD.
#[verifier::external_body]
pub(crate) fn decode_utf16(units: &[u16]) -> (result: String)
    ensures
        result@ == utf16_text(units@),
{
    String::from_utf16_lossy(units)
}

/// What a digit stands for, or nothing for another character.
pub open spec fn digit_value(c: char) -> Option<nat> {
    if '0' <= c <= '9' {
        Some((c as int - '0' as int) as nat)
    } else if 'A' <= c <= 'F' {
        Some((c as int - 'A' as int + 10) as nat)
    } else {
        None
    }
}

/// The number that a text of digits stands for.
pub open spec fn read_number(text: Seq<char>, base: nat) -> nat
    decreases text.len(),
{
    if text.len() == 0 {
        0
    } else {
        read_number(text.drop_last(), base) * base + digit_value(text.last())->0
    }
}

/// Law: a number that was written can be read again. It is written with digits of
/// its base, at least one, and none of them is a zero in front of others.
pub proof fn lemma_written_numbers_read_back(n: nat, base: nat)
    requires
        2 <= base <= 16,
    ensures
        read_number(numeral(n, base), base) == n,
        numeral(n, base).len() > 0,
        forall|i: int|
            0 <= i < numeral(n, base).len() ==> digit_value(#[trigger] numeral(n, base)[i]) is Some
                && digit_value(numeral(n, base)[i])->0 < base,
        numeral(n, base).len() > 1 ==> numeral(n, base)[0] != '0',
        n > 0 ==> numeral(n, base)[0] != '0',
    decreases n,
{
    reveal_with_fuel(read_number, 2);
    if n < base {
        assert(numeral(n, base).drop_last() =~= Seq::empty());
    } else {
        assert(0 < n / base < n && n % base < base && n == (n / base) * base + n % base)
            by (nonlinear_arith)
            requires
                n >= base,
                base >= 2,
        ;
        lemma_written_numbers_read_back(n / base, base);
        assert(numeral(n, base).drop_last() =~= numeral(n / base, base));
    }
}

/// Law: different numbers are written differently.
pub proof fn lemma_written_numbers_differ(m: nat, n: nat, base: nat)
    requires
        2 <= base <= 16,
    ensures
        numeral(m, base) == numeral(n, base) <==> m == n,
        decimal(m) == decimal(n) <==> m == n,
        read_number(decimal(n), 10) == n,
{
    lemma_written_numbers_read_back(m, base);
    lemma_written_numbers_read_back(n, base);
    lemma_written_numbers_read_back(m, 10);
    lemma_written_numbers_read_back(n, 10);
}

/// Law: trimming takes characters off the two ends only, each of them one to be
/// taken off, and leaves what is between as it is.
pub proof fn lemma_trimming_keeps_the_middle(trimming: Trimming, text: Seq<char>) -> (ends: (
    int,
    int,
))
    ensures
        0 <= ends.0 <= ends.1 <= text.len(),
        trimming.rest(text) == text.subrange(ends.0, ends.1),
        forall|i: int|
            0 <= i < ends.0 || ends.1 <= i < text.len() ==> trimming.drops(#[trigger] text[i]),
    decreases text.len(),
{
    if text.len() > 0 && trimming.drops(text.last()) {
        let shorter = text.drop_last();
        let ends = lemma_trimming_keeps_the_middle(trimming, shorter);
        assert(shorter.subrange(ends.0, ends.1) =~= text.subrange(ends.0, ends.1));
        assert forall|i: int| 0 <= i < ends.0 || ends.1 <= i < text.len() implies trimming.drops(
            #[trigger] text[i],
        ) by {
            if i < shorter.len() {
                assert(shorter[i] == text[i]);
            }
        }
        ends
    } else if text.len() > 0 && trimming.drops(text.first()) {
        let shorter = text.drop_first();
        let ends = lemma_trimming_keeps_the_middle(trimming, shorter);
        assert(shorter.subrange(ends.0, ends.1) =~= text.subrange(ends.0 + 1, ends.1 + 1));
        assert forall|i: int|
            0 <= i < ends.0 + 1 || ends.1 + 1 <= i < text.len() implies trimming.drops(
            #[trigger] text[i],
        ) by {
            if i > 0 {
                assert(shorter[i - 1] == text[i]);
            }
        }
        (ends.0 + 1, ends.1 + 1)
    } else {
        assert(text.subrange(0, text.len() as int) =~= text);
        (0, text.len() as int)
    }
}

/// The characters of the Unicode property `White_Space`.
pub open spec fn white_characters() -> Seq<char> {
    seq![
        '\u{9}', '\u{A}', '\u{B}', '\u{C}', '\u{D}', '\u{20}', '\u{85}', '\u{A0}', '\u{1680}',
        '\u{2000}', '\u{2001}', '\u{2002}', '\u{2003}', '\u{2004}', '\u{2005}', '\u{2006}',
        '\u{2007}', '\u{2008}', '\u{2009}', '\u{200A}', '\u{2028}', '\u{2029}', '\u{202F}',
        '\u{205F}', '\u{3000}',
    ]
}

/// Law: what is trimmed off as white space are the characters of that property, and
/// what is trimmed off as NUL is that character alone.
pub proof fn lemma_what_is_trimmed_off(c: char)
    ensures
        Trimming::White.drops(c) <==> white_characters().contains(c),
        Trimming::Nul.drops(c) <==> c as int == 0,
{
    let all = white_characters();
    if white(c) {
        let n = c as int;
        let i: int = if n <= 0xD {
            n - 0x9
        } else if n == 0x20 {
            5
        } else if n == 0x85 {
            6
        } else if n == 0xA0 {
            7
        } else if n == 0x1680 {
            8
        } else if n <= 0x200A {
            n - 0x2000 + 9
        } else if n == 0x2028 {
            20
        } else if n == 0x2029 {
            21
        } else if n == 0x202F {
            22
        } else if n == 0x205F {
            23
        } else {
            24
        };
        assert(all[i] == c);
    }
}

} // verus!
