//! Numbers as they are written in the settings text: the grammar of a
//! numeral, the type that holds one, and the decimal indices of the palette
//! keys.

use vstd::prelude::*;
use vstd::string::*;

use crate::config::PALETTE_SIZE;
use crate::text::chars_of;

verus! {

/// Whether `c` is one of the digits `0` to `9`.
pub open spec fn is_digit(c: char) -> bool {
    0x30 <= c as u32 <= 0x39
}

/// The value of the digit `c`.
pub open spec fn digit_value(c: char) -> nat {
    (c as u32 - 0x30) as nat
}

/// Whether `c` is a sign, `+` or `-`.
pub open spec fn is_sign(c: char) -> bool {
    c == '+' || c == '-'
}

/// Whether `c` is the lower-case letter `letter` or its upper-case form.
pub open spec fn is_letter(c: char, letter: char) -> bool {
    c == letter || c as u32 + 0x20 == letter as u32
}

/// Whether `s` reads as the lower-case word `word` when case is ignored.
pub open spec fn reads_as(s: Seq<char>, word: Seq<char>) -> bool {
    &&& s.len() == word.len()
    &&& forall|i: int| 0 <= i < s.len() ==> is_letter(#[trigger] s[i], word[i])
}

/// The end of the run of digits that starts at `from` in `s`.
pub open spec fn digits_end(s: Seq<char>, from: int) -> int
    decreases s.len() - from,
{
    if 0 <= from < s.len() && is_digit(s[from]) {
        digits_end(s, from + 1)
    } else {
        from
    }
}

/// Whether `s` from `from` on is a decimal number: digits with at most one
/// point among them, at least one digit in all, and then, if anything, an
/// exponent: the letter `e` in either case, an optional sign and at least
/// one digit.
pub open spec fn is_decimal_from(s: Seq<char>, from: int) -> bool {
    let whole_end = digits_end(s, from);
    let has_point = whole_end < s.len() && s[whole_end] == '.';
    let mantissa_end = if has_point {
        digits_end(s, whole_end + 1)
    } else {
        whole_end
    };
    let digits = if has_point {
        mantissa_end - from - 1
    } else {
        mantissa_end - from
    };
    &&& digits >= 1
    &&& mantissa_end == s.len() || {
        let sign_at = mantissa_end + 1;
        let exponent_at = if sign_at < s.len() && is_sign(s[sign_at]) {
            sign_at + 1
        } else {
            sign_at
        };
        &&& is_letter(s[mantissa_end], 'e')
        &&& exponent_at < s.len()
        &&& digits_end(s, exponent_at) == s.len()
    }
}

/// Whether `s` is one of the words for a value that is no decimal number:
/// `inf`, `infinity` or `nan`, in any case.
pub open spec fn is_special(s: Seq<char>) -> bool {
    ||| reads_as(s, seq!['i', 'n', 'f'])
    ||| reads_as(s, seq!['i', 'n', 'f', 'i', 'n', 'i', 't', 'y'])
    ||| reads_as(s, seq!['n', 'a', 'n'])
}

/// Whether `s` is a numeral: an optional sign, and then a decimal number or
/// one of the special words.
///
/// ```text
/// numeral ::= sign? ( 'inf' | 'infinity' | 'nan' | number )
/// number  ::= ( digit+ | digit+ '.' digit* | digit* '.' digit+ ) exp?
/// exp     ::= 'e' sign? digit+
/// ```
pub open spec fn is_numeral(s: Seq<char>) -> bool {
    let from: int = if s.len() > 0 && is_sign(s[0]) {
        1
    } else {
        0
    };
    is_special(s.skip(from)) || is_decimal_from(s, from)
}

/// The number that a run of digits stands for.
pub open spec fn decimal_value(s: Seq<char>) -> nat
    decreases s.len(),
{
    if s.len() == 0 {
        0
    } else {
        decimal_value(s.drop_last()) * 10 + digit_value(s.last())
    }
}

/// Whether every character of `s` is a digit.
pub open spec fn all_digits(s: Seq<char>) -> bool {
    forall|i: int| 0 <= i < s.len() ==> is_digit(#[trigger] s[i])
}

/// The number that `s` stands for as an index: an optional `+` and then at
/// least one digit. Leading zeros are allowed.
pub open spec fn index_value(s: Seq<char>) -> Option<nat> {
    let digits = if s.len() > 0 && s[0] == '+' {
        s.drop_first()
    } else {
        s
    };
    if digits.len() > 0 && all_digits(digits) {
        Some(decimal_value(digits))
    } else {
        None
    }
}

/// The palette index that `s` stands for: an index below
/// [`PALETTE_SIZE`].
pub open spec fn palette_index(s: Seq<char>) -> Option<usize> {
    match index_value(s) {
        Some(v) => if v < PALETTE_SIZE {
            Some(v as usize)
        } else {
            None
        },
        None => None,
    }
}

/// The digits of `n`, without leading zeros.
pub open spec fn decimal(n: nat) -> Seq<char>
    decreases n,
{
    if n < 10 {
        seq![digit_char(n)]
    } else {
        decimal(n / 10).push(digit_char(n % 10))
    }
}

/// The digit whose value is `d`.
pub open spec fn digit_char(d: nat) -> char
    recommends
        d < 10,
{
    if d == 0 {
        '0'
    } else if d == 1 {
        '1'
    } else if d == 2 {
        '2'
    } else if d == 3 {
        '3'
    } else if d == 4 {
        '4'
    } else if d == 5 {
        '5'
    } else if d == 6 {
        '6'
    } else if d == 7 {
        '7'
    } else if d == 8 {
        '8'
    } else {
        '9'
    }
}

/// Whether `c` is a digit.
pub fn is_digit_char(c: char) -> (r: bool)
    ensures
        r == is_digit(c),
{
    let n: u32 = c as u32;
    0x30 <= n && n <= 0x39
}

/// Whether `c` is a sign.
pub fn is_sign_char(c: char) -> (r: bool)
    ensures
        r == is_sign(c),
{
    c == '+' || c == '-'
}

/// Whether `c` is the lower-case letter `letter` or its upper-case form.
pub fn is_letter_char(c: char, letter: char) -> (r: bool)
    ensures
        r == is_letter(c, letter),
{
    let n: u32 = c as u32;
    let l: u32 = letter as u32;
    c == letter || (n <= 0x10FFFF && n + 0x20 == l)
}

/// Walks over the run of digits that starts at `from`.
pub fn skip_digits(text: &Vec<char>, from: usize) -> (r: usize)
    requires
        from <= text.len(),
    ensures
        from <= r <= text.len(),
        r == digits_end(text@, from as int),
        forall|i: int| from <= i < r ==> is_digit(#[trigger] text@[i]),
{
    let mut i: usize = from;
    while i < text.len() && is_digit_char(text[i])
        invariant
            from <= i <= text.len(),
            digits_end(text@, from as int) == digits_end(text@, i as int),
            forall|j: int| from <= j < i ==> is_digit(#[trigger] text@[j]),
        decreases text.len() - i,
    {
        i += 1;
    }
    i
}

/// Whether `text` from `from` on reads as `word` when case is ignored.
pub fn tail_reads_as(text: &Vec<char>, from: usize, word: &str) -> (r: bool)
    requires
        from <= text.len(),
    ensures
        r == reads_as(text@.skip(from as int), word@),
{
    let ghost tail = text@.skip(from as int);
    let mut i: usize = from;
    let mut same: bool = true;
    for c in it: word.chars()
        invariant
            from <= text.len(),
            tail == text@.skip(from as int),
            it.seq() == word@,
            same ==> i == from + it.index() && i <= text.len(),
            same ==> forall|j: int| 0 <= j < it.index() ==> is_letter(#[trigger] tail[j], word@[j]),
            !same ==> !reads_as(tail, word@),
    {
        if same {
            if i < text.len() && is_letter_char(text[i], c) {
                i += 1;
            } else {
                proof {
                    if i < text.len() {
                        assert(!is_letter(tail[i - from], word@[i - from]));
                    }
                }
                same = false;
            }
        }
    }
    same && i == text.len()
}

/// Whether the characters of `text` form a numeral.
pub fn is_numeral_text(text: &Vec<char>) -> (r: bool)
    ensures
        r == is_numeral(text@),
{
    let len: usize = text.len();
    let from: usize = if len > 0 && is_sign_char(text[0]) {
        1
    } else {
        0
    };
    proof {
        reveal_strlit("inf");
        reveal_strlit("infinity");
        reveal_strlit("nan");
        assert("inf"@ =~= seq!['i', 'n', 'f']);
        assert("infinity"@ =~= seq!['i', 'n', 'f', 'i', 'n', 'i', 't', 'y']);
        assert("nan"@ =~= seq!['n', 'a', 'n']);
    }
    if tail_reads_as(text, from, "inf") || tail_reads_as(text, from, "infinity") || tail_reads_as(
        text,
        from,
        "nan",
    ) {
        return true;
    }
    let whole_end: usize = skip_digits(text, from);
    let has_point: bool = whole_end < len && text[whole_end] == '.';
    let mantissa_end: usize = if has_point {
        skip_digits(text, whole_end + 1)
    } else {
        whole_end
    };
    let digits: usize = if has_point {
        mantissa_end - from - 1
    } else {
        mantissa_end - from
    };
    if digits < 1 {
        return false;
    }
    if mantissa_end == len {
        return true;
    }
    if !is_letter_char(text[mantissa_end], 'e') {
        return false;
    }
    let sign_at: usize = mantissa_end + 1;
    let exponent_at: usize = if sign_at < len && is_sign_char(text[sign_at]) {
        sign_at + 1
    } else {
        sign_at
    };
    exponent_at < len && skip_digits(text, exponent_at) == len
}

/// The palette index that the stretch `from..to` of `text` holds, if that
/// is an index below [`PALETTE_SIZE`].
pub fn palette_index_at(text: &Vec<char>, from: usize, to: usize) -> (r: Option<usize>)
    requires
        from <= to <= text.len(),
    ensures
        r == palette_index(text@.subrange(from as int, to as int)),
{
    let ghost stretch = text@.subrange(from as int, to as int);
    let start: usize = if from < to && text[from] == '+' {
        from + 1
    } else {
        from
    };
    let ghost digits = text@.subrange(start as int, to as int);
    proof {
        if start == from {
            assert(digits =~= stretch);
        } else {
            assert(digits =~= stretch.drop_first());
        }
    }
    if start == to {
        return None;
    }
    let mut value: usize = 0;
    let mut i: usize = start;
    while i < to
        invariant
            start <= i <= to <= text.len(),
            digits == text@.subrange(start as int, to as int),
            index_value(text@.subrange(from as int, to as int)) == (if all_digits(digits) {
                Some(decimal_value(digits))
            } else {
                None
            }),
            forall|j: int| 0 <= j < i - start ==> is_digit(#[trigger] digits[j]),
            value < PALETTE_SIZE ==> value == decimal_value(digits.take(i - start)),
            value >= PALETTE_SIZE ==> decimal_value(digits.take(i - start)) >= PALETTE_SIZE,
            value < 10 * PALETTE_SIZE,
        decreases to - i,
    {
        let c: char = text[i];
        if !is_digit_char(c) {
            proof {
                assert(!is_digit(digits[i - start]));
                assert(!all_digits(digits));
            }
            return None;
        }
        proof {
            let next = digits.take(i - start + 1);
            assert(next.drop_last() =~= digits.take(i - start));
            assert(next.last() == c);
        }
        if value < PALETTE_SIZE {
            let d: u32 = c as u32 - 0x30;
            value = value * 10 + d as usize;
        }
        i += 1;
    }
    proof {
        assert(digits.take(to - start) =~= digits);
    }
    if value < PALETTE_SIZE {
        Some(value)
    } else {
        None
    }
}

/// The text of the digit `d`.
pub fn digit_str(d: usize) -> (r: &'static str)
    requires
        d < 10,
    ensures
        r@ == seq![digit_char(d as nat)],
{
    proof {
        reveal_strlit("0");
        reveal_strlit("1");
        reveal_strlit("2");
        reveal_strlit("3");
        reveal_strlit("4");
        reveal_strlit("5");
        reveal_strlit("6");
        reveal_strlit("7");
        reveal_strlit("8");
        reveal_strlit("9");
    }
    let r = if d == 0 {
        "0"
    } else if d == 1 {
        "1"
    } else if d == 2 {
        "2"
    } else if d == 3 {
        "3"
    } else if d == 4 {
        "4"
    } else if d == 5 {
        "5"
    } else if d == 6 {
        "6"
    } else if d == 7 {
        "7"
    } else if d == 8 {
        "8"
    } else {
        "9"
    };
    assert(r@ =~= seq![digit_char(d as nat)]);
    r
}

/// The digits of `n`, without leading zeros.
pub fn decimal_string(n: usize) -> (r: String)
    ensures
        r@ == decimal(n as nat),
    decreases n,
{
    if n < 10 {
        String::from_str(digit_str(n))
    } else {
        let mut s = decimal_string(n / 10);
        s.append(digit_str(n % 10));
        s
    }
}

/// The digits of a number are an index that stands for that number.
pub proof fn lemma_index_of_decimal(n: nat)
    ensures
        decimal(n).len() > 0,
        all_digits(decimal(n)),
        decimal_value(decimal(n)) == n,
        index_value(decimal(n)) == Some(n),
    decreases n,
{
    if n < 10 {
        let s = decimal(n);
        assert(s.drop_last() =~= Seq::<char>::empty());
        assert(decimal_value(s.drop_last()) == 0);
    } else {
        lemma_index_of_decimal(n / 10);
        let s = decimal(n);
        assert(s.drop_last() =~= decimal(n / 10));
        assert(s.last() == digit_char(n % 10));
        assert(s[0] == decimal(n / 10)[0]);
    }
    lemma_first_digit(n);
}

/// The text of a number starts with a digit.
proof fn lemma_first_digit(n: nat)
    ensures
        is_digit(decimal(n)[0]),
    decreases n,
{
    if n >= 10 {
        lemma_first_digit(n / 10);
        lemma_decimal_len(n / 10);
    }
}

/// The text of a number has at least one digit.
proof fn lemma_decimal_len(n: nat)
    ensures
        decimal(n).len() > 0,
    decreases n,
{
    if n >= 10 {
        lemma_decimal_len(n / 10);
    }
}

/// A run of digits holds digits only and ends within the text.
pub proof fn lemma_digits_run(s: Seq<char>, from: int)
    requires
        0 <= from <= s.len(),
    ensures
        from <= digits_end(s, from) <= s.len(),
        forall|i: int| from <= i < digits_end(s, from) ==> is_digit(#[trigger] s[i]),
    decreases s.len() - from,
{
    if from < s.len() && is_digit(s[from]) {
        lemma_digits_run(s, from + 1);
    }
}

/// Whether `c` is one of the letters `a` to `z`, in either case.
pub open spec fn is_ascii_letter(c: char) -> bool {
    0x41 <= c as u32 <= 0x5A || 0x61 <= c as u32 <= 0x7A
}

/// Whether `c` can stand in a numeral: a digit, a sign, a point or a letter.
pub open spec fn is_numeral_char(c: char) -> bool {
    is_digit(c) || is_sign(c) || c == '.' || is_ascii_letter(c)
}

/// A text that reads as a word of lower-case letters holds letters only.
proof fn lemma_reads_as_letters(s: Seq<char>, word: Seq<char>)
    requires
        reads_as(s, word),
        forall|i: int| 0 <= i < word.len() ==> 0x61 <= (#[trigger] word[i]) as u32 <= 0x7A,
    ensures
        forall|i: int| 0 <= i < s.len() ==> is_ascii_letter(#[trigger] s[i]),
{
    assert forall|i: int| 0 <= i < s.len() implies is_ascii_letter(#[trigger] s[i]) by {
        assert(is_letter(s[i], word[i]));
        assert(0x61 <= word[i] as u32 <= 0x7A);
    }
}

/// A numeral is not empty and holds only characters that can stand in a
/// numeral: no white space among them, no line feed and no `=`.
pub proof fn lemma_numeral_chars(s: Seq<char>)
    requires
        is_numeral(s),
    ensures
        s.len() > 0,
        forall|i: int| 0 <= i < s.len() ==> is_numeral_char(#[trigger] s[i]),
{
    let from: int = if s.len() > 0 && is_sign(s[0]) {
        1
    } else {
        0
    };
    let tail = s.skip(from);
    if is_special(tail) {
        let inf = seq!['i', 'n', 'f'];
        let infinity = seq!['i', 'n', 'f', 'i', 'n', 'i', 't', 'y'];
        let nan = seq!['n', 'a', 'n'];
        if reads_as(tail, inf) {
            lemma_reads_as_letters(tail, inf);
        } else if reads_as(tail, infinity) {
            lemma_reads_as_letters(tail, infinity);
        } else {
            lemma_reads_as_letters(tail, nan);
        }
        assert forall|i: int| 0 <= i < s.len() implies is_numeral_char(#[trigger] s[i]) by {
            if i >= from {
                assert(s[i] == tail[i - from]);
                assert(is_ascii_letter(tail[i - from]));
            }
        }
    } else {
        lemma_digits_run(s, from);
        let whole_end = digits_end(s, from);
        let has_point = whole_end < s.len() && s[whole_end] == '.';
        if has_point {
            lemma_digits_run(s, whole_end + 1);
        }
        let mantissa_end = if has_point {
            digits_end(s, whole_end + 1)
        } else {
            whole_end
        };
        if mantissa_end < s.len() {
            let sign_at = mantissa_end + 1;
            let exponent_at = if sign_at < s.len() && is_sign(s[sign_at]) {
                sign_at + 1
            } else {
                sign_at
            };
            lemma_digits_run(s, exponent_at);
        }
    }
}

/// A number as it is written in the settings text. The text of a `Numeral`
/// is always a numeral: see [`is_numeral`].
#[derive(Debug)]
pub struct Numeral {
    text: String,
}

impl View for Numeral {
    type V = Seq<char>;

    closed spec fn view(&self) -> Seq<char> {
        self.text@
    }
}

impl Clone for Numeral {
    fn clone(&self) -> (r: Self)
        ensures
            r@ == self@,
    {
        proof {
            use_type_invariant(self);
        }
        Numeral { text: self.text.clone() }
    }
}

impl Numeral {
    #[verifier::type_invariant]
    spec fn well_formed(self) -> bool {
        is_numeral(self.text@)
    }

    /// The numeral that `s` holds, if `s` is one.
    pub fn parse(s: &str) -> (r: Option<Numeral>)
        ensures
            r is Some <==> is_numeral(s@),
            r matches Some(n) ==> n@ == s@,
    {
        let chars = chars_of(s);
        if is_numeral_text(&chars) {
            Some(Numeral { text: s.to_owned() })
        } else {
            None
        }
    }

    /// The text of the numeral.
    pub fn as_str(&self) -> (r: &str)
        ensures
            r@ == self@,
            is_numeral(r@),
    {
        proof {
            use_type_invariant(self);
        }
        self.text.as_str()
    }
}

} // verus!
