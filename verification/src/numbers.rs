//! Decimal numerals: what an integer numeral denotes, how to read one
//! within the bounds of the number type, and how to render a number
//! back to text.

use vstd::prelude::*;

use vstd::string::StringExecFns;

verus! {

broadcast use vstd::utf8::char_u32_cast;

/// Two characters with the same scalar value are the same character.
pub proof fn lemma_char_eq_by_scalar(a: char, b: char)
    requires
        a as u32 == b as u32,
    ensures
        a == b,
{
    vstd::utf8::char_u32_cast(a, a as u32);
    vstd::utf8::char_u32_cast(b, b as u32);
}

/// A decimal digit.
pub open spec fn is_digit(c: char) -> bool {
    48 <= c as u32 && c as u32 <= 57
}

/// The value of one digit.
pub open spec fn digit_val(c: char) -> int {
    c as u32 - 48
}

/// Every character is a digit.
pub open spec fn all_digits(s: Seq<char>) -> bool {
    forall|i: int| 0 <= i < s.len() ==> is_digit(#[trigger] s[i])
}

/// The value of a run of digits, most significant first.
pub open spec fn digits_value(s: Seq<char>) -> int
    decreases s.len(),
{
    if s.len() == 0 {
        0
    } else {
        digits_value(s.drop_last()) * 10 + digit_val(s.last())
    }
}

/// End of the run of digits that starts at `i`.
pub open spec fn digits_end_spec(s: Seq<char>, i: int) -> int
    decreases s.len() - i,
{
    if 0 <= i < s.len() && is_digit(s[i]) {
        digits_end_spec(s, i + 1)
    } else {
        i
    }
}

/// `digits_end_spec` stays within the text.
pub proof fn lemma_digits_end_bounds(s: Seq<char>, i: int)
    requires
        0 <= i <= s.len(),
    ensures
        i <= digits_end_spec(s, i) <= s.len(),
    decreases s.len() - i,
{
    if i < s.len() && is_digit(s[i]) {
        lemma_digits_end_bounds(s, i + 1);
    }
}

/// Whether the character at `j` is a digit.
pub fn is_digit_at(chars: &Vec<char>, j: usize) -> (res: bool)
    requires
        j < chars@.len(),
    ensures
        res == is_digit(chars@[j as int]),
{
    let c = chars[j] as u32;
    48 <= c && c <= 57
}

/// End of the run of digits that starts at `i`.
pub fn digits_end(chars: &Vec<char>, i: usize) -> (res: usize)
    requires
        i <= chars@.len(),
    ensures
        res == digits_end_spec(chars@, i as int),
        i <= res <= chars@.len(),
{
    let mut j = i;
    while j < chars.len() && is_digit_at(chars, j)
        invariant
            i <= j <= chars@.len(),
            digits_end_spec(chars@, i as int) == digits_end_spec(chars@, j as int),
        decreases chars@.len() - j,
    {
        j = j + 1;
    }
    j
}

/// An integer numeral: an optional minus sign, then at least one digit.
pub open spec fn is_integer_numeral(s: Seq<char>) -> bool {
    if s.len() > 0 && s[0] == '-' {
        s.len() >= 2 && all_digits(s.skip(1))
    } else {
        s.len() >= 1 && all_digits(s)
    }
}

/// The integer an integer numeral denotes.
pub open spec fn numeral_value(s: Seq<char>) -> int {
    if s.len() > 0 && s[0] == '-' {
        -digits_value(s.skip(1))
    } else {
        digits_value(s)
    }
}

/// A digit run's value is nonnegative and grows with its length.
pub proof fn lemma_digits_value_bounds(s: Seq<char>, i: int)
    requires
        all_digits(s),
        0 <= i <= s.len(),
    ensures
        digits_value(s) >= 0,
        digits_value(s) >= digits_value(s.take(i)),
    decreases s.len(),
{
    if s.len() > 0 {
        assert(is_digit(s[s.len() - 1]));
        assert(all_digits(s.drop_last()));
        lemma_digits_value_bounds(s.drop_last(), if i < s.len() { i } else { i - 1 });
        if i < s.len() {
            assert(s.drop_last().take(i) =~= s.take(i));
        } else {
            assert(s.take(i) =~= s);
        }
    } else {
        assert(s.take(i) =~= s);
    }
}

/// The characters of an ASCII string, as a vector the lexer can index.
pub fn ascii_chars_of(s: &str) -> (res: Vec<char>)
    requires
        s.is_ascii(),
    ensures
        res@ == s@,
{
    broadcast use vstd::string::is_ascii_spec_bytes;

    let bytes = s.as_bytes_vec();
    proof {
        assert(vstd::utf8::is_ascii_chars(s@));
        vstd::utf8::is_ascii_chars_encode_utf8(s@);
    }
    let mut chars: Vec<char> = Vec::new();
    let mut i: usize = 0;
    while i < bytes.len()
        invariant
            s.is_ascii(),
            bytes@.len() == s@.len(),
            forall|k: int| 0 <= k < s@.len() ==> bytes@[k] == (#[trigger] s@[k]) as u8,
            i <= bytes@.len(),
            chars@ =~= s@.take(i as int),
        decreases bytes@.len() - i,
    {
        let c = bytes[i] as char;
        proof {
            assert(s@[i as int] <= '\u{7f}') by {
                assert(vstd::utf8::is_ascii_chars(s@));
            }
            assert((s@[i as int] as u8) as u32 == s@[i as int] as u32);
            lemma_char_eq_by_scalar(c, s@[i as int]);
            assert(s@.take(i + 1) =~= s@.take(i as int).push(s@[i as int]));
        }
        chars.push(c);
        i = i + 1;
    }
    proof {
        assert(s@.take(s@.len() as int) =~= s@);
    }
    chars
}

/// Reads `chars[from..to]` as an integer numeral. Yields `None` when
/// the text is not an integer numeral or its value does not fit the
/// number type.
pub fn parse_integer(chars: &Vec<char>, from: usize, to: usize) -> (res: Option<i64>)
    requires
        from <= to <= chars@.len(),
    ensures
        ({
            let text = chars@.subrange(from as int, to as int);
            match res {
                Some(v) => is_integer_numeral(text) && v as int == numeral_value(text),
                None => !(is_integer_numeral(text) && i64::MIN <= numeral_value(text)
                    <= i64::MAX),
            }
        }),
{
    let ghost text = chars@.subrange(from as int, to as int);
    if from == to {
        return None;
    }
    let neg = (chars[from] as u32) == 45;
    proof {
        assert(text[0] == chars@[from as int]);
        if neg {
            lemma_char_eq_by_scalar(text[0], '-');
        }
        assert(neg <==> text[0] == '-');
    }
    let start = if neg {
        from + 1
    } else {
        from
    };
    if start == to {
        return None;
    }
    let ghost dtext = chars@.subrange(start as int, to as int);
    proof {
        if neg {
            assert(dtext =~= text.skip(1));
        } else {
            assert(dtext =~= text);
        }
    }
    let limit: u64 = if neg {
        9223372036854775808
    } else {
        9223372036854775807
    };
    let mut acc: u64 = 0;
    let mut i = start;
    while i < to
        invariant
            start <= i <= to <= chars@.len(),
            start < to,
            from <= start,
            text == chars@.subrange(from as int, to as int),
            text.len() > 0,
            neg <==> text[0] == '-',
            dtext == if neg {
                text.skip(1)
            } else {
                text
            },
            dtext == chars@.subrange(start as int, to as int),
            all_digits(chars@.subrange(start as int, i as int)),
            acc as int == digits_value(chars@.subrange(start as int, i as int)),
            acc <= limit,
            limit == if neg {
                9223372036854775808u64
            } else {
                9223372036854775807u64
            },
        decreases to - i,
    {
        let c = chars[i] as u32;
        if c < 48 || c > 57 {
            proof {
                assert(dtext[i - start] == chars@[i as int]);
                assert(!is_digit(dtext[i - start]));
            }
            return None;
        }
        let d = (c - 48) as u64;
        proof {
            assert(is_digit(chars@[i as int]));
            assert(chars@.subrange(start as int, i + 1) =~= chars@.subrange(
                start as int,
                i as int,
            ).push(chars@[i as int]));
            assert(d as int == digit_val(chars@[i as int]));
        }
        let ghost grown = chars@.subrange(start as int, i + 1);
        proof {
            assert forall|k: int| 0 <= k < grown.len() implies is_digit(#[trigger] grown[k]) by {
                if k < i - start {
                    assert(grown[k] == chars@.subrange(start as int, i as int)[k]);
                } else {
                    assert(grown[k] == chars@[i as int]);
                }
            }
            assert(grown.drop_last() =~= chars@.subrange(start as int, i as int));
            assert(grown.last() == chars@[i as int]);
            assert(digits_value(grown) == acc * 10 + digit_val(chars@[i as int]));
        }
        let next = match acc.checked_mul(10) {
            Some(t) => t.checked_add(d),
            None => None,
        };
        match next {
            Some(a) => {
                if a > limit {
                    proof {
                        assert(a as int == digits_value(grown));
                        assert(grown =~= dtext.take(i + 1 - start));
                        if all_digits(dtext) {
                            lemma_digits_value_bounds(dtext, i + 1 - start);
                        }
                    }
                    return None;
                }
                acc = a;
            },
            None => {
                proof {
                    assert(digits_value(grown) > u64::MAX);
                    assert(grown =~= dtext.take(i + 1 - start));
                    if all_digits(dtext) {
                        lemma_digits_value_bounds(dtext, i + 1 - start);
                    }
                }
                return None;
            },
        }
        i = i + 1;
    }
    proof {
        assert(chars@.subrange(start as int, to as int) =~= dtext);
    }
    if neg {
        if acc == 9223372036854775808 {
            Some(i64::MIN)
        } else {
            Some(-(acc as i64))
        }
    } else {
        Some(acc as i64)
    }
}

/// The character of one digit value.
pub open spec fn digit_char(d: int) -> char {
    ((d + 48) as u32) as char
}

/// The decimal rendering of a nonnegative integer, most significant
/// digit first, no leading zeros.
pub open spec fn dec_digits(n: int) -> Seq<char>
    decreases n,
{
    if n < 10 {
        seq![digit_char(if n >= 0 { n } else { 0 })]
    } else {
        dec_digits(n / 10).push(digit_char(n % 10))
    }
}

/// The decimal rendering of an integer.
pub open spec fn dec_str(n: int) -> Seq<char> {
    if n < 0 {
        seq!['-'] + dec_digits(-n)
    } else {
        dec_digits(n)
    }
}

/// One digit, as text.
fn digit_str(d: u64) -> (res: &'static str)
    requires
        d < 10,
    ensures
        res@ =~= seq![digit_char(d as int)],
{
    let res = match d {
        0 => "0",
        1 => "1",
        2 => "2",
        3 => "3",
        4 => "4",
        5 => "5",
        6 => "6",
        7 => "7",
        8 => "8",
        _ => "9",
    };
    proof {
        reveal_strlit("0");
        reveal_strlit("1");
        reveal_strlit("2");
        reveal_strlit("3");
        reveal_strlit("4");
        reveal_strlit("5");
        reveal_strlit("6");
        reveal_strlit("7");
        reveal_strlit("8");
        reveal_strlit("9");
        lemma_char_eq_by_scalar('0', digit_char(0));
        lemma_char_eq_by_scalar('1', digit_char(1));
        lemma_char_eq_by_scalar('2', digit_char(2));
        lemma_char_eq_by_scalar('3', digit_char(3));
        lemma_char_eq_by_scalar('4', digit_char(4));
        lemma_char_eq_by_scalar('5', digit_char(5));
        lemma_char_eq_by_scalar('6', digit_char(6));
        lemma_char_eq_by_scalar('7', digit_char(7));
        lemma_char_eq_by_scalar('8', digit_char(8));
        lemma_char_eq_by_scalar('9', digit_char(9));
    }
    res
}

/// The decimal rendering of a nonnegative number.
pub(crate) fn render_u64(n: u64) -> (res: String)
    ensures
        res@ == dec_digits(n as int),
    decreases n,
{
    if n < 10 {
        String::from_str(digit_str(n))
    } else {
        let mut s = render_u64(n / 10);
        s.append(digit_str(n % 10));
        s
    }
}

/// The decimal rendering of a number.
pub fn render_i64(n: i64) -> (res: String)
    ensures
        res@ == dec_str(n as int),
{
    if n < 0 {
        let m: u64 = if n == i64::MIN {
            9223372036854775808
        } else {
            (-n) as u64
        };
        let mut s = String::from_str("-");
        s.append(render_u64(m).as_str());
        proof {
            reveal_strlit("-");
            assert(s@ =~= dec_str(n as int));
        }
        s
    } else {
        render_u64(n as u64)
    }
}

} // verus!
