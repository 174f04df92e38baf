//! Text that the library builds: decimal numbers and joined strings.
use vstd::arithmetic::power::pow;
use vstd::prelude::*;
use vstd::string::StringExecFns;

verus! {

/// The character of a decimal digit.
pub open spec fn digit_char(digit: int) -> char {
    (digit + 48) as char
}

/// A number in decimal notation, without leading zeros.
pub open spec fn decimal(n: nat) -> Seq<char>
    decreases n,
{
    if n < 10 {
        seq![digit_char(n as int)]
    } else {
        decimal(n / 10).push(digit_char((n % 10) as int))
    }
}

/// The character of a hexadecimal digit.
pub open spec fn hex_char(digit: int) -> char {
    if digit < 10 {
        (digit + 48) as char
    } else {
        (digit + 87) as char
    }
}

/// The last `width` hexadecimal digits of a number.
pub open spec fn hexadecimal(n: nat, width: nat) -> Seq<char>
    decreases width,
{
    if width == 0 {
        Seq::empty()
    } else {
        hexadecimal(n / 16, (width - 1) as nat).push(hex_char((n % 16) as int))
    }
}

/// The parts in order, with `separator` between each two of them.
pub open spec fn joined(parts: Seq<Seq<char>>, separator: Seq<char>) -> Seq<char>
    decreases parts.len(),
{
    if parts.len() == 0 {
        Seq::empty()
    } else if parts.len() == 1 {
        parts[0]
    } else {
        joined(parts.drop_last(), separator) + separator + parts.last()
    }
}

/// The texts of a list of strings.
pub open spec fn texts(strings: Seq<String>) -> Seq<Seq<char>> {
    strings.map_values(|s: String| s@)
}

fn digit_text(digit: u64) -> (text: &'static str)
    requires
        digit < 10,
    ensures
        text@ == seq![digit_char(digit as int)],
{
    proof {
        reveal_strlit("0");
        reveal_strlit("1");
        reveal_strlit("2");
        reveal_strlit("3");
        reveal_strlit("4");
        reveal_strlit("5");
        reveal_strlit("6");
        reveal_strlit("7");
        reveal_strlit("8");
        reveal_strlit("9");
    }
    let text: &'static str = match digit {
        0 => "0",
        1 => "1",
        2 => "2",
        3 => "3",
        4 => "4",
        5 => "5",
        6 => "6",
        7 => "7",
        8 => "8",
        _ => "9",
    };
    assert(text@ =~= seq![digit_char(digit as int)]);
    text
}

/// Appends a number in decimal notation.
pub fn push_decimal(text: &mut String, n: u64)
    ensures
        final(text)@ == old(text)@ + decimal(n as nat),
    decreases n,
{
    if n >= 10 {
        push_decimal(text, n / 10);
    }
    text.append(digit_text(n % 10));
    assert(text@ =~= old(text)@ + decimal(n as nat));
}

fn hex_text(digit: u64) -> (text: &'static str)
    requires
        digit < 16,
    ensures
        text@ == seq![hex_char(digit as int)],
{
    if digit < 10 {
        return digit_text(digit);
    }
    proof {
        reveal_strlit("a");
        reveal_strlit("b");
        reveal_strlit("c");
        reveal_strlit("d");
        reveal_strlit("e");
        reveal_strlit("f");
    }
    let text: &'static str = match digit {
        10 => "a",
        11 => "b",
        12 => "c",
        13 => "d",
        14 => "e",
        _ => "f",
    };
    assert(text@ =~= seq![hex_char(digit as int)]);
    text
}

/// Appends the last `width` hexadecimal digits of a number.
pub fn push_hexadecimal(text: &mut String, n: u64, width: usize)
    ensures
        final(text)@ == old(text)@ + hexadecimal(n as nat, width as nat),
    decreases width,
{
    if width > 0 {
        push_hexadecimal(text, n / 16, width - 1);
        text.append(hex_text(n % 16));
    }
    assert(text@ =~= old(text)@ + hexadecimal(n as nat, width as nat));
}

/// `prefix` with a number in decimal notation behind it.
pub fn numbered(prefix: &str, n: u64) -> (text: String)
    ensures
        text@ == prefix@ + decimal(n as nat),
{
    let mut text = prefix.to_owned();
    push_decimal(&mut text, n);
    text
}

/// Two texts, one behind the other.
pub fn concatenated(first: &str, second: &str) -> (text: String)
    ensures
        text@ == first@ + second@,
{
    let mut text = first.to_owned();
    text.append(second);
    text
}

/// Joins strings, with `separator` between each two of them.
pub fn join(parts: &Vec<String>, separator: &str) -> (text: String)
    ensures
        text@ == joined(texts(parts@), separator@),
{
    let mut text = String::new();
    let mut i: usize = 0;
    let ghost all = texts(parts@);
    while i < parts.len()
        invariant
            i <= parts@.len(),
            all == texts(parts@),
            text@ == joined(all.take(i as int), separator@),
        decreases parts.len() - i,
    {
        if i > 0 {
            text.append(separator);
        }
        text.append(parts[i].as_str());
        proof {
            let next = all.take(i + 1);
            assert(next.drop_last() =~= all.take(i as int));
            assert(next.last() == parts@[i as int]@);
            if i == 0 {
                assert(text@ =~= next[0]);
            }
        }
        i += 1;
    }
    assert(all.take(i as int) =~= all);
    text
}

/// Whether a string occurs in a list.
pub fn contains_text(strings: &Vec<String>, text: &str) -> (found: bool)
    ensures
        found == texts(strings@).contains(text@),
{
    let mut i: usize = 0;
    while i < strings.len()
        invariant
            i <= strings@.len(),
            forall|j: int| 0 <= j < i ==> texts(strings@)[j] != text@,
        decreases strings.len() - i,
    {
        if same_text(strings[i].as_str(), text) {
            assert(texts(strings@)[i as int] == text@);
            return true;
        }
        i += 1;
    }
    false
}

/// Whether two texts are the same.
pub fn same_text(first: &str, second: &str) -> (same: bool)
    ensures
        same == (first@ == second@),
{
    first.to_owned() == second.to_owned()
}

/// A text in double quotes, with its special characters escaped.
pub uninterp spec fn quoted_text(text: Seq<char>) -> Seq<char>;

/// Calls the `Debug` formatting that `std` has for `str`, which puts the text in double quotes and
/// escapes it. The result is a function of the text; how characters are escaped is not said.
#[verifier::external_body]
pub(crate) fn quoted(text: &str) -> (result: String)
    ensures
        result@ == quoted_text(text@),
{
    format!("{:?}", text)
}

/// A text in lower case.
pub uninterp spec fn lowercase_of(text: Seq<char>) -> Seq<char>;

/// Calls `str::to_lowercase`. The result is a function of the text; how letters are mapped is a
/// matter of the Unicode tables and is not said.
#[verifier::external_body]
pub(crate) fn lowercase(text: &str) -> (result: String)
    ensures
        result@ == lowercase_of(text@),
{
    text.to_lowercase()
}

/// The name of a variant and what it holds, in brackets.
pub fn tagged(name: &str, content: &str) -> (text: String)
    ensures
        text@ == name@ + "("@ + content@ + ")"@,
{
    let mut text = name.to_owned();
    text.append("(");
    text.append(content);
    text.append(")");
    text
}

/// Two different numbers have different decimal notations.
pub proof fn law_decimal_is_injective(m: nat, n: nat)
    ensures
        decimal(m) == decimal(n) ==> m == n,
    decreases m,
{
    lemma_decimal_len(m);
    lemma_decimal_len(n);
    if decimal(m) == decimal(n) {
        assert(decimal(m).last() == decimal(n).last());
        if m >= 10 {
            assert(decimal(m).drop_last() =~= decimal(m / 10));
            if n < 10 {
                lemma_decimal_len(m / 10);
            } else {
                assert(decimal(n).drop_last() =~= decimal(n / 10));
                law_decimal_is_injective(m / 10, n / 10);
            }
        } else if n >= 10 {
            lemma_decimal_len(n / 10);
        }
    }
}

proof fn lemma_decimal_len(n: nat)
    ensures
        decimal(n).len() >= 1,
    decreases n,
{
    if n >= 10 {
        lemma_decimal_len(n / 10);
    }
}

/// The number that digits stand for, the first one being the most significant.
pub open spec fn number_read(text: Seq<char>, base: nat) -> nat
    decreases text.len(),
{
    if text.len() == 0 {
        0
    } else {
        let c = text.last() as int;
        let last: nat = if 48 <= c <= 57 {
            (c - 48) as nat
        } else if 97 <= c <= 102 {
            (c - 97 + 10) as nat
        } else {
            0
        };
        number_read(text.drop_last(), base) * base + last
    }
}

/// A decimal notation is made of the digits from 0 to 9, reads as the number it was made from, and
/// has no zero in front.
pub proof fn law_decimal_reads_back(n: nat)
    ensures
        number_read(decimal(n), 10) == n,
        forall|i: int| 0 <= i < decimal(n).len() ==> '0' <= #[trigger] decimal(n)[i] <= '9',
        n > 0 ==> decimal(n)[0] != '0',
        n < 10 ==> decimal(n).len() == 1,
        decimal(n).len() >= 1,
    decreases n,
{
    if n < 10 {
        assert(decimal(n).drop_last() =~= Seq::<char>::empty());
        assert(number_read(Seq::<char>::empty(), 10) == 0);
    } else {
        law_decimal_reads_back(n / 10);
        assert(decimal(n).drop_last() =~= decimal(n / 10));
        assert(decimal(n)[0] == decimal(n / 10)[0]);
    }
}

/// A hexadecimal notation has as many digits as asked for, and reads as the number it was made
/// from, if that number has so many digits at most.
pub proof fn law_hexadecimal_reads_back(n: nat, width: nat)
    ensures
        hexadecimal(n, width).len() == width,
        n < pow(16, width) ==> number_read(hexadecimal(n, width), 16) == n,
    decreases width,
{
    reveal(pow);
    if width > 0 {
        law_hexadecimal_reads_back(n / 16, (width - 1) as nat);
        assert(hexadecimal(n, width).drop_last() =~= hexadecimal(n / 16, (width - 1) as nat));
        assert(pow(16, width) == 16 * pow(16, (width - 1) as nat));
    }
}

/// Joined parts stand in their order, and the separator stands between each two of them only.
pub proof fn law_joined_in_order(
    first: Seq<Seq<char>>,
    second: Seq<Seq<char>>,
    separator: Seq<char>,
)
    requires
        first.len() > 0,
        second.len() > 0,
    ensures
        joined(first + second, separator) == joined(first, separator) + separator + joined(
            second,
            separator,
        ),
        joined(seq![first[0]], separator) == first[0],
        joined(Seq::empty(), separator) == Seq::<char>::empty(),
    decreases second.len(),
{
    let all = first + second;
    assert(all.last() == second.last());
    if second.len() == 1 {
        assert(all.drop_last() =~= first);
    } else {
        assert(all.drop_last() =~= first + second.drop_last());
        law_joined_in_order(first, second.drop_last(), separator);
        assert(joined(all, separator) =~= joined(first, separator) + separator + joined(
            second,
            separator,
        ));
    }
}

} // verus!
