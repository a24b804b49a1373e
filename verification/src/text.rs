//! Decimal text: whole numbers, and prices rounded to two decimal places.

use vstd::prelude::*;
use vstd::string::StringExecFns;

verus! {

/// The character of a decimal digit.
pub open spec fn digit_char(d: int) -> char {
    if d == 0 {
        '0'
    } else if d == 1 {
        '1'
    } else if d == 2 {
        '2'
    } else if d == 3 {
        '3'
    } else if d == 4 {
        '4'
    } else if d == 5 {
        '5'
    } else if d == 6 {
        '6'
    } else if d == 7 {
        '7'
    } else if d == 8 {
        '8'
    } else {
        '9'
    }
}

/// The decimal digits of `n`, most significant first, without leading zeros.
pub open spec fn decimal(n: nat) -> Seq<char>
    decreases n,
{
    if n < 10 {
        seq![digit_char(n as int)]
    } else {
        decimal(n / 10).push(digit_char((n % 10) as int))
    }
}

/// A number has at least one digit, and more than one from ten on.
pub proof fn lemma_decimal_len(n: nat)
    ensures
        decimal(n).len() >= 1,
        n >= 10 ==> decimal(n).len() >= 2,
    decreases n,
{
    if n >= 10 {
        lemma_decimal_len(n / 10);
    }
}

/// Different digits have different characters.
pub proof fn lemma_digit_injective(a: int, b: int)
    requires
        0 <= a < 10,
        0 <= b < 10,
        digit_char(a) == digit_char(b),
    ensures
        a == b,
{
}

/// Different numbers are written differently.
pub proof fn lemma_decimal_injective(a: nat, b: nat)
    requires
        decimal(a) == decimal(b),
    ensures
        a == b,
    decreases a,
{
    lemma_decimal_len(a);
    lemma_decimal_len(b);
    if a < 10 && b < 10 {
        assert(decimal(a)[0] == digit_char(a as int));
        assert(decimal(b)[0] == digit_char(b as int));
        lemma_digit_injective(a as int, b as int);
    } else if a >= 10 && b >= 10 {
        let front_a = decimal(a / 10);
        let front_b = decimal(b / 10);
        let last_a = digit_char((a % 10) as int);
        let last_b = digit_char((b % 10) as int);
        assert(decimal(a) == front_a.push(last_a));
        assert(decimal(b) == front_b.push(last_b));
        assert(front_a.push(last_a).last() == last_a);
        assert(front_b.push(last_b).last() == last_b);
        assert(front_a.push(last_a).drop_last() =~= front_a);
        assert(front_b.push(last_b).drop_last() =~= front_b);
        lemma_digit_injective((a % 10) as int, (b % 10) as int);
        lemma_decimal_injective(a / 10, b / 10);
    } else if a < 10 {
        assert(decimal(a).len() == 1);
    } else {
        assert(decimal(b).len() == 1);
    }
}

/// `count` spaces.
pub open spec fn spaces(count: nat) -> Seq<char> {
    Seq::new(count, |i: int| ' ')
}

/// The one-character string of a decimal digit.
pub fn digit_str(d: u8) -> (text: &'static str)
    requires
        d < 10,
    ensures
        text@ == seq![digit_char(d as int)],
{
    proof {
        reveal_strlit("0");
        reveal_strlit("1");
        reveal_strlit("2");
        reveal_strlit("3");
        reveal_strlit("4");
        reveal_strlit("5");
        reveal_strlit("6");
        reveal_strlit("7");
        reveal_strlit("8");
        reveal_strlit("9");
    }
    let text = match d {
        0 => "0",
        1 => "1",
        2 => "2",
        3 => "3",
        4 => "4",
        5 => "5",
        6 => "6",
        7 => "7",
        8 => "8",
        _ => "9",
    };
    assert(text@ =~= seq![digit_char(d as int)]);
    text
}

/// Writes `n` in decimal.
pub fn decimal_text(n: u64) -> (text: String)
    ensures
        text@ == decimal(n as nat),
    decreases n,
{
    if n < 10 {
        String::from_str(digit_str(n as u8))
    } else {
        let mut text = decimal_text(n / 10);
        let last = digit_str((n % 10) as u8);
        text.append(last);
        assert(text@ =~= decimal(n as nat));
        text
    }
}

/// An amount of money in thousandths of the currency unit.
#[derive(Clone, Copy, Debug, PartialEq, Eq, Structural)]
pub struct Price {
    pub mills: i64,
}

impl Price {
    /// The price of so many thousandths.
    pub fn from_mills(mills: i64) -> (price: Price)
        ensures
            price.mills == mills,
    {
        Price { mills }
    }

    /// The price of so many hundredths.
    pub fn from_hundredths(hundredths: i32) -> (price: Price)
        ensures
            price.mills == 10 * hundredths,
            price.hundredths() == hundredths,
    {
        Price { mills: 10 * (hundredths as i64) }
    }

    /// The amount in hundredths, rounded as `hundredths` says.
    pub fn rounded(&self) -> (hundredths: i64)
        ensures
            hundredths == self.hundredths(),
    {
        if self.mills >= 0 {
            ((self.mills as i128 + 5) / 10) as i64
        } else {
            (-((5 - self.mills as i128) / 10)) as i64
        }
    }

    /// The amount in hundredths, rounded to the nearest; a half rounds away
    /// from zero.
    pub open spec fn hundredths(self) -> int {
        if self.mills >= 0 {
            (self.mills + 5) / 10
        } else {
            -((5 - self.mills) / 10)
        }
    }

    /// The amount with exactly two decimal places: a minus sign where the
    /// rounded amount is below zero, the whole part, a point, two digits.
    pub open spec fn text(self) -> Seq<char> {
        let h = self.hundredths();
        let a = magnitude(self);
        let sign = if h < 0 {
            seq!['-']
        } else {
            Seq::<char>::empty()
        };
        sign + decimal((a / 100) as nat) + seq!['.', digit_char((a / 10) % 10), digit_char(a % 10)]
    }

    /// Writes the amount with exactly two decimal places.
    pub fn to_text(&self) -> (text: String)
        ensures
            text@ == self.text(),
    {
        let negative = self.mills < 0;
        let magnitude: u64 = if negative {
            (5 - (self.mills as i128)) as u64
        } else {
            (self.mills as u64) + 5
        };
        let a: u64 = magnitude / 10;
        assert(self.hundredths() == if negative {
            -(a as int)
        } else {
            a as int
        });
        proof {
            reveal_strlit("-");
            reveal_strlit(".");
        }
        let mut text = String::new();
        if negative && a > 0 {
            text.append("-");
        }
        let whole = decimal_text(a / 100);
        text.append(whole.as_str());
        text.append(".");
        text.append(digit_str(((a / 10) % 10) as u8));
        text.append(digit_str((a % 10) as u8));
        assert(text@ =~= self.text());
        text
    }
}

/// The magnitude of a price, in hundredths.
pub open spec fn magnitude(price: Price) -> int {
    if price.hundredths() < 0 {
        -price.hundredths()
    } else {
        price.hundredths()
    }
}

/// The text of a price is made of digits, one point and at most one minus
/// sign at the front; it is at least four characters long.
pub proof fn lemma_price_text(price: Price)
    ensures
        price.text().len() >= 4,
        forall|i: int| 0 <= i < price.text().len() ==> #[trigger] price.text()[i] != '$',
        price.text()[0] == '-' <==> price.hundredths() < 0,
{
    let a = magnitude(price);
    let whole = decimal((a / 100) as nat);
    let tail = seq!['.', digit_char((a / 10) % 10), digit_char(a % 10)];
    lemma_decimal_len((a / 100) as nat);
    lemma_decimal_digits((a / 100) as nat);
    let text = price.text();
    if price.hundredths() < 0 {
        assert(text =~= seq!['-'] + whole + tail);
        assert forall|i: int| 0 <= i < text.len() implies #[trigger] text[i] != '$' by {
            if 1 <= i < 1 + whole.len() {
                assert(text[i] == whole[i - 1]);
            } else if i >= 1 + whole.len() {
                assert(text[i] == tail[i - 1 - whole.len()]);
            }
        }
    } else {
        assert(text =~= whole + tail);
        assert(text[0] == whole[0]);
        assert forall|i: int| 0 <= i < text.len() implies #[trigger] text[i] != '$' by {
            if i < whole.len() {
                assert(text[i] == whole[i]);
            } else {
                assert(text[i] == tail[i - whole.len()]);
            }
        }
    }
}

/// Every character of a number is a digit.
pub proof fn lemma_decimal_digits(n: nat)
    ensures
        forall|i: int| 0 <= i < decimal(n).len() ==> '0' <= #[trigger] decimal(n)[i] <= '9',
    decreases n,
{
    if n >= 10 {
        lemma_decimal_digits(n / 10);
        let front = decimal(n / 10);
        let last = digit_char((n % 10) as int);
        assert('0' <= last <= '9');
        assert forall|i: int| 0 <= i < decimal(n).len() implies '0' <= #[trigger] decimal(n)[i]
            <= '9' by {
            if i < front.len() {
                assert(decimal(n)[i] == front[i]);
            } else {
                assert(decimal(n)[i] == last);
            }
        }
    } else {
        assert('0' <= digit_char(n as int) <= '9');
        assert(decimal(n)[0] == digit_char(n as int));
    }
}

/// Prices with the same text are the same amount in hundredths.
pub proof fn law_price_text_injective(first: Price, second: Price)
    requires
        first.text() == second.text(),
    ensures
        first.hundredths() == second.hundredths(),
{
    let a = magnitude(first);
    let b = magnitude(second);
    let whole_a = decimal((a / 100) as nat);
    let whole_b = decimal((b / 100) as nat);
    let tail_a = seq!['.', digit_char((a / 10) % 10), digit_char(a % 10)];
    let tail_b = seq!['.', digit_char((b / 10) % 10), digit_char(b % 10)];
    lemma_price_text(first);
    lemma_price_text(second);
    let text = first.text();
    let sign: int = if first.hundredths() < 0 {
        1
    } else {
        0
    };
    if first.hundredths() < 0 {
        assert(first.text() =~= seq!['-'] + whole_a + tail_a);
        assert(second.text() =~= seq!['-'] + whole_b + tail_b);
    } else {
        assert(first.text() =~= whole_a + tail_a);
        assert(second.text() =~= whole_b + tail_b);
    }
    assert(whole_a.len() == text.len() - 3 - sign);
    assert(whole_b.len() == text.len() - 3 - sign);
    assert(whole_a =~= text.subrange(sign, text.len() - 3));
    assert(whole_b =~= text.subrange(sign, text.len() - 3));
    lemma_decimal_injective((a / 100) as nat, (b / 100) as nat);
    assert(tail_a[1] == text[text.len() - 2] && tail_b[1] == text[text.len() - 2]);
    assert(tail_a[2] == text[text.len() - 1] && tail_b[2] == text[text.len() - 1]);
    lemma_digit_injective((a / 10) % 10, (b / 10) % 10);
    lemma_digit_injective(a % 10, b % 10);
}

/// Item lines with the same text show the same label and the same amount:
/// nothing of an item is lost in its line but what rounding takes.
pub proof fn law_item_text_injective(
    first_label: Seq<char>,
    first: Price,
    second_label: Seq<char>,
    second: Price,
)
    requires
        item_text(first_label, first) == item_text(second_label, second),
    ensures
        first_label == second_label,
        first.hundredths() == second.hundredths(),
{
    let text = item_text(first_label, first);
    let a = first.text();
    let b = second.text();
    lemma_price_text(first);
    lemma_price_text(second);
    assert(text.len() == first_label.len() + 35 + a.len());
    assert(text.len() == second_label.len() + 35 + b.len());
    let again = item_text(second_label, second);
    assert(text[text.len() - a.len() - 1] == '$');
    assert(again[again.len() - b.len() - 1] == '$');
    if a.len() < b.len() {
        let at = text.len() - a.len() - 1;
        assert(again[at] == b[at - (again.len() - b.len())]);
    } else if b.len() < a.len() {
        let at = again.len() - b.len() - 1;
        assert(text[at] == a[at - (text.len() - a.len())]);
    }
    assert(a =~= text.subrange(text.len() - a.len(), text.len() as int));
    assert(b =~= again.subrange(again.len() - b.len(), again.len() as int));
    assert(first_label =~= text.subrange(0, first_label.len() as int));
    assert(second_label =~= again.subrange(0, second_label.len() as int));
    law_price_text_injective(first, second);
}

/// The text of one item line: the label, a gap of 34 spaces, a dollar sign
/// and the price with two decimal places.
pub open spec fn item_text(label: Seq<char>, price: Price) -> Seq<char> {
    label + spaces(34) + seq!['$'] + price.text()
}

/// Writes the text of one item line.
pub fn item_line(label: &str, price: Price) -> (text: String)
    ensures
        text@ == item_text(label@, price),
{
    proof {
        reveal_strlit("                                  $");
    }
    let mut text = String::from_str(label);
    text.append("                                  $");
    let amount = price.to_text();
    text.append(amount.as_str());
    assert(text@ =~= item_text(label@, price));
    text
}

} // verus!
