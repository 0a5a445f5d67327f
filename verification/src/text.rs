//! Names: column names built from a prefix and a label, decimal indices, and
//! the names of rolled files.

use vstd::prelude::*;
use vstd::string::*;
use vstd::utf8::*;

verus! {

/// The character that writes the digit `d`.
pub open spec fn digit_char(d: nat) -> char {
    if d == 0 {
        '0'
    } else if d == 1 {
        '1'
    } else if d == 2 {
        '2'
    } else if d == 3 {
        '3'
    } else if d == 4 {
        '4'
    } else if d == 5 {
        '5'
    } else if d == 6 {
        '6'
    } else if d == 7 {
        '7'
    } else if d == 8 {
        '8'
    } else {
        '9'
    }
}

/// The decimal notation of `n`, without leading zeros.
pub open spec fn decimal_chars(n: nat) -> Seq<char>
    decreases n,
{
    if n < 10 {
        seq![digit_char(n)]
    } else {
        decimal_chars(n / 10).push(digit_char(n % 10))
    }
}

/// `count` zeros, none where `count` is not positive.
pub open spec fn zeros(count: int) -> Seq<char> {
    Seq::new(
        if count > 0 {
            count as nat
        } else {
            0
        },
        |i: int| '0',
    )
}

/// `text` filled up with zeros on the left to at least `width` characters.
pub open spec fn zero_padded(text: Seq<char>, width: nat) -> Seq<char> {
    zeros(width - text.len()) + text
}

/// The number of digits in a file's serial number.
pub open spec fn serial_width() -> nat {
    9
}

/// The name of the file with serial number `index`.
pub open spec fn file_name_chars(index: nat) -> Seq<char> {
    zero_padded(decimal_chars(index), serial_width()) + ".parquet"@
}

/// The name of a child column: the label alone, or the prefix, an
/// underscore and the label.
pub open spec fn child_name_chars(prefix: Option<Seq<char>>, label: Seq<char>) -> Seq<char> {
    match prefix {
        Some(p) => p + "_"@ + label,
        None => label,
    }
}

/// The texts of a sequence of strings, in order.
pub open spec fn string_views(texts: Seq<String>) -> Seq<Seq<char>> {
    texts.map_values(|s: String| s@)
}

/// The text of an optional string.
pub open spec fn opt_chars(text: Option<&str>) -> Option<Seq<char>> {
    match text {
        Some(t) => Some(t@),
        None => None,
    }
}

/// A text as the debug format writes it: in double quotes, with what has to
/// be escaped escaped.
pub uninterp spec fn debug_quoted_chars(text: Seq<char>) -> Seq<char>;

/// `format!` with `{:?}` on a `str`. Nothing is claimed but that the result
/// depends on the characters alone.
#[verifier::external_body]
pub(crate) fn debug_quoted(text: &str) -> (quoted: String)
    ensures
        quoted@ == debug_quoted_chars(text@),
{
    format!("{:?}", text)
}

/// The texts quoted and separated by a comma and a space.
pub open spec fn listed_chars(texts: Seq<Seq<char>>) -> Seq<char>
    decreases texts.len(),
{
    if texts.len() == 0 {
        Seq::empty()
    } else if texts.len() == 1 {
        debug_quoted_chars(texts[0])
    } else {
        listed_chars(texts.drop_last()) + ", "@ + debug_quoted_chars(texts.last())
    }
}

/// The texts quoted and separated by a comma and a space.
pub fn listed(texts: &Vec<String>) -> (list: String)
    ensures
        list@ == listed_chars(string_views(texts@)),
{
    let ghost views = string_views(texts@);
    let mut list = String::new();
    let mut i: usize = 0;
    assert(views.take(0) =~= Seq::<Seq<char>>::empty());
    while i < texts.len()
        invariant
            i <= texts.len(),
            views == string_views(texts@),
            list@ == listed_chars(views.take(i as int)),
        decreases texts.len() - i,
    {
        proof {
            assert(views.take(i + 1).drop_last() =~= views.take(i as int));
            assert(views.take(i + 1).last() == texts@[i as int]@);
        }
        if i > 0 {
            list.append(", ");
        }
        let quoted = debug_quoted(texts[i].as_str());
        list.append(quoted.as_str());
        proof {
            if i == 0 {
                assert(views.take(1)[0] == texts@[0]@);
                assert(list@ =~= listed_chars(views.take(1)));
            }
        }
        i += 1;
    }
    assert(views.take(texts.len() as int) =~= views);
    list
}

/// Whether a character is a decimal digit.
pub open spec fn is_digit(c: char) -> bool {
    exists|d: nat| d < 10 && c == digit_char(d)
}

/// Ten to the power of `exponent`.
pub open spec fn pow10(exponent: nat) -> nat
    decreases exponent,
{
    if exponent == 0 {
        1
    } else {
        10 * pow10((exponent - 1) as nat)
    }
}

/// A number in decimal notation is made of digits, of at least one, and of
/// no more than `width` where it is below ten to the power of `width`.
pub proof fn lemma_decimal_digits(n: nat, width: nat)
    requires
        width >= 1,
        n < pow10(width),
    ensures
        1 <= decimal_chars(n).len() <= width,
        forall|i: int| 0 <= i < decimal_chars(n).len() ==> is_digit(#[trigger] decimal_chars(n)[i]),
    decreases n,
{
    reveal_with_fuel(pow10, 2);
    if n < 10 {
        assert(is_digit(digit_char(n)));
    } else {
        if width == 1 {
            assert(pow10(1) == 10);
        } else {
            lemma_decimal_digits(n / 10, (width - 1) as nat);
        }
        assert(is_digit(digit_char(n % 10)));
    }
}

/// The name of a file with a serial number below a thousand millions is
/// nine digits and the extension.
pub proof fn lemma_file_name_shape(index: nat)
    requires
        index < pow10(9),
    ensures
        file_name_chars(index).len() == 17,
        forall|i: int| 0 <= i < 9 ==> is_digit(#[trigger] file_name_chars(index)[i]),
        file_name_chars(index).subrange(9, 17) == ".parquet"@,
        file_name_chars(index).subrange(0, 9) == zero_padded(decimal_chars(index), 9),
{
    reveal_strlit(".parquet");
    lemma_decimal_digits(index, 9);
    let digits = decimal_chars(index);
    let padded = zero_padded(digits, 9);
    assert(padded.len() == 9);
    assert forall|i: int| 0 <= i < 9 implies is_digit(#[trigger] file_name_chars(index)[i]) by {
        if i < 9 - digits.len() {
            assert(padded[i] == '0');
            assert(digit_char(0) == '0');
        } else {
            assert(padded[i] == digits[i - (9 - digits.len())]);
        }
    }
    assert(file_name_chars(index).subrange(9, 17) =~= ".parquet"@);
    assert(file_name_chars(index).subrange(0, 9) =~= padded);
}

/// Whether two strings hold the same characters.
pub fn str_eq(a: &str, b: &str) -> (same: bool)
    ensures
        same == (a@ == b@),
{
    let x = a.as_bytes();
    let y = b.as_bytes();
    proof {
        encode_utf8_decode_utf8(a@);
        encode_utf8_decode_utf8(b@);
    }
    if x.len() != y.len() {
        return false;
    }
    let mut i: usize = 0;
    while i < x.len()
        invariant
            i <= x.len(),
            x.len() == y.len(),
            x@ == a.spec_bytes(),
            y@ == b.spec_bytes(),
            forall|k: int| 0 <= k < i ==> x@[k] == y@[k],
        decreases x.len() - i,
    {
        if x[i] != y[i] {
            return false;
        }
        i += 1;
    }
    assert(x@ =~= y@);
    true
}

/// Copies a list of texts.
pub fn clone_texts(texts: &Vec<String>) -> (copy: Vec<String>)
    ensures
        string_views(copy@) == string_views(texts@),
{
    let mut copy: Vec<String> = Vec::new();
    let mut i: usize = 0;
    while i < texts.len()
        invariant
            i <= texts.len(),
            copy@.len() == i,
            forall|k: int| 0 <= k < i ==> copy@[k]@ == texts@[k]@,
        decreases texts.len() - i,
    {
        copy.push(texts[i].clone());
        i += 1;
    }
    assert(string_views(copy@) =~= string_views(texts@));
    copy
}

/// Whether `text` is among `texts`.
pub fn contains_text(texts: &Vec<String>, text: &str) -> (found: bool)
    ensures
        found == string_views(texts@).contains(text@),
{
    let mut i: usize = 0;
    while i < texts.len()
        invariant
            i <= texts.len(),
            forall|k: int| 0 <= k < i ==> string_views(texts@)[k] != text@,
        decreases texts.len() - i,
    {
        if str_eq(texts[i].as_str(), text) {
            assert(string_views(texts@)[i as int] == text@);
            return true;
        }
        i += 1;
    }
    false
}

/// The one-character string of a digit.
pub fn digit(d: usize) -> (text: &'static str)
    requires
        d < 10,
    ensures
        text@ == seq![digit_char(d as nat)],
{
    proof {
        reveal_strlit("0");
        reveal_strlit("1");
        reveal_strlit("2");
        reveal_strlit("3");
        reveal_strlit("4");
        reveal_strlit("5");
        reveal_strlit("6");
        reveal_strlit("7");
        reveal_strlit("8");
        reveal_strlit("9");
    }
    let text = if d == 0 {
        "0"
    } else if d == 1 {
        "1"
    } else if d == 2 {
        "2"
    } else if d == 3 {
        "3"
    } else if d == 4 {
        "4"
    } else if d == 5 {
        "5"
    } else if d == 6 {
        "6"
    } else if d == 7 {
        "7"
    } else if d == 8 {
        "8"
    } else {
        "9"
    };
    assert(text@ =~= seq![digit_char(d as nat)]);
    text
}

/// `n` in decimal notation.
pub fn decimal(n: usize) -> (text: String)
    ensures
        text@ == decimal_chars(n as nat),
    decreases n,
{
    if n < 10 {
        digit(n).to_owned()
    } else {
        let mut text = decimal(n / 10);
        text.append(digit(n % 10));
        assert(text@ =~= decimal_chars(n as nat));
        text
    }
}

/// The name of the file with serial number `index`: the number in decimal,
/// zero-padded to nine digits, and the extension.
pub fn file_name(index: usize) -> (name: String)
    ensures
        name@ == file_name_chars(index as nat),
{
    let digits = decimal(index);
    let len = digits.as_str().unicode_len();
    let mut name = String::new();
    let mut written: usize = len;
    assert(name@ =~= zeros(0));
    while written < 9
        invariant
            len <= written,
            written <= 9 || written == len,
            name@ == zeros(written - len),
        decreases 9 - written,
    {
        name.append("0");
        proof {
            reveal_strlit("0");
            assert(name@ =~= zeros(written + 1 - len));
        }
        written += 1;
    }
    assert(name@ =~= zeros(9 - len));
    name.append(digits.as_str());
    name.append(".parquet");
    name
}

/// `head` followed by `tail`.
pub fn joined(head: &str, tail: &str) -> (text: String)
    ensures
        text@ == head@ + tail@,
{
    let mut text = head.to_owned();
    text.append(tail);
    text
}

/// The name of a child column under an optional prefix.
pub fn child_name(prefix: Option<&str>, label: &str) -> (name: String)
    ensures
        name@ == child_name_chars(opt_chars(prefix), label@),
{
    match prefix {
        Some(p) => {
            let mut name = p.to_owned();
            name.append("_");
            name.append(label);
            name
        },
        None => label.to_owned(),
    }
}

/// The name of the child column with ordinal `index` under an optional prefix.
pub fn indexed_name(prefix: Option<&str>, index: usize) -> (name: String)
    ensures
        name@ == child_name_chars(opt_chars(prefix), decimal_chars(index as nat)),
{
    let label = decimal(index);
    child_name(prefix, label.as_str())
}

} // verus!
