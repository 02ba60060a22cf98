//! Text helpers with exact contracts: comparison, prefixes, decimal numbers,
//! and messages that quote floating-point settings.
use vstd::prelude::*;
use vstd::string::{StrSliceExecFns, StringExecFns};

use crate::double::Double;

verus! {

/// Does `text` begin with `prefix`?
pub open spec fn has_prefix(text: Seq<char>, prefix: Seq<char>) -> bool {
    prefix.len() <= text.len() && text.take(prefix.len() as int) == prefix
}

/// Do the two texts hold the same characters?
pub fn same_text(a: &str, b: &str) -> (r: bool)
    ensures
        r == (a@ == b@),
{
    a.to_owned() == b.to_owned()
}

/// What follows `prefix` in `text`, if `text` begins with it.
pub fn strip_prefix<'a>(text: &'a str, prefix: &str) -> (r: Option<&'a str>)
    ensures
        match r {
            Some(rest) => has_prefix(text@, prefix@) && rest@ == text@.skip(prefix@.len() as int),
            None => !has_prefix(text@, prefix@),
        },
{
    let total: usize = text.unicode_len();
    let n: usize = prefix.unicode_len();
    if n > total {
        return None;
    }
    let head = text.substring_char(0, n);
    proof {
        assert(head@ =~= text@.take(n as int));
    }
    if same_text(head, prefix) {
        let rest = text.substring_char(n, total);
        proof {
            assert(rest@ =~= text@.skip(n as int));
        }
        Some(rest)
    } else {
        None
    }
}

/// Is `c` white space, as Unicode has it?
pub open spec fn is_white(c: char) -> bool {
    let n = c as int;
    (9 <= n <= 13) || n == 0x20 || n == 0x85 || n == 0xA0 || n == 0x1680 || (0x2000 <= n <= 0x200A) || n == 0x2028 || n
        == 0x2029 || n == 0x202F || n == 0x205F || n == 0x3000
}

/// Is there nothing but white space in `text`?
pub open spec fn is_blank_text(text: Seq<char>) -> bool {
    forall|i: int| 0 <= i < text.len() ==> is_white(#[trigger] text[i])
}

/// Is there nothing but white space in `text`?
pub fn is_blank(text: &str) -> (r: bool)
    ensures
        r == is_blank_text(text@),
{
    let total: usize = text.unicode_len();
    let mut i: usize = 0;
    while i < total
        invariant
            total == text@.len(),
            i <= total,
            forall|j: int| 0 <= j < i ==> is_white(#[trigger] text@[j]),
        decreases total - i,
    {
        let n: u32 = text.get_char(i) as u32;
        let white = (9 <= n && n <= 13) || n == 0x20 || n == 0x85 || n == 0xA0 || n == 0x1680 || (0x2000 <= n && n
            <= 0x200A) || n == 0x2028 || n == 0x2029 || n == 0x202F || n == 0x205F || n == 0x3000;
        assert(white == is_white(text@[i as int]));
        if !white {
            return false;
        }
        i = i + 1;
    }
    true
}

/// Does `part` occur in `text`?
pub open spec fn occurs_in(text: Seq<char>, part: Seq<char>) -> bool {
    exists|k: int| occurs_at(text, part, k)
}

/// Does `part` occur in `text` from place `k` on?
pub open spec fn occurs_at(text: Seq<char>, part: Seq<char>, k: int) -> bool {
    0 <= k && k + part.len() <= text.len() && text.subrange(k, k + part.len()) == part
}

/// Does `part` occur in `text`?
pub fn contains(text: &str, part: &str) -> (r: bool)
    ensures
        r == occurs_in(text@, part@),
{
    let total: usize = text.unicode_len();
    let n: usize = part.unicode_len();
    if n > total {
        return false;
    }
    let mut k: usize = 0;
    while k <= total - n
        invariant
            total == text@.len(),
            n == part@.len(),
            n <= total,
            k <= total - n + 1,
            forall|j: int| 0 <= j < k ==> !occurs_at(text@, part@, j),
        decreases total - n + 1 - k,
    {
        if same_text(text.substring_char(k, k + n), part) {
            assert(occurs_at(text@, part@, k as int));
            return true;
        }
        if k == total - n {
            proof {
                assert forall|j: int| !occurs_at(text@, part@, j) by {
                    if j == k {
                    }
                }
            }
            return false;
        }
        k = k + 1;
    }
    false
}

/// `c` in lower case, if it is an ASCII letter.
pub open spec fn ascii_lower(c: char) -> char {
    if 'A' <= c && c <= 'Z' {
        (c as int + 32) as char
    } else {
        c
    }
}

/// Does a file with this extension hold JSON? The letters may be of any case.
pub fn is_json(extension: Option<&str>) -> (r: bool)
    ensures
        r == (extension matches Some(e) && e@.map_values(|c: char| ascii_lower(c)) == "json"@),
{
    proof {
        reveal_strlit("json");
    }
    match extension {
        Some(e) => {
            let ghost lowered = e@.map_values(|c: char| ascii_lower(c));
            if e.unicode_len() != 4 {
                assert(lowered.len() != "json"@.len());
                return false;
            }
            let c0 = e.get_char(0);
            let c1 = e.get_char(1);
            let c2 = e.get_char(2);
            let c3 = e.get_char(3);
            let r = (c0 == 'j' || c0 == 'J') && (c1 == 's' || c1 == 'S') && (c2 == 'o' || c2 == 'O') && (c3 == 'n'
                || c3 == 'N');
            proof {
                if r {
                    assert(lowered =~= "json"@);
                } else {
                    assert(lowered[0] != 'j' || lowered[1] != 's' || lowered[2] != 'o' || lowered[3] != 'n');
                }
            }
            r
        },
        None => false,
    }
}

/// The decimal digit `d`.
pub open spec fn digit_char(d: nat) -> char {
    (d + 48) as char
}

/// The decimal text of `n`, without leading zeros.
pub open spec fn decimal_text(n: nat) -> Seq<char>
    decreases n,
{
    if n < 10 {
        seq![digit_char(n)]
    } else {
        decimal_text(n / 10).push(digit_char(n % 10))
    }
}

fn digit_text(d: u64) -> (r: &'static str)
    requires
        d < 10,
    ensures
        r@ == seq![digit_char(d as nat)],
{
    proof {
        reveal_strlit("0");
        reveal_strlit("1");
        reveal_strlit("2");
        reveal_strlit("3");
        reveal_strlit("4");
        reveal_strlit("5");
        reveal_strlit("6");
        reveal_strlit("7");
        reveal_strlit("8");
        reveal_strlit("9");
    }
    match d {
        0 => "0",
        1 => "1",
        2 => "2",
        3 => "3",
        4 => "4",
        5 => "5",
        6 => "6",
        7 => "7",
        8 => "8",
        _ => "9",
    }
}

/// The decimal text of `n`.
pub fn decimal(n: u64) -> (r: String)
    ensures
        r@ == decimal_text(n as nat),
    decreases n,
{
    if n < 10 {
        digit_text(n).to_owned()
    } else {
        let mut text = decimal(n / 10);
        text.append(digit_text(n % 10));
        proof {
            assert(text@ =~= decimal_text(n as nat));
        }
        text
    }
}

/// The digit for `d` in lower-case hexadecimal.
pub open spec fn hex_char(d: nat) -> char {
    if d < 10 {
        (d + 48) as char
    } else {
        (d + 87) as char
    }
}

/// The hexadecimal text of `n`, filled up with zeros to `width` digits.
pub open spec fn hex_text(n: nat, width: nat) -> Seq<char>
    decreases n, width,
{
    if n == 0 && width == 0 {
        Seq::empty()
    } else {
        hex_text(
            n / 16,
            if width == 0 {
                0
            } else {
                (width - 1) as nat
            },
        ).push(hex_char(n % 16))
    }
}

fn hex_digit(d: u32) -> (r: &'static str)
    requires
        d < 16,
    ensures
        r@ == seq![hex_char(d as nat)],
{
    proof {
        reveal_strlit("a");
        reveal_strlit("b");
        reveal_strlit("c");
        reveal_strlit("d");
        reveal_strlit("e");
        reveal_strlit("f");
    }
    match d {
        10 => "a",
        11 => "b",
        12 => "c",
        13 => "d",
        14 => "e",
        15 => "f",
        _ => digit_text(d as u64),
    }
}

/// The hexadecimal text of `n`, filled up with zeros to `width` digits.
pub fn hexadecimal(n: u32, width: u8) -> (r: String)
    ensures
        r@ == hex_text(n as nat, width as nat),
    decreases n, width,
{
    if n == 0 && width == 0 {
        return String::new();
    }
    let narrower: u8 = if width == 0 {
        0
    } else {
        width - 1
    };
    let mut text = hexadecimal(n / 16, narrower);
    text.append(hex_digit(n % 16));
    proof {
        assert(text@ =~= hex_text(n as nat, width as nat));
    }
    text
}

/// The value of a decimal digit, if `c` is one.
pub open spec fn digit_value(c: char) -> Option<nat> {
    if '0' <= c && c <= '9' {
        Some((c as nat - 48) as nat)
    } else {
        None
    }
}

/// The number that a run of decimal digits spells; `None` for anything else.
pub open spec fn digits_value(s: Seq<char>) -> Option<nat>
    decreases s.len(),
{
    if s.len() == 0 {
        Some(0)
    } else {
        match (digits_value(s.drop_last()), digit_value(s.last())) {
            (Some(high), Some(low)) => Some(high * 10 + low),
            _ => None,
        }
    }
}

/// The number that `s` spells: an optional `+`, then one or more digits.
pub open spec fn unsigned_value(s: Seq<char>) -> Option<nat> {
    let digits = if s.len() > 0 && s[0] == '+' {
        s.skip(1)
    } else {
        s
    };
    if digits.len() == 0 {
        None
    } else {
        digits_value(digits)
    }
}

proof fn lemma_digits_prefix(s: Seq<char>, k: int)
    requires
        0 <= k <= s.len(),
    ensures
        digits_value(s) is Some ==> digits_value(s.take(k)) is Some && digits_value(s.take(k))->0 <= digits_value(s)->0,
    decreases s.len(),
{
    if k == s.len() {
        assert(s.take(k) =~= s);
    } else {
        lemma_digits_prefix(s.drop_last(), k);
        assert(s.drop_last().take(k) =~= s.take(k));
    }
}

/// The number that `text` spells, if it spells one that fits in a byte.
pub fn parse_u8(text: &str) -> (r: Option<u8>)
    ensures
        match r {
            Some(n) => unsigned_value(text@) == Some(n as nat),
            None => match unsigned_value(text@) {
                Some(n) => n > 255,
                None => true,
            },
        },
{
    let total: usize = text.unicode_len();
    let start: usize = if total > 0 && text.get_char(0) == '+' {
        1
    } else {
        0
    };
    let ghost digits = if start == 1 {
        text@.skip(1)
    } else {
        text@
    };
    if start == total {
        return None;
    }
    let mut value: u16 = 0;
    let mut i: usize = start;
    proof {
        assert(digits.take(0) =~= Seq::<char>::empty());
    }
    while i < total
        invariant
            start <= i <= total,
            start <= 1,
            total == text@.len(),
            digits == (if start == 1 {
                text@.skip(1)
            } else {
                text@
            }),
            unsigned_value(text@) == digits_value(digits),
            value <= 255,
            digits_value(digits.take(i - start)) == Some(value as nat),
        decreases total - i,
    {
        let c = text.get_char(i);
        proof {
            assert(digits.take(i + 1 - start).drop_last() =~= digits.take(i - start));
            assert(digits.take(i + 1 - start).last() == c);
            lemma_digits_prefix(digits, i + 1 - start);
        }
        if c < '0' || c > '9' {
            return None;
        }
        value = value * 10 + (c as u16 - 48);
        if value > 255 {
            return None;
        }
        i = i + 1;
    }
    proof {
        assert(digits.take(total - start) =~= digits);
    }
    Some(value as u8)
}

/// A decimal text spells the number that it was written from.
pub proof fn decimal_round_trip(n: nat)
    ensures
        unsigned_value(decimal_text(n)) == Some(n),
{
    lemma_decimal_digits(n);
}

proof fn lemma_decimal_digits(n: nat)
    ensures
        decimal_text(n).len() > 0,
        decimal_text(n)[0] != '+',
        digits_value(decimal_text(n)) == Some(n),
    decreases n,
{
    if n < 10 {
        let s = decimal_text(n);
        assert(s.drop_last() =~= Seq::<char>::empty());
        assert(digits_value(s.drop_last()) == Some(0nat));
        assert(digit_value(s.last()) == Some(n));
    } else {
        lemma_decimal_digits(n / 10);
        let s = decimal_text(n);
        assert(s.drop_last() =~= decimal_text(n / 10));
        assert(digit_value(s.last()) == Some(n % 10));
    }
}

/// One piece of a message: literal text, or a number that the message quotes.
#[derive(Clone, Debug)]
pub enum ReasonPart {
    Text(String),
    Number(Double),
}

/// A piece of a message by its characters.
pub enum ReasonPartView {
    Text(Seq<char>),
    Number(Double),
}

impl View for ReasonPart {
    type V = ReasonPartView;

    open spec fn view(&self) -> ReasonPartView {
        match self {
            ReasonPart::Text(text) => ReasonPartView::Text(text@),
            ReasonPart::Number(number) => ReasonPartView::Number(*number),
        }
    }
}

/// Why a setting was refused: the pieces of the message in order. Whoever
/// shows it writes each number out in place.
#[derive(Clone, Debug)]
pub struct Reason {
    pub parts: Vec<ReasonPart>,
}

impl View for Reason {
    type V = Seq<ReasonPartView>;

    open spec fn view(&self) -> Seq<ReasonPartView> {
        self.parts@.map_values(|part: ReasonPart| part@)
    }
}

impl Reason {
    /// A message that quotes no number.
    pub fn text(text: &str) -> (r: Reason)
        ensures
            r@ == seq![ReasonPartView::Text(text@)],
    {
        let r = Reason { parts: vec![ReasonPart::Text(text.to_owned())] };
        proof {
            assert(r@ =~= seq![ReasonPartView::Text(text@)]);
        }
        r
    }

    /// A message that ends in a quoted number.
    pub fn quoting(text: &str, number: Double) -> (r: Reason)
        ensures
            r@ == seq![ReasonPartView::Text(text@), ReasonPartView::Number(number)],
    {
        let r = Reason {
            parts: vec![ReasonPart::Text(text.to_owned()), ReasonPart::Number(number)],
        };
        proof {
            assert(r@ =~= seq![ReasonPartView::Text(text@), ReasonPartView::Number(number)]);
        }
        r
    }

    /// This message, followed by `more`.
    pub fn and(self, more: &Reason) -> (r: Reason)
        ensures
            r@ == self@ + more@,
    {
        let mut parts = self.parts;
        let mut i: usize = 0;
        while i < more.parts.len()
            invariant
                i <= more.parts@.len(),
                parts@.map_values(|part: ReasonPart| part@) =~= self@ + more@.take(i as int),
            decreases more.parts@.len() - i,
        {
            let part = match &more.parts[i] {
                ReasonPart::Text(text) => ReasonPart::Text(text.clone()),
                ReasonPart::Number(number) => ReasonPart::Number(*number),
            };
            let ghost before = parts@;
            parts.push(part);
            i = i + 1;
            proof {
                assert(parts@ =~= before.push(part));
                assert(more@.take(i as int) =~= more@.take(i - 1).push(part@));
                assert(parts@.map_values(|part: ReasonPart| part@) =~= before.map_values(
                    |part: ReasonPart| part@,
                ).push(part@));
            }
        }
        let r = Reason { parts };
        proof {
            assert(r@ =~= self@ + more@);
        }
        r
    }

    /// The message with literal text added to it.
    pub fn then_text(self, text: &str) -> (r: Reason)
        ensures
            r@ == self@.push(ReasonPartView::Text(text@)),
    {
        let mut parts = self.parts;
        parts.push(ReasonPart::Text(text.to_owned()));
        let r = Reason { parts };
        proof {
            assert(r@ =~= self@.push(ReasonPartView::Text(text@)));
        }
        r
    }

    /// The message with a quoted number added to it.
    pub fn then_number(self, number: Double) -> (r: Reason)
        ensures
            r@ == self@.push(ReasonPartView::Number(number)),
    {
        let mut parts = self.parts;
        parts.push(ReasonPart::Number(number));
        let r = Reason { parts };
        proof {
            assert(r@ =~= self@.push(ReasonPartView::Number(number)));
        }
        r
    }
}

/// A text begins with a prefix exactly where it is the prefix and something else,
/// and that something is what is left.
pub proof fn stripping_leaves_the_rest<'a>(text: &'a str, prefix: &str, r: Option<&'a str>, rest: Seq<char>)
    requires
        call_ensures(strip_prefix, (text, prefix), r),
    ensures
        text@ == prefix@ + rest ==> r is Some && r->0@ == rest,
        r is Some ==> text@ == prefix@ + r->0@,
{
    if text@ == prefix@ + rest {
        assert(text@.take(prefix@.len() as int) =~= prefix@);
        assert(text@.skip(prefix@.len() as int) =~= rest);
    }
    if r is Some {
        assert(text@ =~= text@.take(prefix@.len() as int) + text@.skip(prefix@.len() as int));
    }
}

/// A part is found exactly where the text is something, the part, and something
/// else.
pub proof fn parts_are_found_wherever_they_stand(text: &str, part: &str, r: bool, before: Seq<char>, after: Seq<char>)
    requires
        call_ensures(contains, (text, part), r),
    ensures
        text@ == before + part@ + after ==> r,
        r ==> exists|k: int|
            0 <= k <= text@.len() - part@.len() && text@ == #[trigger] text@.take(k) + part@ + text@.skip(k + part@.len()),
{
    if text@ == before + part@ + after {
        assert(text@.subrange(before.len() as int, (before.len() + part@.len()) as int) =~= part@);
        assert(occurs_at(text@, part@, before.len() as int));
    }
    if r {
        let k = choose|k: int| occurs_at(text@, part@, k);
        assert(text@ =~= text@.take(k) + text@.subrange(k, k + part@.len()) + text@.skip(k + part@.len()));
    }
}

/// Two texts are the same where they have the same characters at the same places.
pub proof fn same_texts_have_the_same_characters(a: &str, b: &str, r: bool)
    requires
        call_ensures(same_text, (a, b), r),
    ensures
        r <==> a@.len() == b@.len() && forall|i: int| 0 <= i < a@.len() ==> #[trigger] a@[i] == b@[i],
{
    if a@.len() == b@.len() && forall|i: int| 0 <= i < a@.len() ==> #[trigger] a@[i] == b@[i] {
        assert(a@ =~= b@);
    }
}

/// Texts are blank without a character, and together where both are. Spaces, tabs
/// and line ends are white, and so are the other spaces of Unicode; letters,
/// digits and marks are not.
pub proof fn blank_texts_are_all_white(text: &str, r: bool, i: int)
    requires
        call_ensures(is_blank, (text,), r),
    ensures
        text@.len() == 0 ==> r,
        0 <= i < text@.len() && r ==> {
            ||| text@[i] == ' '
            ||| '\t' <= text@[i] && text@[i] <= '\r'
            ||| text@[i] == '\u{85}'
            ||| text@[i] == '\u{a0}'
            ||| text@[i] == '\u{1680}'
            ||| '\u{2000}' <= text@[i] && text@[i] <= '\u{200a}'
            ||| text@[i] == '\u{2028}'
            ||| text@[i] == '\u{2029}'
            ||| text@[i] == '\u{202f}'
            ||| text@[i] == '\u{205f}'
            ||| text@[i] == '\u{3000}'
        },
        (forall|k: int| 0 <= k < text@.len() ==> #[trigger] text@[k] == ' ' || '\t' <= text@[k] && text@[k] <= '\r' || text@[k]
            == '\u{85}' || text@[k] == '\u{a0}' || text@[k] == '\u{1680}' || '\u{2000}' <= text@[k] && text@[k] <= '\u{200a}'
            || text@[k] == '\u{2028}' || text@[k] == '\u{2029}' || text@[k] == '\u{202f}' || text@[k] == '\u{205f}' || text@[k]
            == '\u{3000}') ==> r,
{
}

/// JSON is in files whose extension is spelled so, each letter large or small.
pub proof fn json_may_be_spelled_in_any_case(extension: Option<&str>, r: bool)
    requires
        call_ensures(is_json, (extension,), r),
    ensures
        extension is None ==> !r,
        extension matches Some(e) ==> (r <==> {
            &&& e@.len() == 4
            &&& e@[0] == 'j' || e@[0] == 'J'
            &&& e@[1] == 's' || e@[1] == 'S'
            &&& e@[2] == 'o' || e@[2] == 'O'
            &&& e@[3] == 'n' || e@[3] == 'N'
        }),
{
    reveal_strlit("json");
    if let Some(e) = extension {
        let lowered = e@.map_values(|c: char| ascii_lower(c));
        if e@.len() == 4 && lowered[0] == 'j' && lowered[1] == 's' && lowered[2] == 'o' && lowered[3] == 'n' {
            assert(lowered =~= "json"@);
        }
        assert(lowered.len() == e@.len());
        if r {
            assert(lowered[0] == 'j' && lowered[1] == 's' && lowered[2] == 'o' && lowered[3] == 'n');
        }
    }
}

/// Is `c` the `d`th of the characters 0 to 9 and a to f?
pub open spec fn is_digit_of(c: char, d: int) -> bool {
    ||| d == 0 && c == '0'
    ||| d == 1 && c == '1'
    ||| d == 2 && c == '2'
    ||| d == 3 && c == '3'
    ||| d == 4 && c == '4'
    ||| d == 5 && c == '5'
    ||| d == 6 && c == '6'
    ||| d == 7 && c == '7'
    ||| d == 8 && c == '8'
    ||| d == 9 && c == '9'
    ||| d == 10 && c == 'a'
    ||| d == 11 && c == 'b'
    ||| d == 12 && c == 'c'
    ||| d == 13 && c == 'd'
    ||| d == 14 && c == 'e'
    ||| d == 15 && c == 'f'
}

/// A decimal text has the text of a tenth of the number before its last digit; a
/// number below ten is one digit.
pub proof fn decimals_end_in_their_last_digit(n: u64, r: String, tenth: String)
    requires
        call_ensures(decimal, (n,), r),
        call_ensures(decimal, (n / 10,), tenth),
    ensures
        r@.len() > 0,
        is_digit_of(r@.last(), n as int % 10),
        n < 10 ==> r@.len() == 1,
        n >= 10 ==> r@.drop_last() == tenth@,
{
    if n >= 10 {
        assert(decimal_text(n as nat).drop_last() =~= decimal_text((n / 10) as nat));
    }
}

/// A hexadecimal text has the text of a sixteenth of the number before its last
/// digit, one narrower. It is as wide as asked, and wider only for its number.
pub proof fn hexadecimals_end_in_their_last_digit(n: u32, width: u8, narrower: u8, r: String, sixteenth: String)
    requires
        narrower == if width == 0 {
            0
        } else {
            width - 1
        },
        call_ensures(hexadecimal, (n, width), r),
        call_ensures(hexadecimal, (n / 16, narrower), sixteenth),
    ensures
        n == 0 && width == 0 ==> r@.len() == 0,
        n > 0 || width > 0 ==> r@.len() > 0 && is_digit_of(r@.last(), n as int % 16) && r@.drop_last() == sixteenth@,
        r@.len() >= width,
{
    lemma_hex_width(n as nat, width as nat);
    if n > 0 || width > 0 {
        assert(hex_text(n as nat, width as nat).drop_last() =~= hex_text((n / 16) as nat, narrower as nat));
    }
}

proof fn lemma_hex_width(n: nat, width: nat)
    ensures
        hex_text(n, width).len() >= width,
    decreases n, width,
{
    if n > 0 || width > 0 {
        lemma_hex_width(
            n / 16,
            if width == 0 {
                0
            } else {
                (width - 1) as nat
            },
        );
    }
}

/// Parsing reads what was written, and a digit more makes ten times as much and
/// the digit, as long as that fits in a byte. A sign in front may be a plus; any
/// other character, or none, is no number.
pub proof fn parsing_reads_digit_by_digit(
    n: u8,
    written: String,
    text: &str,
    read: Option<u8>,
    shorter: &str,
    before: Option<u8>,
    longer: &str,
    c: char,
    after: Option<u8>,
)
    requires
        call_ensures(decimal, (n as u64,), written),
        text@ == written@,
        call_ensures(parse_u8, (text,), read),
        call_ensures(parse_u8, (shorter,), before),
        longer@ == shorter@.push(c),
        call_ensures(parse_u8, (longer,), after),
    ensures
        read == Some(n),
        shorter@.len() == 0 ==> before is None,
        c != '0' && c != '1' && c != '2' && c != '3' && c != '4' && c != '5' && c != '6' && c != '7' && c != '8' && c != '9'
            ==> after is None,
        before matches Some(b) ==> forall|d: int| #[trigger]
            is_digit_of(c, d) && d < 10 ==> if 10 * b + d <= 255 {
                after == Some((10 * b + d) as u8)
            } else {
                after is None
            },
{
    decimal_round_trip(n as nat);
    let signed = shorter@.len() > 0 && shorter@[0] == '+';
    let digits = if signed {
        shorter@.skip(1)
    } else {
        shorter@
    };
    if shorter@.len() > 0 {
        assert(longer@[0] == shorter@[0]);
        let more = if signed {
            longer@.skip(1)
        } else {
            longer@
        };
        assert(more =~= digits.push(c));
        assert(more.drop_last() =~= digits);
        assert(more.last() == c);
    } else {
        assert(longer@.drop_last() =~= Seq::<char>::empty());
        assert(longer@.last() == c);
        if c == '+' {
            assert(longer@.skip(1).len() == 0);
        }
    }
}

/// A plus in front of a number changes nothing.
pub proof fn a_plus_changes_nothing(text: &str, plain: Option<u8>, signed: &str, r: Option<u8>)
    requires
        call_ensures(parse_u8, (text,), plain),
        text@.len() > 0,
        text@[0] != '+',
        signed@ == seq!['+'] + text@,
        call_ensures(parse_u8, (signed,), r),
    ensures
        r == plain,
{
    assert(signed@[0] == '+');
    assert(signed@.skip(1) =~= text@);
}

/// Messages keep their pieces in order: what was there, then what is added.
pub proof fn messages_keep_their_pieces(
    text: &str,
    number: Double,
    plain: Reason,
    quoting: Reason,
    first: Reason,
    more: Reason,
    both: Reason,
    with_text: Reason,
    with_number: Reason,
)
    requires
        call_ensures(Reason::text, (text,), plain),
        call_ensures(Reason::quoting, (text, number), quoting),
        call_ensures(Reason::and, (first, &more), both),
        call_ensures(Reason::then_text, (first, text), with_text),
        call_ensures(Reason::then_number, (first, number), with_number),
    ensures
        plain@ == seq![ReasonPartView::Text(text@)],
        quoting@ == plain@ + seq![ReasonPartView::Number(number)],
        both@ == first@ + more@,
        with_text@ == first@ + plain@,
        with_number@ == first@ + seq![ReasonPartView::Number(number)],
{
}

} // verus!
