use vstd::prelude::*;

use crate::error::StackError;
use crate::operations::{op_named, str_equals_chars, chars_of, StackOperation};

verus! {

/// A value that can stand in code or live on the stack.
#[derive(Clone, Debug)]
pub enum StackValue {
    Bool(bool),
    Num(isize),
    Label(String),
    Operation(StackOperation),
    String(String),
    PossibleLabel(String),
}

/// The mathematical content of a `StackValue`: text is a sequence of characters.
pub enum ValueView {
    Bool(bool),
    Num(isize),
    Label(Seq<char>),
    Operation(StackOperation),
    String(Seq<char>),
    PossibleLabel(Seq<char>),
}

impl View for StackValue {
    type V = ValueView;

    open spec fn view(&self) -> ValueView {
        match self {
            StackValue::Bool(b) => ValueView::Bool(*b),
            StackValue::Num(n) => ValueView::Num(*n),
            StackValue::Label(s) => ValueView::Label(s@),
            StackValue::Operation(op) => ValueView::Operation(*op),
            StackValue::String(s) => ValueView::String(s@),
            StackValue::PossibleLabel(s) => ValueView::PossibleLabel(s@),
        }
    }
}

/// The views of a sequence of values.
pub open spec fn values_view(s: Seq<StackValue>) -> Seq<ValueView> {
    s.map_values(|v: StackValue| v@)
}

pub open spec fn is_digit(c: char) -> bool {
    '0' <= c && c <= '9'
}

pub open spec fn digit_value(c: char) -> int {
    c as int - '0' as int
}

pub open spec fn all_digits(s: Seq<char>) -> bool {
    forall|i: int| 0 <= i < s.len() ==> is_digit(#[trigger] s[i])
}

/// The number that a sequence of decimal digits denotes.
pub open spec fn digits_value(s: Seq<char>) -> int
    decreases s.len(),
{
    if s.len() == 0 {
        0
    } else {
        digits_value(s.drop_last()) * 10 + digit_value(s.last())
    }
}

/// The integer that `s` writes: an optional sign, then at least one decimal digit.
pub open spec fn int_literal(s: Seq<char>) -> Option<int> {
    if s.len() > 1 && s[0] == '-' && all_digits(s.drop_first()) {
        Some(-digits_value(s.drop_first()))
    } else if s.len() > 1 && s[0] == '+' && all_digits(s.drop_first()) {
        Some(digits_value(s.drop_first()))
    } else if s.len() > 0 && all_digits(s) {
        Some(digits_value(s))
    } else {
        None
    }
}

/// The machine integer that `s` writes, if it writes one within range.
pub open spec fn parse_int_spec(s: Seq<char>) -> Option<isize> {
    match int_literal(s) {
        Some(v) => if isize::MIN <= v && v <= isize::MAX {
            Some(v as isize)
        } else {
            None
        },
        None => None,
    }
}

pub open spec fn digit_char(d: int) -> char {
    if d <= 0 {
        '0'
    } else if d == 1 {
        '1'
    } else if d == 2 {
        '2'
    } else if d == 3 {
        '3'
    } else if d == 4 {
        '4'
    } else if d == 5 {
        '5'
    } else if d == 6 {
        '6'
    } else if d == 7 {
        '7'
    } else if d == 8 {
        '8'
    } else {
        '9'
    }
}

/// The decimal digits of `m`, without leading zeros.
pub open spec fn digits_of(m: nat) -> Seq<char>
    decreases m,
{
    if m < 10 {
        seq![digit_char(m as int)]
    } else {
        digits_of(m / 10).push(digit_char((m % 10) as int))
    }
}

/// The decimal form of `n`, with a leading `-` when it is negative.
pub open spec fn decimal(n: int) -> Seq<char> {
    if n < 0 {
        seq!['-'] + digits_of((-n) as nat)
    } else {
        digits_of(n as nat)
    }
}

/// The value that a single raw token denotes.
pub open spec fn parse_token_spec(t: Seq<char>) -> ValueView {
    if t == "true"@ {
        ValueView::Bool(true)
    } else if t == "false"@ {
        ValueView::Bool(false)
    } else if parse_int_spec(t) is Some {
        ValueView::Num(parse_int_spec(t)->Some_0)
    } else if op_named(t) is Some {
        ValueView::Operation(op_named(t)->Some_0)
    } else if t.len() > 1 && t[0] == '"' && t.last() == '"' {
        ValueView::String(t.subrange(1, t.len() - 1))
    } else if t.len() > 1 && t.last() == ':' {
        ValueView::Label(t.drop_last())
    } else {
        ValueView::PossibleLabel(t)
    }
}

/// The text form of a value, as `println` writes it.
pub open spec fn display(v: ValueView) -> Seq<char> {
    match v {
        ValueView::Bool(b) => if b {
            "true"@
        } else {
            "false"@
        },
        ValueView::Num(n) => decimal(n as int),
        ValueView::Label(s) => s + ":"@,
        ValueView::Operation(op) => "<op:"@ + op.name_spec() + ">"@,
        ValueView::String(s) => s,
        ValueView::PossibleLabel(s) => s,
    }
}

/// Relies on String::push: appends one character.
#[verifier::external_body]
fn push_char(s: &mut String, c: char)
    ensures
        final(s)@ == old(s)@.push(c),
{
    s.push(c)
}

/// The characters `t[lo..hi]` as a `String`.
pub fn string_from(t: &Vec<char>, lo: usize, hi: usize) -> (r: String)
    requires
        lo <= hi <= t@.len(),
    ensures
        r@ == t@.subrange(lo as int, hi as int),
{
    let mut r = String::new();
    let mut i = lo;
    while i < hi
        invariant
            lo <= i <= hi,
            hi <= t@.len(),
            r@ == t@.subrange(lo as int, i as int),
        decreases hi - i,
    {
        push_char(&mut r, t[i]);
        assert(t@.subrange(lo as int, i + 1) =~= t@.subrange(lo as int, i as int).push(t@[i as int]));
        i = i + 1;
    }
    r
}

proof fn lemma_digits_value_prefix(s: Seq<char>, k: int)
    requires
        all_digits(s),
        0 <= k <= s.len(),
    ensures
        0 <= digits_value(s.subrange(0, k)) <= digits_value(s),
    decreases s.len(),
{
    if s.len() == 0 {
        assert(s.subrange(0, k) =~= s);
    } else if k == s.len() {
        assert(s.subrange(0, k) =~= s);
        lemma_digits_value_prefix(s.drop_last(), s.len() - 1);
        assert(s.drop_last().subrange(0, s.len() - 1) =~= s.drop_last());
    } else {
        lemma_digits_value_prefix(s.drop_last(), k);
        lemma_digits_value_prefix(s.drop_last(), s.len() - 1);
        assert(s.drop_last().subrange(0, k) =~= s.subrange(0, k));
        assert(s.drop_last().subrange(0, s.len() - 1) =~= s.drop_last());
        assert(is_digit(s[s.len() - 1]));
    }
}

/// The machine integer that `t` writes, if any, as `isize`'s `from_str` reads it.
pub fn parse_int(t: &Vec<char>) -> (r: Option<isize>)
    ensures
        r == parse_int_spec(t@),
{
    let n = t.len();
    if n == 0 {
        return None;
    }
    let neg = t[0] == '-';
    let start: usize = if t[0] == '-' || t[0] == '+' {
        1
    } else {
        0
    };
    if start == n {
        return None;
    }
    let ghost digits = t@.subrange(start as int, n as int);
    assert(start == 1 ==> digits =~= t@.drop_first());
    assert(start == 0 ==> digits =~= t@);
    let mut acc: isize = 0;
    let mut i = start;
    while i < n
        invariant
            start <= i <= n,
            n == t@.len(),
            digits == t@.subrange(start as int, n as int),
            neg == (t@[0] == '-'),
            neg ==> start == 1,
            all_digits(t@.subrange(start as int, i as int)),
            neg ==> acc == -digits_value(t@.subrange(start as int, i as int)),
            !neg ==> acc == digits_value(t@.subrange(start as int, i as int)),
            int_literal(t@) is Some <==> all_digits(digits),
            int_literal(t@) is Some ==> int_literal(t@) == Some(
                if neg { -digits_value(digits) } else { digits_value(digits) },
            ),
        decreases n - i,
    {
        let c = t[i];
        let ghost prefix = t@.subrange(start as int, i as int);
        let ghost next = t@.subrange(start as int, i + 1);
        assert(next.drop_last() =~= prefix);
        if !('0' <= c && c <= '9') {
            assert(!all_digits(digits)) by {
                assert(digits[i - start] == c);
            }
            return None;
        }
        assert(all_digits(next)) by {
            assert forall|j: int| 0 <= j < next.len() implies is_digit(#[trigger] next[j]) by {
                if j < prefix.len() {
                    assert(next[j] == prefix[j]);
                }
            }
        }
        let d = ((c as u32) - ('0' as u32)) as isize;
        assert(d == digit_value(c));
        let stepped = if neg {
            match acc.checked_mul(10) {
                Some(m) => m.checked_sub(d),
                None => None,
            }
        } else {
            match acc.checked_mul(10) {
                Some(m) => m.checked_add(d),
                None => None,
            }
        };
        match stepped {
            Some(v) => {
                acc = v;
            },
            None => {
                proof {
                    if all_digits(digits) {
                        assert(digits.subrange(0, i + 1 - start) =~= next);
                        lemma_digits_value_prefix(digits, i + 1 - start);
                    }
                }
                return None;
            },
        }
        i = i + 1;
    }
    assert(t@.subrange(start as int, i as int) =~= digits);
    Some(acc)
}

/// Appends the decimal digits of `m` to `s`.
fn push_digits(s: &mut String, m: usize)
    ensures
        final(s)@ == old(s)@ + digits_of(m as nat),
    decreases m,
{
    if m >= 10 {
        push_digits(s, m / 10);
    }
    let d = m % 10;
    let c = if d == 0 {
        '0'
    } else if d == 1 {
        '1'
    } else if d == 2 {
        '2'
    } else if d == 3 {
        '3'
    } else if d == 4 {
        '4'
    } else if d == 5 {
        '5'
    } else if d == 6 {
        '6'
    } else if d == 7 {
        '7'
    } else if d == 8 {
        '8'
    } else {
        '9'
    };
    push_char(s, c);
    proof {
        if m >= 10 {
            assert(old(s)@ + digits_of(m as nat) =~= old(s)@ + digits_of((m / 10) as nat) + seq![c]);
        } else {
            assert(old(s)@ + digits_of(m as nat) =~= old(s)@ + seq![c]);
        }
    }
}

/// The decimal form of `n`.
pub fn render_int(n: isize) -> (r: String)
    ensures
        r@ == decimal(n as int),
{
    let mut s = String::new();
    if n < 0 {
        push_char(&mut s, '-');
        let m: usize = ((-(n + 1)) as usize) + 1;
        assert(m as int == -n);
        push_digits(&mut s, m);
        assert(s@ =~= seq!['-'] + digits_of((-n) as nat));
    } else {
        push_digits(&mut s, n as usize);
        assert(s@ =~= digits_of(n as nat));
    }
    s
}

impl StackValue {
    /// A copy of this value.
    pub fn duplicate(&self) -> (r: StackValue)
        ensures
            r@ == self@,
    {
        match self {
            StackValue::Bool(b) => StackValue::Bool(*b),
            StackValue::Num(n) => StackValue::Num(*n),
            StackValue::Label(s) => StackValue::Label(s.clone()),
            StackValue::Operation(op) => StackValue::Operation(*op),
            StackValue::String(s) => StackValue::String(s.clone()),
            StackValue::PossibleLabel(s) => StackValue::PossibleLabel(s.clone()),
        }
    }

    /// Whether two values are equal in kind and content.
    pub fn equals(&self, other: &StackValue) -> (r: bool)
        ensures
            r == (self@ == other@),
    {
        match (self, other) {
            (StackValue::Bool(a), StackValue::Bool(b)) => *a == *b,
            (StackValue::Num(a), StackValue::Num(b)) => *a == *b,
            (StackValue::Label(a), StackValue::Label(b)) => *a == *b,
            (StackValue::Operation(a), StackValue::Operation(b)) => *a == *b,
            (StackValue::String(a), StackValue::String(b)) => *a == *b,
            (StackValue::PossibleLabel(a), StackValue::PossibleLabel(b)) => *a == *b,
            _ => false,
        }
    }

    /// The value that the raw token `t` denotes.
    pub fn from_chars(t: &Vec<char>) -> (r: StackValue)
        ensures
            r@ == parse_token_spec(t@),
    {
        let n = t.len();
        if str_equals_chars("true", t) {
            return StackValue::Bool(true);
        }
        if str_equals_chars("false", t) {
            return StackValue::Bool(false);
        }
        match parse_int(t) {
            Some(v) => {
                return StackValue::Num(v);
            },
            None => {},
        }
        match StackOperation::lookup(t) {
            Some(op) => {
                return StackValue::Operation(op);
            },
            None => {},
        }
        if n > 1 && t[0] == '"' && t[n - 1] == '"' {
            return StackValue::String(string_from(t, 1, n - 1));
        }
        if n > 1 && t[n - 1] == ':' {
            let r = StackValue::Label(string_from(t, 0, n - 1));
            assert(t@.subrange(0, n - 1) =~= t@.drop_last());
            return r;
        }
        let r = StackValue::PossibleLabel(string_from(t, 0, n));
        assert(t@.subrange(0, n as int) =~= t@);
        r
    }

    /// The value that the token `s` denotes; every token denotes one.
    pub fn parse(s: &str) -> (r: StackValue)
        ensures
            r@ == parse_token_spec(s@),
    {
        let t = chars_of(s);
        StackValue::from_chars(&t)
    }

    /// The text form of this value, as `println` writes it.
    pub fn render(&self) -> (r: String)
        ensures
            r@ == display(self@),
    {
        match self {
            StackValue::Bool(b) => if *b {
                String::from_str("true")
            } else {
                String::from_str("false")
            },
            StackValue::Num(n) => render_int(*n),
            StackValue::Label(s) => s.clone().concat(":"),
            StackValue::Operation(op) => String::from_str("<op:").concat(op.name()).concat(">"),
            StackValue::String(s) => s.clone(),
            StackValue::PossibleLabel(s) => s.clone(),
        }
    }
}

impl PartialEq for StackValue {
    fn eq(&self, other: &StackValue) -> (r: bool) {
        self.equals(other)
    }
}

impl vstd::std_specs::cmp::PartialEqSpecImpl for StackValue {
    open spec fn obeys_eq_spec() -> bool {
        true
    }

    open spec fn eq_spec(&self, other: &StackValue) -> bool {
        self@ == other@
    }
}

impl std::str::FromStr for StackValue {
    type Err = StackError;

    fn from_str(s: &str) -> Result<StackValue, StackError> {
        Ok(StackValue::parse(s))
    }
}

} // verus!
