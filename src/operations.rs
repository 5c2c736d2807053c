use vstd::prelude::*;

use crate::error::StackError;
use vstd::std_specs::iter::IteratorSpec;

verus! {

/// Number of operations in the catalog.
pub const OPERATION_COUNT: usize = 29;

/// The operations a program can name, in catalog order.
#[derive(Clone, Copy, Debug, PartialEq, Eq, Structural)]
pub enum StackOperation {
    Plus,
    Minus,
    Multiply,
    Divide,
    ToInt,
    ToStr,
    Println,
    Equals,
    Or,
    And,
    Not,
    LessThan,
    LessThanOrEqualTo,
    GreaterHan,
    GreaterHanOrEqualto,
    Mod,
    If,
    Jump,
    Duplicate,
    Drop,
    Rotate,
    Swap,
    SleepMS,
    Exit,
    Stop,
    Read,
    Over,
    Call,
    Return,
}

/// The operation at position `i` of the catalog.
pub open spec fn op_at(i: int) -> StackOperation {
    if i <= 0 {
        StackOperation::Plus
    } else if i == 1 {
        StackOperation::Minus
    } else if i == 2 {
        StackOperation::Multiply
    } else if i == 3 {
        StackOperation::Divide
    } else if i == 4 {
        StackOperation::ToInt
    } else if i == 5 {
        StackOperation::ToStr
    } else if i == 6 {
        StackOperation::Println
    } else if i == 7 {
        StackOperation::Equals
    } else if i == 8 {
        StackOperation::Or
    } else if i == 9 {
        StackOperation::And
    } else if i == 10 {
        StackOperation::Not
    } else if i == 11 {
        StackOperation::LessThan
    } else if i == 12 {
        StackOperation::LessThanOrEqualTo
    } else if i == 13 {
        StackOperation::GreaterHan
    } else if i == 14 {
        StackOperation::GreaterHanOrEqualto
    } else if i == 15 {
        StackOperation::Mod
    } else if i == 16 {
        StackOperation::If
    } else if i == 17 {
        StackOperation::Jump
    } else if i == 18 {
        StackOperation::Duplicate
    } else if i == 19 {
        StackOperation::Drop
    } else if i == 20 {
        StackOperation::Rotate
    } else if i == 21 {
        StackOperation::Swap
    } else if i == 22 {
        StackOperation::SleepMS
    } else if i == 23 {
        StackOperation::Exit
    } else if i == 24 {
        StackOperation::Stop
    } else if i == 25 {
        StackOperation::Read
    } else if i == 26 {
        StackOperation::Over
    } else if i == 27 {
        StackOperation::Call
    } else {
        StackOperation::Return
    }
}

/// The first operation, from catalog position `i` on, whose mnemonic is `t`.
pub open spec fn find_op(t: Seq<char>, i: int) -> Option<StackOperation>
    decreases OPERATION_COUNT - i,
{
    if i < 0 || i >= OPERATION_COUNT {
        None
    } else if op_at(i).mnemonic_spec() == t {
        Some(op_at(i))
    } else {
        find_op(t, i + 1)
    }
}

/// The operation that a token names, if any.
pub open spec fn op_named(t: Seq<char>) -> Option<StackOperation> {
    find_op(t, 0)
}

impl StackOperation {
    /// The text by which a program names this operation.
    pub open spec fn mnemonic_spec(self) -> Seq<char> {
        match self {
            StackOperation::Plus => "+"@,
            StackOperation::Minus => "-"@,
            StackOperation::Multiply => "*"@,
            StackOperation::Divide => "/"@,
            StackOperation::ToInt => "cast_int"@,
            StackOperation::ToStr => "cast_str"@,
            StackOperation::Println => "println"@,
            StackOperation::Equals => "=="@,
            StackOperation::Or => "or"@,
            StackOperation::And => "and"@,
            StackOperation::Not => "not"@,
            StackOperation::LessThan => "<"@,
            StackOperation::LessThanOrEqualTo => "<="@,
            StackOperation::GreaterHan => ">"@,
            StackOperation::GreaterHanOrEqualto => ">="@,
            StackOperation::Mod => "%"@,
            StackOperation::If => "if"@,
            StackOperation::Jump => "jmp"@,
            StackOperation::Duplicate => "dup"@,
            StackOperation::Drop => "drop"@,
            StackOperation::Rotate => "rot"@,
            StackOperation::Swap => "swap"@,
            StackOperation::SleepMS => "sleep_ms"@,
            StackOperation::Exit => "exit"@,
            StackOperation::Stop => "stop"@,
            StackOperation::Read => "read"@,
            StackOperation::Over => "over"@,
            StackOperation::Call => "call"@,
            StackOperation::Return => "return"@,
        }
    }

    /// The text by which a program names this operation.
    pub fn mnemonic(self) -> (r: &'static str)
        ensures
            r@ == self.mnemonic_spec(),
    {
        match self {
            StackOperation::Plus => "+",
            StackOperation::Minus => "-",
            StackOperation::Multiply => "*",
            StackOperation::Divide => "/",
            StackOperation::ToInt => "cast_int",
            StackOperation::ToStr => "cast_str",
            StackOperation::Println => "println",
            StackOperation::Equals => "==",
            StackOperation::Or => "or",
            StackOperation::And => "and",
            StackOperation::Not => "not",
            StackOperation::LessThan => "<",
            StackOperation::LessThanOrEqualTo => "<=",
            StackOperation::GreaterHan => ">",
            StackOperation::GreaterHanOrEqualto => ">=",
            StackOperation::Mod => "%",
            StackOperation::If => "if",
            StackOperation::Jump => "jmp",
            StackOperation::Duplicate => "dup",
            StackOperation::Drop => "drop",
            StackOperation::Rotate => "rot",
            StackOperation::Swap => "swap",
            StackOperation::SleepMS => "sleep_ms",
            StackOperation::Exit => "exit",
            StackOperation::Stop => "stop",
            StackOperation::Read => "read",
            StackOperation::Over => "over",
            StackOperation::Call => "call",
            StackOperation::Return => "return",
        }
    }

    /// The name of this operation, as its debug form shows it.
    pub open spec fn name_spec(self) -> Seq<char> {
        match self {
            StackOperation::Plus => "Plus"@,
            StackOperation::Minus => "Minus"@,
            StackOperation::Multiply => "Multiply"@,
            StackOperation::Divide => "Divide"@,
            StackOperation::ToInt => "ToInt"@,
            StackOperation::ToStr => "ToStr"@,
            StackOperation::Println => "Println"@,
            StackOperation::Equals => "Equals"@,
            StackOperation::Or => "Or"@,
            StackOperation::And => "And"@,
            StackOperation::Not => "Not"@,
            StackOperation::LessThan => "LessThan"@,
            StackOperation::LessThanOrEqualTo => "LessThanOrEqualTo"@,
            StackOperation::GreaterHan => "GreaterHan"@,
            StackOperation::GreaterHanOrEqualto => "GreaterHanOrEqualto"@,
            StackOperation::Mod => "Mod"@,
            StackOperation::If => "If"@,
            StackOperation::Jump => "Jump"@,
            StackOperation::Duplicate => "Duplicate"@,
            StackOperation::Drop => "Drop"@,
            StackOperation::Rotate => "Rotate"@,
            StackOperation::Swap => "Swap"@,
            StackOperation::SleepMS => "SleepMS"@,
            StackOperation::Exit => "Exit"@,
            StackOperation::Stop => "Stop"@,
            StackOperation::Read => "Read"@,
            StackOperation::Over => "Over"@,
            StackOperation::Call => "Call"@,
            StackOperation::Return => "Return"@,
        }
    }

    /// The name of this operation, as its debug form shows it.
    pub fn name(self) -> (r: &'static str)
        ensures
            r@ == self.name_spec(),
    {
        match self {
            StackOperation::Plus => "Plus",
            StackOperation::Minus => "Minus",
            StackOperation::Multiply => "Multiply",
            StackOperation::Divide => "Divide",
            StackOperation::ToInt => "ToInt",
            StackOperation::ToStr => "ToStr",
            StackOperation::Println => "Println",
            StackOperation::Equals => "Equals",
            StackOperation::Or => "Or",
            StackOperation::And => "And",
            StackOperation::Not => "Not",
            StackOperation::LessThan => "LessThan",
            StackOperation::LessThanOrEqualTo => "LessThanOrEqualTo",
            StackOperation::GreaterHan => "GreaterHan",
            StackOperation::GreaterHanOrEqualto => "GreaterHanOrEqualto",
            StackOperation::Mod => "Mod",
            StackOperation::If => "If",
            StackOperation::Jump => "Jump",
            StackOperation::Duplicate => "Duplicate",
            StackOperation::Drop => "Drop",
            StackOperation::Rotate => "Rotate",
            StackOperation::Swap => "Swap",
            StackOperation::SleepMS => "SleepMS",
            StackOperation::Exit => "Exit",
            StackOperation::Stop => "Stop",
            StackOperation::Read => "Read",
            StackOperation::Over => "Over",
            StackOperation::Call => "Call",
            StackOperation::Return => "Return",
        }
    }

    /// The operation at position `i` of the catalog.
    pub fn at(i: usize) -> (r: StackOperation)
        requires
            i < OPERATION_COUNT,
        ensures
            r == op_at(i as int),
    {
        if i == 0 {
            StackOperation::Plus
        } else if i == 1 {
            StackOperation::Minus
        } else if i == 2 {
            StackOperation::Multiply
        } else if i == 3 {
            StackOperation::Divide
        } else if i == 4 {
            StackOperation::ToInt
        } else if i == 5 {
            StackOperation::ToStr
        } else if i == 6 {
            StackOperation::Println
        } else if i == 7 {
            StackOperation::Equals
        } else if i == 8 {
            StackOperation::Or
        } else if i == 9 {
            StackOperation::And
        } else if i == 10 {
            StackOperation::Not
        } else if i == 11 {
            StackOperation::LessThan
        } else if i == 12 {
            StackOperation::LessThanOrEqualTo
        } else if i == 13 {
            StackOperation::GreaterHan
        } else if i == 14 {
            StackOperation::GreaterHanOrEqualto
        } else if i == 15 {
            StackOperation::Mod
        } else if i == 16 {
            StackOperation::If
        } else if i == 17 {
            StackOperation::Jump
        } else if i == 18 {
            StackOperation::Duplicate
        } else if i == 19 {
            StackOperation::Drop
        } else if i == 20 {
            StackOperation::Rotate
        } else if i == 21 {
            StackOperation::Swap
        } else if i == 22 {
            StackOperation::SleepMS
        } else if i == 23 {
            StackOperation::Exit
        } else if i == 24 {
            StackOperation::Stop
        } else if i == 25 {
            StackOperation::Read
        } else if i == 26 {
            StackOperation::Over
        } else if i == 27 {
            StackOperation::Call
        } else {
            StackOperation::Return
        }
    }

    /// The operation named by the characters `t`, if any.
    pub fn lookup(t: &Vec<char>) -> (r: Option<StackOperation>)
        ensures
            r == op_named(t@),
    {
        let mut i: usize = 0;
        while i < OPERATION_COUNT
            invariant
                i <= OPERATION_COUNT,
                op_named(t@) == find_op(t@, i as int),
            decreases OPERATION_COUNT - i,
        {
            let op = StackOperation::at(i);
            if str_equals_chars(op.mnemonic(), t) {
                return Some(op);
            }
            i = i + 1;
        }
        None
    }

    /// The operation named by `s`; `InvalidOperation` when `s` names none.
    pub fn parse(s: &str) -> (r: Result<StackOperation, StackError>)
        ensures
            match op_named(s@) {
                Some(op) => r == Ok::<StackOperation, StackError>(op),
                None => r is Err && r->Err_0@ == (crate::error::ErrorView::InvalidOperation {
                    name: s@,
                }),
            },
    {
        let t = chars_of(s);
        match StackOperation::lookup(&t) {
            Some(op) => Ok(op),
            None => Err(StackError::InvalidOperation { name: String::from_str(s) }),
        }
    }
}

impl std::str::FromStr for StackOperation {
    type Err = StackError;

    fn from_str(s: &str) -> Result<StackOperation, StackError> {
        StackOperation::parse(s)
    }
}

/// Whether the characters of `s` are exactly `t`.
pub fn str_equals_chars(s: &str, t: &Vec<char>) -> (r: bool)
    ensures
        r == (s@ == t@),
{
    let n = s.unicode_len();
    if n != t.len() {
        return false;
    }
    let mut i: usize = 0;
    while i < n
        invariant
            n == s@.len(),
            n == t@.len(),
            i <= n,
            forall|k: int| 0 <= k < i ==> s@[k] == t@[k],
        decreases n - i,
    {
        if s.get_char(i) != t[i] {
            return false;
        }
        i = i + 1;
    }
    assert(s@ =~= t@);
    true
}

/// The characters of `s`, in order.
pub fn chars_of(s: &str) -> (r: Vec<char>)
    ensures
        r@ == s@,
{
    let mut it = s.chars();
    let mut r: Vec<char> = Vec::new();
    loop
        invariant
            it.obeys_prophetic_iter_laws(),
            r@.len() <= s@.len(),
            r@ == s@.subrange(0, r@.len() as int),
            it.remaining() == s@.subrange(r@.len() as int, s@.len() as int),
        decreases s@.len() - r@.len(),
    {
        let ghost before = it.remaining();
        match it.next() {
            Some(c) => {
                assert(before.len() > 0);
                assert(c == s@[r@.len() as int]);
                r.push(c);
                assert(r@ =~= s@.subrange(0, r@.len() as int));
                assert(it.remaining() =~= s@.subrange(r@.len() as int, s@.len() as int));
            },
            None => {
                assert(before.len() == 0);
                assert(r@ =~= s@);
                return r;
            },
        }
    }
}

} // verus!
