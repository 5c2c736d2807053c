use vstd::prelude::*;

use crate::error::StackError;
use crate::operations::chars_of;
use crate::value::{parse_token_spec, values_view, StackValue, ValueView};

verus! {

/// A sequence of values: a program, before or after label resolution.
pub type Code = Vec<StackValue>;

/// Where the tokenizer stands after reading part of the input.
pub struct ScanState {
    /// The previous character was a backslash that escapes the next one.
    pub escape: bool,
    /// Inside a line comment.
    pub comment: bool,
    /// The token read so far.
    pub token: Seq<char>,
    /// The tokens completed so far.
    pub tokens: Seq<Seq<char>>,
}

pub open spec fn initial_scan() -> ScanState {
    ScanState { escape: false, comment: false, token: Seq::empty(), tokens: Seq::empty() }
}

pub open spec fn is_separator(c: char) -> bool {
    c == ' ' || c == '\n' || c == '\t' || c == '\r'
}

/// The token so far opens a string literal.
pub open spec fn in_string(token: Seq<char>) -> bool {
    token.len() > 0 && token[0] == '"'
}

/// Completes the token so far, if it holds any characters.
pub open spec fn flush(st: ScanState) -> ScanState {
    if st.token.len() == 0 {
        st
    } else {
        ScanState { token: Seq::empty(), tokens: st.tokens.push(st.token), ..st }
    }
}

/// The state after reading one more character `c`.
pub open spec fn scan_step(st: ScanState, c: char) -> ScanState {
    if st.comment {
        if c == '\n' {
            ScanState { comment: false, ..st }
        } else {
            st
        }
    } else if st.escape {
        ScanState { escape: false, token: st.token.push(c), ..st }
    } else if c == '"' {
        let pushed = ScanState { token: st.token.push(c), ..st };
        if pushed.token.len() > 1 {
            flush(pushed)
        } else {
            pushed
        }
    } else if c == '\\' {
        ScanState { escape: true, ..st }
    } else if c == '#' {
        if !in_string(st.token) {
            ScanState { comment: true, ..st }
        } else {
            ScanState { token: st.token.push(c), ..st }
        }
    } else if is_separator(c) {
        if in_string(st.token) {
            ScanState { token: st.token.push(c), ..st }
        } else {
            flush(st)
        }
    } else {
        ScanState { token: st.token.push(c), ..st }
    }
}

/// The state after reading `s`, starting from `st`.
pub open spec fn scan_from(st: ScanState, s: Seq<char>) -> ScanState
    decreases s.len(),
{
    if s.len() == 0 {
        st
    } else {
        scan_step(scan_from(st, s.drop_last()), s.last())
    }
}

/// The raw tokens of a program text.
pub open spec fn raw_tokens(s: Seq<char>) -> Seq<Seq<char>> {
    flush(scan_from(initial_scan(), s)).tokens
}

/// The values of a program text, one for each raw token.
pub open spec fn program_values(s: Seq<char>) -> Seq<ValueView> {
    raw_tokens(s).map_values(|t: Seq<char>| parse_token_spec(t))
}

/// Completes the token held in `token`, if any, as a value appended to `tokens`.
fn push_token(token: &mut Vec<char>, tokens: &mut Vec<StackValue>)
    ensures
        old(token)@.len() == 0 ==> final(tokens)@ == old(tokens)@,
        old(token)@.len() > 0 ==> values_view(final(tokens)@) == values_view(old(tokens)@).push(
            parse_token_spec(old(token)@),
        ),
        final(token)@.len() == 0,
{
    if token.len() > 0 {
        let v = StackValue::from_chars(token);
        tokens.push(v);
        token.clear();
        assert(values_view(tokens@) =~= values_view(old(tokens)@).push(parse_token_spec(old(token)@)));
    }
}

/// Splits a program text into values.
///
/// Tokens are separated by spaces, tabs and line breaks; `#` outside a string starts a
/// comment that runs to the end of the line; a token opened by `"` runs to the next
/// unescaped `"`, spaces and `#` included; a backslash makes the character right after it
/// part of the token as it stands, and nothing further.
/// Every token denotes some value, so tokenizing always succeeds.
pub fn tokenize(input: &str) -> (r: Result<Code, StackError>)
    ensures
        r is Ok,
        values_view(r->Ok_0@) == program_values(input@),
{
    let s = chars_of(input);
    let n = s.len();
    let mut escape = false;
    let mut comment = false;
    let mut token: Vec<char> = Vec::new();
    let mut tokens: Vec<StackValue> = Vec::new();
    let mut i: usize = 0;
    while i < n
        invariant
            n == s@.len(),
            i <= n,
            ({
                let st = scan_from(initial_scan(), s@.subrange(0, i as int));
                &&& st.escape == escape
                &&& st.comment == comment
                &&& st.token == token@
                &&& st.tokens.map_values(|t: Seq<char>| parse_token_spec(t)) == values_view(
                    tokens@,
                )
            }),
        decreases n - i,
    {
        let ghost before = scan_from(initial_scan(), s@.subrange(0, i as int));
        let ghost old_tokens = tokens@;
        let c = s[i];
        assert(s@.subrange(0, i + 1).drop_last() =~= s@.subrange(0, i as int));
        if comment {
            if c == '\n' {
                comment = false;
            }
        } else if escape {
            escape = false;
            token.push(c);
        } else if c == '"' {
            token.push(c);
            if token.len() > 1 {
                push_token(&mut token, &mut tokens);
            }
        } else if c == '\\' {
            escape = true;
        } else if c == '#' {
            if !(token.len() > 0 && token[0] == '"') {
                comment = true;
            } else {
                token.push(c);
            }
        } else if c == ' ' || c == '\n' || c == '\t' || c == '\r' {
            if token.len() > 0 && token[0] == '"' {
                token.push(c);
            } else {
                push_token(&mut token, &mut tokens);
            }
        } else {
            token.push(c);
        }
        proof {
            let after = scan_from(initial_scan(), s@.subrange(0, i + 1));
            assert(after == scan_step(before, c));
            if after.tokens.len() > before.tokens.len() {
                assert(after.tokens =~= before.tokens.push(before.token.push(c)) || after.tokens
                    =~= before.tokens.push(before.token));
            }
            assert(after.tokens.map_values(|t: Seq<char>| parse_token_spec(t)) =~= values_view(
                tokens@,
            ));
        }
        i = i + 1;
    }
    push_token(&mut token, &mut tokens);
    proof {
        let st = scan_from(initial_scan(), s@.subrange(0, n as int));
        assert(s@.subrange(0, n as int) =~= s@);
        assert(flush(st).tokens.map_values(|t: Seq<char>| parse_token_spec(t)) =~= values_view(
            tokens@,
        ));
    }
    Ok(tokens)
}

} // verus!
