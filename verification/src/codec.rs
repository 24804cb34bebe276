//! Primitives for the textual formats the supervisor reads and writes: a
//! small JSON-shaped grammar covering the persisted key/value store and the
//! preset inbound fragment used for port discovery.
//!
//! Every parsing function is specified against a mathematical parse function
//! over the character sequence, so callers' contracts can say exactly which
//! inputs are accepted and what value they denote.

use vstd::prelude::*;
use vstd::string::*;

verus! {

/// Relies on String::push: appends the given character to the end of the
/// string, as its standard-library documentation states.
pub assume_specification[ String::push ](s: &mut String, c: char)
    ensures
        final(s)@ == old(s)@.push(c),
;

/// Insignificant whitespace between tokens.
pub open spec fn is_ws(c: char) -> bool {
    c == ' ' || c == '\n' || c == '\t' || c == '\r'
}

pub open spec fn is_digit(c: char) -> bool {
    48 <= c as u32 && c as u32 <= 57
}

pub open spec fn digit_val(c: char) -> nat {
    (c as u32 - 48) as nat
}

/// Position of the first non-whitespace character at or after `i`.
pub open spec fn spec_skip_ws(s: Seq<char>, i: nat) -> nat
    decreases s.len() - i,
{
    if i < s.len() && is_ws(s[i as int]) {
        spec_skip_ws(s, i + 1)
    } else {
        i
    }
}

pub proof fn lemma_skip_ws_bounds(s: Seq<char>, i: nat)
    requires
        i <= s.len(),
    ensures
        i <= spec_skip_ws(s, i) <= s.len(),
    decreases s.len() - i,
{
    if i < s.len() && is_ws(s[i as int]) {
        lemma_skip_ws_bounds(s, i + 1);
    }
}

/// The literal `lit` occurs in `s` starting at `i`.
pub open spec fn spec_match_at(s: Seq<char>, i: nat, lit: Seq<char>) -> bool {
    i + lit.len() <= s.len() && s.subrange(i as int, i + lit.len() as int) == lit
}

/// One escape sequence of the string grammar: the character named by `c` in
/// `\c`, or nothing if `\c` is not a recognized escape.
pub open spec fn spec_unescape(c: char) -> Option<char> {
    if c == '"' {
        Some('"')
    } else if c == '\\' {
        Some('\\')
    } else if c == '/' {
        Some('/')
    } else if c == 'n' {
        Some('\n')
    } else if c == 't' {
        Some('\t')
    } else if c == 'r' {
        Some('\r')
    } else if c == 'b' {
        Some('\u{8}')
    } else if c == 'f' {
        Some('\u{c}')
    } else {
        None
    }
}

/// Remainder of a quoted string after its opening quote: `acc` holds the
/// characters already decoded. Yields the decoded content and the position
/// just past the closing quote.
pub open spec fn spec_str_body(s: Seq<char>, i: nat, acc: Seq<char>) -> Option<(Seq<char>, nat)>
    decreases s.len() - i,
{
    if i >= s.len() {
        None
    } else if s[i as int] == '"' {
        Some((acc, i + 1))
    } else if s[i as int] == '\\' {
        if i + 1 >= s.len() {
            None
        } else {
            match spec_unescape(s[i + 1 as int]) {
                Some(c) => spec_str_body(s, i + 2, acc.push(c)),
                None => None,
            }
        }
    } else {
        spec_str_body(s, i + 1, acc.push(s[i as int]))
    }
}

/// A quoted string at `i`: its decoded content and the position after it.
pub open spec fn spec_parse_string(s: Seq<char>, i: nat) -> Option<(Seq<char>, nat)> {
    if i < s.len() && s[i as int] == '"' {
        spec_str_body(s, i + 1, Seq::empty())
    } else {
        None
    }
}

pub proof fn lemma_str_body_advances(s: Seq<char>, i: nat, acc: Seq<char>)
    requires
        i <= s.len(),
        spec_str_body(s, i, acc) is Some,
    ensures
        i < spec_str_body(s, i, acc)->Some_0.1 <= s.len(),
    decreases s.len() - i,
{
    if i >= s.len() {
    } else if s[i as int] == '"' {
    } else if s[i as int] == '\\' {
        match spec_unescape(s[i + 1 as int]) {
            Some(c) => lemma_str_body_advances(s, i + 2, acc.push(c)),
            None => {},
        }
    } else {
        lemma_str_body_advances(s, i + 1, acc.push(s[i as int]));
    }
}

pub proof fn lemma_parse_string_advances(s: Seq<char>, i: nat)
    requires
        i <= s.len(),
        spec_parse_string(s, i) is Some,
    ensures
        i < spec_parse_string(s, i)->Some_0.1 <= s.len(),
{
    lemma_str_body_advances(s, i + 1, Seq::empty());
}

/// Position of the first non-digit character at or after `i`.
pub open spec fn spec_digits_end(s: Seq<char>, i: nat) -> nat
    decreases s.len() - i,
{
    if i < s.len() && is_digit(s[i as int]) {
        spec_digits_end(s, i + 1)
    } else {
        i
    }
}

pub proof fn lemma_digits_end_bounds(s: Seq<char>, i: nat)
    requires
        i <= s.len(),
    ensures
        i <= spec_digits_end(s, i) <= s.len(),
    decreases s.len() - i,
{
    if i < s.len() && is_digit(s[i as int]) {
        lemma_digits_end_bounds(s, i + 1);
    }
}

/// Value of the decimal digit run `s[i..j)`, accumulating onto `acc`.
pub open spec fn spec_digits_val(s: Seq<char>, i: nat, j: nat, acc: nat) -> nat
    decreases j - i,
{
    if i < j && i < s.len() {
        spec_digits_val(s, i + 1, j, acc * 10 + digit_val(s[i as int]))
    } else {
        acc
    }
}

/// An unsigned decimal number at `i` that fits a port: its value and the
/// position after its digits. Empty digit runs and values over 65535 are
/// rejected.
pub open spec fn spec_parse_u16(s: Seq<char>, i: nat) -> Option<(u16, nat)> {
    let e = spec_digits_end(s, i);
    if e == i {
        None
    } else if spec_digits_val(s, i, e, 0) > 65535 {
        None
    } else {
        Some((spec_digits_val(s, i, e, 0) as u16, e))
    }
}

/// A boolean literal at `i`.
pub open spec fn spec_parse_bool(s: Seq<char>, i: nat) -> Option<(bool, nat)> {
    if spec_match_at(s, i, "true"@) {
        Some((true, i + "true"@.len()))
    } else if spec_match_at(s, i, "false"@) {
        Some((false, i + "false"@.len()))
    } else {
        None
    }
}

/// Characters that may continue a number token (sign, fraction, exponent);
/// only used to step over numbers whose value is not consulted.
pub open spec fn is_num_char(c: char) -> bool {
    is_digit(c) || c == '-' || c == '+' || c == '.' || c == 'e' || c == 'E'
}

pub open spec fn spec_num_end(s: Seq<char>, i: nat) -> nat
    decreases s.len() - i,
{
    if i < s.len() && is_num_char(s[i as int]) {
        spec_num_end(s, i + 1)
    } else {
        i
    }
}

pub proof fn lemma_num_end_bounds(s: Seq<char>, i: nat)
    requires
        i <= s.len(),
    ensures
        i <= spec_num_end(s, i) <= s.len(),
    decreases s.len() - i,
{
    if i < s.len() && is_num_char(s[i as int]) {
        lemma_num_end_bounds(s, i + 1);
    }
}

/// Steps over one scalar value (string, number, boolean or null) whose
/// content the caller ignores. Yields the position after it.
pub open spec fn spec_skip_scalar(s: Seq<char>, i: nat) -> Option<nat> {
    if i >= s.len() {
        None
    } else if s[i as int] == '"' {
        match spec_parse_string(s, i) {
            Some((v, j)) => Some(j),
            None => None,
        }
    } else if spec_match_at(s, i, "true"@) {
        Some(i + "true"@.len())
    } else if spec_match_at(s, i, "false"@) {
        Some(i + "false"@.len())
    } else if spec_match_at(s, i, "null"@) {
        Some(i + "null"@.len())
    } else if is_num_char(s[i as int]) {
        Some(spec_num_end(s, i))
    } else {
        None
    }
}

pub proof fn lemma_skip_scalar_advances(s: Seq<char>, i: nat)
    requires
        i <= s.len(),
        spec_skip_scalar(s, i) is Some,
    ensures
        i < spec_skip_scalar(s, i)->Some_0 <= s.len(),
{
    reveal_strlit("true");
    reveal_strlit("false");
    reveal_strlit("null");
    if i >= s.len() {
    } else if s[i as int] == '"' {
        lemma_parse_string_advances(s, i);
    } else if spec_match_at(s, i, "true"@) {
    } else if spec_match_at(s, i, "false"@) {
    } else if spec_match_at(s, i, "null"@) {
    } else if is_num_char(s[i as int]) {
        lemma_num_end_bounds(s, i + 1);
        assert(spec_num_end(s, i) == spec_num_end(s, i + 1));
    }
}

pub proof fn lemma_parse_u16_advances(s: Seq<char>, i: nat)
    requires
        i <= s.len(),
        spec_parse_u16(s, i) is Some,
    ensures
        i < spec_parse_u16(s, i)->Some_0.1 <= s.len(),
{
    lemma_digits_end_bounds(s, i);
}

pub proof fn lemma_parse_bool_advances(s: Seq<char>, i: nat)
    requires
        i <= s.len(),
        spec_parse_bool(s, i) is Some,
    ensures
        i < spec_parse_bool(s, i)->Some_0.1 <= s.len(),
{
    reveal_strlit("true");
    reveal_strlit("false");
}

// ------------------------------------------------------------------
// Executable counterparts.
// ------------------------------------------------------------------

/// The character at `j` is insignificant whitespace.
fn ws_at(s: &str, j: usize) -> (r: bool)
    requires
        j < s@.len(),
    ensures
        r == is_ws(s@[j as int]),
{
    let c = s.get_char(j);
    c == ' ' || c == '\n' || c == '\t' || c == '\r'
}

/// The character at `j` is a decimal digit.
fn digit_at(s: &str, j: usize) -> (r: bool)
    requires
        j < s@.len(),
    ensures
        r == is_digit(s@[j as int]),
{
    let c = s.get_char(j);
    '0' <= c && c <= '9'
}

/// The character at `j` may continue a number token.
fn num_char_at(s: &str, j: usize) -> (r: bool)
    requires
        j < s@.len(),
    ensures
        r == is_num_char(s@[j as int]),
{
    let c = s.get_char(j);
    c == '-' || c == '+' || c == '.' || c == 'e' || c == 'E' || ('0' <= c && c <= '9')
}

/// Steps over whitespace.
pub fn skip_ws(s: &str, n: usize, i: usize) -> (r: usize)
    requires
        n == s@.len(),
        i <= n,
    ensures
        r == spec_skip_ws(s@, i as nat),
        i <= r <= n,
{
    let mut j = i;
    while j < n && ws_at(s, j)
        invariant
            i <= j <= n,
            n == s@.len(),
            spec_skip_ws(s@, i as nat) == spec_skip_ws(s@, j as nat),
        decreases n - j,
    {
        j = j + 1;
    }
    j
}

/// Tests whether the literal `lit` occurs at position `i`.
pub fn match_at(s: &str, n: usize, i: usize, lit: &str) -> (r: bool)
    requires
        n == s@.len(),
        i <= n,
    ensures
        r == spec_match_at(s@, i as nat, lit@),
{
    let m = lit.unicode_len();
    if m > n - i {
        proof {
            assert(!spec_match_at(s@, i as nat, lit@));
        }
        return false;
    }
    let mut k: usize = 0;
    while k < m
        invariant
            0 <= k <= m,
            n == s@.len(),
            m == lit@.len(),
            i + m <= n,
            forall|t: int| 0 <= t < k ==> s@[i + t] == lit@[t],
        decreases m - k,
    {
        if s.get_char(i + k) != lit.get_char(k) {
            proof {
                assert(s@.subrange(i as int, i + lit@.len() as int)[k as int] != lit@[k as int]);
            }
            return false;
        }
        k = k + 1;
    }
    proof {
        assert(s@.subrange(i as int, i + lit@.len() as int) =~= lit@);
    }
    true
}

/// Parses a quoted string at `i`.
pub fn parse_string(s: &str, n: usize, i: usize) -> (r: Option<(String, usize)>)
    requires
        n == s@.len(),
        i <= n,
    ensures
        match r {
            Some((v, j)) => spec_parse_string(s@, i as nat) == Some((v@, j as nat)) && i < j <= n,
            None => spec_parse_string(s@, i as nat) is None,
        },
{
    if i >= n || s.get_char(i) != '"' {
        return None;
    }
    let mut acc = String::new();
    let mut j = i + 1;
    loop
        invariant
            i + 1 <= j <= n,
            n == s@.len(),
            spec_parse_string(s@, i as nat) == spec_str_body(s@, j as nat, acc@),
        decreases n - j,
    {
        if j >= n {
            return None;
        }
        let c = s.get_char(j);
        if c == '"' {
            proof {
                lemma_str_body_advances(s@, j as nat, acc@);
            }
            return Some((acc, j + 1));
        } else if c == '\\' {
            if j + 1 >= n {
                return None;
            }
            let e = s.get_char(j + 1);
            let dec: Option<char> = if e == '"' {
                Some('"')
            } else if e == '\\' {
                Some('\\')
            } else if e == '/' {
                Some('/')
            } else if e == 'n' {
                Some('\n')
            } else if e == 't' {
                Some('\t')
            } else if e == 'r' {
                Some('\r')
            } else if e == 'b' {
                Some('\u{8}')
            } else if e == 'f' {
                Some('\u{c}')
            } else {
                None
            };
            proof {
                assert(dec == spec_unescape(s@[j + 1]));
            }
            match dec {
                Some(d) => {
                    acc.push(d);
                    j = j + 2;
                },
                None => {
                    return None;
                },
            }
        } else {
            acc.push(c);
            j = j + 1;
        }
    }
}

/// Parses an unsigned decimal port number at `i`.
pub fn parse_u16(s: &str, n: usize, i: usize) -> (r: Option<(u16, usize)>)
    requires
        n == s@.len(),
        i <= n,
    ensures
        match r {
            Some((v, j)) => spec_parse_u16(s@, i as nat) == Some((v, j as nat)) && i < j <= n,
            None => spec_parse_u16(s@, i as nat) is None,
        },
{
    let mut j = i;
    let mut acc: u32 = 0;
    let mut oversize = false;
    while j < n && digit_at(s, j)
        invariant
            i <= j <= n,
            n == s@.len(),
            spec_digits_end(s@, i as nat) == spec_digits_end(s@, j as nat),
            !oversize ==> acc <= 65535 && spec_digits_val(s@, i as nat, spec_digits_end(
                s@,
                i as nat,
            ), 0) == spec_digits_val(s@, j as nat, spec_digits_end(s@, i as nat), acc as nat),
            oversize ==> spec_digits_val(s@, i as nat, spec_digits_end(s@, i as nat), 0) > 65535,
            forall|t: int| i <= t < j ==> is_digit(s@[t]),
        decreases n - j,
    {
        let c = s.get_char(j);
        proof {
            assert(is_digit(s@[j as int]));
            lemma_digits_end_bounds(s@, j as nat + 1);
        }
        let d: u32 = (c as u32) - 48;
        if !oversize {
            let next: u32 = acc * 10 + d;
            if next > 65535 {
                proof {
                    lemma_digits_val_oversize(
                        s@,
                        j as nat + 1,
                        spec_digits_end(s@, i as nat),
                        (acc * 10 + d) as nat,
                    );
                }
                oversize = true;
            } else {
                acc = next;
            }
        }
        j = j + 1;
    }
    if j == i {
        return None;
    }
    proof {
        assert(spec_digits_end(s@, j as nat) == j);
    }
    if oversize {
        return None;
    }
    Some((acc as u16, j))
}

/// A digit-run value only grows as more digits are taken in, so an oversize
/// accumulator can never shrink back into range.
proof fn lemma_digits_val_oversize(s: Seq<char>, i: nat, j: nat, acc: nat)
    requires
        acc > 65535,
    ensures
        spec_digits_val(s, i, j, acc) > 65535,
    decreases j - i,
{
    if i < j && i < s.len() {
        lemma_digits_val_oversize(s, i + 1, j, acc * 10 + digit_val(s[i as int]));
    }
}

/// Parses a boolean literal at `i`.
pub fn parse_bool(s: &str, n: usize, i: usize) -> (r: Option<(bool, usize)>)
    requires
        n == s@.len(),
        i <= n,
    ensures
        match r {
            Some((v, j)) => spec_parse_bool(s@, i as nat) == Some((v, j as nat)) && i < j <= n,
            None => spec_parse_bool(s@, i as nat) is None,
        },
{
    if match_at(s, n, i, "true") {
        proof {
            lemma_parse_bool_advances(s@, i as nat);
        }
        Some((true, i + "true".unicode_len()))
    } else if match_at(s, n, i, "false") {
        proof {
            lemma_parse_bool_advances(s@, i as nat);
        }
        Some((false, i + "false".unicode_len()))
    } else {
        None
    }
}

/// Steps over one scalar value whose content is ignored.
pub fn skip_scalar(s: &str, n: usize, i: usize) -> (r: Option<usize>)
    requires
        n == s@.len(),
        i <= n,
    ensures
        match r {
            Some(j) => spec_skip_scalar(s@, i as nat) == Some(j as nat) && i < j <= n,
            None => spec_skip_scalar(s@, i as nat) is None,
        },
{
    if i >= n {
        return None;
    }
    let c = s.get_char(i);
    if c == '"' {
        match parse_string(s, n, i) {
            Some((_, j)) => Some(j),
            None => None,
        }
    } else if match_at(s, n, i, "true") {
        proof {
            lemma_skip_scalar_advances(s@, i as nat);
        }
        Some(i + "true".unicode_len())
    } else if match_at(s, n, i, "false") {
        proof {
            lemma_skip_scalar_advances(s@, i as nat);
        }
        Some(i + "false".unicode_len())
    } else if match_at(s, n, i, "null") {
        proof {
            lemma_skip_scalar_advances(s@, i as nat);
        }
        Some(i + "null".unicode_len())
    } else if c == '-' || c == '+' || c == '.' || c == 'e' || c == 'E' || ('0' <= c && c <= '9') {
        proof {
            assert(is_num_char(s@[i as int]));
        }
        let mut j = i;
        while j < n && num_char_at(s, j)
            invariant
                i <= j <= n,
                n == s@.len(),
                spec_num_end(s@, i as nat) == spec_num_end(s@, j as nat),
                i < s@.len() && is_num_char(s@[i as int]),
            decreases n - j,
        {
            j = j + 1;
        }
        proof {
            lemma_skip_scalar_advances(s@, i as nat);
        }
        Some(j)
    } else {
        None
    }
}

/// Steps over one value of any shape — scalar, object or array — whose
/// content the caller ignores. `fuel` bounds the mutual recursion; every
/// recursive step first consumes at least one character of the text, so any
/// fuel of the text's length or more is beyond what a value inside that
/// text can use, and the bound rejects nothing.
pub open spec fn spec_skip_value(s: Seq<char>, i: nat, fuel: nat) -> Option<nat>
    decreases fuel,
{
    if fuel == 0 {
        None
    } else if i >= s.len() {
        None
    } else if s[i as int] == '{' {
        spec_skip_obj_members(s, i + 1, true, (fuel - 1) as nat)
    } else if s[i as int] == '[' {
        spec_skip_arr_elems(s, i + 1, true, (fuel - 1) as nat)
    } else {
        spec_skip_scalar(s, i)
    }
}

/// Members of a skipped object, starting just after `{` or after a member;
/// keys are read and discarded, values skipped whatever their shape.
pub open spec fn spec_skip_obj_members(s: Seq<char>, i: nat, first: bool, fuel: nat) -> Option<nat>
    decreases fuel,
{
    if fuel == 0 {
        None
    } else {
        let i1 = spec_skip_ws(s, i);
        if i1 >= s.len() {
            None
        } else if s[i1 as int] == '}' {
            Some(i1 + 1)
        } else if !first && s[i1 as int] != ',' {
            None
        } else {
            let i2 = if first {
                i1
            } else {
                spec_skip_ws(s, i1 + 1)
            };
            match spec_parse_string(s, i2) {
                None => None,
                Some((k, i3)) => {
                    let i4 = spec_skip_ws(s, i3);
                    if i4 >= s.len() || s[i4 as int] != ':' {
                        None
                    } else {
                        let i5 = spec_skip_ws(s, i4 + 1);
                        match spec_skip_value(s, i5, (fuel - 1) as nat) {
                            None => None,
                            Some(i6) => spec_skip_obj_members(s, i6, false, (fuel - 1) as nat),
                        }
                    }
                },
            }
        }
    }
}

/// Elements of a skipped array, starting just after `[` or after an element.
pub open spec fn spec_skip_arr_elems(s: Seq<char>, i: nat, first: bool, fuel: nat) -> Option<nat>
    decreases fuel,
{
    if fuel == 0 {
        None
    } else {
        let i1 = spec_skip_ws(s, i);
        if i1 >= s.len() {
            None
        } else if s[i1 as int] == ']' {
            Some(i1 + 1)
        } else if !first && s[i1 as int] != ',' {
            None
        } else {
            let i2 = if first {
                i1
            } else {
                spec_skip_ws(s, i1 + 1)
            };
            match spec_skip_value(s, i2, (fuel - 1) as nat) {
                None => None,
                Some(i3) => spec_skip_arr_elems(s, i3, false, (fuel - 1) as nat),
            }
        }
    }
}

pub proof fn lemma_skip_value_advances(s: Seq<char>, i: nat, fuel: nat)
    requires
        i <= s.len(),
        spec_skip_value(s, i, fuel) is Some,
    ensures
        i < spec_skip_value(s, i, fuel)->Some_0 <= s.len(),
    decreases fuel,
{
    if fuel == 0 || i >= s.len() {
    } else if s[i as int] == '{' {
        lemma_skip_obj_members_advances(s, i + 1, true, (fuel - 1) as nat);
    } else if s[i as int] == '[' {
        lemma_skip_arr_elems_advances(s, i + 1, true, (fuel - 1) as nat);
    } else {
        lemma_skip_scalar_advances(s, i);
    }
}

proof fn lemma_skip_obj_members_advances(s: Seq<char>, i: nat, first: bool, fuel: nat)
    requires
        i <= s.len(),
        spec_skip_obj_members(s, i, first, fuel) is Some,
    ensures
        i < spec_skip_obj_members(s, i, first, fuel)->Some_0 <= s.len(),
    decreases fuel,
{
    if fuel == 0 {
    } else {
        lemma_skip_ws_bounds(s, i);
        let i1 = spec_skip_ws(s, i);
        if i1 < s.len() && s[i1 as int] != '}' && (first || s[i1 as int] == ',') {
            lemma_skip_ws_bounds(s, i1 + 1);
            let i2 = if first {
                i1
            } else {
                spec_skip_ws(s, i1 + 1)
            };
            if spec_parse_string(s, i2) is Some {
                lemma_parse_string_advances(s, i2);
                let i3 = spec_parse_string(s, i2)->Some_0.1;
                lemma_skip_ws_bounds(s, i3);
                let i4 = spec_skip_ws(s, i3);
                if i4 < s.len() && s[i4 as int] == ':' {
                    lemma_skip_ws_bounds(s, i4 + 1);
                    let i5 = spec_skip_ws(s, i4 + 1);
                    if spec_skip_value(s, i5, (fuel - 1) as nat) is Some {
                        lemma_skip_value_advances(s, i5, (fuel - 1) as nat);
                        let i6 = spec_skip_value(s, i5, (fuel - 1) as nat)->Some_0;
                        if spec_skip_obj_members(s, i6, false, (fuel - 1) as nat) is Some {
                            lemma_skip_obj_members_advances(s, i6, false, (fuel - 1) as nat);
                        }
                    }
                }
            }
        }
    }
}

proof fn lemma_skip_arr_elems_advances(s: Seq<char>, i: nat, first: bool, fuel: nat)
    requires
        i <= s.len(),
        spec_skip_arr_elems(s, i, first, fuel) is Some,
    ensures
        i < spec_skip_arr_elems(s, i, first, fuel)->Some_0 <= s.len(),
    decreases fuel,
{
    if fuel == 0 {
    } else {
        lemma_skip_ws_bounds(s, i);
        let i1 = spec_skip_ws(s, i);
        if i1 < s.len() && s[i1 as int] != ']' && (first || s[i1 as int] == ',') {
            lemma_skip_ws_bounds(s, i1 + 1);
            let i2 = if first {
                i1
            } else {
                spec_skip_ws(s, i1 + 1)
            };
            if spec_skip_value(s, i2, (fuel - 1) as nat) is Some {
                lemma_skip_value_advances(s, i2, (fuel - 1) as nat);
                let i3 = spec_skip_value(s, i2, (fuel - 1) as nat)->Some_0;
                if spec_skip_arr_elems(s, i3, false, (fuel - 1) as nat) is Some {
                    lemma_skip_arr_elems_advances(s, i3, false, (fuel - 1) as nat);
                }
            }
        }
    }
}

/// Steps over one value of any shape.
pub fn skip_value(s: &str, n: usize, i: usize, fuel: u64) -> (r: Option<usize>)
    requires
        n == s@.len(),
        i <= n,
    ensures
        match r {
            Some(j) => spec_skip_value(s@, i as nat, fuel as nat) == Some(j as nat) && i < j <= n,
            None => spec_skip_value(s@, i as nat, fuel as nat) is None,
        },
    decreases fuel,
{
    if fuel == 0 {
        return None;
    }
    if i >= n {
        return None;
    }
    let c = s.get_char(i);
    if c == '{' {
        skip_obj_members(s, n, i + 1, true, fuel - 1)
    } else if c == '[' {
        skip_arr_elems(s, n, i + 1, true, fuel - 1)
    } else {
        skip_scalar(s, n, i)
    }
}

/// Steps over the members of a skipped object.
fn skip_obj_members(s: &str, n: usize, i: usize, first: bool, fuel: u64) -> (r: Option<usize>)
    requires
        n == s@.len(),
        i <= n,
    ensures
        match r {
            Some(j) => spec_skip_obj_members(s@, i as nat, first, fuel as nat) == Some(j as nat)
                && i < j <= n,
            None => spec_skip_obj_members(s@, i as nat, first, fuel as nat) is None,
        },
    decreases fuel,
{
    if fuel == 0 {
        return None;
    }
    let i1 = skip_ws(s, n, i);
    if i1 >= n {
        return None;
    }
    let c = s.get_char(i1);
    if c == '}' {
        return Some(i1 + 1);
    }
    if !first && c != ',' {
        return None;
    }
    let i2: usize = if first {
        i1
    } else {
        skip_ws(s, n, i1 + 1)
    };
    let kparse = parse_string(s, n, i2);
    if kparse.is_none() {
        return None;
    }
    let (_k, i3) = kparse.unwrap();
    let i4 = skip_ws(s, n, i3);
    if i4 >= n || s.get_char(i4) != ':' {
        return None;
    }
    let i5 = skip_ws(s, n, i4 + 1);
    match skip_value(s, n, i5, fuel - 1) {
        None => None,
        Some(i6) => skip_obj_members(s, n, i6, false, fuel - 1),
    }
}

/// Steps over the elements of a skipped array.
fn skip_arr_elems(s: &str, n: usize, i: usize, first: bool, fuel: u64) -> (r: Option<usize>)
    requires
        n == s@.len(),
        i <= n,
    ensures
        match r {
            Some(j) => spec_skip_arr_elems(s@, i as nat, first, fuel as nat) == Some(j as nat)
                && i < j <= n,
            None => spec_skip_arr_elems(s@, i as nat, first, fuel as nat) is None,
        },
    decreases fuel,
{
    if fuel == 0 {
        return None;
    }
    let i1 = skip_ws(s, n, i);
    if i1 >= n {
        return None;
    }
    let c = s.get_char(i1);
    if c == ']' {
        return Some(i1 + 1);
    }
    if !first && c != ',' {
        return None;
    }
    let i2: usize = if first {
        i1
    } else {
        skip_ws(s, n, i1 + 1)
    };
    match skip_value(s, n, i2, fuel - 1) {
        None => None,
        Some(i3) => skip_arr_elems(s, n, i3, false, fuel - 1),
    }
}

} // verus!
