//! The tokens of s-expressions, as far as it takes to find the numbers among them: where each
//! token ends, and whether the exponent of a number fits 32 bits with a sign.

use crate::text;
use vstd::prelude::*;
use vstd::slice::slice_subrange;
use vstd::string::*;

verus! {

// ---------------------------------------------------------------------------
// Characters

/// Whether a character separates tokens and stands for nothing.
pub open spec fn is_blank(c: char) -> bool {
    c == ' ' || c == '\n' || c == '\t' || c == '\r' || c == '\u{c}'
}

/// Whether a symbol ends before a character.
pub open spec fn ends_symbol(c: char) -> bool {
    c == ' ' || c == '\n' || c == '\t' || c == '\r' || c == '(' || c == ')' || c == '[' || c == ']'
        || c == ';'
}

/// Whether the name of a character ends before a character.
pub open spec fn ends_name(c: char) -> bool {
    is_blank(c) || c == '(' || c == ')' || c == '[' || c == ']' || c == '"' || c == ';' || c == '#'
}

/// Whether a lone sign or dot ends before a character.
pub open spec fn ends_lone(c: char) -> bool {
    is_blank(c) || c == '|' || c == '(' || c == ')' || c == '"' || c == '\u{0}'
}

/// Whether a character after a sign makes it the beginning of a symbol.
pub open spec fn follows_sign(c: char) -> bool {
    ('a' <= c <= 'z') || ('A' <= c <= 'Z') || c == '!' || c == '$' || c == '%' || c == '&' || c
        == '*' || c == '/' || c == ':' || c == '<' || c == '=' || c == '>' || c == '?' || c == '@'
        || c == '^' || c == '_' || c == '~' || c == '-' || c == '+'
}

/// The value of a digit, of which there are sixteen; sixteen for other characters.
pub open spec fn digit_of(c: char) -> nat {
    if '0' <= c <= '9' {
        (c as nat - 48) as nat
    } else if 'a' <= c <= 'f' {
        (c as nat - 87) as nat
    } else if 'A' <= c <= 'F' {
        (c as nat - 55) as nat
    } else {
        16
    }
}

fn blank(c: char) -> (r: bool)
    ensures
        r == is_blank(c),
{
    c == ' ' || c == '\n' || c == '\t' || c == '\r' || c == '\u{c}'
}

fn symbol_ends(c: char) -> (r: bool)
    ensures
        r == ends_symbol(c),
{
    c == ' ' || c == '\n' || c == '\t' || c == '\r' || c == '(' || c == ')' || c == '[' || c == ']'
        || c == ';'
}

fn name_ends(c: char) -> (r: bool)
    ensures
        r == ends_name(c),
{
    blank(c) || c == '(' || c == ')' || c == '[' || c == ']' || c == '"' || c == ';' || c == '#'
}

fn lone_ends(c: char) -> (r: bool)
    ensures
        r == ends_lone(c),
{
    blank(c) || c == '|' || c == '(' || c == ')' || c == '"' || c == '\u{0}'
}

fn sign_is_symbol(c: char) -> (r: bool)
    ensures
        r == follows_sign(c),
{
    ('a' <= c && c <= 'z') || ('A' <= c && c <= 'Z') || c == '!' || c == '$' || c == '%' || c == '&'
        || c == '*' || c == '/' || c == ':' || c == '<' || c == '=' || c == '>' || c == '?' || c
        == '@' || c == '^' || c == '_' || c == '~' || c == '-' || c == '+'
}

fn digit_value(c: char) -> (r: u8)
    ensures
        r == digit_of(c),
        r <= 16,
{
    if '0' <= c && c <= '9' {
        (c as u32 - 48) as u8
    } else if 'a' <= c && c <= 'f' {
        (c as u32 - 87) as u8
    } else if 'A' <= c && c <= 'F' {
        (c as u32 - 55) as u8
    } else {
        16
    }
}

// ---------------------------------------------------------------------------
// Where tokens end

/// The end of a symbol that goes on at `i`.
pub open spec fn symbol_end(s: Seq<char>, i: int) -> int
    decreases s.len() - i,
{
    if i < 0 || i >= s.len() || ends_symbol(s[i]) {
        i
    } else {
        symbol_end(s, i + 1)
    }
}

/// The end of the name of a character that goes on at `i`.
pub open spec fn name_end(s: Seq<char>, i: int) -> int
    decreases s.len() - i,
{
    if i < 0 || i >= s.len() || ends_name(s[i]) {
        i
    } else {
        name_end(s, i + 1)
    }
}

/// The end of a comment that goes on at `i`: after the end of its line.
pub open spec fn comment_end(s: Seq<char>, i: int) -> int
    decreases s.len() - i,
{
    if i < 0 || i >= s.len() {
        i
    } else if s[i] == '\n' {
        i + 1
    } else {
        comment_end(s, i + 1)
    }
}

/// The end of a string that goes on at `i`: after its closing quote. A backslash keeps the
/// character after it from closing the string.
pub open spec fn string_end(s: Seq<char>, i: int) -> int
    decreases s.len() + 2 - i,
{
    if i < 0 || i >= s.len() {
        i
    } else if s[i] == '"' {
        i + 1
    } else if s[i] == '\\' {
        string_end(s, i + 2)
    } else {
        string_end(s, i + 1)
    }
}

/// The number of digits below `radix` in a row from `i` on.
pub open spec fn run(s: Seq<char>, i: int, radix: nat) -> nat
    decreases s.len() - i,
{
    if i < 0 || i >= s.len() || digit_of(s[i]) >= radix {
        0
    } else {
        1 + run(s, i + 1, radix)
    }
}

fn end_of_symbol(x: &Vec<char>, from: usize) -> (r: usize)
    requires
        from <= x@.len(),
    ensures
        r == symbol_end(x@, from as int),
        from <= r <= x@.len(),
{
    let mut i: usize = from;
    while i < x.len() && !symbol_ends(x[i])
        invariant
            from <= i <= x@.len(),
            symbol_end(x@, from as int) == symbol_end(x@, i as int),
        decreases x@.len() - i,
    {
        i = i + 1;
    }
    i
}

fn end_of_name(x: &Vec<char>, from: usize) -> (r: usize)
    requires
        from <= x@.len(),
    ensures
        r == name_end(x@, from as int),
        from <= r <= x@.len(),
{
    let mut i: usize = from;
    while i < x.len() && !name_ends(x[i])
        invariant
            from <= i <= x@.len(),
            name_end(x@, from as int) == name_end(x@, i as int),
        decreases x@.len() - i,
    {
        i = i + 1;
    }
    i
}

fn end_of_comment(x: &Vec<char>, from: usize) -> (r: usize)
    requires
        from <= x@.len(),
    ensures
        r == comment_end(x@, from as int),
        from <= r <= x@.len(),
{
    let mut i: usize = from;
    while i < x.len()
        invariant
            from <= i <= x@.len(),
            comment_end(x@, from as int) == comment_end(x@, i as int),
        decreases x@.len() - i,
    {
        if x[i] == '\n' {
            return i + 1;
        }
        i = i + 1;
    }
    i
}

/// The end of a string, or of the text where nothing closes the string.
fn end_of_string(x: &Vec<char>, from: usize) -> (r: usize)
    requires
        from <= x@.len(),
    ensures
        string_end(x@, from as int) <= x@.len() ==> r == string_end(x@, from as int),
        string_end(x@, from as int) > x@.len() ==> r == x@.len(),
        from <= r <= x@.len(),
{
    let n: usize = x.len();
    let mut i: usize = from;
    while i < n
        invariant
            n == x.len(),
            from <= i <= n,
            string_end(x@, from as int) == string_end(x@, i as int),
        decreases n - i,
    {
        if x[i] == '"' {
            return i + 1;
        }
        if x[i] == '\\' {
            if n - i < 2 {
                assert(string_end(x@, i + 2) == i + 2);
                return n;
            }
            i = i + 2;
        } else {
            i = i + 1;
        }
    }
    i
}

fn count_run(x: &Vec<char>, from: usize, radix: u8) -> (r: usize)
    requires
        from <= x@.len(),
    ensures
        r == run(x@, from as int, radix as nat),
        from + r <= x@.len(),
{
    let mut i: usize = from;
    while i < x.len() && digit_value(x[i]) < radix
        invariant
            from <= i <= x@.len(),
            run(x@, from as int, radix as nat) == i - from + run(x@, i as int, radix as nat),
        decreases x@.len() - i,
    {
        i = i + 1;
    }
    i - from
}

// ---------------------------------------------------------------------------
// Numbers

/// The value of the digits from `i` on after `value`, up to the one with which it would exceed
/// 64 bits.
pub open spec fn leading(s: Seq<char>, i: int, radix: nat, value: nat) -> nat
    decreases s.len() - i,
{
    if i < 0 || i >= s.len() || digit_of(s[i]) >= radix || value * radix + digit_of(s[i])
        > u64::MAX {
        value
    } else {
        leading(s, i + 1, radix, value * radix + digit_of(s[i]))
    }
}

/// How many digits from `i` on, after `value`, are left over once the value would exceed 64 bits.
pub open spec fn left_over(s: Seq<char>, i: int, radix: nat, value: nat) -> nat
    decreases s.len() - i,
{
    if i < 0 || i >= s.len() || digit_of(s[i]) >= radix {
        0
    } else if value * radix + digit_of(s[i]) > u64::MAX {
        run(s, i, radix)
    } else {
        left_over(s, i + 1, radix, value * radix + digit_of(s[i]))
    }
}

/// The highest exponent that is too low: 32 bits with a sign hold it, but not its opposite.
pub open spec fn too_low() -> int {
    -0x8000_0000
}

/// The decimal exponent of a number with the digits at `i` and the fraction at `dot`: one up for
/// each digit before the dot that is left over, one down for each digit after it that is not.
pub open spec fn start_exponent(s: Seq<char>, i: int, dot: int) -> int {
    let value = leading(s, i, 10, 0);
    left_over(s, i, 10, 0) - (run(s, dot + 1, 10) - left_over(s, dot + 1, 10, value))
}

/// Whether a sign stands at `i`.
pub open spec fn is_sign(s: Seq<char>, i: int) -> bool {
    0 <= i < s.len() && (s[i] == '-' || s[i] == '+')
}

/// Whether the exponent at `e`, on top of `start`, is too low. One that 31 bits do not hold is
/// not counted at all.
pub open spec fn exponent_too_low(s: Seq<char>, e: int, start: int) -> bool {
    let at = if is_sign(s, e + 1) {
        e + 2
    } else {
        e + 1
    };
    match text::u32_value(s.subrange(at, at + run(s, at, 10))) {
        Some(v) => v <= i32::MAX && (if s[e + 1] == '-' {
            start - v
        } else {
            start + v
        }) <= too_low(),
        None => false,
    }
}

/// Whether a fraction begins at `dot`: a dot and a digit.
pub open spec fn has_fraction(s: Seq<char>, dot: int) -> bool {
    0 <= dot < s.len() && s[dot] == '.' && run(s, dot + 1, 10) > 0
}

/// Whether an exponent begins at `e`: the letter, and maybe a sign, and a digit.
pub open spec fn has_exponent(s: Seq<char>, e: int) -> bool {
    &&& 0 <= e < s.len() && (s[e] == 'e' || s[e] == 'E')
    &&& run(
        s,
        if is_sign(s, e + 1) {
            e + 2
        } else {
            e + 1
        },
        10,
    ) > 0
}

/// Whether the digits, the fraction or the exponent of the number with its first digit at `i`
/// cannot be counted in 32 bits with a sign.
pub open spec fn overflows(s: Seq<char>, i: int, radix: nat) -> bool {
    let dot = i + run(s, i, radix);
    let e = dot + 1 + run(s, dot + 1, 10);
    if left_over(s, i, radix, 0) > i32::MAX {
        true
    } else if radix == 10 && run(s, i, 10) > 0 && has_fraction(s, dot) {
        let start = start_exponent(s, i, dot);
        start < too_low() || (if has_exponent(s, e) {
            exponent_too_low(s, e, start)
        } else {
            start <= too_low() && !(e < s.len() && (s[e] == 'e' || s[e] == 'E'))
        })
    } else {
        false
    }
}

/// The end of the number with its first digit at `i`.
pub open spec fn number_end(s: Seq<char>, i: int, radix: nat) -> int {
    let dot = i + run(s, i, radix);
    if radix == 10 && run(s, i, 10) > 0 && has_fraction(s, dot) {
        let e = dot + 1 + run(s, dot + 1, 10);
        if has_exponent(s, e) {
            let at = if is_sign(s, e + 1) {
                e + 2
            } else {
                e + 1
            };
            at + run(s, at, 10)
        } else {
            e
        }
    } else {
        dot
    }
}

/// The value of the leading digits, and how many digits are left over.
fn read_digits(x: &Vec<char>, from: usize, radix: u8, first: u64) -> (r: (u64, usize))
    requires
        from <= x@.len(),
        1 <= radix <= 16,
    ensures
        r.0 == leading(x@, from as int, radix as nat, first as nat),
        r.1 == left_over(x@, from as int, radix as nat, first as nat),
        r.1 <= run(x@, from as int, radix as nat),
        from + run(x@, from as int, radix as nat) <= x@.len(),
{
    let whole: usize = count_run(x, from, radix);
    let mut i: usize = from;
    let mut value: u64 = first;
    while i < x.len() && digit_value(x[i]) < radix
        invariant
            from <= i <= x@.len(),
            1 <= radix <= 16,
            whole == run(x@, from as int, radix as nat),
            whole == i - from + run(x@, i as int, radix as nat),
            leading(x@, from as int, radix as nat, first as nat) == leading(
                x@,
                i as int,
                radix as nat,
                value as nat,
            ),
            left_over(x@, from as int, radix as nat, first as nat) == left_over(
                x@,
                i as int,
                radix as nat,
                value as nat,
            ),
        decreases x@.len() - i,
    {
        let d: u8 = digit_value(x[i]);
        assert(value * radix <= u64::MAX * 16) by (nonlinear_arith)
            requires
                value <= u64::MAX,
                1 <= radix <= 16,
        ;
        let next: u128 = value as u128 * radix as u128 + d as u128;
        if next > 18446744073709551615 {
            return (value, count_run(x, i, radix));
        }
        value = next as u64;
        i = i + 1;
    }
    (value, 0)
}

/// What is found at a number.
struct Found {
    overflows: bool,
    end: usize,
}

fn read_number(x: &Vec<char>, from: usize, radix: u8) -> (r: Found)
    requires
        from <= x@.len(),
        1 <= radix <= 16,
    ensures
        r.overflows == overflows(x@, from as int, radix as nat),
        r.end == number_end(x@, from as int, radix as nat),
        from <= r.end <= x@.len(),
{
    let n: usize = x.len();
    let (value, over) = read_digits(x, from, radix, 0);
    let whole: usize = count_run(x, from, radix);
    let dot: usize = from + whole;
    let too_many = over > 2147483647;
    if radix != 10 || whole == 0 || dot == n || x[dot] != '.' {
        return Found { overflows: too_many, end: dot };
    }
    let fraction: usize = count_run(x, dot + 1, 10);
    if fraction == 0 {
        return Found { overflows: too_many, end: dot };
    }
    let (_, ignored) = read_digits(x, dot + 1, 10, value);
    let e: usize = dot + 1 + fraction;
    let start: i128 = over as i128 - (fraction as i128 - ignored as i128);
    assert(start == start_exponent(x@, from as int, dot as int));
    let letter = e < n && (x[e] == 'e' || x[e] == 'E');
    if letter {
        let signed = n - e > 1 && (x[e + 1] == '-' || x[e + 1] == '+');
        let at: usize = if signed {
            e + 2
        } else {
            e + 1
        };
        let digits: usize = count_run(x, at, 10);
        if digits > 0 {
            let end: usize = at + digits;
            let shown = text::text_of(slice_subrange(x.as_slice(), at, end));
            assert(shown@ =~= x@.subrange(at as int, end as int));
            let low = match text::parse_u32(shown.as_str()) {
                Some(v) => {
                    let total: i128 = if x[e + 1] == '-' {
                        start - v as i128
                    } else {
                        start + v as i128
                    };
                    v <= 2147483647 && total <= -0x8000_0000
                },
                None => false,
            };
            return Found { overflows: too_many || start < -0x8000_0000 || low, end };
        }
        return Found { overflows: too_many || start < -0x8000_0000, end: e };
    }
    Found { overflows: too_many || start <= -0x8000_0000, end: e }
}

// ---------------------------------------------------------------------------
// The text

/// What a token does to what comes after it.
pub enum Turn {
    /// Nothing: it is blank, or a comment.
    Skip,
    /// It is an item.
    Item,
    /// It opens a list, or a vector.
    Open { list: bool },
    /// It closes a list or a vector.
    Close,
    /// It is part of the item that follows, such as a quotation mark.
    Prefix,
}

/// The first digit and the radix of the number that is the token at `i`, where it is one.
pub open spec fn number_at(s: Seq<char>, i: int) -> Option<(int, nat)> {
    let c = s[i];
    if c == '#' && i + 1 < s.len() {
        let first = if is_sign(s, i + 2) {
            i + 3
        } else {
            i + 2
        };
        if s[i + 1] == 'b' {
            Some((first, 2))
        } else if s[i + 1] == 'o' {
            Some((first, 8))
        } else if s[i + 1] == 'd' {
            Some((first, 10))
        } else if s[i + 1] == 'x' {
            Some((first, 16))
        } else {
            None
        }
    } else if c == '-' || c == '+' {
        if i + 1 >= s.len() || ends_lone(s[i + 1]) || follows_sign(s[i + 1]) {
            None
        } else {
            Some((i + 1, 10))
        }
    } else if '0' <= c <= '9' {
        Some((i, 10))
    } else {
        None
    }
}

/// The end of a token at `i` that begins with `#` and is no number, and what it does.
pub open spec fn hash_token(s: Seq<char>, i: int) -> (int, Turn) {
    if i + 1 >= s.len() {
        (i + 1, Turn::Item)
    } else if s[i + 1] == '(' {
        (i + 2, Turn::Open { list: false })
    } else if s[i + 1] == ':' {
        (symbol_end(s, i + 2), Turn::Item)
    } else if s[i + 1] == 'n' {
        (i + 4, Turn::Item)
    } else if s[i + 1] == 'v' {
        (i + 4, Turn::Prefix)
    } else if s[i + 1] == 'u' {
        (i + 3, Turn::Prefix)
    } else if s[i + 1] == '\\' && i + 2 < s.len() {
        (
            if s[i + 2] as u32 > 0x7f {
                i + 3
            } else {
                name_end(s, i + 3)
            },
            Turn::Item,
        )
    } else {
        (i + 2, Turn::Item)
    }
}

/// The end of the token at `i` that is no number, and what it does. `direct` tells that it comes
/// directly in a list, where a lone dot is no symbol.
pub open spec fn token(s: Seq<char>, i: int, direct: bool) -> (int, Turn) {
    let c = s[i];
    if is_blank(c) {
        (i + 1, Turn::Skip)
    } else if c == ';' {
        (comment_end(s, i + 1), Turn::Skip)
    } else if c == '(' || c == '[' {
        (i + 1, Turn::Open { list: true })
    } else if c == ')' || c == ']' {
        (i + 1, Turn::Close)
    } else if c == '\'' || c == '`' {
        (i + 1, Turn::Prefix)
    } else if c == ',' {
        (
            if i + 1 < s.len() && s[i + 1] == '@' {
                i + 2
            } else {
                i + 1
            },
            Turn::Prefix,
        )
    } else if c == '"' {
        (string_end(s, i + 1), Turn::Item)
    } else if c == '#' {
        hash_token(s, i)
    } else if c == '.' && direct && (i + 1 >= s.len() || ends_lone(s[i + 1])) {
        (i + 1, Turn::Prefix)
    } else {
        (symbol_end(s, i + 1), Turn::Item)
    }
}

/// What is open after a token: a list, or else a vector, for each that is not closed.
pub open spec fn open_after(open: Seq<bool>, turn: Turn) -> Seq<bool> {
    match turn {
        Turn::Open { list } => open.push(list),
        Turn::Close => if open.len() > 0 {
            open.drop_last()
        } else {
            open
        },
        _ => open,
    }
}

/// Whether the token after one comes directly in a list.
pub open spec fn direct_after(open: Seq<bool>, direct: bool, turn: Turn) -> bool {
    match turn {
        Turn::Skip => direct,
        Turn::Prefix => false,
        _ => open_after(open, turn).len() > 0 && open_after(open, turn).last(),
    }
}

/// Whether the numbers among the tokens from `i` on fit, where `open` is open.
pub open spec fn fits_from(s: Seq<char>, i: int, open: Seq<bool>, direct: bool) -> bool
    decreases s.len() - i,
{
    if i < 0 || i >= s.len() {
        true
    } else {
        match number_at(s, i) {
            Some((first, radix)) => {
                let end = number_end(s, first, radix);
                if overflows(s, first, radix) {
                    false
                } else if end <= i || end >= s.len() {
                    true
                } else {
                    fits_from(s, end, open, direct_after(open, direct, Turn::Item))
                }
            },
            None => {
                let (end, turn) = token(s, i, direct);
                if end <= i || end >= s.len() {
                    true
                } else {
                    fits_from(s, end, open_after(open, turn), direct_after(open, direct, turn))
                }
            },
        }
    }
}

/// Whether the digits and the exponent of each number in a text can be counted in 32 bits with a
/// sign. What looks like a number in a string, a comment, a symbol or the name of a character is
/// none.
pub open spec fn exponents_fit(s: Seq<char>) -> bool {
    fits_from(s, 0, Seq::empty(), false)
}

fn capped(n: usize, i: usize, by: usize) -> (r: usize)
    requires
        i <= n,
    ensures
        r == (if i + by <= n {
            i + by
        } else {
            n as int
        }),
{
    if n - i >= by {
        i + by
    } else {
        n
    }
}

fn find_number(x: &Vec<char>, i: usize) -> (r: Option<(usize, u8)>)
    requires
        i < x@.len(),
    ensures
        match r {
            Some((first, radix)) => number_at(x@, i as int) == Some((first as int, radix as nat))
                && i <= first <= x@.len() && 1 <= radix <= 16 && (first > i || '0' <= x@[i as int]
                <= '9'),
            None => number_at(x@, i as int) is None,
        },
{
    let n: usize = x.len();
    let c: char = x[i];
    if c == '#' && n - i > 1 {
        let first: usize = if n - i > 2 && (x[i + 2] == '-' || x[i + 2] == '+') {
            i + 3
        } else {
            i + 2
        };
        let k: char = x[i + 1];
        if k == 'b' {
            return Some((first, 2));
        }
        if k == 'o' {
            return Some((first, 8));
        }
        if k == 'd' {
            return Some((first, 10));
        }
        if k == 'x' {
            return Some((first, 16));
        }
        return None;
    }
    if c == '-' || c == '+' {
        if n - i <= 1 || lone_ends(x[i + 1]) || sign_is_symbol(x[i + 1]) {
            return None;
        }
        return Some((i + 1, 10));
    }
    if '0' <= c && c <= '9' {
        Some((i, 10))
    } else {
        None
    }
}

/// What a token does to what comes after it, and where it ends, or the end of the text.
fn read_hash(x: &Vec<char>, i: usize) -> (r: (usize, Turn))
    requires
        i < x@.len(),
    ensures
        r.1 == hash_token(x@, i as int).1,
        r.0 == hash_token(x@, i as int).0 || (r.0 == x@.len() && hash_token(x@, i as int).0
            > x@.len()),
        i < r.0 <= x@.len(),
{
    let n: usize = x.len();
    if n - i <= 1 {
        return (i + 1, Turn::Item);
    }
    let k: char = x[i + 1];
    if k == '(' {
        (i + 2, Turn::Open { list: false })
    } else if k == ':' {
        (end_of_symbol(x, i + 2), Turn::Item)
    } else if k == 'n' {
        (capped(n, i, 4), Turn::Item)
    } else if k == 'v' {
        (capped(n, i, 4), Turn::Prefix)
    } else if k == 'u' {
        (capped(n, i, 3), Turn::Prefix)
    } else if k == '\\' && n - i > 2 {
        if x[i + 2] as u32 > 0x7f {
            (i + 3, Turn::Item)
        } else {
            (end_of_name(x, i + 3), Turn::Item)
        }
    } else {
        (i + 2, Turn::Item)
    }
}

fn read_token(x: &Vec<char>, i: usize, direct: bool) -> (r: (usize, Turn))
    requires
        i < x@.len(),
    ensures
        r.1 == token(x@, i as int, direct).1,
        r.0 == token(x@, i as int, direct).0 || (r.0 == x@.len() && token(x@, i as int, direct).0
            > x@.len()),
        i < r.0 <= x@.len(),
{
    let n: usize = x.len();
    let c: char = x[i];
    if blank(c) {
        (i + 1, Turn::Skip)
    } else if c == ';' {
        (end_of_comment(x, i + 1), Turn::Skip)
    } else if c == '(' || c == '[' {
        (i + 1, Turn::Open { list: true })
    } else if c == ')' || c == ']' {
        (i + 1, Turn::Close)
    } else if c == '\'' || c == '`' {
        (i + 1, Turn::Prefix)
    } else if c == ',' {
        if n - i > 1 && x[i + 1] == '@' {
            (i + 2, Turn::Prefix)
        } else {
            (i + 1, Turn::Prefix)
        }
    } else if c == '"' {
        (end_of_string(x, i + 1), Turn::Item)
    } else if c == '#' {
        read_hash(x, i)
    } else if c == '.' && direct && (n - i <= 1 || lone_ends(x[i + 1])) {
        (i + 1, Turn::Prefix)
    } else {
        (end_of_symbol(x, i + 1), Turn::Item)
    }
}

/// Whether the digits and the exponent of each number in a text can be counted in 32 bits with a
/// sign.
pub fn has_fitting_exponents(s: &str) -> (r: bool)
    ensures
        r == exponents_fit(s@),
{
    let x = text::chars_of(s);
    let n: usize = x.len();
    let mut open: Vec<bool> = Vec::new();
    let mut direct = false;
    let mut i: usize = 0;
    assert(open@ =~= Seq::<bool>::empty());
    while i < n
        invariant
            x@ == s@,
            n == x.len(),
            i <= n,
            exponents_fit(s@) == fits_from(s@, i as int, open@, direct),
        decreases n - i,
    {
        let ghost before = open@;
        match find_number(&x, i) {
            Some((first, radix)) => {
                let found = read_number(&x, first, radix);
                if found.overflows {
                    return false;
                }
                let m: usize = open.len();
                direct = m > 0 && open[m - 1];
                proof {
                    if first == i {
                        assert(run(x@, i as int, 10) >= 1);
                    }
                    assert(found.end > i);
                    assert(direct == direct_after(open@, direct, Turn::Item));
                }
                i = found.end;
            },
            None => {
                let (end, turn) = read_token(&x, i, direct);
                let was = direct;
                match turn {
                    Turn::Open { list } => {
                        open.push(list);
                    },
                    Turn::Close => {
                        open.pop();
                    },
                    _ => {},
                }
                assert(open@ =~= open_after(before, turn));
                let m: usize = open.len();
                direct = match turn {
                    Turn::Skip => was,
                    Turn::Prefix => false,
                    _ => m > 0 && open[m - 1],
                };
                proof {
                    let reached = token(s@, i as int, was).0;
                    assert(direct == direct_after(before, was, turn));
                    if reached > n {
                        assert(fits_from(s@, reached, open@, direct));
                        assert(fits_from(s@, n as int, open@, direct));
                    }
                }
                i = end;
            },
        }
    }
    true
}

}
