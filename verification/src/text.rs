//! The textual building blocks of the session cookie: literal fragments,
//! quoted strings and decimal integers, each with the function that writes
//! it, the function that reads it back, and the proof that the two agree.

use vstd::prelude::*;
use vstd::std_specs::iter::IteratorSpec;

verus! {

/// `String::push` appends one character to the end of the string and leaves
/// the characters before it as they were.
pub assume_specification[ String::push ](s: &mut String, ch: char)
    ensures
        final(s)@ == old(s)@.push(ch),
;

/// The characters of `s`, in order.
pub(crate) fn chars_of(s: &str) -> (chars: Vec<char>)
    ensures
        chars@ == s@,
{
    let mut chars: Vec<char> = Vec::new();
    for c in it: s.chars()
        invariant
            it.seq() == s@,
            chars@ == it.history(),
    {
        chars.push(c);
    }
    assert(chars@ =~= s@);
    chars
}

/// `pat` stands in `input`, starting at index `pos`.
pub open spec fn occurs_at(input: Seq<char>, pos: int, pat: Seq<char>) -> bool {
    &&& 0 <= pos
    &&& pos + pat.len() <= input.len()
    &&& input.subrange(pos, pos + pat.len()) == pat
}

/// Where a pattern occurs, each of its characters is found in the input.
pub proof fn lemma_occurs_index(input: Seq<char>, pos: int, pat: Seq<char>, k: int)
    requires
        occurs_at(input, pos, pat),
        0 <= k < pat.len(),
    ensures
        input[pos + k] == pat[k],
{
    assert(input.subrange(pos, pos + pat.len())[k] == input[pos + k]);
}

/// Two patterns occur one after the other exactly where their
/// concatenation occurs.
pub proof fn lemma_occurs_concat(input: Seq<char>, pos: int, a: Seq<char>, b: Seq<char>)
    ensures
        occurs_at(input, pos, a + b) <==> (occurs_at(input, pos, a) && occurs_at(
            input,
            pos + a.len(),
            b,
        )),
{
    if 0 <= pos && pos + a.len() + b.len() <= input.len() {
        let whole = input.subrange(pos, pos + a.len() + b.len());
        let left = input.subrange(pos, pos + a.len());
        let right = input.subrange(pos + a.len(), pos + a.len() + b.len());
        assert(whole =~= left + right);
        if whole == a + b {
            assert(left =~= (a + b).subrange(0, a.len() as int));
            assert((a + b).subrange(0, a.len() as int) =~= a);
            assert(right =~= (a + b).subrange(a.len() as int, (a + b).len() as int));
            assert((a + b).subrange(a.len() as int, (a + b).len() as int) =~= b);
        }
    }
}

/// The index just behind `lit` if it stands in `input` at `pos`.
pub(crate) fn expect(input: &Vec<char>, pos: usize, lit: &str) -> (end: Option<usize>)
    ensures
        occurs_at(input@, pos as int, lit@) ==> (end matches Some(e) && e == pos + lit@.len()),
        !occurs_at(input@, pos as int, lit@) ==> end is None,
{
    let pat = chars_of(lit);
    if pos > input.len() || pat.len() > input.len() - pos {
        return None;
    }
    let mut i: usize = 0;
    while i < pat.len()
        invariant
            i <= pat.len(),
            pos + pat.len() <= input.len(),
            pat@ == lit@,
            forall|k: int| 0 <= k < i ==> input@[pos + k] == #[trigger] pat@[k],
        decreases pat.len() - i,
    {
        if input[pos + i] != pat[i] {
            proof {
                if occurs_at(input@, pos as int, lit@) {
                    lemma_occurs_index(input@, pos as int, lit@, i as int);
                }
            }
            return None;
        }
        i += 1;
    }
    assert(input@.subrange(pos as int, pos + pat.len()) =~= pat@);
    Some(pos + pat.len())
}

/// The lower-case hexadecimal digit for `n`, where `0 <= n < 16`.
pub open spec fn hex_digit(n: int) -> char {
    if n < 10 {
        (0x30 + n) as char
    } else {
        (0x57 + n) as char
    }
}

/// How one character of a string is written between the quotes: the quote,
/// the backslash and the control characters are escaped, everything else
/// stands for itself.
pub open spec fn escape_char(c: char) -> Seq<char> {
    if c == '"' {
        seq!['\\', '"']
    } else if c == '\\' {
        seq!['\\', '\\']
    } else if c == '\u{8}' {
        seq!['\\', 'b']
    } else if c == '\u{c}' {
        seq!['\\', 'f']
    } else if c == '\n' {
        seq!['\\', 'n']
    } else if c == '\r' {
        seq!['\\', 'r']
    } else if c == '\t' {
        seq!['\\', 't']
    } else if (c as u32) < 0x20 {
        seq!['\\', 'u', '0', '0', hex_digit(c as int / 16), hex_digit(c as int % 16)]
    } else {
        seq![c]
    }
}

/// The escaped form of a whole string.
pub open spec fn escape(s: Seq<char>) -> Seq<char>
    decreases s.len(),
{
    if s.len() == 0 {
        Seq::empty()
    } else {
        escape(s.drop_last()) + escape_char(s.last())
    }
}

/// A string as it stands in the cookie: escaped, between double quotes.
pub open spec fn quoted(s: Seq<char>) -> Seq<char> {
    seq!['"'] + escape(s) + seq!['"']
}

fn hex_digit_of(n: u32) -> (c: char)
    requires
        n < 16,
    ensures
        c == hex_digit(n as int),
{
    if n < 10 {
        ((0x30 + n) as u8) as char
    } else {
        ((0x57 + n) as u8) as char
    }
}

/// Appends the escaped form of `c` to `out`.
fn push_escaped_char(out: &mut String, c: char)
    ensures
        final(out)@ == old(out)@ + escape_char(c),
{
    let ghost before = out@;
    if c == '"' {
        out.push('\\');
        out.push('"');
    } else if c == '\\' {
        out.push('\\');
        out.push('\\');
    } else if c == '\u{8}' {
        out.push('\\');
        out.push('b');
    } else if c == '\u{c}' {
        out.push('\\');
        out.push('f');
    } else if c == '\n' {
        out.push('\\');
        out.push('n');
    } else if c == '\r' {
        out.push('\\');
        out.push('r');
    } else if c == '\t' {
        out.push('\\');
        out.push('t');
    } else if (c as u32) < 0x20 {
        out.push('\\');
        out.push('u');
        out.push('0');
        out.push('0');
        out.push(hex_digit_of(c as u32 / 16));
        out.push(hex_digit_of(c as u32 % 16));
    } else {
        out.push(c);
    }
    assert(out@ =~= before + escape_char(c));
}

/// Appends `s` to `out` as a quoted string.
pub(crate) fn push_quoted(out: &mut String, s: &str)
    ensures
        final(out)@ == old(out)@ + quoted(s@),
{
    let ghost before = out@;
    let ghost mut seen: Seq<char> = Seq::empty();
    out.push('"');
    for c in it: s.chars()
        invariant
            it.seq() == s@,
            seen == it.history(),
            out@ == before.push('"') + escape(seen),
    {
        push_escaped_char(out, c);
        proof {
            assert(seen.push(c).drop_last() =~= seen);
            seen = seen.push(c);
        }
    }
    out.push('"');
    proof {
        assert(seen =~= s@);
        assert(out@ =~= before + quoted(s@));
    }
}

/// Whether `c` is a lower-case hexadecimal digit.
pub open spec fn is_hex_digit(c: char) -> bool {
    (0x30 <= c as int <= 0x39) || (0x61 <= c as int <= 0x66)
}

/// The number that the hexadecimal digit `c` stands for.
pub open spec fn hex_value(c: char) -> int {
    if c as int <= 0x39 {
        c as int - 0x30
    } else {
        c as int - 0x57
    }
}

/// Whether the character with this code is written as `\u00XX`: a control
/// character that has no shorter escape.
pub open spec fn has_long_escape(code: int) -> bool {
    0 <= code < 0x20 && code != 0x8 && code != 0x9 && code != 0xa && code != 0xc && code != 0xd
}

/// The character whose escaped form starts at index `i`, and how many
/// characters that form takes. Only the forms that [`escape_char`] writes
/// are read.
pub open spec fn unit_at(input: Seq<char>, i: int) -> Option<(char, int)> {
    if !(0 <= i < input.len()) {
        None
    } else if input[i] == '\\' {
        if i + 1 >= input.len() {
            None
        } else if input[i + 1] == '"' {
            Some(('"', 2))
        } else if input[i + 1] == '\\' {
            Some(('\\', 2))
        } else if input[i + 1] == 'b' {
            Some(('\u{8}', 2))
        } else if input[i + 1] == 'f' {
            Some(('\u{c}', 2))
        } else if input[i + 1] == 'n' {
            Some(('\n', 2))
        } else if input[i + 1] == 'r' {
            Some(('\r', 2))
        } else if input[i + 1] == 't' {
            Some(('\t', 2))
        } else if input[i + 1] == 'u' && i + 6 <= input.len() && input[i + 2] == '0' && input[i
            + 3] == '0' && is_hex_digit(input[i + 4]) && is_hex_digit(input[i + 5])
            && has_long_escape(hex_value(input[i + 4]) * 16 + hex_value(input[i + 5])) {
            Some(((hex_value(input[i + 4]) * 16 + hex_value(input[i + 5])) as char, 6))
        } else {
            None
        }
    } else if input[i] == '"' || (input[i] as u32) < 0x20 {
        None
    } else {
        Some((input[i], 1))
    }
}

/// What is read where an escaped character stands is that character.
pub proof fn lemma_unit_complete(input: Seq<char>, i: int, c: char)
    requires
        occurs_at(input, i, escape_char(c)),
    ensures
        unit_at(input, i) == Some((c, escape_char(c).len() as int)),
        input[i] != '"',
{
    let e = escape_char(c);
    lemma_occurs_index(input, i, e, 0);
    if e.len() >= 2 {
        lemma_occurs_index(input, i, e, 1);
    }
    if e.len() == 6 {
        lemma_occurs_index(input, i, e, 2);
        lemma_occurs_index(input, i, e, 3);
        lemma_occurs_index(input, i, e, 4);
        lemma_occurs_index(input, i, e, 5);
        let hi = c as int / 16;
        let lo = c as int % 16;
        assert(0 <= hi <= 1 && 0 <= lo < 16);
        assert(hex_value(hex_digit(hi)) == hi);
        assert(hex_value(hex_digit(lo)) == lo);
        assert(is_hex_digit(hex_digit(hi)) && is_hex_digit(hex_digit(lo)));
        assert(hi * 16 + lo == c as int);
        assert((c as int) as char == c);
    }
}

/// What is read at an index is the escaped form that stands there.
pub proof fn lemma_unit_sound(input: Seq<char>, i: int)
    requires
        unit_at(input, i) is Some,
    ensures
        ({
            let (c, w) = unit_at(input, i)->0;
            &&& occurs_at(input, i, escape_char(c))
            &&& w == escape_char(c).len()
            &&& w >= 1
        }),
{
    let (c, w) = unit_at(input, i)->0;
    if w == 6 {
        let hi = hex_value(input[i + 4]);
        let lo = hex_value(input[i + 5]);
        let code = hi * 16 + lo;
        assert(0 <= lo < 16 && 0 <= hi < 16);
        assert(hi == 0 || hi == 1);
        assert(c as int == code);
        assert(code / 16 == hi && code % 16 == lo);
        assert(hex_digit(hi) == input[i + 4]);
        assert(hex_digit(lo) == input[i + 5]);
    }
    assert(input.subrange(i, i + w) =~= escape_char(c));
}

/// Reads escaped characters from index `i` up to the closing quote,
/// collecting them behind `acc`: the string read and the index behind the
/// quote.
pub open spec fn scan(input: Seq<char>, i: int, acc: Seq<char>) -> Option<(Seq<char>, int)>
    decreases input.len() - i,
{
    if i < 0 || i >= input.len() {
        None
    } else if input[i] == '"' {
        Some((acc, i + 1))
    } else {
        match unit_at(input, i) {
            Some((c, w)) => if w >= 1 {
                scan(input, i + w, acc.push(c))
            } else {
                None
            },
            None => None,
        }
    }
}

/// The escaped form of a string starts with that of its first character.
pub proof fn lemma_escape_first(t: Seq<char>)
    requires
        t.len() > 0,
    ensures
        escape(t) == escape_char(t[0]) + escape(t.drop_first()),
    decreases t.len(),
{
    if t.len() == 1 {
        assert(escape(t.drop_last()) =~= Seq::<char>::empty());
        assert(escape(t.drop_first()) =~= Seq::<char>::empty());
        assert(escape(t) =~= escape_char(t[0]) + escape(t.drop_first()));
    } else {
        lemma_escape_first(t.drop_last());
        assert(t.drop_last().drop_first() =~= t.drop_first().drop_last());
        assert(t.drop_last()[0] == t[0]);
        assert(t.drop_first().last() == t.last());
        assert(escape(t) =~= escape_char(t[0]) + escape(t.drop_first()));
    }
}

/// Where an escaped string and its closing quote stand, that string is read.
pub proof fn lemma_scan_complete(input: Seq<char>, i: int, acc: Seq<char>, t: Seq<char>)
    requires
        occurs_at(input, i, escape(t) + seq!['"']),
    ensures
        scan(input, i, acc) == Some((acc + t, i + escape(t).len() + 1)),
    decreases t.len(),
{
    if t.len() == 0 {
        assert(escape(t) + seq!['"'] =~= seq!['"']);
        lemma_occurs_index(input, i, seq!['"'], 0);
        assert(acc + t =~= acc);
    } else {
        let first = escape_char(t[0]);
        let rest = t.drop_first();
        lemma_escape_first(t);
        assert(escape(t) + seq!['"'] =~= first + (escape(rest) + seq!['"']));
        lemma_occurs_concat(input, i, first, escape(rest) + seq!['"']);
        lemma_unit_complete(input, i, t[0]);
        lemma_scan_complete(input, i + first.len(), acc.push(t[0]), rest);
        assert(acc.push(t[0]) + rest =~= acc + t);
    }
}

/// What is read from an index on is the escaped form of the string read,
/// with its closing quote.
pub proof fn lemma_scan_sound(input: Seq<char>, i: int, acc: Seq<char>)
    requires
        scan(input, i, acc) is Some,
    ensures
        ({
            let (r, end) = scan(input, i, acc)->0;
            let tail = r.subrange(acc.len() as int, r.len() as int);
            &&& acc.len() <= r.len()
            &&& r.subrange(0, acc.len() as int) == acc
            &&& occurs_at(input, i, escape(tail) + seq!['"'])
            &&& end == i + escape(tail).len() + 1
        }),
    decreases input.len() - i,
{
    let (r, end) = scan(input, i, acc)->0;
    if input[i] == '"' {
        let tail = r.subrange(acc.len() as int, r.len() as int);
        assert(tail =~= Seq::<char>::empty());
        assert(escape(tail) + seq!['"'] =~= seq!['"']);
        assert(input.subrange(i, i + 1) =~= seq!['"']);
        assert(r.subrange(0, acc.len() as int) =~= acc);
    } else {
        let (c, w) = unit_at(input, i)->0;
        lemma_unit_sound(input, i);
        lemma_scan_sound(input, i + w, acc.push(c));
        let n = acc.len() as int;
        let tail = r.subrange(n, r.len() as int);
        let shorter = r.subrange(n + 1, r.len() as int);
        assert(r.subrange(0, n + 1)[n] == c);
        assert(r.subrange(0, n) =~= acc) by {
            assert(r.subrange(0, n + 1).subrange(0, n) =~= r.subrange(0, n));
            assert(acc.push(c).subrange(0, n) =~= acc);
        }
        assert(tail[0] == c);
        assert(tail.drop_first() =~= shorter);
        lemma_escape_first(tail);
        lemma_occurs_concat(input, i, escape_char(c), escape(shorter) + seq!['"']);
        assert(escape(tail) + seq!['"'] =~= escape_char(c) + (escape(shorter) + seq!['"']));
    }
}

/// Two quoted strings that stand at one index are the same string: a quoted
/// string ends where its closing quote stands and nowhere else.
pub proof fn lemma_quoted_unique(input: Seq<char>, pos: int, a: Seq<char>, b: Seq<char>)
    requires
        occurs_at(input, pos, quoted(a)),
        occurs_at(input, pos, quoted(b)),
    ensures
        a == b,
{
    lemma_quoted_scan(input, pos, a);
    lemma_quoted_scan(input, pos, b);
}

/// Where a quoted string stands, the opening quote is found and the string
/// is read behind it.
pub proof fn lemma_quoted_scan(input: Seq<char>, pos: int, t: Seq<char>)
    requires
        occurs_at(input, pos, quoted(t)),
    ensures
        input[pos] == '"',
        pos + 1 <= input.len(),
        scan(input, pos + 1, Seq::empty()) == Some((t, pos + quoted(t).len())),
{
    assert(quoted(t) =~= seq!['"'] + (escape(t) + seq!['"']));
    lemma_occurs_concat(input, pos, seq!['"'], escape(t) + seq!['"']);
    lemma_occurs_index(input, pos, seq!['"'], 0);
    lemma_scan_complete(input, pos + 1, Seq::empty(), t);
    assert(Seq::<char>::empty() + t =~= t);
}

fn is_hex_digit_char(c: char) -> (b: bool)
    ensures
        b == is_hex_digit(c),
{
    let code = c as u32;
    (0x30 <= code && code <= 0x39) || (0x61 <= code && code <= 0x66)
}

fn hex_value_of(c: char) -> (v: u32)
    requires
        is_hex_digit(c),
    ensures
        v == hex_value(c),
{
    let code = c as u32;
    if code <= 0x39 {
        code - 0x30
    } else {
        code - 0x57
    }
}

/// Reads the escaped character at index `i`.
fn read_unit(input: &Vec<char>, i: usize) -> (r: Option<(char, usize)>)
    ensures
        match r {
            Some((c, w)) => unit_at(input@, i as int) == Some((c, w as int)),
            None => unit_at(input@, i as int) is None,
        },
{
    if i >= input.len() {
        return None;
    }
    let c = input[i];
    if c == '\\' {
        if input.len() - i < 2 {
            return None;
        }
        let e = input[i + 1];
        if e == '"' {
            Some(('"', 2))
        } else if e == '\\' {
            Some(('\\', 2))
        } else if e == 'b' {
            Some(('\u{8}', 2))
        } else if e == 'f' {
            Some(('\u{c}', 2))
        } else if e == 'n' {
            Some(('\n', 2))
        } else if e == 'r' {
            Some(('\r', 2))
        } else if e == 't' {
            Some(('\t', 2))
        } else if e == 'u' && input.len() - i >= 6 && input[i + 2] == '0' && input[i + 3] == '0'
            && is_hex_digit_char(input[i + 4]) && is_hex_digit_char(input[i + 5]) {
            let code: u32 = hex_value_of(input[i + 4]) * 16 + hex_value_of(input[i + 5]);
            if code < 0x20 && code != 0x8 && code != 0x9 && code != 0xa && code != 0xc && code
                != 0xd {
                Some(((code as u8) as char, 6))
            } else {
                None
            }
        } else {
            None
        }
    } else if c == '"' || (c as u32) < 0x20 {
        None
    } else {
        Some((c, 1))
    }
}

/// Reads an escaped string from index `start` up to its closing quote.
fn read_until_quote(input: &Vec<char>, start: usize) -> (r: Option<(String, usize)>)
    ensures
        match r {
            Some((s, end)) => scan(input@, start as int, Seq::empty()) == Some((s@, end as int)),
            None => scan(input@, start as int, Seq::empty()) is None,
        },
{
    let mut acc = String::new();
    let mut cur: usize = start;
    while cur < input.len()
        invariant
            scan(input@, start as int, Seq::empty()) == scan(input@, cur as int, acc@),
        decreases input.len() - cur,
    {
        if input[cur] == '"' {
            return Some((acc, cur + 1));
        }
        match read_unit(input, cur) {
            Some((c, w)) => {
                proof {
                    lemma_unit_sound(input@, cur as int);
                }
                acc.push(c);
                cur = cur + w;
            },
            None => {
                return None;
            },
        }
    }
    None
}

/// Reads the quoted string that starts at index `pos`: the string, and the
/// index behind its closing quote. Nothing is read where no quoted string
/// stands.
pub(crate) fn read_quoted(input: &Vec<char>, pos: usize) -> (r: Option<(String, usize)>)
    ensures
        r matches Some((s, end)) ==> occurs_at(input@, pos as int, quoted(s@)) && end == pos
            + quoted(s@).len(),
        forall|t: Seq<char>|
            occurs_at(input@, pos as int, #[trigger] quoted(t)) ==> (r matches Some((s, _))
                && s@ == t),
{
    if pos >= input.len() || input[pos] != '"' {
        proof {
            assert forall|t: Seq<char>| occurs_at(input@, pos as int, #[trigger] quoted(t)) implies false by {
                lemma_quoted_scan(input@, pos as int, t);
            }
        }
        return None;
    }
    let r = read_until_quote(input, pos + 1);
    proof {
        assert forall|t: Seq<char>| occurs_at(input@, pos as int, #[trigger] quoted(t)) implies (r matches Some(
            (s, _),
        ) && s@ == t) by {
            lemma_quoted_scan(input@, pos as int, t);
        }
        if let Some((s, _)) = &r {
            lemma_scan_sound(input@, pos + 1, Seq::empty());
            assert(s@.subrange(0, s@.len() as int) =~= s@);
            assert(quoted(s@) =~= seq!['"'] + (escape(s@) + seq!['"']));
            assert(input@.subrange(pos as int, pos + 1) =~= seq!['"']);
            lemma_occurs_concat(input@, pos as int, seq!['"'], escape(s@) + seq!['"']);
        }
    }
    r
}

/// Whether `c` is a decimal digit.
pub open spec fn is_digit(c: char) -> bool {
    0x30 <= c as int <= 0x39
}

/// The decimal digit for `d`, where `0 <= d < 10`.
pub open spec fn digit_char(d: int) -> char {
    (0x30 + d) as char
}

/// The decimal digits of `n`, without leading zeros.
pub open spec fn digits(n: nat) -> Seq<char>
    decreases n,
{
    if n < 10 {
        seq![digit_char(n as int)]
    } else {
        digits(n / 10).push(digit_char((n % 10) as int))
    }
}

/// An integer as it stands in the cookie: a minus sign if it is negative,
/// then the digits of its magnitude.
pub open spec fn decimal(v: int) -> Seq<char> {
    if v < 0 {
        seq!['-'] + digits((-v) as nat)
    } else {
        digits(v as nat)
    }
}

/// The number that a sequence of decimal digits stands for.
pub open spec fn digits_value(ds: Seq<char>) -> nat
    decreases ds.len(),
{
    if ds.len() == 0 {
        0
    } else {
        (digits_value(ds.drop_last()) * 10 + (ds.last() as int - 0x30)) as nat
    }
}

/// Whether every character of `ds` is a decimal digit.
pub open spec fn all_digits(ds: Seq<char>) -> bool {
    forall|k: int| 0 <= k < ds.len() ==> is_digit(#[trigger] ds[k])
}

/// The first index from `i` on at which no digit stands.
pub open spec fn run_end(input: Seq<char>, i: int) -> int
    decreases input.len() - i,
{
    if 0 <= i < input.len() && is_digit(input[i]) {
        run_end(input, i + 1)
    } else {
        i
    }
}

/// The integer `v` stands at index `pos`, and no further digit follows it.
pub open spec fn number_at(input: Seq<char>, pos: int, v: int) -> bool {
    &&& occurs_at(input, pos, decimal(v))
    &&& !(pos + decimal(v).len() < input.len() && is_digit(input[pos + decimal(v).len()]))
}

/// The digits of a number are digits, start with a zero only for zero, and
/// stand for that number.
pub proof fn lemma_digits(n: nat)
    ensures
        digits(n).len() >= 1,
        all_digits(digits(n)),
        digits_value(digits(n)) == n,
        digits(n)[0] == '0' <==> n == 0,
        n == 0 ==> digits(n).len() == 1,
    decreases n,
{
    if n < 10 {
        assert(digits(n).drop_last() =~= Seq::<char>::empty());
        assert(digits_value(digits(n).drop_last()) == 0);
    } else {
        lemma_digits(n / 10);
        let init = digits(n / 10);
        let last = digit_char((n % 10) as int);
        assert(init.push(last).drop_last() =~= init);
        assert(init.push(last)[0] == init[0]);
    }
}

/// A run of digits without a needless leading zero is the way its value is
/// written.
pub proof fn lemma_digits_canonical(ds: Seq<char>)
    requires
        ds.len() >= 1,
        all_digits(ds),
        ds.len() == 1 || ds[0] != '0',
    ensures
        digits(digits_value(ds)) == ds,
        ds.len() > 1 ==> digits_value(ds) >= 10,
    decreases ds.len(),
{
    let d = ds.last() as int - 0x30;
    assert(is_digit(ds.last()));
    if ds.len() == 1 {
        assert(ds.drop_last() =~= Seq::<char>::empty());
        assert(digits_value(ds.drop_last()) == 0);
        assert(digits_value(ds) == d);
        assert(digits(d as nat) =~= ds);
    } else {
        let init = ds.drop_last();
        assert(init[0] == ds[0]);
        assert(all_digits(init)) by {
            assert forall|k: int| 0 <= k < init.len() implies is_digit(#[trigger] init[k]) by {
                assert(init[k] == ds[k]);
            }
        }
        lemma_digits_canonical(init);
        let v = digits_value(init);
        lemma_digits(v);
        assert(v >= 1);
        assert(digits_value(ds) == v * 10 + d);
        assert((v * 10 + d) / 10 == v);
        assert((v * 10 + d) % 10 == d);
        assert(digits((v * 10 + d) as nat) =~= ds);
    }
}

/// The value of a run of digits is at least that of any shorter run it
/// starts with.
pub proof fn lemma_digits_value_grows(ds: Seq<char>, k: int)
    requires
        all_digits(ds),
        0 <= k <= ds.len(),
    ensures
        digits_value(ds.subrange(0, k)) <= digits_value(ds),
    decreases ds.len() - k,
{
    if k == ds.len() {
        assert(ds.subrange(0, k) =~= ds);
    } else {
        lemma_digits_value_grows(ds, k + 1);
        let longer = ds.subrange(0, k + 1);
        assert(longer.drop_last() =~= ds.subrange(0, k));
        assert(is_digit(ds[k]));
        assert(longer.last() == ds[k]);
    }
}

/// Across digits the run goes on.
pub proof fn lemma_run_end_skips(input: Seq<char>, i: int, j: int)
    requires
        0 <= i <= j <= input.len(),
        all_digits(input.subrange(i, j)),
    ensures
        run_end(input, i) == run_end(input, j),
    decreases j - i,
{
    if i < j {
        assert(input.subrange(i, j)[0] == input[i]);
        assert(all_digits(input.subrange(i + 1, j))) by {
            assert forall|k: int| 0 <= k < j - (i + 1) implies is_digit(
                #[trigger] input.subrange(i + 1, j)[k],
            ) by {
                assert(input.subrange(i, j)[k + 1] == input[i + 1 + k]);
            }
        }
        lemma_run_end_skips(input, i + 1, j);
    }
}

/// The run of digits ends behind the last digit, and holds digits only.
pub proof fn lemma_run_end(input: Seq<char>, i: int)
    requires
        0 <= i <= input.len(),
    ensures
        i <= run_end(input, i) <= input.len(),
        all_digits(input.subrange(i, run_end(input, i))),
        run_end(input, i) < input.len() ==> !is_digit(input[run_end(input, i)]),
    decreases input.len() - i,
{
    if i < input.len() && is_digit(input[i]) {
        lemma_run_end(input, i + 1);
        let end = run_end(input, i);
        assert forall|k: int| 0 <= k < end - i implies is_digit(
            #[trigger] input.subrange(i, end)[k],
        ) by {
            if k > 0 {
                assert(input.subrange(i + 1, end)[k - 1] == input[i + k]);
            }
        }
    }
}

/// Where the digits of a number stand and no digit follows them, they are
/// the whole run.
pub proof fn lemma_digits_run(input: Seq<char>, start: int, n: nat)
    requires
        occurs_at(input, start, digits(n)),
        !(start + digits(n).len() < input.len() && is_digit(input[start + digits(n).len()])),
    ensures
        run_end(input, start) == start + digits(n).len(),
        input.subrange(start, run_end(input, start)) == digits(n),
{
    lemma_digits(n);
    lemma_run_end_skips(input, start, start + digits(n).len());
}

/// Two integers that stand at one index, each with no digit behind it, are
/// the same integer.
pub proof fn lemma_number_unique(input: Seq<char>, pos: int, v: int, w: int)
    requires
        number_at(input, pos, v),
        number_at(input, pos, w),
    ensures
        v == w,
{
    let n = (if v < 0 {
        -v
    } else {
        v
    }) as nat;
    let m = (if w < 0 {
        -w
    } else {
        w
    }) as nat;
    lemma_digits(n);
    lemma_digits(m);
    if v < 0 {
        lemma_occurs_concat(input, pos, seq!['-'], digits(n));
        lemma_occurs_index(input, pos, seq!['-'], 0);
    } else {
        lemma_occurs_index(input, pos, digits(n), 0);
        assert(is_digit(digits(n)[0]));
    }
    if w < 0 {
        lemma_occurs_concat(input, pos, seq!['-'], digits(m));
        lemma_occurs_index(input, pos, seq!['-'], 0);
    } else {
        lemma_occurs_index(input, pos, digits(m), 0);
        assert(is_digit(digits(m)[0]));
    }
    let start = if v < 0 {
        pos + 1
    } else {
        pos
    };
    lemma_digits_run(input, start, n);
    lemma_digits_run(input, start, m);
}

fn is_digit_char(c: char) -> (b: bool)
    ensures
        b == is_digit(c),
{
    let code = c as u32;
    0x30 <= code && code <= 0x39
}

/// Reads the run of digits that starts at index `start`: its value and the
/// index behind it, unless the value is over `limit`.
fn read_digit_run(input: &Vec<char>, start: usize, limit: u64) -> (r: Option<(u64, usize)>)
    requires
        start <= input.len(),
    ensures
        match r {
            Some((value, end)) => {
                &&& start <= end <= input.len()
                &&& end == run_end(input@, start as int)
                &&& value == digits_value(input@.subrange(start as int, end as int))
                &&& value <= limit
            },
            None => digits_value(
                input@.subrange(start as int, run_end(input@, start as int)),
            ) > limit,
        },
{
    let mut cur: usize = start;
    let mut acc: u64 = 0;
    assert(input@.subrange(start as int, start as int) =~= Seq::<char>::empty());
    while cur < input.len() && is_digit_char(input[cur])
        invariant
            start <= cur <= input.len(),
            run_end(input@, start as int) == run_end(input@, cur as int),
            acc == digits_value(input@.subrange(start as int, cur as int)),
            acc <= limit,
        decreases input.len() - cur,
    {
        let d: u64 = (input[cur] as u32 - 0x30) as u64;
        let ghost longer = input@.subrange(start as int, cur + 1);
        proof {
            assert(longer.drop_last() =~= input@.subrange(start as int, cur as int));
            assert(longer.last() == input@[cur as int]);
            assert(digits_value(longer) == acc * 10 + d);
        }
        if d > limit || acc > (limit - d) / 10 {
            proof {
                let end = run_end(input@, start as int);
                lemma_run_end(input@, start as int);
                lemma_run_end(input@, cur + 1);
                let run = input@.subrange(start as int, end);
                lemma_digits_value_grows(run, cur + 1 - start);
                assert(run.subrange(0, cur + 1 - start) =~= longer);
            }
            return None;
        }
        acc = acc * 10 + d;
        cur = cur + 1;
    }
    Some((acc, cur))
}

/// Reads the integer that starts at index `pos`, up to the first character
/// that is no digit: the integer, and the index behind it. Only the form
/// that [`decimal`] writes is read, and only what an `i64` holds.
pub(crate) fn read_number(input: &Vec<char>, pos: usize) -> (r: Option<(i64, usize)>)
    ensures
        r matches Some((v, end)) ==> number_at(input@, pos as int, v as int) && end == pos
            + decimal(v as int).len(),
        forall|v: int|
            i64::MIN <= v <= i64::MAX && #[trigger] number_at(input@, pos as int, v) ==> (
            r matches Some((x, _)) && x == v),
{
    if pos >= input.len() {
        proof {
            assert forall|v: int| #[trigger] number_at(input@, pos as int, v) implies false by {
                lemma_digits((if v < 0 {
                    -v
                } else {
                    v
                }) as nat);
            }
        }
        return None;
    }
    let negative = input[pos] == '-';
    let start: usize = if negative {
        pos + 1
    } else {
        pos
    };
    let limit: u64 = if negative {
        0x8000_0000_0000_0000
    } else {
        0x7fff_ffff_ffff_ffff
    };
    let run = read_digit_run(input, start, limit);
    let r = match run {
        None => None,
        Some((value, end)) => {
            if end == start || (end - start > 1 && input[start] == '0') || (negative && value
                == 0) {
                None
            } else if !negative {
                Some((value as i64, end))
            } else if value == limit {
                Some((i64::MIN, end))
            } else {
                Some((-(value as i64), end))
            }
        },
    };
    proof {
        let end = run_end(input@, start as int);
        let ds = input@.subrange(start as int, end);
        lemma_run_end(input@, start as int);
        if r is Some {
            assert(ds[0] == input@[start as int]);
            lemma_digits_canonical(ds);
            if negative {
                assert(input@.subrange(pos as int, pos + 1) =~= seq!['-']);
                lemma_occurs_concat(input@, pos as int, seq!['-'], ds);
            }
        }
        assert forall|v: int|
            i64::MIN <= v <= i64::MAX && #[trigger] number_at(input@, pos as int, v) implies (
        r matches Some((x, _)) && x == v) by {
            let n = (if v < 0 {
                -v
            } else {
                v
            }) as nat;
            lemma_digits(n);
            if v < 0 {
                lemma_occurs_concat(input@, pos as int, seq!['-'], digits(n));
                lemma_occurs_index(input@, pos as int, seq!['-'], 0);
            } else {
                lemma_occurs_index(input@, pos as int, digits(n), 0);
                assert(is_digit(digits(n)[0]));
            }
            lemma_digits_run(input@, start as int, n);
            assert(ds[0] == input@[start as int]);
        }
    }
    r
}

fn digit_char_of(d: u64) -> (c: char)
    requires
        d < 10,
    ensures
        c == digit_char(d as int),
{
    ((0x30 + d) as u8) as char
}

/// Appends the digits of `n` to `out`.
fn push_digits(out: &mut String, n: u64)
    ensures
        final(out)@ == old(out)@ + digits(n as nat),
    decreases n,
{
    let ghost before = out@;
    if n >= 10 {
        push_digits(out, n / 10);
    }
    out.push(digit_char_of(n % 10));
    assert(out@ =~= before + digits(n as nat));
}

/// Appends `v` to `out` in decimal.
pub(crate) fn push_decimal(out: &mut String, v: i64)
    ensures
        final(out)@ == old(out)@ + decimal(v as int),
{
    let ghost before = out@;
    if v < 0 {
        out.push('-');
        let magnitude: u64 = if v == i64::MIN {
            0x8000_0000_0000_0000
        } else {
            (-v) as u64
        };
        push_digits(out, magnitude);
    } else {
        push_digits(out, v as u64);
    }
    assert(out@ =~= before + decimal(v as int));
}

} // verus!
