use vstd::prelude::*;
use vstd::std_specs::iter::IteratorSpec;

verus! {

broadcast use vstd::string::group_string_axioms;

/// Relies on std's `FromIterator` impl for `String`: collecting an iterator
/// of `char`s yields the string made of exactly those characters in order.
#[verifier::external_body]
pub fn chars_to_string(v: &Vec<char>) -> (s: String)
    ensures
        s@ == v@,
{
    v.iter().collect()
}

/// The characters of a string slice, as a vector.
pub fn str_chars(s: &str) -> (v: Vec<char>)
    ensures
        v@ == s@,
{
    let mut v: Vec<char> = Vec::new();
    let mut it = s.chars();
    loop
        invariant_except_break
            v@ + it.remaining() == s@,
            it.decrease() is Some,
        ensures
            v@ == s@,
        decreases it.decrease()->0,
    {
        match it.next() {
            Some(c) => {
                v.push(c);
                assert(v@ + it.remaining() =~= s@);
            },
            None => {
                assert(v@ =~= s@);
                break;
            },
        }
    }
    v
}

/// Appends the characters of `s` to `out`.
pub fn push_str_chars(out: &mut Vec<char>, s: &str)
    ensures
        final(out)@ == old(out)@ + s@,
{
    let cs = str_chars(s);
    let n = cs.len();
    for i in 0..n
        invariant
            cs@ == s@,
            n == cs@.len(),
            out@ == old(out)@ + s@.take(i as int),
    {
        out.push(cs[i]);
        assert(out@ =~= old(out)@ + s@.take(i + 1));
    }
    assert(out@ =~= old(out)@ + s@);
}

/// The character for one decimal digit.
pub open spec fn dec_digit(d: nat) -> char {
    if d == 0 {
        '0'
    } else if d == 1 {
        '1'
    } else if d == 2 {
        '2'
    } else if d == 3 {
        '3'
    } else if d == 4 {
        '4'
    } else if d == 5 {
        '5'
    } else if d == 6 {
        '6'
    } else if d == 7 {
        '7'
    } else if d == 8 {
        '8'
    } else {
        '9'
    }
}

/// The decimal rendering of a natural number, most significant digit first,
/// with no leading zeros (except for the single digit of zero itself).
pub open spec fn dec_of(n: nat) -> Seq<char>
    decreases n,
{
    if n < 10 {
        seq![dec_digit(n)]
    } else {
        dec_of(n / 10).push(dec_digit(n % 10))
    }
}

fn dec_digit_exec(d: u64) -> (c: char)
    requires
        d < 10,
    ensures
        c == dec_digit(d as nat),
{
    match d {
        0 => '0',
        1 => '1',
        2 => '2',
        3 => '3',
        4 => '4',
        5 => '5',
        6 => '6',
        7 => '7',
        8 => '8',
        _ => '9',
    }
}

/// Appends the decimal rendering of `n` to `out`.
pub fn push_decimal(out: &mut Vec<char>, n: u64)
    ensures
        final(out)@ == old(out)@ + dec_of(n as nat),
{
    let mut digits: Vec<char> = Vec::new();
    let mut m: u64 = n;
    loop
        invariant_except_break
            digits@.len() == 0 ==> m == n,
            digits@.len() > 0 ==> m > 0 && dec_of(n as nat) == dec_of(m as nat) + digits@,
        ensures
            dec_of(n as nat) == digits@,
        decreases m,
    {
        let d = m % 10;
        let c = dec_digit_exec(d);
        let ghost pre = digits@;
        digits.insert(0, c);
        proof {
            assert(digits@ =~= seq![c] + pre);
            if pre.len() == 0 {
                if m < 10 {
                    assert(dec_of(n as nat) =~= seq![c] + pre);
                } else {
                    assert(dec_of(n as nat) =~= dec_of((m / 10) as nat) + (seq![c] + pre));
                }
            } else {
                if m < 10 {
                    assert(dec_of(m as nat) =~= seq![c]);
                    assert(dec_of(n as nat) =~= seq![c] + pre);
                } else {
                    assert(dec_of(m as nat) =~= dec_of((m / 10) as nat) + seq![c]);
                    assert(dec_of(n as nat) =~= dec_of((m / 10) as nat) + (seq![c] + pre));
                }
            }
        }
        m = m / 10;
        if m == 0 {
            break;
        }
    }
    let k = digits.len();
    for i in 0..k
        invariant
            k == digits@.len(),
            dec_of(n as nat) == digits@,
            out@ == old(out)@ + digits@.take(i as int),
    {
        out.push(digits[i]);
        assert(out@ =~= old(out)@ + digits@.take(i + 1));
    }
    assert(out@ =~= old(out)@ + digits@);
}

/// The decimal rendering of `n` as a string, as `u64::to_string` writes it.
pub fn u64_to_decimal(n: u64) -> (s: String)
    ensures
        s@ == dec_of(n as nat),
{
    let mut v: Vec<char> = Vec::new();
    push_decimal(&mut v, n);
    chars_to_string(&v)
}

/// A decimal rendering has at least one character.
pub proof fn lemma_dec_of_len(n: nat)
    ensures
        dec_of(n).len() >= 1,
    decreases n,
{
    if n >= 10 {
        lemma_dec_of_len(n / 10);
    }
}

/// Distinct numbers have distinct decimal renderings.
pub proof fn lemma_dec_of_injective(a: nat, b: nat)
    ensures
        dec_of(a) == dec_of(b) ==> a == b,
    decreases a + b,
{
    if dec_of(a) == dec_of(b) {
        lemma_dec_of_len(a);
        lemma_dec_of_len(b);
        if a < 10 && b < 10 {
            assert(dec_of(a)[0] == dec_digit(a));
            assert(dec_of(b)[0] == dec_digit(b));
            assert(a == b);
        } else if a < 10 {
            lemma_dec_of_len(b / 10);
            assert(dec_of(b).len() >= 2);
            assert(false);
        } else if b < 10 {
            lemma_dec_of_len(a / 10);
            assert(dec_of(a).len() >= 2);
            assert(false);
        } else {
            assert(dec_of(a).last() == dec_digit(a % 10));
            assert(dec_of(b).last() == dec_digit(b % 10));
            assert(a % 10 == b % 10);
            assert(dec_of(a).drop_last() =~= dec_of(a / 10));
            assert(dec_of(b).drop_last() =~= dec_of(b / 10));
            lemma_dec_of_injective(a / 10, b / 10);
            assert(a == 10 * (a / 10) + a % 10) by (nonlinear_arith);
            assert(b == 10 * (b / 10) + b % 10) by (nonlinear_arith);
        }
    }
}

/// Whether two string slices hold the same characters.
pub fn strings_equal(a: &str, b: &str) -> (r: bool)
    ensures
        r == (a@ == b@),
{
    let va = str_chars(a);
    let vb = str_chars(b);
    if va.len() != vb.len() {
        return false;
    }
    let n = va.len();
    for i in 0..n
        invariant
            va@ == a@,
            vb@ == b@,
            n == va@.len(),
            va@.len() == vb@.len(),
            forall|j: int| 0 <= j < i ==> a@[j] == b@[j],
    {
        if va[i] != vb[i] {
            return false;
        }
    }
    proof {
        assert(a@ =~= b@);
    }
    true
}

/// The parts joined into one sequence, with `sep` between consecutive parts.
pub open spec fn join_with(parts: Seq<Seq<char>>, sep: Seq<char>) -> Seq<char>
    decreases parts.len(),
{
    if parts.len() == 0 {
        Seq::<char>::empty()
    } else if parts.len() == 1 {
        parts[0]
    } else {
        join_with(parts.drop_last(), sep) + sep + parts.last()
    }
}

/// Joins the strings with a comma and a space between consecutive entries,
/// the display form of an author list.
pub fn join_comma(parts: &Vec<String>) -> (s: String)
    ensures
        s@ == join_with(parts.deep_view(), ", "@),
{
    let mut out: Vec<char> = Vec::new();
    let n = parts.len();
    for i in 0..n
        invariant
            n == parts@.len(),
            out@ == join_with(parts.deep_view().take(i as int), ", "@),
    {
        if i > 0 {
            push_str_chars(&mut out, ", ");
        }
        push_str_chars(&mut out, parts[i].as_str());
        proof {
            let dv = parts.deep_view();
            assert(dv[i as int] == parts@[i as int]@);
            assert(dv.take(i + 1).drop_last() =~= dv.take(i as int));
            assert(dv.take(i + 1).last() == dv[i as int]);
            if i == 0 {
                assert(out@ =~= join_with(dv.take(1), ", "@));
            } else {
                assert(out@ =~= join_with(dv.take(i as int), ", "@) + ", "@ + dv[i as int]);
            }
        }
    }
    proof {
        assert(parts.deep_view().take(n as int) =~= parts.deep_view());
    }
    chars_to_string(&out)
}

/// The character for one hexadecimal digit, lower case.
pub open spec fn hex_digit(d: nat) -> char {
    if d < 10 {
        dec_digit(d)
    } else if d == 10 {
        'a'
    } else if d == 11 {
        'b'
    } else if d == 12 {
        'c'
    } else if d == 13 {
        'd'
    } else if d == 14 {
        'e'
    } else {
        'f'
    }
}

fn hex_digit_exec(d: u32) -> (c: char)
    requires
        d < 16,
    ensures
        c == hex_digit(d as nat),
{
    match d {
        0 => '0',
        1 => '1',
        2 => '2',
        3 => '3',
        4 => '4',
        5 => '5',
        6 => '6',
        7 => '7',
        8 => '8',
        9 => '9',
        10 => 'a',
        11 => 'b',
        12 => 'c',
        13 => 'd',
        14 => 'e',
        _ => 'f',
    }
}

/// How one character is written inside a JSON string literal: the quote,
/// the backslash and the control characters are escaped, everything else
/// stands for itself.
pub open spec fn json_escape_char(c: char) -> Seq<char> {
    if c == '"' {
        seq!['\\', '"']
    } else if c == '\\' {
        seq!['\\', '\\']
    } else if c == '\u{8}' {
        seq!['\\', 'b']
    } else if c == '\t' {
        seq!['\\', 't']
    } else if c == '\n' {
        seq!['\\', 'n']
    } else if c == '\u{c}' {
        seq!['\\', 'f']
    } else if c == '\r' {
        seq!['\\', 'r']
    } else if (c as u32) < 0x20 {
        seq!['\\', 'u', '0', '0', hex_digit((c as u32 / 16) as nat), hex_digit((c as u32 % 16) as nat)]
    } else {
        seq![c]
    }
}

/// The body of a JSON string literal for the characters `s`.
pub open spec fn json_escape(s: Seq<char>) -> Seq<char>
    decreases s.len(),
{
    if s.len() == 0 {
        Seq::<char>::empty()
    } else {
        json_escape(s.drop_last()) + json_escape_char(s.last())
    }
}

/// A whole JSON string literal: quotes around the escaped characters.
pub open spec fn json_quoted(s: Seq<char>) -> Seq<char> {
    seq!['"'] + json_escape(s) + seq!['"']
}

fn push_escaped_char(out: &mut Vec<char>, c: char)
    ensures
        final(out)@ == old(out)@ + json_escape_char(c),
{
    if c == '"' {
        out.push('\\');
        out.push('"');
    } else if c == '\\' {
        out.push('\\');
        out.push('\\');
    } else if c == '\u{8}' {
        out.push('\\');
        out.push('b');
    } else if c == '\t' {
        out.push('\\');
        out.push('t');
    } else if c == '\n' {
        out.push('\\');
        out.push('n');
    } else if c == '\u{c}' {
        out.push('\\');
        out.push('f');
    } else if c == '\r' {
        out.push('\\');
        out.push('r');
    } else {
        let u = c as u32;
        if u < 0x20 {
            out.push('\\');
            out.push('u');
            out.push('0');
            out.push('0');
            out.push(hex_digit_exec(u / 16));
            out.push(hex_digit_exec(u % 16));
        } else {
            out.push(c);
        }
    }
    assert(out@ =~= old(out)@ + json_escape_char(c));
}

/// Appends the escaped form of `s` to `out`.
pub fn push_json_escaped(out: &mut Vec<char>, s: &str)
    ensures
        final(out)@ == old(out)@ + json_escape(s@),
{
    let cs = str_chars(s);
    let n = cs.len();
    for i in 0..n
        invariant
            cs@ == s@,
            n == cs@.len(),
            out@ == old(out)@ + json_escape(s@.take(i as int)),
    {
        push_escaped_char(out, cs[i]);
        proof {
            assert(s@.take(i + 1).drop_last() =~= s@.take(i as int));
            assert(s@.take(i + 1).last() == s@[i as int]);
            assert(out@ =~= old(out)@ + json_escape(s@.take(i + 1)));
        }
    }
    assert(s@.take(n as int) =~= s@);
}

/// Appends a JSON string literal holding `s` to `out`.
pub fn push_json_quoted(out: &mut Vec<char>, s: &str)
    ensures
        final(out)@ == old(out)@ + json_quoted(s@),
{
    out.push('"');
    push_json_escaped(out, s);
    out.push('"');
    assert(out@ =~= old(out)@ + json_quoted(s@));
}

/// The decimal rendering of `n`, zero-padded on the left to two digits.
pub open spec fn pad2_of(n: nat) -> Seq<char> {
    if n < 10 {
        seq!['0', dec_digit(n)]
    } else {
        dec_of(n)
    }
}

/// Appends the two-digit-padded rendering of `n` to `out`.
pub fn push_pad2(out: &mut Vec<char>, n: u64)
    ensures
        final(out)@ == old(out)@ + pad2_of(n as nat),
{
    if n < 10 {
        out.push('0');
        out.push(dec_digit_exec(n));
        assert(out@ =~= old(out)@ + pad2_of(n as nat));
    } else {
        push_decimal(out, n);
    }
}

/// The decimal rendering of `n`, zero-padded on the left to four digits.
pub open spec fn pad4_of(n: nat) -> Seq<char> {
    if n < 10 {
        seq!['0', '0', '0', dec_digit(n)]
    } else if n < 100 {
        seq!['0', '0'] + dec_of(n)
    } else if n < 1000 {
        seq!['0'] + dec_of(n)
    } else {
        dec_of(n)
    }
}

/// A year as it is written in a date: four zero-padded digits, with a
/// leading minus sign for a year before year zero.
pub open spec fn year_of(y: int) -> Seq<char> {
    if y < 0 {
        seq!['-'] + pad4_of((-y) as nat)
    } else {
        pad4_of(y as nat)
    }
}

/// Appends the four-digit-padded rendering of `n` to `out`.
pub fn push_pad4(out: &mut Vec<char>, n: u64)
    ensures
        final(out)@ == old(out)@ + pad4_of(n as nat),
{
    if n < 10 {
        out.push('0');
        out.push('0');
        out.push('0');
        out.push(dec_digit_exec(n));
        assert(out@ =~= old(out)@ + pad4_of(n as nat));
    } else if n < 100 {
        out.push('0');
        out.push('0');
        push_decimal(out, n);
        assert(out@ =~= old(out)@ + pad4_of(n as nat));
    } else if n < 1000 {
        out.push('0');
        push_decimal(out, n);
        assert(out@ =~= old(out)@ + pad4_of(n as nat));
    } else {
        push_decimal(out, n);
    }
}

/// Appends a year to `out`.
pub fn push_year(out: &mut Vec<char>, y: i32)
    ensures
        final(out)@ == old(out)@ + year_of(y as int),
{
    if y < 0 {
        out.push('-');
        let m = -(y as i64);
        push_pad4(out, m as u64);
        assert(out@ =~= old(out)@ + year_of(y as int));
    } else {
        push_pad4(out, y as u64);
    }
}

} // verus!
