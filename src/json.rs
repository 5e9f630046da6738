//! A flat JSON record codec: an object whose members are `null`, an integer or
//! a string. The encoder writes compact JSON (no whitespace, the short escapes
//! and `\u00XX` for other control characters); the decoder reads back what the
//! encoder writes, and also takes `\/` and numbers with leading zeros.
use vstd::prelude::*;

verus! {

/// A member value, as mathematics.
pub enum JVal {
    Null,
    Num(int),
    Str(Seq<char>),
}

/// A member value.
pub enum Value {
    Null,
    Num(i128),
    Text(Vec<char>),
}

impl View for Value {
    type V = JVal;

    open spec fn view(&self) -> JVal {
        match self {
            Value::Null => JVal::Null,
            Value::Num(n) => JVal::Num(*n as int),
            Value::Text(t) => JVal::Str(t@),
        }
    }
}

/// One `"key":value` member of a record.
pub struct Member {
    pub key: Vec<char>,
    pub value: Value,
}

pub open spec fn members_view(ms: Seq<Member>) -> Seq<(Seq<char>, JVal)> {
    ms.map_values(|m: Member| (m.key@, m.value@))
}

// ---------------------------------------------------------------- numbers

/// The number a value holds (0 for any other value).
pub open spec fn num_of(v: JVal) -> int {
    match v {
        JVal::Num(n) => n,
        _ => 0,
    }
}


pub open spec fn is_digit(c: char) -> bool {
    '0' <= c && c <= '9'
}

pub open spec fn digit_val(c: char) -> int {
    c as int - 48
}

pub open spec fn digit_char(d: int) -> char {
    (d + 48) as char
}

/// Decimal text of a natural number, without leading zeros.
pub open spec fn nat_text(n: nat) -> Seq<char>
    decreases n,
{
    if n < 10 {
        seq![digit_char(n as int)]
    } else {
        nat_text(n / 10) + seq![digit_char((n % 10) as int)]
    }
}

/// Decimal text of an integer, with a leading `-` when negative.
pub open spec fn int_text(n: int) -> Seq<char> {
    if n < 0 {
        seq!['-'] + nat_text((-n) as nat)
    } else {
        nat_text(n as nat)
    }
}

/// The value of a run of decimal digits.
pub open spec fn digits_value(d: Seq<char>) -> nat
    decreases d.len(),
{
    if d.len() == 0 {
        0
    } else {
        digits_value(d.drop_last()) * 10 + digit_val(d.last()) as nat
    }
}

/// The first position at or after `i` that does not hold a digit.
pub open spec fn digits_end(s: Seq<char>, i: int) -> int
    decreases s.len() - i,
{
    if 0 <= i < s.len() && is_digit(s[i]) {
        digits_end(s, i + 1)
    } else {
        i
    }
}

pub open spec fn parse_nat_at(s: Seq<char>, i: int) -> Option<(nat, int)> {
    let j = digits_end(s, i);
    if j == i {
        None
    } else {
        Some((digits_value(s.subrange(i, j)), j))
    }
}

pub open spec fn parse_int_at(s: Seq<char>, i: int) -> Option<(int, int)> {
    if 0 <= i < s.len() && s[i] == '-' {
        match parse_nat_at(s, i + 1) {
            Some((n, j)) => Some((-n, j)),
            None => None,
        }
    } else {
        match parse_nat_at(s, i) {
            Some((n, j)) => Some((n as int, j)),
            None => None,
        }
    }
}

// ---------------------------------------------------------------- strings

pub open spec fn is_hex(c: char) -> bool {
    is_digit(c) || ('a' <= c && c <= 'f')
}

pub open spec fn hex_val(c: char) -> int {
    if is_digit(c) {
        digit_val(c)
    } else {
        c as int - 87
    }
}

pub open spec fn hex_char(d: u32) -> char {
    if d < 10 {
        digit_char(d as int)
    } else {
        (d + 87) as char
    }
}

/// The letter of the two-character escape of a character, where it has one.
pub open spec fn short_escape_letter(c: char) -> Option<char> {
    if c == '"' {
        Some('"')
    } else if c == '\\' {
        Some('\\')
    } else if c == '\n' {
        Some('n')
    } else if c == '\r' {
        Some('r')
    } else if c == '\t' {
        Some('t')
    } else if c == '\x08' {
        Some('b')
    } else if c == '\x0c' {
        Some('f')
    } else {
        None
    }
}

/// The character that a two-character escape stands for, by its letter.
pub open spec fn short_escaped(l: char) -> Option<char> {
    if l == '"' {
        Some('"')
    } else if l == '\\' {
        Some('\\')
    } else if l == '/' {
        Some('/')
    } else if l == 'n' {
        Some('\n')
    } else if l == 'r' {
        Some('\r')
    } else if l == 't' {
        Some('\t')
    } else if l == 'b' {
        Some('\x08')
    } else if l == 'f' {
        Some('\x0c')
    } else {
        None
    }
}

/// How one character is written inside a string literal.
pub open spec fn escape_char(c: char) -> Seq<char> {
    if short_escape_letter(c) is Some {
        seq!['\\', short_escape_letter(c)->0]
    } else if (c as u32) < 32 {
        seq!['\\', 'u', '0', '0', hex_char(c as u32 / 16), hex_char(c as u32 % 16)]
    } else {
        seq![c]
    }
}

pub open spec fn escape(s: Seq<char>) -> Seq<char>
    decreases s.len(),
{
    if s.len() == 0 {
        Seq::empty()
    } else {
        escape_char(s[0]) + escape(s.drop_first())
    }
}

/// A string literal: the escaped text between double quotes.
pub open spec fn quoted(s: Seq<char>) -> Seq<char> {
    seq!['"'] + escape(s) + seq!['"']
}

/// Length of the escape sequence at `i` (which holds a backslash), or 0 when
/// none is there.
pub open spec fn escape_len(s: Seq<char>, i: int) -> int {
    if i + 1 < s.len() && short_escaped(s[i + 1]) is Some {
        2
    } else if i + 5 < s.len() && s[i + 1] == 'u' && s[i + 2] == '0' && s[i + 3] == '0'
        && is_hex(s[i + 4]) && is_hex(s[i + 5]) {
        6
    } else {
        0
    }
}

/// The character that the escape sequence at `i` stands for.
pub open spec fn escaped_char(s: Seq<char>, i: int) -> char {
    if escape_len(s, i) == 2 {
        short_escaped(s[i + 1])->0
    } else {
        ((16 * hex_val(s[i + 4]) + hex_val(s[i + 5])) as u32) as char
    }
}

/// Reads the rest of a string literal from `i` (just after its opening quote)
/// to its closing quote: the characters it stands for and the position after it.
pub open spec fn parse_str_body(s: Seq<char>, i: int) -> Option<(Seq<char>, int)>
    decreases s.len() - i,
{
    if i < 0 || i >= s.len() {
        None
    } else if s[i] == '"' {
        Some((Seq::empty(), i + 1))
    } else if s[i] == '\\' {
        let n = escape_len(s, i);
        if n == 0 {
            None
        } else {
            match parse_str_body(s, i + n) {
                Some((t, k)) => Some((seq![escaped_char(s, i)] + t, k)),
                None => None,
            }
        }
    } else if (s[i] as u32) < 32 {
        None
    } else {
        match parse_str_body(s, i + 1) {
            Some((t, k)) => Some((seq![s[i]] + t, k)),
            None => None,
        }
    }
}

pub open spec fn parse_quoted_at(s: Seq<char>, i: int) -> Option<(Seq<char>, int)> {
    if 0 <= i < s.len() && s[i] == '"' {
        parse_str_body(s, i + 1)
    } else {
        None
    }
}

// ---------------------------------------------------------------- records

pub open spec fn null_text() -> Seq<char> {
    seq!['n', 'u', 'l', 'l']
}

pub open spec fn value_text(v: JVal) -> Seq<char> {
    match v {
        JVal::Null => null_text(),
        JVal::Num(n) => int_text(n),
        JVal::Str(t) => quoted(t),
    }
}

pub open spec fn member_text(m: (Seq<char>, JVal)) -> Seq<char> {
    quoted(m.0) + seq![':'] + value_text(m.1)
}

/// The members from the first on, each followed by `,` and the last by `}`.
pub open spec fn members_text(ms: Seq<(Seq<char>, JVal)>) -> Seq<char>
    decreases ms.len(),
{
    if ms.len() == 0 {
        seq!['}']
    } else if ms.len() == 1 {
        member_text(ms[0]) + seq!['}']
    } else {
        member_text(ms[0]) + seq![','] + members_text(ms.drop_first())
    }
}

/// The canonical text of a record.
pub open spec fn record_text(ms: Seq<(Seq<char>, JVal)>) -> Seq<char> {
    seq!['{'] + members_text(ms)
}

pub open spec fn has_at(s: Seq<char>, i: int, l: Seq<char>) -> bool {
    0 <= i && i + l.len() <= s.len() && s.subrange(i, i + l.len()) == l
}

pub open spec fn parse_value_at(s: Seq<char>, i: int) -> Option<(JVal, int)> {
    if has_at(s, i, null_text()) {
        Some((JVal::Null, i + 4))
    } else if 0 <= i < s.len() && s[i] == '"' {
        match parse_str_body(s, i + 1) {
            Some((t, j)) => Some((JVal::Str(t), j)),
            None => None,
        }
    } else {
        match parse_int_at(s, i) {
            Some((n, j)) => Some((JVal::Num(n), j)),
            None => None,
        }
    }
}

pub open spec fn parse_member_at(s: Seq<char>, i: int) -> Option<((Seq<char>, JVal), int)> {
    match parse_quoted_at(s, i) {
        Some((k, j)) => if 0 <= j < s.len() && s[j] == ':' {
            match parse_value_at(s, j + 1) {
                Some((v, e)) => Some(((k, v), e)),
                None => None,
            }
        } else {
            None
        },
        None => None,
    }
}

/// Reads members from `i` up to and including the closing brace.
pub open spec fn parse_members_at(s: Seq<char>, i: int) -> Option<(Seq<(Seq<char>, JVal)>, int)>
    decreases s.len() - i,
{
    match parse_member_at(s, i) {
        Some((m, j)) => if 0 <= j < s.len() && s[j] == '}' {
            Some((seq![m], j + 1))
        } else if 0 <= j < s.len() && s[j] == ',' && j > i {
            match parse_members_at(s, j + 1) {
                Some((rest, k)) => Some((seq![m] + rest, k)),
                None => None,
            }
        } else {
            None
        },
        None => None,
    }
}

/// Reads a whole text as one record, with nothing after it.
pub open spec fn parse_record(s: Seq<char>) -> Option<Seq<(Seq<char>, JVal)>> {
    if s.len() == 2 && s[0] == '{' && s[1] == '}' {
        Some(Seq::empty())
    } else if s.len() > 0 && s[0] == '{' {
        match parse_members_at(s, 1) {
            Some((ms, k)) => if k == s.len() {
                Some(ms)
            } else {
                None
            },
            None => None,
        }
    } else {
        None
    }
}

/// A number is carried by a `Value` only within the range of `i128`.
pub open spec fn fits(v: JVal) -> bool {
    match v {
        JVal::Num(n) => i128::MIN <= n <= i128::MAX,
        _ => true,
    }
}

pub open spec fn all_fit(ms: Seq<(Seq<char>, JVal)>) -> bool {
    forall|k: int| 0 <= k < ms.len() ==> fits(#[trigger] ms[k].1)
}

// ---------------------------------------------------------------- round trip

proof fn lemma_has_at_split(s: Seq<char>, i: int, a: Seq<char>, b: Seq<char>)
    requires
        has_at(s, i, a + b),
    ensures
        has_at(s, i, a),
        has_at(s, i + a.len(), b),
{
    let w = s.subrange(i, i + a.len() + b.len());
    assert(w == a + b);
    assert(s.subrange(i, i + a.len()) =~= w.subrange(0, a.len() as int));
    assert(w.subrange(0, a.len() as int) =~= a);
    assert(s.subrange(i + a.len(), i + a.len() + b.len()) =~= w.subrange(
        a.len() as int,
        (a.len() + b.len()) as int,
    ));
    assert(w.subrange(a.len() as int, (a.len() + b.len()) as int) =~= b);
}

proof fn lemma_has_at_index(s: Seq<char>, i: int, a: Seq<char>, k: int)
    requires
        has_at(s, i, a),
        0 <= k < a.len(),
    ensures
        s[i + k] == a[k],
{
    assert(s.subrange(i, i + a.len())[k] == s[i + k]);
}

proof fn lemma_digit_char(d: int)
    requires
        0 <= d < 10,
    ensures
        is_digit(digit_char(d)),
        digit_val(digit_char(d)) == d,
{
}

proof fn lemma_hex_char(d: u32)
    requires
        d < 16,
    ensures
        is_hex(hex_char(d)),
        hex_val(hex_char(d)) == d,
{
    if d < 10 {
        lemma_digit_char(d as int);
    }
}

proof fn lemma_nat_text(n: nat)
    ensures
        nat_text(n).len() >= 1,
        forall|k: int| 0 <= k < nat_text(n).len() ==> #[trigger] is_digit(nat_text(n)[k]),
        digits_value(nat_text(n)) == n,
    decreases n,
{
    if n < 10 {
        lemma_digit_char(n as int);
        assert(nat_text(n).drop_last() =~= Seq::<char>::empty());
        assert(digits_value(Seq::<char>::empty()) == 0);
        assert(nat_text(n).last() == digit_char(n as int));
    } else {
        lemma_nat_text(n / 10);
        lemma_digit_char((n % 10) as int);
        assert(nat_text(n).drop_last() =~= nat_text(n / 10));
        assert(nat_text(n).last() == digit_char((n % 10) as int));
        assert(n == (n / 10) * 10 + n % 10);
    }
}

proof fn lemma_digits_end(s: Seq<char>, i: int, e: int)
    requires
        0 <= i <= e <= s.len(),
        forall|k: int| i <= k < e ==> #[trigger] is_digit(s[k]),
        e == s.len() || !is_digit(s[e]),
    ensures
        digits_end(s, i) == e,
    decreases e - i,
{
    if i < e {
        lemma_digits_end(s, i + 1, e);
    }
}

proof fn lemma_parse_nat(s: Seq<char>, i: int, n: nat)
    requires
        has_at(s, i, nat_text(n)),
        i + nat_text(n).len() == s.len() || !is_digit(s[i + nat_text(n).len()]),
    ensures
        parse_nat_at(s, i) == Some((n, i + nat_text(n).len())),
{
    let t = nat_text(n);
    lemma_nat_text(n);
    assert forall|k: int| i <= k < i + t.len() implies #[trigger] is_digit(s[k]) by {
        lemma_has_at_index(s, i, t, k - i);
    }
    lemma_digits_end(s, i, i + t.len());
}

proof fn lemma_parse_int(s: Seq<char>, i: int, n: int)
    requires
        has_at(s, i, int_text(n)),
        i + int_text(n).len() == s.len() || !is_digit(s[i + int_text(n).len()]),
    ensures
        parse_int_at(s, i) == Some((n, i + int_text(n).len())),
{
    if n < 0 {
        let m = (-n) as nat;
        lemma_has_at_split(s, i, seq!['-'], nat_text(m));
        lemma_has_at_index(s, i, seq!['-'], 0);
        lemma_parse_nat(s, i + 1, m);
    } else {
        lemma_nat_text(n as nat);
        lemma_has_at_index(s, i, nat_text(n as nat), 0);
        lemma_parse_nat(s, i, n as nat);
    }
}

proof fn lemma_parse_str_body(s: Seq<char>, i: int, t: Seq<char>)
    requires
        has_at(s, i, escape(t) + seq!['"']),
    ensures
        parse_str_body(s, i) == Some((t, i + escape(t).len() + 1)),
    decreases t.len(),
{
    if t.len() == 0 {
        lemma_has_at_index(s, i, escape(t) + seq!['"'], 0);
    } else {
        let c = t[0];
        let rest = t.drop_first();
        let e = escape_char(c);
        assert(escape(t) + seq!['"'] =~= e + (escape(rest) + seq!['"']));
        lemma_has_at_split(s, i, e, escape(rest) + seq!['"']);
        lemma_parse_str_body(s, i + e.len(), rest);
        assert forall|k: int| 0 <= k < e.len() implies s[i + k] == #[trigger] e[k] by {
            lemma_has_at_index(s, i, e, k);
        }
        if short_escape_letter(c) is None && (c as u32) < 32 {
            lemma_hex_char(c as u32 / 16);
            lemma_hex_char(c as u32 % 16);
            vstd::utf8::char_u32_cast(c, c as u32);
            assert(escape_len(s, i) == 6);
            assert(escaped_char(s, i) == c);
        }
        assert(seq![c] + rest =~= t);
    }
}

proof fn lemma_parse_value(s: Seq<char>, i: int, v: JVal)
    requires
        has_at(s, i, value_text(v)),
        i + value_text(v).len() < s.len(),
        s[i + value_text(v).len()] == ',' || s[i + value_text(v).len()] == '}',
    ensures
        parse_value_at(s, i) == Some((v, i + value_text(v).len())),
{
    match v {
        JVal::Null => {},
        JVal::Num(n) => {
            lemma_parse_int(s, i, n);
            lemma_nat_text((if n < 0 { -n } else { n }) as nat);
            lemma_has_at_index(s, i, int_text(n), 0);
            if n >= 0 {
                lemma_has_at_index(s, i, nat_text(n as nat), 0);
            }
            assert(!has_at(s, i, null_text())) by {
                if has_at(s, i, null_text()) {
                    lemma_has_at_index(s, i, null_text(), 0);
                }
            }
        },
        JVal::Str(t) => {
            assert(quoted(t) =~= seq!['"'] + (escape(t) + seq!['"']));
            lemma_has_at_split(s, i, seq!['"'], escape(t) + seq!['"']);
            lemma_has_at_index(s, i, quoted(t), 0);
            lemma_parse_str_body(s, i + 1, t);
            assert(!has_at(s, i, null_text())) by {
                if has_at(s, i, null_text()) {
                    lemma_has_at_index(s, i, null_text(), 0);
                }
            }
        },
    }
}

proof fn lemma_parse_member(s: Seq<char>, i: int, m: (Seq<char>, JVal))
    requires
        has_at(s, i, member_text(m)),
        i + member_text(m).len() < s.len(),
        s[i + member_text(m).len()] == ',' || s[i + member_text(m).len()] == '}',
    ensures
        parse_member_at(s, i) == Some((m, i + member_text(m).len())),
{
    let q = quoted(m.0);
    assert(member_text(m) =~= q + (seq![':'] + value_text(m.1)));
    lemma_has_at_split(s, i, q, seq![':'] + value_text(m.1));
    lemma_has_at_split(s, i + q.len(), seq![':'], value_text(m.1));
    lemma_has_at_index(s, i + q.len(), seq![':'], 0);
    assert(q =~= seq!['"'] + (escape(m.0) + seq!['"']));
    lemma_has_at_split(s, i, seq!['"'], escape(m.0) + seq!['"']);
    lemma_has_at_index(s, i, q, 0);
    lemma_parse_str_body(s, i + 1, m.0);
    lemma_parse_value(s, i + q.len() + 1, m.1);
}

proof fn lemma_parse_members(s: Seq<char>, i: int, ms: Seq<(Seq<char>, JVal)>)
    requires
        ms.len() >= 1,
        has_at(s, i, members_text(ms)),
    ensures
        parse_members_at(s, i) == Some((ms, i + members_text(ms).len())),
    decreases ms.len(),
{
    let m = ms[0];
    let mt = member_text(m);
    if ms.len() == 1 {
        lemma_has_at_split(s, i, mt, seq!['}']);
        lemma_has_at_index(s, i + mt.len(), seq!['}'], 0);
        lemma_parse_member(s, i, m);
        assert(seq![m] =~= ms);
    } else {
        let rest = ms.drop_first();
        assert(members_text(ms) =~= mt + (seq![','] + members_text(rest)));
        lemma_has_at_split(s, i, mt, seq![','] + members_text(rest));
        lemma_has_at_split(s, i + mt.len(), seq![','], members_text(rest));
        lemma_has_at_index(s, i + mt.len(), seq![','], 0);
        lemma_parse_member(s, i, m);
        assert(mt.len() > 0);
        lemma_parse_members(s, i + mt.len() + 1, rest);
        assert(seq![m] + rest =~= ms);
    }
}

/// Decoding the canonical text of a record gives the record back.
pub proof fn lemma_record_round_trip(ms: Seq<(Seq<char>, JVal)>)
    ensures
        parse_record(record_text(ms)) == Some(ms),
{
    let s = record_text(ms);
    if ms.len() == 0 {
        assert(s =~= seq!['{', '}']);
        assert(ms =~= Seq::<(Seq<char>, JVal)>::empty());
    } else {
        assert(has_at(s, 0, s)) by {
            assert(s.subrange(0, s.len() as int) =~= s);
        }
        lemma_has_at_split(s, 0, seq!['{'], members_text(ms));
        lemma_parse_members(s, 1, ms);
        let m = ms[0];
        if ms.len() == 1 {
            assert(members_text(ms) =~= member_text(m) + seq!['}']);
        } else {
            assert(members_text(ms) =~= member_text(m) + (seq![','] + members_text(ms.drop_first())));
        }
        assert(member_text(m) =~= quoted(m.0) + (seq![':'] + value_text(m.1)));
        assert(members_text(ms)[0] == '"');
        assert(s[1] == '"');
    }
}

proof fn lemma_escape_append(a: Seq<char>, b: Seq<char>)
    ensures
        escape(a + b) == escape(a) + escape(b),
    decreases a.len(),
{
    if a.len() == 0 {
        assert(a + b =~= b);
        assert(escape(a) + escape(b) =~= escape(b));
    } else {
        lemma_escape_append(a.drop_first(), b);
        assert((a + b).drop_first() =~= a.drop_first() + b);
        assert(escape(a) + escape(b) =~= escape_char(a[0]) + (escape(a.drop_first()) + escape(b)));
    }
}

// ---------------------------------------------------------------- encoding

fn digit_char_exec(d: u128) -> (c: char)
    requires
        d < 10,
    ensures
        c == digit_char(d as int),
{
    ((d as u8) + 48u8) as char
}

pub(crate) fn push_chars(out: &mut Vec<char>, l: &Vec<char>)
    ensures
        final(out)@ == old(out)@ + l@,
{
    let mut k: usize = 0;
    while k < l.len()
        invariant
            k <= l.len(),
            out@ == old(out)@ + l@.subrange(0, k as int),
        decreases l.len() - k,
    {
        out.push(l[k]);
        k = k + 1;
        assert(out@ =~= old(out)@ + l@.subrange(0, k as int));
    }
    assert(l@.subrange(0, k as int) =~= l@);
}

fn push_nat(out: &mut Vec<char>, n: u128)
    ensures
        final(out)@ == old(out)@ + nat_text(n as nat),
    decreases n,
{
    if n < 10 {
        out.push(digit_char_exec(n));
    } else {
        push_nat(out, n / 10);
        out.push(digit_char_exec(n % 10));
        assert(nat_text(n as nat) == nat_text((n / 10) as nat) + seq![digit_char((n % 10) as int)]);
    }
}

fn push_int(out: &mut Vec<char>, n: i128)
    ensures
        final(out)@ == old(out)@ + int_text(n as int),
{
    if n < 0 {
        out.push('-');
        let m: u128 = ((-(n + 1)) as u128) + 1;
        push_nat(out, m);
        assert(final(out)@ =~= old(out)@ + int_text(n as int)) by {
            assert(m as nat == (-n) as nat);
        }
    } else {
        push_nat(out, n as u128);
    }
}

fn push_escaped(out: &mut Vec<char>, t: &Vec<char>)
    ensures
        final(out)@ == old(out)@ + escape(t@),
{
    let mut k: usize = 0;
    while k < t.len()
        invariant
            k <= t.len(),
            out@ == old(out)@ + escape(t@.subrange(0, k as int)),
        decreases t.len() - k,
    {
        let c = t[k];
        proof {
            lemma_escape_append(t@.subrange(0, k as int), seq![c]);
            assert(t@.subrange(0, k as int + 1) =~= t@.subrange(0, k as int) + seq![c]);
            assert(escape(seq![c]) =~= escape_char(c)) by {
                assert(seq![c].drop_first() =~= Seq::<char>::empty());
                assert(escape(Seq::<char>::empty()) =~= Seq::<char>::empty());
                assert(escape_char(c) + Seq::<char>::empty() =~= escape_char(c));
            }
        }
        if c == '"' || c == '\\' {
            out.push('\\');
            out.push(c);
        } else if c == '\n' {
            out.push('\\');
            out.push('n');
        } else if c == '\r' {
            out.push('\\');
            out.push('r');
        } else if c == '\t' {
            out.push('\\');
            out.push('t');
        } else if c == '\x08' {
            out.push('\\');
            out.push('b');
        } else if c == '\x0c' {
            out.push('\\');
            out.push('f');
        } else if (c as u32) < 32 {
            let v: u32 = c as u32;
            out.push('\\');
            out.push('u');
            out.push('0');
            out.push('0');
            out.push(digit_char_exec((v / 16) as u128));
            let low: u32 = v % 16;
            if low < 10 {
                out.push(digit_char_exec(low as u128));
            } else {
                out.push(((low as u8) + 87u8) as char);
            }
        } else {
            out.push(c);
        }
        k = k + 1;
        assert(out@ =~= old(out)@ + escape(t@.subrange(0, k as int)));
    }
    assert(t@.subrange(0, k as int) =~= t@);
}

fn push_quoted(out: &mut Vec<char>, t: &Vec<char>)
    ensures
        final(out)@ == old(out)@ + quoted(t@),
{
    out.push('"');
    push_escaped(out, t);
    out.push('"');
    assert(final(out)@ =~= old(out)@ + quoted(t@));
}

fn push_value(out: &mut Vec<char>, v: &Value)
    ensures
        final(out)@ == old(out)@ + value_text(v@),
{
    match v {
        Value::Null => {
            out.push('n');
            out.push('u');
            out.push('l');
            out.push('l');
            assert(final(out)@ =~= old(out)@ + null_text());
        },
        Value::Num(n) => push_int(out, *n),
        Value::Text(t) => push_quoted(out, t),
    }
}

fn push_members(out: &mut Vec<char>, ms: &Vec<Member>, k: usize)
    requires
        k <= ms.len(),
    ensures
        final(out)@ == old(out)@ + members_text(members_view(ms@).subrange(k as int, ms@.len() as int)),
    decreases ms.len() - k,
{
    let ghost rest = members_view(ms@).subrange(k as int, ms@.len() as int);
    if k == ms.len() {
        out.push('}');
        assert(rest =~= Seq::<(Seq<char>, JVal)>::empty());
        assert(final(out)@ =~= old(out)@ + members_text(rest));
    } else {
        let m = &ms[k];
        push_quoted(out, &m.key);
        out.push(':');
        push_value(out, &m.value);
        let ghost mid = out@;
        assert(rest[0] == (m.key@, m.value@));
        assert(mid =~= old(out)@ + member_text(rest[0]));
        if k + 1 == ms.len() {
            out.push('}');
            assert(final(out)@ =~= old(out)@ + members_text(rest));
        } else {
            out.push(',');
            push_members(out, ms, k + 1);
            assert(rest.drop_first() =~= members_view(ms@).subrange(k as int + 1, ms@.len() as int));
            assert(final(out)@ =~= old(out)@ + members_text(rest));
        }
    }
}

/// The canonical text of a record.
pub fn encode_record(ms: &Vec<Member>) -> (r: Vec<char>)
    ensures
        r@ == record_text(members_view(ms@)),
{
    let mut out: Vec<char> = Vec::new();
    out.push('{');
    push_members(&mut out, ms, 0);
    assert(members_view(ms@).subrange(0, ms@.len() as int) =~= members_view(ms@));
    assert(out@ =~= record_text(members_view(ms@)));
    out
}

// ---------------------------------------------------------------- decoding

fn is_digit_exec(c: char) -> (r: bool)
    ensures
        r == is_digit(c),
{
    '0' <= c && c <= '9'
}

fn is_hex_exec(c: char) -> (r: bool)
    ensures
        r == is_hex(c),
{
    ('0' <= c && c <= '9') || ('a' <= c && c <= 'f')
}

fn hex_val_exec(c: char) -> (r: u32)
    requires
        is_hex(c),
    ensures
        r as int == hex_val(c),
        r < 16,
{
    if '0' <= c && c <= '9' {
        (c as u32) - 48
    } else {
        (c as u32) - 87
    }
}

fn short_escaped_exec(l: char) -> (r: Option<char>)
    ensures
        r == short_escaped(l),
{
    if l == '"' {
        Some('"')
    } else if l == '\\' {
        Some('\\')
    } else if l == '/' {
        Some('/')
    } else if l == 'n' {
        Some('\n')
    } else if l == 'r' {
        Some('\r')
    } else if l == 't' {
        Some('\t')
    } else if l == 'b' {
        Some('\x08')
    } else if l == 'f' {
        Some('\x0c')
    } else {
        None
    }
}

fn parse_nat_exec(s: &Vec<char>, i: usize) -> (r: Option<(u128, usize)>)
    ensures
        match r {
            Some((n, j)) => parse_nat_at(s@, i as int) == Some((n as nat, j as int)),
            None => parse_nat_at(s@, i as int) matches Some((n, _)) ==> n > u128::MAX,
        },
{
    let mut j: usize = i;
    let mut val: u128 = 0;
    let mut over = false;
    if i > s.len() {
        return None;
    }
    while j < s.len() && is_digit_exec(s[j])
        invariant
            i <= j <= s.len(),
            digits_end(s@, i as int) == digits_end(s@, j as int),
            !over ==> val as nat == digits_value(s@.subrange(i as int, j as int)),
            over ==> digits_value(s@.subrange(i as int, j as int)) > u128::MAX,
        decreases s.len() - j,
    {
        let d: u128 = ((s[j] as u32) - 48) as u128;
        let ghost old_v = digits_value(s@.subrange(i as int, j as int));
        assert(s@.subrange(i as int, j as int + 1).drop_last() =~= s@.subrange(i as int, j as int));
        assert(digits_value(s@.subrange(i as int, j as int + 1)) == old_v * 10 + d);
        if !over && val <= (u128::MAX - d) / 10 {
            assert(val * 10 + d <= u128::MAX) by (nonlinear_arith)
                requires
                    val <= (u128::MAX - d) / 10,
                    d < 10,
            ;
            val = val * 10 + d;
        } else {
            if !over {
                assert(old_v * 10 + d > u128::MAX) by (nonlinear_arith)
                    requires
                        old_v > (u128::MAX - d) / 10,
                        d < 10,
                ;
            } else {
                assert(old_v * 10 + d > u128::MAX) by (nonlinear_arith)
                    requires
                        old_v > u128::MAX,
                        d < 10,
                ;
            }
            over = true;
        }
        j = j + 1;
    }
    if j == i || over {
        None
    } else {
        Some((val, j))
    }
}

fn parse_int_exec(s: &Vec<char>, i: usize) -> (r: Option<(i128, usize)>)
    ensures
        match r {
            Some((n, j)) => parse_int_at(s@, i as int) == Some((n as int, j as int)),
            None => parse_int_at(s@, i as int) matches Some((n, _)) ==> !(i128::MIN <= n <= i128::MAX),
        },
{
    if i < s.len() && s[i] == '-' {
        match parse_nat_exec(s, i + 1) {
            Some((n, j)) => if n <= 0x8000_0000_0000_0000_0000_0000_0000_0000u128 {
                if n == 0x8000_0000_0000_0000_0000_0000_0000_0000u128 {
                    Some((i128::MIN, j))
                } else {
                    Some((-(n as i128), j))
                }
            } else {
                None
            },
            None => None,
        }
    } else {
        match parse_nat_exec(s, i) {
            Some((n, j)) => if n <= i128::MAX as u128 {
                Some((n as i128, j))
            } else {
                None
            },
            None => None,
        }
    }
}

fn parse_str_body_exec(s: &Vec<char>, i: usize) -> (r: Option<(Vec<char>, usize)>)
    ensures
        match r {
            Some((t, j)) => parse_str_body(s@, i as int) == Some((t@, j as int)),
            None => parse_str_body(s@, i as int) is None,
        },
{
    let mut out: Vec<char> = Vec::new();
    let mut k: usize = i;
    loop
        invariant
            i <= k,
            parse_str_body(s@, i as int) == match parse_str_body(s@, k as int) {
                Some((t, e)) => Some((out@ + t, e)),
                None => None,
            },
        decreases s.len() - k,
    {
        if k >= s.len() {
            return None;
        }
        let c = s[k];
        if c == '"' {
            assert(out@ + Seq::<char>::empty() =~= out@);
            return Some((out, k + 1));
        } else if c == '\\' {
            let short = if k + 1 < s.len() {
                short_escaped_exec(s[k + 1])
            } else {
                None
            };
            if let Some(ch) = short {
                let ghost before = out@;
                out.push(ch);
                proof {
                    match parse_str_body(s@, k as int + 2) {
                        Some((t, e)) => {
                            assert(before + (seq![ch] + t) =~= out@ + t);
                        },
                        None => {},
                    }
                }
                k = k + 2;
            } else if s.len() - k > 5 && s[k + 1] == 'u' && s[k + 2] == '0' && s[k + 3] == '0'
                && is_hex_exec(s[k + 4]) && is_hex_exec(s[k + 5]) {
                let v: u32 = 16 * hex_val_exec(s[k + 4]) + hex_val_exec(s[k + 5]);
                let ch = (v as u8) as char;
                assert(ch == escaped_char(s@, k as int));
                let ghost before = out@;
                out.push(ch);
                proof {
                    match parse_str_body(s@, k as int + 6) {
                        Some((t, e)) => {
                            assert(before + (seq![ch] + t) =~= out@ + t);
                        },
                        None => {},
                    }
                }
                k = k + 6;
            } else {
                return None;
            }
        } else if (c as u32) < 32 {
            return None;
        } else {
            let ghost before = out@;
            out.push(c);
            proof {
                match parse_str_body(s@, k as int + 1) {
                    Some((t, e)) => {
                        assert(before + (seq![c] + t) =~= out@ + t);
                    },
                    None => {},
                }
            }
            k = k + 1;
        }
    }
}

fn parse_value_exec(s: &Vec<char>, i: usize) -> (r: Option<(Value, usize)>)
    ensures
        match r {
            Some((v, j)) => parse_value_at(s@, i as int) == Some((v@, j as int)),
            None => parse_value_at(s@, i as int) matches Some((w, _)) ==> !fits(w),
        },
{
    if i <= s.len() && 4 <= s.len() - i && s[i] == 'n' && s[i + 1] == 'u' && s[i + 2] == 'l'
        && s[i + 3] == 'l' {
        assert(s@.subrange(i as int, i as int + 4) =~= null_text());
        return Some((Value::Null, i + 4));
    }
    assert(!has_at(s@, i as int, null_text())) by {
        if has_at(s@, i as int, null_text()) {
            lemma_has_at_index(s@, i as int, null_text(), 0);
            lemma_has_at_index(s@, i as int, null_text(), 1);
            lemma_has_at_index(s@, i as int, null_text(), 2);
            lemma_has_at_index(s@, i as int, null_text(), 3);
        }
    }
    if i < s.len() && s[i] == '"' {
        match parse_str_body_exec(s, i + 1) {
            Some((t, j)) => Some((Value::Text(t), j)),
            None => None,
        }
    } else {
        match parse_int_exec(s, i) {
            Some((n, j)) => Some((Value::Num(n), j)),
            None => None,
        }
    }
}

fn parse_member_exec(s: &Vec<char>, i: usize) -> (r: Option<(Member, usize)>)
    ensures
        match r {
            Some((m, j)) => parse_member_at(s@, i as int) == Some(((m.key@, m.value@), j as int)),
            None => parse_member_at(s@, i as int) matches Some((w, _)) ==> !fits(w.1),
        },
{
    if i < s.len() && s[i] == '"' {
        match parse_str_body_exec(s, i + 1) {
            Some((key, j)) => if j < s.len() && s[j] == ':' {
                match parse_value_exec(s, j + 1) {
                    Some((value, e)) => Some((Member { key, value }, e)),
                    None => None,
                }
            } else {
                None
            },
            None => None,
        }
    } else {
        None
    }
}

fn parse_members_exec(s: &Vec<char>, i: usize) -> (r: Option<(Vec<Member>, usize)>)
    ensures
        match r {
            Some((ms, j)) => parse_members_at(s@, i as int) == Some((members_view(ms@), j as int)),
            None => parse_members_at(s@, i as int) matches Some((w, _)) ==> !all_fit(w),
        },
    decreases s.len() - i,
{
    match parse_member_exec(s, i) {
        Some((m, j)) => {
            if j < s.len() && s[j] == '}' {
                let mut ms: Vec<Member> = Vec::new();
                ms.push(m);
                assert(members_view(ms@) =~= seq![(m.key@, m.value@)]);
                Some((ms, j + 1))
            } else if j < s.len() && s[j] == ',' && j > i {
                match parse_members_exec(s, j + 1) {
                    Some((rest, k)) => {
                        let ghost rv = members_view(rest@);
                        let mut ms: Vec<Member> = Vec::new();
                        ms.push(m);
                        let mut rest = rest;
                        ms.append(&mut rest);
                        assert(members_view(ms@) =~= seq![(m.key@, m.value@)] + rv);
                        Some((ms, k))
                    },
                    None => {
                        proof {
                            if let Some((w, _)) = parse_members_at(s@, i as int) {
                                let (w2, _) = parse_members_at(s@, j as int + 1).unwrap();
                                assert(w == seq![(m.key@, m.value@)] + w2);
                                let k2 = choose|k2: int| 0 <= k2 < w2.len() && !fits(#[trigger] w2[k2].1);
                                assert(w[k2 + 1] == w2[k2]);
                            }
                        }
                        None
                    },
                }
            } else {
                None
            }
        },
        None => {
            proof {
                if let Some((w, _)) = parse_members_at(s@, i as int) {
                    let (w1, _) = parse_member_at(s@, i as int).unwrap();
                    assert(w[0] == w1);
                }
            }
            None
        },
    }
}

/// Reads a text as one record; a number outside the range of `i128` is
/// refused as well.
pub fn decode_record(s: &Vec<char>) -> (r: Option<Vec<Member>>)
    ensures
        match r {
            Some(ms) => parse_record(s@) == Some(members_view(ms@)),
            None => parse_record(s@) matches Some(w) ==> !all_fit(w),
        },
{
    if s.len() == 2 && s[0] == '{' && s[1] == '}' {
        let ms: Vec<Member> = Vec::new();
        assert(members_view(ms@) =~= Seq::<(Seq<char>, JVal)>::empty());
        Some(ms)
    } else if s.len() > 0 && s[0] == '{' {
        match parse_members_exec(s, 1) {
            Some((ms, k)) => if k == s.len() {
                Some(ms)
            } else {
                None
            },
            None => None,
        }
    } else {
        None
    }
}

/// Whether two texts hold the same characters.
pub fn same_chars(a: &Vec<char>, b: &Vec<char>) -> (r: bool)
    ensures
        r == (a@ == b@),
{
    if a.len() != b.len() {
        return false;
    }
    let mut k: usize = 0;
    while k < a.len()
        invariant
            k <= a.len() == b.len(),
            a@.subrange(0, k as int) == b@.subrange(0, k as int),
        decreases a.len() - k,
    {
        if a[k] != b[k] {
            assert(a@.subrange(0, k as int + 1)[k as int] != b@.subrange(0, k as int + 1)[k as int]);
            return false;
        }
        assert(a@.subrange(0, k as int + 1) =~= a@.subrange(0, k as int) + seq![a[k as int]]);
        assert(b@.subrange(0, k as int + 1) =~= b@.subrange(0, k as int) + seq![b[k as int]]);
        k = k + 1;
    }
    assert(a@.subrange(0, k as int) =~= a@);
    assert(b@.subrange(0, k as int) =~= b@);
    true
}

/// Relies on `str::chars`: the characters of a string slice, in order.
#[verifier::external_body]
pub(crate) fn chars_of(s: &str) -> (r: Vec<char>)
    ensures
        r@ == s@,
{
    s.chars().collect()
}

/// Relies on `FromIterator<char>` for `String`: the string of these characters.
#[verifier::external_body]
pub(crate) fn string_of(v: &Vec<char>) -> (r: String)
    ensures
        r@ == v@,
{
    v.iter().collect()
}

} // verus!
