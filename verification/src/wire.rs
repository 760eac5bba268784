//! The USB2SNES wire text: uppercase hexadecimal operands, and the JSON
//! framing of control requests and responses.
//!
//! A control request is one JSON object
//! `{"Opcode":…,"Space":…,"Flags":null,"Operands":…}`; a text response is
//! one JSON object `{"Results":[…]}`.  Both shapes are part of this
//! library's own grammar: requests are rendered against a
//! specification-level layout, responses are parsed by an executable
//! parser proved equal to a specification-level parser, the hexadecimal
//! operand codec is proved invertible, and the canonical rendering of a
//! result list is proved to parse back to the list.

use vstd::prelude::*;

use crate::strutil::push_char;
use vstd::string::{StrSliceExecFns, StringExecFns};

verus! {

/// The character of one hexadecimal digit, upper case.
pub open spec fn hex_digit_char(d: nat) -> char
    recommends
        d < 16,
{
    if d == 0 {
        '0'
    } else if d == 1 {
        '1'
    } else if d == 2 {
        '2'
    } else if d == 3 {
        '3'
    } else if d == 4 {
        '4'
    } else if d == 5 {
        '5'
    } else if d == 6 {
        '6'
    } else if d == 7 {
        '7'
    } else if d == 8 {
        '8'
    } else if d == 9 {
        '9'
    } else if d == 10 {
        'A'
    } else if d == 11 {
        'B'
    } else if d == 12 {
        'C'
    } else if d == 13 {
        'D'
    } else if d == 14 {
        'E'
    } else {
        'F'
    }
}

/// The uppercase hexadecimal rendering of `n`, no prefix, no leading zeros
/// (a single `0` for zero).
pub open spec fn hex_seq(n: nat) -> Seq<char>
    decreases n,
{
    if n < 16 {
        seq![hex_digit_char(n)]
    } else {
        hex_seq(n / 16).push(hex_digit_char(n % 16))
    }
}

fn push_hex_digit(s: &mut String, d: u32)
    requires
        d < 16,
    ensures
        final(s)@ == old(s)@.push(hex_digit_char(d as nat)),
{
    let c: char = match d {
        0 => '0',
        1 => '1',
        2 => '2',
        3 => '3',
        4 => '4',
        5 => '5',
        6 => '6',
        7 => '7',
        8 => '8',
        9 => '9',
        10 => 'A',
        11 => 'B',
        12 => 'C',
        13 => 'D',
        14 => 'E',
        _ => 'F',
    };
    push_char(s, c);
}

fn append_hex_u32(s: &mut String, n: u32)
    ensures
        final(s)@ == old(s)@ + hex_seq(n as nat),
    decreases n,
{
    if n < 16 {
        push_hex_digit(s, n);
        proof {
            assert(final(s)@ =~= old(s)@ + hex_seq(n as nat));
        }
    } else {
        append_hex_u32(s, n / 16);
        push_hex_digit(s, n % 16);
        proof {
            assert(final(s)@ =~= old(s)@ + hex_seq(n as nat));
        }
    }
}

/// Renders `n` as an uppercase hexadecimal operand.
pub fn render_hex(n: u32) -> (r: String)
    ensures
        r@ == hex_seq(n as nat),
{
    let mut r = String::new();
    append_hex_u32(&mut r, n);
    proof {
        assert(r@ =~= hex_seq(n as nat));
    }
    r
}

/// A hexadecimal digit, either case.
pub open spec fn is_hex_digit(c: char) -> bool {
    ('0' <= c && c <= '9') || ('A' <= c && c <= 'F') || ('a' <= c && c <= 'f')
}

/// The value of one hexadecimal digit.
pub open spec fn hex_val(c: char) -> nat
    recommends
        is_hex_digit(c),
{
    if '0' <= c && c <= '9' {
        ((c as int) - ('0' as int)) as nat
    } else if 'A' <= c && c <= 'F' {
        ((c as int) - ('A' as int) + 10) as nat
    } else {
        ((c as int) - ('a' as int) + 10) as nat
    }
}

/// Every character is a hexadecimal digit.
pub open spec fn all_hex(s: Seq<char>) -> bool {
    forall|i: int| 0 <= i < s.len() ==> is_hex_digit(s[i])
}

/// The value of a string of hexadecimal digits.
pub open spec fn hex_value(s: Seq<char>) -> nat
    decreases s.len(),
{
    if s.len() == 0 {
        0
    } else {
        hex_value(s.drop_last()) * 16 + hex_val(s.last())
    }
}

proof fn lemma_hex_value_monotone(s: Seq<char>, i: int, j: int)
    requires
        0 <= i <= j <= s.len(),
    ensures
        hex_value(s.take(i)) <= hex_value(s.take(j)),
    decreases j - i,
{
    if i < j {
        lemma_hex_value_monotone(s, i, j - 1);
        assert(s.take(j).drop_last() =~= s.take(j - 1));
    }
}

/// Parses a hexadecimal operand.  Returns the value exactly when the string
/// is non-empty, wholly hexadecimal, and fits in 64 bits.
pub fn parse_hex(s: &String) -> (r: Option<u64>)
    ensures
        match r {
            Some(v) => s@.len() > 0 && all_hex(s@) && hex_value(s@) <= u64::MAX && v
                == hex_value(s@),
            None => s@.len() == 0 || !all_hex(s@) || hex_value(s@) > u64::MAX,
        },
{
    let st: &str = s.as_str();
    let n: usize = st.unicode_len();
    if n == 0 {
        return None;
    }
    let mut acc: u64 = 0;
    let mut i: usize = 0;
    while i < n
        invariant
            0 <= i <= n,
            n == st@.len(),
            st@ == s@,
            all_hex(s@.take(i as int)),
            acc == hex_value(s@.take(i as int)),
        decreases n - i,
    {
        let c: char = st.get_char(i);
        let d: u32 = if '0' <= c && c <= '9' {
            (c as u32) - ('0' as u32)
        } else if 'A' <= c && c <= 'F' {
            (c as u32) - ('A' as u32) + 10
        } else if 'a' <= c && c <= 'f' {
            (c as u32) - ('a' as u32) + 10
        } else {
            return None;
        };
        proof {
            assert(is_hex_digit(s@[i as int]));
            assert(d == hex_val(s@[i as int]));
            assert(s@.take(i + 1).drop_last() =~= s@.take(i as int));
            assert(s@.take(i + 1).last() == s@[i as int]);
        }
        if acc > (u64::MAX - (d as u64)) / 16 {
            proof {
                assert(hex_value(s@.take(i + 1)) > u64::MAX);
                lemma_hex_value_monotone(s@, i + 1, s@.len() as int);
                assert(s@.take(s@.len() as int) =~= s@);
            }
            return None;
        }
        acc = acc * 16 + (d as u64);
        i = i + 1;
    }
    proof {
        assert(s@.take(n as int) =~= s@);
    }
    Some(acc)
}

/// Rendering a value as a hexadecimal operand and parsing it back is the
/// identity.
pub proof fn lemma_hex_round_trip(n: nat)
    ensures
        all_hex(hex_seq(n)),
        hex_value(hex_seq(n)) == n,
        hex_seq(n).len() >= 1,
    decreases n,
{
    if n < 16 {
        let s = hex_seq(n);
        assert(s == seq![hex_digit_char(n)]);
        assert(s.drop_last() =~= Seq::<char>::empty());
        assert(s.last() == hex_digit_char(n));
        assert(hex_value(s) == hex_value(s.drop_last()) * 16 + hex_val(s.last()));
        assert(hex_value(s.drop_last()) == 0);
        assert(hex_val(hex_digit_char(n)) == n);
    } else {
        lemma_hex_round_trip(n / 16);
        let s = hex_seq(n);
        assert(s == hex_seq(n / 16).push(hex_digit_char(n % 16)));
        assert(s.drop_last() =~= hex_seq(n / 16));
        assert(s.last() == hex_digit_char(n % 16));
        assert(hex_val(hex_digit_char(n % 16)) == n % 16);
        assert(hex_value(s) == (n / 16) * 16 + n % 16);
        assert(forall|i: int| 0 <= i < s.len() - 1 ==> s[i] == hex_seq(n / 16)[i]);
        assert(all_hex(s));
    }
}

/// The JSON escape of one character: the two-character short escapes, a
/// `\u00XX` escape for the remaining control characters, and the character
/// itself otherwise.
pub open spec fn esc_char(c: char) -> Seq<char> {
    if c == '"' {
        seq!['\\', '"']
    } else if c == '\\' {
        seq!['\\', '\\']
    } else if c == '\u{8}' {
        seq!['\\', 'b']
    } else if c == '\u{c}' {
        seq!['\\', 'f']
    } else if c == '\n' {
        seq!['\\', 'n']
    } else if c == '\r' {
        seq!['\\', 'r']
    } else if c == '\t' {
        seq!['\\', 't']
    } else if (c as u32) < 0x20 {
        seq!['\\', 'u', '0', '0', hex_digit_char((c as u32) as nat / 16), hex_digit_char(
            (c as u32) as nat % 16,
        )]
    } else {
        seq![c]
    }
}

/// The JSON escape of a string body.
pub open spec fn escaped(s: Seq<char>) -> Seq<char>
    decreases s.len(),
{
    if s.len() == 0 {
        Seq::empty()
    } else {
        esc_char(s[0]) + escaped(s.drop_first())
    }
}

proof fn lemma_escaped_snoc(s: Seq<char>, c: char)
    ensures
        escaped(s.push(c)) == escaped(s) + esc_char(c),
    decreases s.len(),
{
    let t = s.push(c);
    if s.len() == 0 {
        assert(t[0] == c);
        assert(t.drop_first() =~= Seq::<char>::empty());
        assert(escaped(t) == esc_char(c) + escaped(t.drop_first()));
        assert(escaped(t.drop_first()) == Seq::<char>::empty());
        assert(escaped(t) =~= escaped(s) + esc_char(c));
    } else {
        assert(t[0] == s[0]);
        assert(t.drop_first() =~= s.drop_first().push(c));
        lemma_escaped_snoc(s.drop_first(), c);
        assert(escaped(t) =~= escaped(s) + esc_char(c));
    }
}

fn push_escaped_char(out: &mut String, c: char)
    ensures
        final(out)@ == old(out)@ + esc_char(c),
{
    if c == '"' {
        push_char(out, '\\');
        push_char(out, '"');
    } else if c == '\\' {
        push_char(out, '\\');
        push_char(out, '\\');
    } else if c == '\u{8}' {
        push_char(out, '\\');
        push_char(out, 'b');
    } else if c == '\u{c}' {
        push_char(out, '\\');
        push_char(out, 'f');
    } else if c == '\n' {
        push_char(out, '\\');
        push_char(out, 'n');
    } else if c == '\r' {
        push_char(out, '\\');
        push_char(out, 'r');
    } else if c == '\t' {
        push_char(out, '\\');
        push_char(out, 't');
    } else if (c as u32) < 0x20 {
        push_char(out, '\\');
        push_char(out, 'u');
        push_char(out, '0');
        push_char(out, '0');
        push_hex_digit(out, (c as u32) / 16);
        push_hex_digit(out, (c as u32) % 16);
    } else {
        push_char(out, c);
    }
    proof {
        assert(final(out)@ =~= old(out)@ + esc_char(c));
    }
}

/// Appends the escaped body of `s`.
fn append_escaped(out: &mut String, s: &str)
    ensures
        final(out)@ == old(out)@ + escaped(s@),
{
    let n: usize = s.unicode_len();
    let mut i: usize = 0;
    while i < n
        invariant
            0 <= i <= n,
            n == s@.len(),
            out@ == old(out)@ + escaped(s@.take(i as int)),
        decreases n - i,
    {
        let c: char = s.get_char(i);
        push_escaped_char(out, c);
        proof {
            lemma_escaped_snoc(s@.take(i as int), c);
            assert(s@.take(i + 1) =~= s@.take(i as int).push(s@[i as int]));
        }
        i = i + 1;
    }
    proof {
        assert(s@.take(n as int) =~= s@);
    }
}

/// A JSON string literal: quote, escaped body, quote.
pub open spec fn json_string(s: Seq<char>) -> Seq<char> {
    seq!['"'] + escaped(s) + seq!['"']
}

/// Appends a JSON string literal.
fn append_json_string(out: &mut String, s: &str)
    ensures
        final(out)@ == old(out)@ + json_string(s@),
{
    push_char(out, '"');
    append_escaped(out, s);
    push_char(out, '"');
    proof {
        assert(final(out)@ =~= old(out)@ + json_string(s@));
    }
}

/// The items of a JSON array of strings, comma-separated.
pub open spec fn json_items(l: Seq<Seq<char>>) -> Seq<char>
    decreases l.len(),
{
    if l.len() == 0 {
        Seq::empty()
    } else if l.len() == 1 {
        json_string(l[0])
    } else {
        json_string(l[0]) + seq![','] + json_items(l.drop_first())
    }
}

/// A JSON array of strings.
pub open spec fn json_array(l: Seq<Seq<char>>) -> Seq<char> {
    seq!['['] + json_items(l) + seq![']']
}

proof fn lemma_json_items_snoc(l: Seq<Seq<char>>, s: Seq<char>)
    requires
        l.len() >= 1,
    ensures
        json_items(l.push(s)) == json_items(l) + seq![','] + json_string(s),
    decreases l.len(),
{
    let t = l.push(s);
    if l.len() == 1 {
        assert(t[0] == l[0]);
        assert(t.drop_first() =~= seq![s]);
        assert(json_items(t.drop_first()) == json_string(s));
        assert(json_items(t) =~= json_items(l) + seq![','] + json_string(s));
    } else {
        assert(t[0] == l[0]);
        assert(t.drop_first() =~= l.drop_first().push(s));
        lemma_json_items_snoc(l.drop_first(), s);
        assert(json_items(t) =~= json_items(l) + seq![','] + json_string(s));
    }
}

/// The strings of a list, viewed as character sequences.
pub open spec fn views_of(l: Seq<String>) -> Seq<Seq<char>> {
    l.map_values(|s: String| s@)
}

/// Appends a JSON array of strings.
fn append_json_array(out: &mut String, l: &Vec<String>)
    ensures
        final(out)@ == old(out)@ + json_array(views_of(l@)),
{
    push_char(out, '[');
    let mut i: usize = 0;
    while i < l.len()
        invariant
            0 <= i <= l@.len(),
            out@ == old(out)@ + seq!['['] + json_items(views_of(l@).take(i as int)),
        decreases l@.len() - i,
    {
        if i > 0 {
            push_char(out, ',');
        }
        append_json_string(out, l[i].as_str());
        proof {
            let vs = views_of(l@);
            assert(vs.take(i + 1) =~= vs.take(i as int).push(vs[i as int]));
            assert(vs[i as int] == l@[i as int]@);
            if i > 0 {
                lemma_json_items_snoc(vs.take(i as int), vs[i as int]);
                assert(out@ =~= old(out)@ + seq!['['] + json_items(vs.take(i + 1)));
            } else {
                assert(vs.take(1) =~= seq![vs[0]]);
                assert(out@ =~= old(out)@ + seq!['['] + json_items(vs.take(1)));
            }
        }
        i = i + 1;
    }
    push_char(out, ']');
    proof {
        assert(views_of(l@).take(l@.len() as int) =~= views_of(l@));
        assert(final(out)@ =~= old(out)@ + json_array(views_of(l@)));
    }
}

/// A control request: opcode, the fixed `SNES` space, no flags, and the
/// operands when there are any — the same shape and field order the
/// protocol's reference implementations emit.
pub open spec fn json_request(opcode: Seq<char>, operands: Option<Seq<Seq<char>>>) -> Seq<char> {
    "{\"Opcode\":"@ + json_string(opcode) + ",\"Space\":\"SNES\",\"Flags\":null,\"Operands\":"@
        + (match operands {
        Option::None => "null"@,
        Option::Some(l) => json_array(l),
    }) + "}"@
}

/// Renders one control request as its JSON text frame.
pub fn render_request(opcode: &str, operands: Option<&Vec<String>>) -> (r: String)
    ensures
        r@ == json_request(
            opcode@,
            match operands {
                Option::None => Option::None,
                Option::Some(l) => Option::Some(views_of(l@)),
            },
        ),
{
    let mut out = String::from_str("{\"Opcode\":");
    append_json_string(&mut out, opcode);
    out.append(",\"Space\":\"SNES\",\"Flags\":null,\"Operands\":");
    match operands {
        Option::None => {
            out.append("null");
        },
        Option::Some(l) => {
            append_json_array(&mut out, l);
        },
    }
    out.append("}");
    proof {
        assert(out@ =~= json_request(
            opcode@,
            match operands {
                Option::None => Option::None::<Seq<Seq<char>>>,
                Option::Some(l) => Option::Some(views_of(l@)),
            },
        ));
    }
    out
}

/// JSON whitespace.
pub open spec fn is_json_ws(c: char) -> bool {
    c == ' ' || c == '\t' || c == '\n' || c == '\r'
}

/// The first position at or after `i` that does not hold whitespace.
pub open spec fn spec_skip_ws(s: Seq<char>, i: int) -> int
    decreases s.len() - i,
{
    if 0 <= i < s.len() && is_json_ws(s[i]) {
        spec_skip_ws(s, i + 1)
    } else {
        i
    }
}

/// The character a two-character escape stands for.
pub open spec fn unescape_char(e: char) -> Option<char> {
    if e == '"' {
        Option::Some('"')
    } else if e == '\\' {
        Option::Some('\\')
    } else if e == '/' {
        Option::Some('/')
    } else if e == 'b' {
        Option::Some('\u{8}')
    } else if e == 'f' {
        Option::Some('\u{c}')
    } else if e == 'n' {
        Option::Some('\n')
    } else if e == 'r' {
        Option::Some('\r')
    } else if e == 't' {
        Option::Some('\t')
    } else {
        Option::None
    }
}

/// Parses a string body starting just after the opening quote: the decoded
/// characters and the position after the closing quote.  The two-character
/// escapes are decoded; `\u` escapes and raw control characters are
/// rejected.
pub open spec fn spec_parse_str_body(s: Seq<char>, i: int) -> Option<(Seq<char>, int)>
    decreases s.len() - i,
{
    if i < 0 || i >= s.len() {
        Option::None
    } else if s[i] == '"' {
        Option::Some((Seq::empty(), i + 1))
    } else if s[i] == '\\' {
        if i + 1 >= s.len() {
            Option::None
        } else {
            match unescape_char(s[i + 1]) {
                Option::None => Option::None,
                Option::Some(c) => {
                    match spec_parse_str_body(s, i + 2) {
                        Option::None => Option::None,
                        Option::Some((rest, j)) => Option::Some((seq![c] + rest, j)),
                    }
                },
            }
        }
    } else if (s[i] as u32) < 0x20 {
        Option::None
    } else {
        match spec_parse_str_body(s, i + 1) {
            Option::None => Option::None,
            Option::Some((rest, j)) => Option::Some((seq![s[i]] + rest, j)),
        }
    }
}

/// Parses the comma-separated string items of a non-empty array, starting
/// at the first item's opening quote; returns the items and the position of
/// the closing bracket candidate (first non-whitespace after the items).
/// `fuel` bounds the recursion; one unit per item always suffices for a
/// string of that length.
pub open spec fn spec_parse_items(s: Seq<char>, i: int, fuel: nat) -> Option<(Seq<Seq<char>>, int)>
    decreases fuel,
{
    if fuel == 0 {
        Option::None
    } else if !(0 <= i < s.len() && s[i] == '"') {
        Option::None
    } else {
        match spec_parse_str_body(s, i + 1) {
            Option::None => Option::None,
            Option::Some((v, j)) => {
                let k = spec_skip_ws(s, j);
                if 0 <= k < s.len() && s[k] == ',' {
                    let k2 = spec_skip_ws(s, k + 1);
                    match spec_parse_items(s, k2, (fuel - 1) as nat) {
                        Option::None => Option::None,
                        Option::Some((rest, j2)) => Option::Some((seq![v] + rest, j2)),
                    }
                } else {
                    Option::Some((seq![v], k))
                }
            },
        }
    }
}

/// The closing of a `{"Results": …}` object: a brace and then only
/// whitespace to the end.
pub open spec fn spec_finish_obj(s: Seq<char>, i: int, items: Seq<Seq<char>>) -> Option<
    Seq<Seq<char>>,
> {
    if 0 <= i < s.len() && s[i] == '}' && spec_skip_ws(s, i + 1) == s.len() {
        Option::Some(items)
    } else {
        Option::None
    }
}

/// Parses a text response frame `{"Results":[…]}`: one object whose single
/// member `Results` holds an array of strings.
pub open spec fn spec_parse_results(s: Seq<char>) -> Option<Seq<Seq<char>>> {
    let i0 = spec_skip_ws(s, 0);
    if !(i0 < s.len() && s[i0] == '{') {
        Option::None
    } else {
        let i1 = spec_skip_ws(s, i0 + 1);
        if !(i1 < s.len() && s[i1] == '"') {
            Option::None
        } else {
            match spec_parse_str_body(s, i1 + 1) {
                Option::None => Option::None,
                Option::Some((key, i2)) => {
                    if key != "Results"@ {
                        Option::None
                    } else {
                        let i3 = spec_skip_ws(s, i2);
                        if !(i3 < s.len() && s[i3] == ':') {
                            Option::None
                        } else {
                            let i4 = spec_skip_ws(s, i3 + 1);
                            if !(i4 < s.len() && s[i4] == '[') {
                                Option::None
                            } else {
                                let i5 = spec_skip_ws(s, i4 + 1);
                                if i5 < s.len() && s[i5] == ']' {
                                    spec_finish_obj(s, spec_skip_ws(s, i5 + 1), Seq::empty())
                                } else {
                                    match spec_parse_items(s, i5, s.len()) {
                                        Option::None => Option::None,
                                        Option::Some((items, j)) => {
                                            if j < s.len() && s[j] == ']' {
                                                spec_finish_obj(s, spec_skip_ws(s, j + 1), items)
                                            } else {
                                                Option::None
                                            }
                                        },
                                    }
                                }
                            }
                        }
                    }
                },
            }
        }
    }
}

proof fn lemma_skip_ws_bounds(s: Seq<char>, i: int)
    requires
        0 <= i <= s.len(),
    ensures
        i <= spec_skip_ws(s, i) <= s.len(),
    decreases s.len() - i,
{
    if i < s.len() && is_json_ws(s[i]) {
        lemma_skip_ws_bounds(s, i + 1);
    }
}

fn exec_skip_ws(s: &str, n: usize, i: usize) -> (r: usize)
    requires
        n == s@.len(),
        i <= n,
    ensures
        r == spec_skip_ws(s@, i as int),
        i <= r <= n,
{
    let mut cur: usize = i;
    while cur < n
        invariant
            i <= cur <= n,
            n == s@.len(),
            spec_skip_ws(s@, i as int) == spec_skip_ws(s@, cur as int),
        ensures
            cur == spec_skip_ws(s@, i as int),
            i <= cur <= n,
        decreases n - cur,
    {
        let c = s.get_char(cur);
        if !(c == ' ' || c == '\t' || c == '\n' || c == '\r') {
            break;
        }
        cur = cur + 1;
    }
    cur
}

fn exec_unescape_char(e: char) -> (r: Option<char>)
    ensures
        r == unescape_char(e),
{
    if e == '"' {
        Some('"')
    } else if e == '\\' {
        Some('\\')
    } else if e == '/' {
        Some('/')
    } else if e == 'b' {
        Some('\u{8}')
    } else if e == 'f' {
        Some('\u{c}')
    } else if e == 'n' {
        Some('\n')
    } else if e == 'r' {
        Some('\r')
    } else if e == 't' {
        Some('\t')
    } else {
        None
    }
}

fn exec_parse_str_body(s: &str, n: usize, i: usize) -> (r: Option<(Vec<char>, usize)>)
    requires
        n == s@.len(),
    ensures
        match r {
            Some((v, j)) => spec_parse_str_body(s@, i as int) matches Some((sv, sj)) && v@ == sv
                && j == sj && j <= n,
            None => spec_parse_str_body(s@, i as int) is None,
        },
    decreases n - i,
{
    if i >= n {
        return None;
    }
    let c = s.get_char(i);
    if c == '"' {
        let v: Vec<char> = Vec::new();
        proof {
            assert(v@ =~= Seq::<char>::empty());
        }
        Some((v, i + 1))
    } else if c == '\\' {
        if i + 1 >= n {
            return None;
        }
        let e = s.get_char(i + 1);
        match exec_unescape_char(e) {
            None => None,
            Some(c0) => {
                match exec_parse_str_body(s, n, i + 2) {
                    None => None,
                    Some((mut rest, j)) => {
                        let ghost sv = rest@;
                        rest.insert(0, c0);
                        proof {
                            assert(rest@ =~= seq![c0] + sv);
                        }
                        Some((rest, j))
                    },
                }
            },
        }
    } else if (c as u32) < 0x20 {
        None
    } else {
        match exec_parse_str_body(s, n, i + 1) {
            None => None,
            Some((mut rest, j)) => {
                let ghost sv = rest@;
                rest.insert(0, c);
                proof {
                    assert(rest@ =~= seq![c] + sv);
                }
                Some((rest, j))
            },
        }
    }
}

/// Builds a `String` from decoded characters.
fn chars_to_string(v: &Vec<char>) -> (r: String)
    ensures
        r@ == v@,
{
    let mut r = String::new();
    let mut i: usize = 0;
    while i < v.len()
        invariant
            i <= v@.len(),
            r@ == v@.take(i as int),
        decreases v@.len() - i,
    {
        push_char(&mut r, v[i]);
        proof {
            assert(v@.take(i + 1) =~= v@.take(i as int).push(v@[i as int]));
        }
        i = i + 1;
    }
    proof {
        assert(v@.take(v@.len() as int) =~= v@);
    }
    r
}

fn exec_parse_items(s: &str, n: usize, i: usize, fuel: usize) -> (r: Option<(Vec<String>, usize)>)
    requires
        n == s@.len(),
    ensures
        match r {
            Some((v, j)) => spec_parse_items(s@, i as int, fuel as nat) matches Some((sv, sj))
                && views_of(v@) == sv && j == sj && j <= n,
            None => spec_parse_items(s@, i as int, fuel as nat) is None,
        },
    decreases fuel,
{
    if fuel == 0 {
        return None;
    }
    if !(i < n && s.get_char(i) == '"') {
        return None;
    }
    match exec_parse_str_body(s, n, i + 1) {
        None => None,
        Some((v, j)) => {
            let item = chars_to_string(&v);
            let k = exec_skip_ws(s, n, j);
            if k < n && s.get_char(k) == ',' {
                let k2 = exec_skip_ws(s, n, k + 1);
                match exec_parse_items(s, n, k2, fuel - 1) {
                    None => None,
                    Some((mut rest, j2)) => {
                        let ghost sv = views_of(rest@);
                        rest.insert(0, item);
                        proof {
                            assert(views_of(rest@) =~= seq![item@] + sv);
                        }
                        Some((rest, j2))
                    },
                }
            } else {
                let mut one: Vec<String> = Vec::new();
                one.push(item);
                proof {
                    assert(views_of(one@) =~= seq![item@]);
                }
                Some((one, k))
            }
        },
    }
}

/// A character that the JSON codec carries through unchanged: not a
/// quote, not a backslash, not a control character.
pub open spec fn plain_char(c: char) -> bool {
    c != '"' && c != '\\' && (c as u32) >= 0x20
}

/// A string of plain characters (every device name and operand is one).
pub open spec fn plain(s: Seq<char>) -> bool {
    forall|i: int| 0 <= i < s.len() ==> plain_char(s[i])
}

/// Escaping a plain string leaves it unchanged.
proof fn lemma_escaped_plain(s: Seq<char>)
    requires
        plain(s),
    ensures
        escaped(s) == s,
    decreases s.len(),
{
    if s.len() > 0 {
        assert(plain_char(s[0]));
        assert(esc_char(s[0]) =~= seq![s[0]]);
        lemma_escaped_plain(s.drop_first());
        assert(escaped(s) =~= s);
    }
}

/// A plain string body followed by its closing quote parses back to the
/// string.
proof fn lemma_parse_plain_string(u: Seq<char>, i: int, s: Seq<char>)
    requires
        plain(s),
        0 <= i,
        i + s.len() + 1 <= u.len(),
        u.subrange(i, i + s.len() + 1) == s + seq!['"'],
    ensures
        spec_parse_str_body(u, i) == Option::Some((s, i + s.len() + 1)),
    decreases s.len(),
{
    let sub = u.subrange(i, i + s.len() + 1);
    if s.len() == 0 {
        assert(u[i] == sub[0]);
        assert(u[i] == '"');
        assert(spec_parse_str_body(u, i) == Option::Some((Seq::<char>::empty(), i + 1)));
        assert(s =~= Seq::<char>::empty());
    } else {
        assert(u[i] == sub[0]);
        assert(u[i] == s[0]);
        assert(plain_char(s[0]));
        let s2 = s.drop_first();
        assert(u.subrange(i + 1, i + 1 + s2.len() + 1) =~= s2 + seq!['"']) by {
            assert forall|k: int| 0 <= k < s2.len() + 1 implies u.subrange(
                i + 1,
                i + 1 + s2.len() + 1,
            )[k] == (s2 + seq!['"'])[k] by {
                assert(u.subrange(i + 1, i + 1 + s2.len() + 1)[k] == u[i + 1 + k]);
                assert(u[i + 1 + k] == sub[1 + k]);
            }
        }
        lemma_parse_plain_string(u, i + 1, s2);
        assert(spec_parse_str_body(u, i) == Option::Some((seq![s[0]] + s2, i + s.len() + 1)));
        assert(seq![s[0]] + s2 =~= s);
    }
}

/// Every string of the list is plain.
pub open spec fn all_plain(l: Seq<Seq<char>>) -> bool {
    forall|i: int| 0 <= i < l.len() ==> plain(#[trigger] l[i])
}

proof fn lemma_json_items_min_len(l: Seq<Seq<char>>)
    ensures
        json_items(l).len() >= l.len(),
    decreases l.len(),
{
    if l.len() > 1 {
        lemma_json_items_min_len(l.drop_first());
    }
}

/// Skipping whitespace at a non-whitespace character goes nowhere.
proof fn lemma_skip_ws_stops(u: Seq<char>, i: int)
    requires
        !(0 <= i < u.len() && is_json_ws(u[i])),
    ensures
        spec_skip_ws(u, i) == i,
{
}

/// The canonical items of a non-empty list of plain strings, followed by
/// the closing bracket, parse back to the list.
proof fn lemma_parse_items_plain(u: Seq<char>, i: int, l: Seq<Seq<char>>, fuel: nat)
    requires
        all_plain(l),
        l.len() >= 1,
        fuel >= l.len(),
        0 <= i,
        i + json_items(l).len() < u.len(),
        u.subrange(i, i + json_items(l).len()) == json_items(l),
        u[i + json_items(l).len()] == ']',
    ensures
        spec_parse_items(u, i, fuel) == Option::Some((l, i + json_items(l).len())),
    decreases l.len(),
{
    let items = json_items(l);
    let sub = u.subrange(i, i + items.len());
    let s = l[0];
    assert(plain(s));
    lemma_escaped_plain(s);
    assert(json_string(s) =~= seq!['"'] + s + seq!['"']);
    assert(json_string(s).len() == s.len() + 2);
    let send: int = i + s.len() + 2;
    if l.len() == 1 {
        assert(items == json_string(s));
        assert(u[i] == sub[0]);
        assert(u[i] == '"');
        assert(u.subrange(i + 1, i + 1 + s.len() + 1) =~= s + seq!['"']) by {
            assert forall|k: int| 0 <= k < s.len() + 1 implies u.subrange(
                i + 1,
                i + 1 + s.len() + 1,
            )[k] == (s + seq!['"'])[k] by {
                assert(u.subrange(i + 1, i + 1 + s.len() + 1)[k] == u[i + 1 + k]);
                assert(u[i + 1 + k] == sub[1 + k]);
                assert(sub[1 + k] == json_string(s)[1 + k]);
            }
        }
        lemma_parse_plain_string(u, i + 1, s);
        assert(u[send] == ']');
        lemma_skip_ws_stops(u, send);
        assert(spec_parse_items(u, i, fuel) == Option::Some((seq![s], send)));
        assert(seq![s] =~= l);
    } else {
        let rest = l.drop_first();
        assert(items == json_string(s) + seq![','] + json_items(rest));
        assert(u[i] == sub[0]);
        assert(sub[0] == json_string(s)[0]);
        assert(u[i] == '"');
        assert(u.subrange(i + 1, i + 1 + s.len() + 1) =~= s + seq!['"']) by {
            assert forall|k: int| 0 <= k < s.len() + 1 implies u.subrange(
                i + 1,
                i + 1 + s.len() + 1,
            )[k] == (s + seq!['"'])[k] by {
                assert(u.subrange(i + 1, i + 1 + s.len() + 1)[k] == u[i + 1 + k]);
                assert(u[i + 1 + k] == sub[1 + k]);
                assert(sub[1 + k] == json_string(s)[1 + k]);
            }
        }
        lemma_parse_plain_string(u, i + 1, s);
        assert(u[send] == sub[s.len() as int + 2]);
        assert(u[send] == ',');
        lemma_skip_ws_stops(u, send);
        let inext: int = send + 1;
        assert(all_plain(rest)) by {
            assert forall|k: int| 0 <= k < rest.len() implies plain(#[trigger] rest[k]) by {
                assert(rest[k] == l[k + 1]);
            }
        }
        assert(u.subrange(inext, inext + json_items(rest).len()) =~= json_items(rest)) by {
            assert forall|k: int| 0 <= k < json_items(rest).len() implies u.subrange(
                inext,
                inext + json_items(rest).len(),
            )[k] == json_items(rest)[k] by {
                assert(u.subrange(inext, inext + json_items(rest).len())[k] == u[inext + k]);
                assert(u[inext + k] == sub[s.len() + 3 + k]);
                assert(sub[s.len() + 3 + k] == items[s.len() + 3 + k]);
                assert(items[s.len() + 3 + k] == json_items(rest)[k]);
            }
        }
        assert(u[inext + json_items(rest).len()] == ']');
        assert(json_items(rest).len() >= 1) by {
            lemma_json_items_min_len(rest);
        }
        assert(u[inext] == json_items(rest)[0]) by {
            let subr = u.subrange(inext, inext + json_items(rest).len());
            assert(subr[0] == u[inext]);
        }
        assert(u[inext] == '"');
        lemma_skip_ws_stops(u, inext);
        lemma_parse_items_plain(u, inext, rest, (fuel - 1) as nat);
        assert(spec_parse_items(u, i, fuel) == Option::Some((
            seq![s] + rest,
            inext + json_items(rest).len(),
        )));
        assert(seq![s] + rest =~= l);
        assert(inext + json_items(rest).len() == i + items.len());
    }
}

/// The canonical text of a results response: the single-member object the
/// protocol's text frames carry, rendered without whitespace.
pub open spec fn results_json(l: Seq<Seq<char>>) -> Seq<char> {
    "{\"Results\":"@ + json_array(l) + "}"@
}

/// Rendering a list of plain strings as a results response and parsing it
/// back is the identity.
pub proof fn lemma_results_round_trip(l: Seq<Seq<char>>)
    requires
        all_plain(l),
    ensures
        spec_parse_results(results_json(l)) == Option::Some(l),
{
    let prefix = "{\"Results\":"@;
    let suffix = "}"@;
    let arr = json_array(l);
    let items = json_items(l);
    let u = results_json(l);
    reveal_strlit("{\"Results\":");
    reveal_strlit("}");
    reveal_strlit("Results");
    assert(prefix.len() == 11);
    assert(suffix.len() == 1);
    assert(arr =~= seq!['['] + items + seq![']']);
    assert(u.len() == 13 + items.len() + 1);
    assert(forall|k: int| 0 <= k < 11 ==> u[k] == prefix[k]);
    assert(forall|k: int| 0 <= k < arr.len() ==> u[11 + k] == arr[k]);
    assert(u[u.len() - 1] == suffix[0]);
    assert(u[0] == '{');
    assert(u[1] == '"');
    assert(u[10] == ':');
    assert(u[11] == arr[0]);
    assert(u[11] == '[');
    assert(u[12 + items.len() as int] == arr[arr.len() as int - 1]);
    assert(u[12 + items.len() as int] == ']');
    assert(u[13 + items.len() as int] == '}');

    lemma_skip_ws_stops(u, 0);
    lemma_skip_ws_stops(u, 1);

    let key = "Results"@;
    assert(key.len() == 7);
    assert(plain(key)) by {
        assert(key[0] == 'R' && key[1] == 'e' && key[2] == 's' && key[3] == 'u' && key[4] == 'l'
            && key[5] == 't' && key[6] == 's');
    }
    assert(u.subrange(2, 10) =~= key + seq!['"']) by {
        assert forall|k: int| 0 <= k < 8 implies u.subrange(2, 10)[k] == (key + seq!['"'])[k] by {
            assert(u.subrange(2, 10)[k] == u[2 + k]);
            assert(u[2 + k] == prefix[2 + k]);
        }
    }
    lemma_parse_plain_string(u, 2, key);
    lemma_skip_ws_stops(u, 10);
    lemma_skip_ws_stops(u, 11);
    lemma_skip_ws_stops(u, 12);

    if l.len() == 0 {
        assert(items.len() == 0);
        assert(u[12] == ']');
        lemma_skip_ws_stops(u, 13);
        lemma_skip_ws_stops(u, 14);
        assert(u[13] == '}');
        assert(spec_skip_ws(u, 14) == u.len());
        assert(spec_parse_results(u) == Option::Some(Seq::<Seq<char>>::empty()));
        assert(Seq::<Seq<char>>::empty() =~= l);
    } else {
        lemma_json_items_min_len(l);
        assert(u[12] == items[0]) by {
            assert(items[0] == arr[1]);
        }
        assert(u[12] == '"') by {
            let s = l[0];
            lemma_escaped_plain(s);
            assert(items[0] == json_string(s)[0]);
        }
        assert(u.subrange(12, 12 + items.len() as int) =~= items) by {
            assert forall|k: int| 0 <= k < items.len() implies u.subrange(
                12,
                12 + items.len() as int,
            )[k] == items[k] by {
                assert(u.subrange(12, 12 + items.len() as int)[k] == u[12 + k]);
                assert(u[12 + k] == arr[1 + k]);
                assert(arr[1 + k] == items[k]);
            }
        }
        lemma_parse_items_plain(u, 12, l, u.len());
        let jend: int = 12 + items.len() as int;
        lemma_skip_ws_stops(u, jend + 1);
        lemma_skip_ws_stops(u, jend + 2);
        assert(spec_skip_ws(u, jend + 2) == u.len());
        assert(spec_parse_results(u) == Option::Some(l));
    }
}

fn is_results_key(key: &Vec<char>) -> (r: bool)
    ensures
        r == (key@ == "Results"@),
{
    proof {
        reveal_strlit("Results");
    }
    if key.len() != 7 {
        proof {
            assert(key@.len() != "Results"@.len());
        }
        return false;
    }
    let r = key[0] == 'R' && key[1] == 'e' && key[2] == 's' && key[3] == 'u' && key[4] == 'l'
        && key[5] == 't' && key[6] == 's';
    proof {
        if r {
            assert(key@ =~= "Results"@);
        } else {
            if key@ == "Results"@ {
                assert(key@[0] == 'R' && key@[1] == 'e' && key@[2] == 's' && key@[3] == 'u'
                    && key@[4] == 'l' && key@[5] == 't' && key@[6] == 's');
            }
        }
    }
    r
}

/// Parses a text response frame `{"Results":[…]}` into its result strings.
/// The result equals the specification parser's on every input.
pub fn parse_results(s: &str) -> (r: Option<Vec<String>>)
    ensures
        match r {
            Some(v) => spec_parse_results(s@) matches Some(m) && views_of(v@) == m,
            None => spec_parse_results(s@) is None,
        },
{
    let n: usize = s.unicode_len();
    let i0 = exec_skip_ws(s, n, 0);
    if !(i0 < n && s.get_char(i0) == '{') {
        return None;
    }
    let i1 = exec_skip_ws(s, n, i0 + 1);
    if !(i1 < n && s.get_char(i1) == '"') {
        return None;
    }
    match exec_parse_str_body(s, n, i1 + 1) {
        None => None,
        Some((key, i2)) => {
            if !is_results_key(&key) {
                return None;
            }
            let i3 = exec_skip_ws(s, n, i2);
            if !(i3 < n && s.get_char(i3) == ':') {
                return None;
            }
            let i4 = exec_skip_ws(s, n, i3 + 1);
            if !(i4 < n && s.get_char(i4) == '[') {
                return None;
            }
            let i5 = exec_skip_ws(s, n, i4 + 1);
            if i5 < n && s.get_char(i5) == ']' {
                let i6 = exec_skip_ws(s, n, i5 + 1);
                if i6 < n && s.get_char(i6) == '}' && exec_skip_ws(s, n, i6 + 1) == n {
                    let v: Vec<String> = Vec::new();
                    proof {
                        assert(views_of(v@) =~= Seq::<Seq<char>>::empty());
                    }
                    Some(v)
                } else {
                    None
                }
            } else {
                match exec_parse_items(s, n, i5, n) {
                    None => None,
                    Some((items, j)) => {
                        if !(j < n && s.get_char(j) == ']') {
                            return None;
                        }
                        let i6 = exec_skip_ws(s, n, j + 1);
                        if i6 < n && s.get_char(i6) == '}' && exec_skip_ws(s, n, i6 + 1) == n {
                            Some(items)
                        } else {
                            None
                        }
                    },
                }
            }
        },
    }
}

} // verus!
