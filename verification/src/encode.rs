//! Command Encoder: builds the line-delimited JSON request from typed
//! operation parameters. The request is one compact JSON object terminated
//! by exactly one `\n`; `addr` and `value` are sent as `0x`-prefixed
//! two-digit lowercase hex strings, `count` as a decimal string.

use vstd::prelude::*;
use vstd::string::*;

use crate::command::{ddr_name, ddr_name_spec, op_name, op_name_spec, Command, MemCommand};

verus! {

/// Hexadecimal digit (lowercase) for a value below 16; doubles as the
/// decimal digit for values below 10.
pub open spec fn hex_digit_spec(n: int) -> char {
    if n == 0 {
        '0'
    } else if n == 1 {
        '1'
    } else if n == 2 {
        '2'
    } else if n == 3 {
        '3'
    } else if n == 4 {
        '4'
    } else if n == 5 {
        '5'
    } else if n == 6 {
        '6'
    } else if n == 7 {
        '7'
    } else if n == 8 {
        '8'
    } else if n == 9 {
        '9'
    } else if n == 10 {
        'a'
    } else if n == 11 {
        'b'
    } else if n == 12 {
        'c'
    } else if n == 13 {
        'd'
    } else if n == 14 {
        'e'
    } else {
        'f'
    }
}

/// A byte as it appears in the `addr` and `value` fields: `0x` then two hex
/// digits.
pub open spec fn hex_byte_spec(b: u8) -> Seq<char> {
    "0x"@ + seq![hex_digit_spec(b as int / 16), hex_digit_spec(b as int % 16)]
}

/// A number as it appears in the `number` field: decimal digits, no leading
/// zeros (a lone `0` for zero).
pub open spec fn dec_spec(n: int) -> Seq<char>
    recommends
        n >= 0,
    decreases n,
{
    if n < 10 {
        seq![hex_digit_spec(n)]
    } else {
        dec_spec(n / 10) + seq![hex_digit_spec(n % 10)]
    }
}

/// How one character is written inside a JSON string: quote and backslash
/// are escaped, control characters get their short escape or a `\u00..`
/// escape, everything else stands for itself.
pub open spec fn esc_char_spec(c: char) -> Seq<char> {
    if c == '"' {
        "\\\""@
    } else if c == '\\' {
        "\\\\"@
    } else if c == '\u{8}' {
        "\\b"@
    } else if c == '\u{c}' {
        "\\f"@
    } else if c == '\n' {
        "\\n"@
    } else if c == '\r' {
        "\\r"@
    } else if c == '\t' {
        "\\t"@
    } else if (c as u32) < 0x20 {
        "\\u00"@ + seq![hex_digit_spec(c as u32 as int / 16), hex_digit_spec(c as u32 as int % 16)]
    } else {
        seq![c]
    }
}

/// A whole string escaped for inclusion in a JSON string value.
pub open spec fn json_escape_spec(s: Seq<char>) -> Seq<char>
    decreases s.len(),
{
    if s.len() == 0 {
        Seq::empty()
    } else {
        esc_char_spec(s[0]) + json_escape_spec(s.skip(1))
    }
}

/// The full request line for a memory operation.
pub open spec fn encode_mem_spec(c: MemCommand) -> Seq<char> {
    "{\"type\":\""@ + ddr_name_spec(c.ddr_type) + "\",\"cmd\":\""@ + op_name_spec(c.op)
        + "\",\"addr\":\""@ + hex_byte_spec(c.addr) + "\",\"value\":\""@ + hex_byte_spec(c.value)
        + "\",\"number\":\""@ + dec_spec(c.count as int) + "\"}\n"@
}

/// The full request line for a Wi-Fi provisioning operation.
pub open spec fn encode_wifi_spec(ssid: Seq<char>, password: Seq<char>) -> Seq<char> {
    "{\"ssid\":\""@ + json_escape_spec(ssid) + "\",\"password\":\""@ + json_escape_spec(password)
        + "\"}\n"@
}

/// The request line for any command.
pub open spec fn encode_spec(c: Command) -> Seq<char> {
    match c {
        Command::Memory(m) => encode_mem_spec(m),
        Command::Wifi(w) => encode_wifi_spec(w.ssid@, w.password@),
    }
}

/// One hexadecimal digit as a string slice.
fn hex_digit_str(n: u8) -> (r: &'static str)
    requires
        n < 16,
    ensures
        r@ == seq![hex_digit_spec(n as int)],
{
    proof {
        reveal_strlit("0");
        reveal_strlit("1");
        reveal_strlit("2");
        reveal_strlit("3");
        reveal_strlit("4");
        reveal_strlit("5");
        reveal_strlit("6");
        reveal_strlit("7");
        reveal_strlit("8");
        reveal_strlit("9");
        reveal_strlit("a");
        reveal_strlit("b");
        reveal_strlit("c");
        reveal_strlit("d");
        reveal_strlit("e");
        reveal_strlit("f");
    }
    match n {
        0 => "0",
        1 => "1",
        2 => "2",
        3 => "3",
        4 => "4",
        5 => "5",
        6 => "6",
        7 => "7",
        8 => "8",
        9 => "9",
        10 => "a",
        11 => "b",
        12 => "c",
        13 => "d",
        14 => "e",
        _ => "f",
    }
}

/// Appends `0x` and two hex digits for `b`.
fn push_hex_byte(out: &mut String, b: u8)
    ensures
        final(out)@ == old(out)@ + hex_byte_spec(b),
{
    out.append("0x");
    out.append(hex_digit_str(b / 16));
    out.append(hex_digit_str(b % 16));
    assert(final(out)@ =~= old(out)@ + hex_byte_spec(b));
}

/// Appends the decimal digits of `n`, most significant first.
fn push_dec(out: &mut String, n: u16)
    ensures
        final(out)@ == old(out)@ + dec_spec(n as int),
    decreases n,
{
    if n < 10 {
        out.append(hex_digit_str((n % 10) as u8));
    } else {
        push_dec(out, n / 10);
        out.append(hex_digit_str((n % 10) as u8));
        assert(final(out)@ =~= old(out)@ + dec_spec(n as int));
    }
}

/// Encodes a memory operation as one JSON request line ending in `\n`.
pub fn encode_mem_command(c: &MemCommand) -> (r: String)
    ensures
        r@ == encode_mem_spec(*c),
{
    let mut out = String::new();
    out.append("{\"type\":\"");
    out.append(ddr_name(c.ddr_type));
    out.append("\",\"cmd\":\"");
    out.append(op_name(c.op));
    out.append("\",\"addr\":\"");
    push_hex_byte(&mut out, c.addr);
    out.append("\",\"value\":\"");
    push_hex_byte(&mut out, c.value);
    out.append("\",\"number\":\"");
    push_dec(&mut out, c.count);
    out.append("\"}\n");
    assert(out@ =~= encode_mem_spec(*c));
    out
}

/// Lemma: escaping a string one character longer appends that character's
/// escape to the escape of the prefix.
proof fn lemma_escape_snoc(s: Seq<char>, i: int)
    requires
        0 <= i < s.len(),
    ensures
        json_escape_spec(s.take(i + 1)) == json_escape_spec(s.take(i)) + esc_char_spec(s[i]),
    decreases i,
{
    let t = s.take(i + 1);
    if i == 0 {
        assert(t.skip(1) =~= Seq::<char>::empty());
        assert(s.take(0) =~= Seq::<char>::empty());
        assert(t[0] == s[0]);
        assert(json_escape_spec(t) == esc_char_spec(t[0]) + json_escape_spec(t.skip(1)));
        assert(json_escape_spec(t) =~= json_escape_spec(s.take(0)) + esc_char_spec(s[0]));
    } else {
        lemma_escape_snoc(s.skip(1), i - 1);
        assert(t.skip(1) =~= s.skip(1).take(i));
        assert(s.take(i).skip(1) =~= s.skip(1).take(i - 1));
        assert(t[0] == s[0] && s.take(i)[0] == s[0]);
        assert(s.skip(1)[i - 1] == s[i]);
        assert(json_escape_spec(s.take(i + 1)) == esc_char_spec(s[0]) + json_escape_spec(
            s.skip(1).take(i),
        ));
        assert(json_escape_spec(s.take(i)) == esc_char_spec(s[0]) + json_escape_spec(
            s.skip(1).take(i - 1),
        ));
        assert(json_escape_spec(s.take(i + 1)) =~= json_escape_spec(s.take(i)) + esc_char_spec(
            s[i],
        ));
    }
}

/// Appends one character's JSON escape; `piece` is the one-character
/// substring of the source at the character's position.
fn push_escaped_char(out: &mut String, c: char, piece: &str)
    requires
        piece@ == seq![c],
    ensures
        final(out)@ == old(out)@ + esc_char_spec(c),
{
    if c == '"' {
        out.append("\\\"");
    } else if c == '\\' {
        out.append("\\\\");
    } else if c == '\u{8}' {
        out.append("\\b");
    } else if c == '\u{c}' {
        out.append("\\f");
    } else if c == '\n' {
        out.append("\\n");
    } else if c == '\r' {
        out.append("\\r");
    } else if c == '\t' {
        out.append("\\t");
    } else if (c as u32) < 0x20 {
        let v = c as u32;
        out.append("\\u00");
        out.append(hex_digit_str((v / 16) as u8));
        out.append(hex_digit_str((v % 16) as u8));
        assert(final(out)@ =~= old(out)@ + esc_char_spec(c));
    } else {
        out.append(piece);
    }
}

/// Appends the JSON escape of a whole string.
fn push_escaped(out: &mut String, s: &str)
    ensures
        final(out)@ == old(out)@ + json_escape_spec(s@),
{
    let n = s.unicode_len();
    let mut i: usize = 0;
    while i < n
        invariant
            n == s@.len(),
            i <= n,
            out@ == old(out)@ + json_escape_spec(s@.take(i as int)),
        decreases n - i,
    {
        let c = s.get_char(i);
        let piece = s.substring_char(i, i + 1);
        assert(piece@ =~= seq![c]);
        push_escaped_char(out, c, piece);
        proof {
            lemma_escape_snoc(s@, i as int);
        }
        i = i + 1;
    }
    assert(s@.take(n as int) =~= s@);
}

/// Encodes a Wi-Fi provisioning request as one JSON request line ending in
/// `\n`; the network name and passphrase are JSON-escaped.
pub fn encode_wifi_command(ssid: &str, password: &str) -> (r: String)
    ensures
        r@ == encode_wifi_spec(ssid@, password@),
{
    let mut out = String::new();
    out.append("{\"ssid\":\"");
    push_escaped(&mut out, ssid);
    out.append("\",\"password\":\"");
    push_escaped(&mut out, password);
    out.append("\"}\n");
    assert(out@ =~= encode_wifi_spec(ssid@, password@));
    out
}

/// Encodes any command as its single request line.
pub fn encode_command(c: &Command) -> (r: String)
    ensures
        r@ == encode_spec(*c),
{
    match c {
        Command::Memory(m) => encode_mem_command(m),
        Command::Wifi(w) => encode_wifi_command(w.ssid.as_str(), w.password.as_str()),
    }
}

/// Encoding is deterministic: any two request lines built from the same
/// command are identical.
pub proof fn lemma_encode_deterministic(c: Command, r1: Seq<char>, r2: Seq<char>)
    requires
        r1 == encode_spec(c),
        r2 == encode_spec(c),
    ensures
        r1 == r2,
{
}

} // verus!
