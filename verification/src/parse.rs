//! The request wire grammar read back: a parser, in specification form, for
//! the memory-operation request line, and the proof that it recovers every
//! field of an encoded command unchanged.

use vstd::prelude::*;

use crate::command::{ddr_name_spec, op_name_spec, DdrType, MemCommand, MemOp};
use crate::encode::{dec_spec, encode_mem_spec, hex_byte_spec, hex_digit_spec};

verus! {

/// Index of the first `"` at or after `from`, or -1 when there is none.
pub open spec fn find_quote(s: Seq<char>, from: int) -> int
    decreases s.len() - from,
{
    if !(0 <= from < s.len()) {
        -1
    } else if s[from] == '"' {
        from
    } else {
        find_quote(s, from + 1)
    }
}

/// Whether `lit` occurs in `s` at position `at`.
pub open spec fn has_at(s: Seq<char>, at: int, lit: Seq<char>) -> bool {
    0 <= at && at + lit.len() <= s.len() && s.subrange(at, at + lit.len()) == lit
}

/// Parses a memory-operation request line and yields the five field values
/// — `type`, `cmd`, `addr`, `value`, `number` — or nothing when the line is
/// not of that shape. Field values end at the first `"` after them.
pub open spec fn parse_mem_fields(s: Seq<char>) -> Option<
    (Seq<char>, Seq<char>, Seq<char>, Seq<char>, Seq<char>),
> {
    if !has_at(s, 0, "{\"type\":\""@) {
        None
    } else {
        let e1 = find_quote(s, 9);
        if !(e1 >= 9 && has_at(s, e1, "\",\"cmd\":\""@)) {
            None
        } else {
            let e2 = find_quote(s, e1 + 9);
            if !(e2 >= e1 + 9 && has_at(s, e2, "\",\"addr\":\""@)) {
                None
            } else {
                let e3 = find_quote(s, e2 + 10);
                if !(e3 >= e2 + 10 && has_at(s, e3, "\",\"value\":\""@)) {
                    None
                } else {
                    let e4 = find_quote(s, e3 + 11);
                    if !(e4 >= e3 + 11 && has_at(s, e4, "\",\"number\":\""@)) {
                        None
                    } else {
                        let e5 = find_quote(s, e4 + 12);
                        if !(e5 >= e4 + 12 && has_at(s, e5, "\"}\n"@) && e5 + 3 == s.len()) {
                            None
                        } else {
                            Some(
                                (
                                    s.subrange(9, e1),
                                    s.subrange(e1 + 9, e2),
                                    s.subrange(e2 + 10, e3),
                                    s.subrange(e3 + 11, e4),
                                    s.subrange(e4 + 12, e5),
                                ),
                            )
                        }
                    }
                }
            }
        }
    }
}

/// The first quote at or after `from` is the one at `at` when nothing
/// before it is a quote.
proof fn lemma_find_quote_at(s: Seq<char>, from: int, at: int)
    requires
        0 <= from <= at < s.len(),
        s[at] == '"',
        forall|k: int| from <= k < at ==> s[k] != '"',
    ensures
        find_quote(s, from) == at,
    decreases at - from,
{
    if from < at {
        lemma_find_quote_at(s, from + 1, at);
    }
}

/// Decimal digit sequences never contain a quote.
proof fn lemma_dec_no_quote(n: int)
    requires
        n >= 0,
    ensures
        forall|k: int| 0 <= k < dec_spec(n).len() ==> #[trigger] dec_spec(n)[k] != '"',
    decreases n,
{
    if n >= 10 {
        lemma_dec_no_quote(n / 10);
        assert forall|k: int| 0 <= k < dec_spec(n).len() implies #[trigger] dec_spec(n)[k]
            != '"' by {
            if k < dec_spec(n / 10).len() {
                assert(dec_spec(n)[k] == dec_spec(n / 10)[k]);
            } else {
                assert(dec_spec(n)[k] == hex_digit_spec(n % 10));
            }
        }
    }
}

/// Re-parsing an encoded memory-operation request yields every field back
/// unchanged: the round trip over the wire grammar loses nothing.
#[verifier::rlimit(60)]
pub proof fn lemma_mem_round_trip(c: MemCommand)
    ensures
        parse_mem_fields(encode_mem_spec(c)) == Some(
            (
                ddr_name_spec(c.ddr_type),
                op_name_spec(c.op),
                hex_byte_spec(c.addr),
                hex_byte_spec(c.value),
                dec_spec(c.count as int),
            ),
        ),
{
    reveal_strlit("{\"type\":\"");
    reveal_strlit("\",\"cmd\":\"");
    reveal_strlit("\",\"addr\":\"");
    reveal_strlit("\",\"value\":\"");
    reveal_strlit("\",\"number\":\"");
    reveal_strlit("\"}\n");
    reveal_strlit("ddr4");
    reveal_strlit("ddr5");
    reveal_strlit("read");
    reveal_strlit("write");
    reveal_strlit("srswp");
    reveal_strlit("crswp");
    reveal_strlit("0x");
    let s = encode_mem_spec(c);
    let tyv = ddr_name_spec(c.ddr_type);
    let opv = op_name_spec(c.op);
    let av = hex_byte_spec(c.addr);
    let vv = hex_byte_spec(c.value);
    let nv = dec_spec(c.count as int);
    assert(tyv.len() == 4) by {
        match c.ddr_type {
            DdrType::Ddr4 => {},
            DdrType::Ddr5 => {},
        }
    }
    let ol = opv.len();
    assert(4 <= ol <= 5 && (forall|k: int| 0 <= k < ol ==> opv[k] != '"')) by {
        match c.op {
            MemOp::Read => {},
            MemOp::Write => {},
            MemOp::Srswp => {},
            MemOp::Crswp => {},
        }
    }
    assert(forall|k: int| 0 <= k < 4 ==> tyv[k] != '"') by {
        match c.ddr_type {
            DdrType::Ddr4 => {},
            DdrType::Ddr5 => {},
        }
    }
    assert(av.len() == 4 && (forall|k: int| 0 <= k < 4 ==> av[k] != '"'));
    assert(vv.len() == 4 && (forall|k: int| 0 <= k < 4 ==> vv[k] != '"'));
    let dl = nv.len();
    assert(dl >= 1);
    lemma_dec_no_quote(c.count as int);
    // Positions of the five closing quotes.
    let e1: int = 13;
    let e2 = e1 + 9 + ol;
    let e3 = e2 + 10 + 4;
    let e4 = e3 + 11 + 4;
    let e5 = e4 + 12 + dl;
    assert(s.len() == e5 + 3);
    // The fixed pieces stand where the grammar expects them.
    assert(s.subrange(0, 9) =~= "{\"type\":\""@);
    assert(s.subrange(9, e1) =~= tyv);
    assert(s.subrange(e1, e1 + 9) =~= "\",\"cmd\":\""@);
    assert(s.subrange(e1 + 9, e2) =~= opv);
    assert(s.subrange(e2, e2 + 10) =~= "\",\"addr\":\""@);
    assert(s.subrange(e2 + 10, e3) =~= av);
    assert(s.subrange(e3, e3 + 11) =~= "\",\"value\":\""@);
    assert(s.subrange(e3 + 11, e4) =~= vv);
    assert(s.subrange(e4, e4 + 12) =~= "\",\"number\":\""@);
    assert(s.subrange(e4 + 12, e5) =~= nv);
    assert(s.subrange(e5, e5 + 3) =~= "\"}\n"@);
    // Each closing quote is the first quote after its field.
    assert(s[e1] == '"' && s[e2] == '"' && s[e3] == '"' && s[e4] == '"' && s[e5] == '"');
    lemma_find_quote_at(s, 9, e1);
    lemma_find_quote_at(s, e1 + 9, e2);
    lemma_find_quote_at(s, e2 + 10, e3);
    lemma_find_quote_at(s, e3 + 11, e4);
    lemma_find_quote_at(s, e4 + 12, e5);
    assert(has_at(s, 0, "{\"type\":\""@));
    assert(has_at(s, e1, "\",\"cmd\":\""@));
    assert(has_at(s, e2, "\",\"addr\":\""@));
    assert(has_at(s, e3, "\",\"value\":\""@));
    assert(has_at(s, e4, "\",\"number\":\""@));
    assert(has_at(s, e5, "\"}\n"@));
}

} // verus!
