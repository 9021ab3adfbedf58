//! The canonical serialized form of an election record: a JSON-shaped
//! text with a fixed field order, strings escaping the quote, the
//! backslash and every control character, decimal numbers, and the two
//! roots as arrays of bytes. The parser accepts exactly this canonical
//! form: whatever it returns serializes back to its input, character for
//! character, and on canonical input it always succeeds.
use vstd::prelude::*;

use crate::election::{CandidateChoice, Election, ElectionData};
use crate::keys::hex_digit;
use crate::text::{chars_vec, push_char};

verus! {

/// Whether a character is written as a two-character escape.
pub open spec fn needs_escape(c: char) -> bool {
    c == '"' || c == '\\'
}

/// Whether a character is a control character, written as a six-character
/// `\u00..` escape so that the canonical form stays within the JSON shape.
pub open spec fn is_ctrl_char(c: char) -> bool {
    (c as u32) < 0x20
}

pub open spec fn is_digit_char(c: char) -> bool {
    48 <= c as u32 <= 57
}

proof fn lemma_digit_chars(k: int)
    requires
        0 <= k <= 9,
    ensures
        is_digit_char(hex_digit(k)),
        hex_digit(k) as u32 == 48 + k,
{
}

pub open spec fn esc_char(c: char) -> Seq<char> {
    if needs_escape(c) {
        seq!['\\', c]
    } else if is_ctrl_char(c) {
        seq![
            '\\',
            'u',
            '0',
            '0',
            hex_digit(c as u32 as int / 16),
            hex_digit(c as u32 as int % 16),
        ]
    } else {
        seq![c]
    }
}

/// A string body with the quote and the backslash escaped.
pub open spec fn esc(s: Seq<char>) -> Seq<char>
    decreases s.len(),
{
    if s.len() == 0 {
        Seq::empty()
    } else {
        esc(s.drop_last()) + esc_char(s.last())
    }
}

/// A quoted, escaped string.
pub open spec fn ser_string(s: Seq<char>) -> Seq<char> {
    "\""@ + esc(s) + "\""@
}

/// The decimal digits of a non-negative number, most significant first.
pub open spec fn dec_chars(n: int) -> Seq<char>
    decreases n,
{
    if n < 10 {
        seq![hex_digit(n)]
    } else {
        dec_chars(n / 10) + seq![hex_digit(n % 10)]
    }
}

pub open spec fn ser_bool(b: bool) -> Seq<char> {
    if b {
        "true"@
    } else {
        "false"@
    }
}

/// A byte sequence as comma-separated decimal values.
pub open spec fn ser_bytes(bs: Seq<u8>) -> Seq<char>
    decreases bs.len(),
{
    if bs.len() == 0 {
        Seq::empty()
    } else if bs.len() == 1 {
        dec_chars(bs[0] as int)
    } else {
        ser_bytes(bs.drop_last()) + ","@ + dec_chars(bs.last() as int)
    }
}

pub open spec fn ser_candidate(c: CandidateChoice) -> Seq<char> {
    "{\"address\":"@ + ser_string(c.address@) + ",\"choice\":"@ + ser_string(c.choice@) + "}"@
}

/// The candidate list body, comma-separated, in order.
pub open spec fn ser_candidates(cs: Seq<CandidateChoice>) -> Seq<char>
    decreases cs.len(),
{
    if cs.len() == 0 {
        Seq::empty()
    } else if cs.len() == 1 {
        ser_candidate(cs[0])
    } else {
        ser_candidates(cs.drop_last()) + ","@ + ser_candidate(cs.last())
    }
}

/// The canonical form of an election record.
pub open spec fn ser_election(e: Election) -> Seq<char> {
    "{\"id\":"@ + ser_string(e.id@) + ",\"name\":"@ + ser_string(e.name@) + ",\"start_height\":"@
        + dec_chars(e.start_height as int) + ",\"end_height\":"@ + dec_chars(e.end_height as int)
        + ",\"question\":"@ + ser_string(e.question@) + ",\"candidates\":["@ + ser_candidates(
        e.candidates@,
    ) + "],\"signature_required\":"@ + ser_bool(e.signature_required) + ",\"cmx\":["@ + ser_bytes(
        e.cmx@,
    ) + "],\"nf\":["@ + ser_bytes(e.nf@) + "]}"@
}

/// The canonical form of the exported bundle: the phrase, then the record.
pub open spec fn ser_election_data(d: ElectionData) -> Seq<char> {
    "{\"seed\":"@ + ser_string(d.seed@) + ",\"election\":"@ + ser_election(d.election) + "}"@
}

proof fn lemma_dec_all_digits(n: int)
    requires
        n >= 0,
    ensures
        dec_chars(n).len() >= 1,
        forall|i: int| 0 <= i < dec_chars(n).len() ==> is_digit_char(#[trigger] dec_chars(n)[i]),
    decreases n,
{
    if n < 10 {
        lemma_digit_chars(n);
    } else {
        lemma_dec_all_digits(n / 10);
        lemma_digit_chars(n % 10);
        assert forall|i: int| 0 <= i < dec_chars(n).len() implies is_digit_char(
            #[trigger] dec_chars(n)[i],
        ) by {
            if i < dec_chars(n / 10).len() {
                assert(dec_chars(n)[i] == dec_chars(n / 10)[i]);
            } else {
                assert(dec_chars(n)[i] == hex_digit(n % 10));
            }
        }
    }
}

proof fn lemma_dec_injective(n1: int, n2: int)
    requires
        n1 >= 0,
        n2 >= 0,
        dec_chars(n1) == dec_chars(n2),
    ensures
        n1 == n2,
    decreases n1,
{
    lemma_dec_all_digits(n1);
    lemma_dec_all_digits(n2);
    if n1 < 10 && n2 < 10 {
        lemma_digit_chars(n1);
        lemma_digit_chars(n2);
        assert(dec_chars(n1)[0] == hex_digit(n1));
        assert(dec_chars(n2)[0] == hex_digit(n2));
    } else if n1 < 10 {
        assert(dec_chars(n2).len() == dec_chars(n2 / 10).len() + 1);
        assert(dec_chars(n2 / 10).len() >= 1);
        assert(dec_chars(n1).len() == 1);
        assert(false);
    } else if n2 < 10 {
        assert(dec_chars(n1).len() == dec_chars(n1 / 10).len() + 1);
        assert(dec_chars(n1 / 10).len() >= 1);
        assert(dec_chars(n2).len() == 1);
        assert(false);
    } else {
        let s1 = dec_chars(n1);
        let s2 = dec_chars(n2);
        assert(s1.last() == hex_digit(n1 % 10));
        assert(s2.last() == hex_digit(n2 % 10));
        lemma_digit_chars(n1 % 10);
        lemma_digit_chars(n2 % 10);
        assert(n1 % 10 == n2 % 10);
        assert(s1.drop_last() =~= dec_chars(n1 / 10));
        assert(s2.drop_last() =~= dec_chars(n2 / 10));
        vstd::arithmetic::div_mod::lemma_div_is_strictly_smaller(n1 as int, 10);
        lemma_dec_injective(n1 / 10, n2 / 10);
        vstd::arithmetic::div_mod::lemma_fundamental_div_mod(n1, 10);
        vstd::arithmetic::div_mod::lemma_fundamental_div_mod(n2, 10);
    }
}

proof fn lemma_dec_terminated_unique(n1: int, n2: int, r1: Seq<char>, r2: Seq<char>)
    requires
        n1 >= 0,
        n2 >= 0,
        dec_chars(n1) + r1 == dec_chars(n2) + r2,
        r1.len() == 0 || !is_digit_char(r1[0]),
        r2.len() == 0 || !is_digit_char(r2[0]),
    ensures
        n1 == n2,
        r1 == r2,
{
    lemma_dec_all_digits(n1);
    lemma_dec_all_digits(n2);
    let d1 = dec_chars(n1);
    let d2 = dec_chars(n2);
    let x = d1 + r1;
    let y = d2 + r2;
    assert(x.len() == d1.len() + r1.len());
    assert(y.len() == d2.len() + r2.len());
    if d1.len() < d2.len() {
        if r1.len() == 0 {
            assert(x.len() == d1.len());
            assert(y.len() >= d2.len());
            assert(false);
        } else {
            assert(x[d1.len() as int] == r1[0]);
            assert(y[d1.len() as int] == d2[d1.len() as int]);
            assert(is_digit_char(d2[d1.len() as int]));
            assert(false);
        }
    } else if d2.len() < d1.len() {
        if r2.len() == 0 {
            assert(y.len() == d2.len());
            assert(x.len() >= d1.len());
            assert(false);
        } else {
            assert(y[d2.len() as int] == r2[0]);
            assert(x[d2.len() as int] == d1[d2.len() as int]);
            assert(is_digit_char(d1[d2.len() as int]));
            assert(false);
        }
    }
    assert(d1.len() == d2.len());
    assert(d1 =~= x.take(d1.len() as int));
    assert(d2 =~= y.take(d2.len() as int));
    assert(r1 =~= x.skip(d1.len() as int));
    assert(r2 =~= y.skip(d2.len() as int));
    lemma_dec_injective(n1, n2);
}

fn push_escaped(out: &mut String, s: &str)
    ensures
        final(out)@ == old(out)@ + esc(s@),
{
    let n = s.unicode_len();
    let mut i: usize = 0;
    proof {
        assert(esc(s@.take(0)) =~= Seq::<char>::empty());
        assert(old(out)@ + esc(s@.take(0)) =~= old(out)@);
    }
    while i < n
        invariant
            0 <= i <= n,
            n == s@.len(),
            out@ == old(out)@ + esc(s@.take(i as int)),
        decreases n - i,
    {
        let ghost pref = s@.take(i as int + 1);
        proof {
            assert(pref.drop_last() =~= s@.take(i as int));
            assert(pref.last() == s@[i as int]);
        }
        let c = s.get_char(i);
        let u = c as u32;
        if c == '"' || c == '\\' {
            push_char(out, '\\');
            push_char(out, c);
        } else if u < 0x20 {
            push_char(out, '\\');
            push_char(out, 'u');
            push_char(out, '0');
            push_char(out, '0');
            push_char(out, crate::keys::hex_digit_char((u / 16) as u8));
            push_char(out, crate::keys::hex_digit_char((u % 16) as u8));
        } else {
            push_char(out, c);
        }
        proof {
            assert(out@ =~= old(out)@ + esc(s@.take(i as int + 1)));
        }
        i = i + 1;
    }
    proof {
        assert(s@.take(n as int) =~= s@);
    }
}

fn push_quoted(out: &mut String, s: &str)
    ensures
        final(out)@ == old(out)@ + ser_string(s@),
{
    out.append("\"");
    push_escaped(out, s);
    out.append("\"");
    proof {
        assert(old(out)@ + ser_string(s@) =~= ((old(out)@ + "\""@) + esc(s@)) + "\""@);
    }
}

fn push_decimal(out: &mut String, n: u32)
    ensures
        final(out)@ == old(out)@ + dec_chars(n as int),
    decreases n,
{
    if n < 10 {
        push_char(out, crate::keys::hex_digit_char(n as u8));
        proof {
            assert(dec_chars(n as int) =~= seq![hex_digit(n as int)]);
            assert(old(out)@.push(hex_digit(n as int)) =~= old(out)@ + dec_chars(n as int));
        }
    } else {
        proof {
            vstd::arithmetic::div_mod::lemma_div_is_strictly_smaller(n as int, 10);
        }
        push_decimal(out, n / 10);
        push_char(out, crate::keys::hex_digit_char((n % 10) as u8));
        proof {
            assert(out@ =~= old(out)@ + dec_chars(n as int));
        }
    }
}

fn push_bool(out: &mut String, b: bool)
    ensures
        final(out)@ == old(out)@ + ser_bool(b),
{
    if b {
        out.append("true");
    } else {
        out.append("false");
    }
}

fn push_bytes(out: &mut String, v: &Vec<u8>)
    ensures
        final(out)@ == old(out)@ + ser_bytes(v@),
{
    let n = v.len();
    let mut i: usize = 0;
    proof {
        assert(old(out)@ + ser_bytes(v@.take(0)) =~= old(out)@);
    }
    while i < n
        invariant
            0 <= i <= n,
            n == v@.len(),
            out@ == old(out)@ + ser_bytes(v@.take(i as int)),
        decreases n - i,
    {
        let ghost pref = v@.take(i as int + 1);
        proof {
            assert(pref.drop_last() =~= v@.take(i as int));
            assert(pref.last() == v@[i as int]);
        }
        if i > 0 {
            out.append(",");
        }
        push_decimal(out, v[i] as u32);
        proof {
            assert(out@ =~= old(out)@ + ser_bytes(v@.take(i as int + 1)));
        }
        i = i + 1;
    }
    proof {
        assert(v@.take(n as int) =~= v@);
    }
}

fn push_candidate(out: &mut String, c: &CandidateChoice)
    ensures
        final(out)@ == old(out)@ + ser_candidate(*c),
{
    out.append("{\"address\":");
    push_quoted(out, c.address.as_str());
    out.append(",\"choice\":");
    push_quoted(out, c.choice.as_str());
    out.append("}");
    proof {
        assert(out@ =~= old(out)@ + ser_candidate(*c));
    }
}

fn push_candidates(out: &mut String, cs: &Vec<CandidateChoice>)
    ensures
        final(out)@ == old(out)@ + ser_candidates(cs@),
{
    let n = cs.len();
    let mut i: usize = 0;
    proof {
        assert(old(out)@ + ser_candidates(cs@.take(0)) =~= old(out)@);
    }
    while i < n
        invariant
            0 <= i <= n,
            n == cs@.len(),
            out@ == old(out)@ + ser_candidates(cs@.take(i as int)),
        decreases n - i,
    {
        let ghost pref = cs@.take(i as int + 1);
        proof {
            assert(pref.drop_last() =~= cs@.take(i as int));
            assert(pref.last() == cs@[i as int]);
        }
        if i > 0 {
            out.append(",");
        }
        push_candidate(out, &cs[i]);
        proof {
            assert(out@ =~= old(out)@ + ser_candidates(cs@.take(i as int + 1)));
        }
        i = i + 1;
    }
    proof {
        assert(cs@.take(n as int) =~= cs@);
    }
}

/// Writes the canonical form of an election record.
pub fn election_to_json(e: &Election) -> (r: String)
    ensures
        r@ == ser_election(*e),
{
    let mut out = String::new();
    out.append("{\"id\":");
    push_quoted(&mut out, e.id.as_str());
    out.append(",\"name\":");
    push_quoted(&mut out, e.name.as_str());
    out.append(",\"start_height\":");
    push_decimal(&mut out, e.start_height);
    out.append(",\"end_height\":");
    push_decimal(&mut out, e.end_height);
    out.append(",\"question\":");
    push_quoted(&mut out, e.question.as_str());
    out.append(",\"candidates\":[");
    push_candidates(&mut out, &e.candidates);
    out.append("],\"signature_required\":");
    push_bool(&mut out, e.signature_required);
    out.append(",\"cmx\":[");
    push_bytes(&mut out, &e.cmx);
    out.append("],\"nf\":[");
    push_bytes(&mut out, &e.nf);
    out.append("]}");
    proof {
        assert(out@ =~= ser_election(*e));
    }
    out
}

/// Writes the canonical form of the exported bundle.
pub fn election_data_to_json(d: &ElectionData) -> (r: String)
    ensures
        r@ == ser_election_data(*d),
{
    let mut out = String::new();
    out.append("{\"seed\":");
    push_quoted(&mut out, d.seed.as_str());
    out.append(",\"election\":");
    let body = election_to_json(&d.election);
    out.append(body.as_str());
    out.append("}");
    proof {
        assert(out@ =~= ser_election_data(*d));
    }
    out
}

fn hex_val(c: char) -> (r: Option<u8>)
    ensures
        r matches Some(d) ==> d < 16 && c == hex_digit(d as int),
        r is None ==> forall|k: int| 0 <= k < 16 ==> c != hex_digit(k),
{
    match c {
        '0' => Some(0),
        '1' => Some(1),
        '2' => Some(2),
        '3' => Some(3),
        '4' => Some(4),
        '5' => Some(5),
        '6' => Some(6),
        '7' => Some(7),
        '8' => Some(8),
        '9' => Some(9),
        'a' => Some(10),
        'b' => Some(11),
        'c' => Some(12),
        'd' => Some(13),
        'e' => Some(14),
        'f' => Some(15),
        _ => None,
    }
}

fn control_char(code: u8) -> (r: char)
    requires
        code < 0x20,
    ensures
        r as u32 == code,
{
    match code {
        0 => '\u{0}',
        1 => '\u{1}',
        2 => '\u{2}',
        3 => '\u{3}',
        4 => '\u{4}',
        5 => '\u{5}',
        6 => '\u{6}',
        7 => '\u{7}',
        8 => '\u{8}',
        9 => '\u{9}',
        10 => '\u{a}',
        11 => '\u{b}',
        12 => '\u{c}',
        13 => '\u{d}',
        14 => '\u{e}',
        15 => '\u{f}',
        16 => '\u{10}',
        17 => '\u{11}',
        18 => '\u{12}',
        19 => '\u{13}',
        20 => '\u{14}',
        21 => '\u{15}',
        22 => '\u{16}',
        23 => '\u{17}',
        24 => '\u{18}',
        25 => '\u{19}',
        26 => '\u{1a}',
        27 => '\u{1b}',
        28 => '\u{1c}',
        29 => '\u{1d}',
        30 => '\u{1e}',
        _ => '\u{1f}',
    }
}

/// The shape of a literal-prefixed input, the trigger of completeness.
pub open spec fn lit_form(lit: Seq<char>, rest: Seq<char>) -> Seq<char> {
    lit + rest
}

/// The value of a digit character.
pub open spec fn digit_val(c: char) -> int {
    c as u32 - 48
}

/// The number a string of decimal digits denotes.
pub open spec fn num_val(s: Seq<char>) -> int
    decreases s.len(),
{
    if s.len() == 0 {
        0
    } else {
        num_val(s.drop_last()) * 10 + digit_val(s.last())
    }
}

proof fn lemma_num_val_nonneg(s: Seq<char>)
    requires
        forall|i: int| 0 <= i < s.len() ==> is_digit_char(#[trigger] s[i]),
    ensures
        num_val(s) >= 0,
    decreases s.len(),
{
    if s.len() > 0 {
        assert(forall|i: int| 0 <= i < s.drop_last().len() ==> is_digit_char(
            #[trigger] s.drop_last()[i],
        ));
        lemma_num_val_nonneg(s.drop_last());
        assert(is_digit_char(s.last()));
        assert(digit_val(s.last()) >= 0) by (nonlinear_arith)
            requires
                is_digit_char(s.last()),
        ;
        assert(num_val(s.drop_last()) * 10 >= 0) by (nonlinear_arith)
            requires
                num_val(s.drop_last()) >= 0,
        ;
    }
}

proof fn lemma_num_val_dec(n: int)
    requires
        n >= 0,
    ensures
        num_val(dec_chars(n)) == n,
    decreases n,
{
    if n < 10 {
        lemma_digit_chars(n);
        assert(dec_chars(n) =~= seq![hex_digit(n)]);
        assert(dec_chars(n).drop_last() =~= Seq::<char>::empty());
        assert(num_val(Seq::<char>::empty()) == 0);
        assert(num_val(dec_chars(n)) == digit_val(hex_digit(n)));
    } else {
        vstd::arithmetic::div_mod::lemma_div_is_strictly_smaller(n, 10);
        vstd::arithmetic::div_mod::lemma_div_pos_is_pos(n, 10);
        lemma_num_val_dec(n / 10);
        lemma_digit_chars(n % 10);
        let d = dec_chars(n);
        assert(d.drop_last() =~= dec_chars(n / 10));
        assert(d.last() == hex_digit(n % 10));
        vstd::arithmetic::div_mod::lemma_fundamental_div_mod(n, 10);
    }
}

proof fn lemma_num_val_take_step(s: Seq<char>, k: int)
    requires
        0 <= k < s.len(),
    ensures
        num_val(s.take(k + 1)) == num_val(s.take(k)) * 10 + digit_val(s[k]),
{
    assert(s.take(k + 1).drop_last() =~= s.take(k));
    assert(s.take(k + 1).last() == s[k]);
}

proof fn lemma_num_val_prefix_le(s: Seq<char>, k: int)
    requires
        0 <= k <= s.len(),
        forall|i: int| 0 <= i < s.len() ==> is_digit_char(#[trigger] s[i]),
    ensures
        num_val(s.take(k)) <= num_val(s),
    decreases s.len() - k,
{
    if k == s.len() {
        assert(s.take(k) =~= s);
    } else {
        lemma_num_val_take_step(s, k);
        assert(forall|i: int| 0 <= i < s.take(k).len() ==> is_digit_char(
            #[trigger] s.take(k)[i],
        ));
        lemma_num_val_nonneg(s.take(k));
        assert(digit_val(s[k]) >= 0) by (nonlinear_arith)
            requires
                is_digit_char(s[k]),
        ;
        assert(num_val(s.take(k)) * 10 >= num_val(s.take(k))) by (nonlinear_arith)
            requires
                num_val(s.take(k)) >= 0,
        ;
        lemma_num_val_prefix_le(s, k + 1);
    }
}

fn expect_lit(v: &Vec<char>, pos: usize, lit: &str) -> (r: Option<usize>)
    requires
        pos <= v@.len(),
    ensures
        r matches Some(p) ==> pos <= p <= v@.len() && p - pos == lit@.len() && v@.subrange(
            pos as int,
            p as int,
        ) == lit@,
        forall|rest: Seq<char>|
            v@.skip(pos as int) == #[trigger] lit_form(lit@, rest) ==> r == Some(
                (pos + lit@.len()) as usize,
            ),
{
    let lc = chars_vec(lit);
    let n = lc.len();
    let vn = v.len();
    proof {
        assert forall|rest: Seq<char>| v@.skip(pos as int) == #[trigger] lit_form(
            lit@,
            rest,
        ) implies v@.len() - pos >= lit@.len() && v@.skip(pos as int).take(lit@.len() as int)
            == lit@ by {
            assert(v@.skip(pos as int).take(lit@.len() as int) =~= lit@);
        }
    }
    if vn - pos < n {
        proof {
            assert forall|rest: Seq<char>| v@.skip(pos as int) != #[trigger] lit_form(
                lit@,
                rest,
            ) by {
                if v@.skip(pos as int) == lit_form(lit@, rest) {
                    assert(v@.len() - pos >= lit@.len());
                }
            }
        }
        return None;
    }
    let mut i: usize = 0;
    while i < n
        invariant
            0 <= i <= n,
            n == lc@.len(),
            vn == v@.len(),
            pos + n <= vn,
            lc@ == lit@,
            forall|j: int| 0 <= j < i ==> v@[pos + j] == lit@[j],
        decreases n - i,
    {
        if v[pos + i] != lc[i] {
            proof {
                assert forall|rest: Seq<char>| v@.skip(pos as int) != #[trigger] lit_form(
                    lit@,
                    rest,
                ) by {
                    if v@.skip(pos as int) == lit_form(lit@, rest) {
                        assert(v@.skip(pos as int)[i as int] == lit@[i as int]);
                        assert(v@.skip(pos as int)[i as int] == v@[pos + i]);
                    }
                }
            }
            return None;
        }
        i = i + 1;
    }
    proof {
        assert(v@.subrange(pos as int, (pos + n) as int) =~= lit@);
    }
    Some(pos + n)
}

/// The shape of a quoted-string-prefixed input, the trigger of
/// completeness.
pub open spec fn quoted_form(s0: Seq<char>, rest: Seq<char>) -> Seq<char> {
    ser_string(s0) + rest
}

/// The same shape after the opening quote.
pub open spec fn quoted_body_form(s0: Seq<char>, rest: Seq<char>) -> Seq<char> {
    esc(s0) + "\""@ + rest
}

/// Under the quoted-body shape, a leading backslash means the first source
/// character is escaped (two or six characters long).
proof fn qbody_head_escape(v: Seq<char>, i: int)
    requires
        0 <= i < v.len(),
        v[i] == '\\',
    ensures
        forall|s0: Seq<char>, rest: Seq<char>|
            v.skip(i) == #[trigger] quoted_body_form(s0, rest) ==> s0.len() > 0 && (needs_escape(
                s0[0],
            ) ==> i + 2 <= v.len() && v[i + 1] == s0[0]) && (is_ctrl_char(s0[0]) ==> i + 6
                <= v.len() && v[i + 1] == 'u' && v[i + 2] == '0' && v[i + 3] == '0' && v[i + 4]
                == hex_digit(s0[0] as u32 as int / 16) && v[i + 5] == hex_digit(
                s0[0] as u32 as int % 16,
            )) && (needs_escape(s0[0]) || is_ctrl_char(s0[0])),
{
    reveal_strlit("\"");
    assert forall|s0: Seq<char>, rest: Seq<char>|
        v.skip(i) == #[trigger] quoted_body_form(s0, rest) implies s0.len() > 0 && (needs_escape(
            s0[0],
        ) ==> i + 2 <= v.len() && v[i + 1] == s0[0]) && (is_ctrl_char(s0[0]) ==> i + 6 <= v.len()
            && v[i + 1] == 'u' && v[i + 2] == '0' && v[i + 3] == '0' && v[i + 4] == hex_digit(
            s0[0] as u32 as int / 16,
        ) && v[i + 5] == hex_digit(s0[0] as u32 as int % 16)) && (needs_escape(s0[0])
            || is_ctrl_char(s0[0])) by {
        let w = quoted_body_form(s0, rest);
        assert(w[0] == v[i]);
        if s0.len() == 0 {
            assert(esc(s0) =~= Seq::<char>::empty());
            assert(w[0] == '"');
            assert(false);
        }
        lemma_esc_unfold_front(s0);
        let c0 = s0[0];
        assert(w[0] == esc_char(c0)[0]);
        if !(needs_escape(c0) || is_ctrl_char(c0)) {
            assert(esc_char(c0)[0] == c0);
            assert(false);
        }
        assert(w.len() == v.len() - i);
        if needs_escape(c0) {
            assert(w.len() >= 3);
            assert(w[1] == esc_char(c0)[1]);
            assert(v.skip(i)[1] == v[i + 1]);
        }
        if is_ctrl_char(c0) {
            assert(w.len() >= 7);
            assert(w[1] == esc_char(c0)[1]);
            assert(w[2] == esc_char(c0)[2]);
            assert(w[3] == esc_char(c0)[3]);
            assert(w[4] == esc_char(c0)[4]);
            assert(w[5] == esc_char(c0)[5]);
            assert(v.skip(i)[1] == v[i + 1]);
            assert(v.skip(i)[2] == v[i + 2]);
            assert(v.skip(i)[3] == v[i + 3]);
            assert(v.skip(i)[4] == v[i + 4]);
            assert(v.skip(i)[5] == v[i + 5]);
        }
    }
}

/// Under the quoted-body shape with a `\u` opener, the first source
/// character is a control character written in six characters.
proof fn qbody_head_ctrl(v: Seq<char>, i: int)
    requires
        0 <= i,
        i + 2 <= v.len(),
        v[i] == '\\',
        v[i + 1] == 'u',
    ensures
        forall|s0: Seq<char>, rest: Seq<char>|
            v.skip(i) == #[trigger] quoted_body_form(s0, rest) ==> s0.len() > 0 && is_ctrl_char(
                s0[0],
            ) && i + 6 <= v.len() && v[i + 2] == '0' && v[i + 3] == '0' && v[i + 4] == hex_digit(
                s0[0] as u32 as int / 16,
            ) && v[i + 5] == hex_digit(s0[0] as u32 as int % 16),
{
    qbody_head_escape(v, i);
    assert forall|s0: Seq<char>, rest: Seq<char>|
        v.skip(i) == #[trigger] quoted_body_form(s0, rest) implies s0.len() > 0 && is_ctrl_char(
            s0[0],
        ) && i + 6 <= v.len() && v[i + 2] == '0' && v[i + 3] == '0' && v[i + 4] == hex_digit(
            s0[0] as u32 as int / 16,
        ) && v[i + 5] == hex_digit(s0[0] as u32 as int % 16) by {
        if needs_escape(s0[0]) {
            assert(v[i + 1] == s0[0]);
            assert(s0[0] != 'u');
            assert(false);
        }
    }
}

/// Stepping the quoted-body shape past the first escaped character.
proof fn qbody_skip_step(v: Seq<char>, i: int, k: int, s0: Seq<char>, rest: Seq<char>)
    requires
        0 <= i,
        i + k <= v.len(),
        s0.len() > 0,
        esc_char(s0[0]).len() == k,
        v.skip(i) == quoted_body_form(s0, rest),
    ensures
        v.skip(i + k) == quoted_body_form(s0.drop_first(), rest),
{
    lemma_esc_unfold_front(s0);
    let w = quoted_body_form(s0, rest);
    let w2 = quoted_body_form(s0.drop_first(), rest);
    assert(w =~= esc_char(s0[0]) + w2);
    assert(w.len() == k + w2.len());
    assert forall|j: int| 0 <= j < w2.len() implies v.skip(i + k)[j] == w2[j] by {
        assert(w[k + j] == w2[j]);
        assert(v.skip(i)[k + j] == v[i + k + j]);
        assert(v.skip(i + k)[j] == v[i + k + j]);
    }
    assert(v.skip(i + k) =~= w2);
}

fn parse_qbody(v: &Vec<char>, i: usize) -> (r: Option<(String, usize)>)
    requires
        i <= v@.len(),
    ensures
        r matches Some(p) ==> i < p.1 <= v@.len(),
        forall|s0: Seq<char>, rest: Seq<char>|
            v@.skip(i as int) == #[trigger] quoted_body_form(s0, rest) ==> (r matches Some(p)
                && p.0@ == s0 && p.1 == i + esc(s0).len() + 1),
    decreases v@.len() - i,
{
    proof {
        reveal_strlit("\"");
    }
    let vn = v.len();
    if i >= vn {
        proof {
            assert forall|s0: Seq<char>, rest: Seq<char>|
                v@.skip(i as int) != #[trigger] quoted_body_form(s0, rest) by {
                if v@.skip(i as int) == quoted_body_form(s0, rest) {
                    assert(v@.skip(i as int).len() == esc(s0).len() + 1 + rest.len());
                }
            }
        }
        return None;
    }
    let c = v[i];
    proof {
        assert(v@.skip(i as int)[0] == c);
    }
    if c == '"' {
        let s = String::new();
        proof {
            assert forall|s0: Seq<char>, rest: Seq<char>|
                v@.skip(i as int) == #[trigger] quoted_body_form(s0, rest) implies (s@ == s0 && i
                + 1 == i + esc(s0).len() + 1) by {
                if s0.len() > 0 {
                    lemma_esc_unfold_front(s0);
                    assert((esc(s0) + "\""@ + rest)[0] == esc_char(s0[0])[0]);
                    assert(false);
                }
                assert(esc(s0) =~= Seq::<char>::empty());
                assert(s@ =~= s0);
            }
        }
        return Some((s, i + 1));
    }
    if c == '\\' {
        if i + 1 >= vn {
            proof {
                qbody_head_escape(v@, i as int);
            }
            return None;
        }
        let e = v[i + 1];
        proof {
            assert(v@.skip(i as int)[1] == e);
        }
        if e == 'u' {
            if vn - (i + 2) < 4 || v[i + 2] != '0' || v[i + 3] != '0' {
                proof {
                    qbody_head_ctrl(v@, i as int);
                }
                return None;
            }
            let h1 = match hex_val(v[i + 4]) {
                Some(d) => d,
                None => {
                    proof {
                        qbody_head_ctrl(v@, i as int);
                    }
                    return None;
                },
            };
            let h2 = match hex_val(v[i + 5]) {
                Some(d) => d,
                None => {
                    proof {
                        qbody_head_ctrl(v@, i as int);
                    }
                    return None;
                },
            };
            let code = h1 * 16 + h2;
            if code >= 0x20 {
                proof {
                    qbody_head_ctrl(v@, i as int);
                }
                return None;
            }
            let c0 = control_char(code);
            proof {
                assert(v@.skip(i as int)[2] == v@[i + 2]);
                assert(v@.skip(i as int)[3] == v@[i + 3]);
                assert(v@.skip(i as int)[4] == v@[i + 4]);
                assert(v@.skip(i as int)[5] == v@[i + 5]);
            }
            match parse_qbody(v, i + 6) {
                Some((tail, p)) => {
                    let mut s = String::new();
                    push_char(&mut s, c0);
                    s.append(tail.as_str());
                    proof {
                        assert forall|s0: Seq<char>, rest: Seq<char>|
                            v@.skip(i as int) == #[trigger] quoted_body_form(s0, rest) implies (s@
                            == s0 && p == i + esc(s0).len() + 1) by {
                            qbody_head_ctrl(v@, i as int);
                            lemma_esc_unfold_front(s0);
                            let cc = s0[0];
                            let u0 = cc as u32 as int;
                            assert((esc(s0) + "\""@ + rest)[4] == hex_digit(u0 / 16));
                            assert((esc(s0) + "\""@ + rest)[5] == hex_digit(u0 % 16));
                            assert(h1 as int == u0 / 16);
                            assert(h2 as int == u0 % 16);
                            vstd::arithmetic::div_mod::lemma_fundamental_div_mod(u0, 16);
                            assert(code as int == u0);
                            vstd::utf8::char_u32_cast(cc, cc as u32);
                            vstd::utf8::char_u32_cast(c0, c0 as u32);
                            assert(c0 == cc);
                            qbody_skip_step(v@, i as int, 6, s0, rest);
                            assert(tail@ == s0.drop_first() && p == i + 6 + esc(
                                s0.drop_first(),
                            ).len() + 1);
                            assert(s@ =~= s0);
                        }
                    }
                    Some((s, p))
                },
                None => {
                    proof {
                        assert forall|s0: Seq<char>, rest: Seq<char>|
                            v@.skip(i as int) != #[trigger] quoted_body_form(s0, rest) by {
                            if v@.skip(i as int) == quoted_body_form(s0, rest) {
                                qbody_head_ctrl(v@, i as int);
                                lemma_esc_unfold_front(s0);
                                qbody_skip_step(v@, i as int, 6, s0, rest);
                            }
                        }
                    }
                    None
                },
            }
        } else {
            if !(e == '"' || e == '\\') {
                proof {
                    qbody_head_escape(v@, i as int);
                }
                return None;
            }
            match parse_qbody(v, i + 2) {
                Some((tail, p)) => {
                    let mut s = String::new();
                    push_char(&mut s, e);
                    s.append(tail.as_str());
                    proof {
                        assert forall|s0: Seq<char>, rest: Seq<char>|
                            v@.skip(i as int) == #[trigger] quoted_body_form(s0, rest) implies (s@
                            == s0 && p == i + esc(s0).len() + 1) by {
                            qbody_head_escape(v@, i as int);
                            lemma_esc_unfold_front(s0);
                            assert((esc(s0) + "\""@ + rest)[1] == s0[0]);
                            assert(e == s0[0]);
                            qbody_skip_step(v@, i as int, 2, s0, rest);
                            assert(tail@ == s0.drop_first() && p == i + 2 + esc(
                                s0.drop_first(),
                            ).len() + 1);
                            assert(s@ =~= s0);
                        }
                    }
                    Some((s, p))
                },
                None => {
                    proof {
                        assert forall|s0: Seq<char>, rest: Seq<char>|
                            v@.skip(i as int) != #[trigger] quoted_body_form(s0, rest) by {
                            if v@.skip(i as int) == quoted_body_form(s0, rest) {
                                qbody_head_escape(v@, i as int);
                                lemma_esc_unfold_front(s0);
                                qbody_skip_step(v@, i as int, 2, s0, rest);
                            }
                        }
                    }
                    None
                },
            }
        }
    } else {
        if (c as u32) < 0x20 {
            proof {
                assert forall|s0: Seq<char>, rest: Seq<char>|
                    v@.skip(i as int) != #[trigger] quoted_body_form(s0, rest) by {
                    if v@.skip(i as int) == quoted_body_form(s0, rest) {
                        assert(s0.len() > 0);
                        lemma_esc_unfold_front(s0);
                        assert((esc(s0) + "\""@ + rest)[0] == esc_char(s0[0])[0]);
                    }
                }
            }
            return None;
        }
        match parse_qbody(v, i + 1) {
            Some((tail, p)) => {
                let mut s = String::new();
                push_char(&mut s, c);
                s.append(tail.as_str());
                proof {
                    assert forall|s0: Seq<char>, rest: Seq<char>|
                        v@.skip(i as int) == #[trigger] quoted_body_form(s0, rest) implies (s@
                        == s0 && p == i + esc(s0).len() + 1) by {
                        assert(s0.len() > 0);
                        lemma_esc_unfold_front(s0);
                        assert((esc(s0) + "\""@ + rest)[0] == esc_char(s0[0])[0]);
                        assert(c == s0[0]);
                        qbody_skip_step(v@, i as int, 1, s0, rest);
                        assert(tail@ == s0.drop_first() && p == i + 1 + esc(
                            s0.drop_first(),
                        ).len() + 1);
                        assert(s@ =~= s0);
                    }
                }
                Some((s, p))
            },
            None => {
                proof {
                    assert forall|s0: Seq<char>, rest: Seq<char>|
                        v@.skip(i as int) != #[trigger] quoted_body_form(s0, rest) by {
                        if v@.skip(i as int) == quoted_body_form(s0, rest) {
                            assert(s0.len() > 0);
                            lemma_esc_unfold_front(s0);
                            assert((esc(s0) + "\""@ + rest)[0] == esc_char(s0[0])[0]);
                            assert(c == s0[0]);
                            qbody_skip_step(v@, i as int, 1, s0, rest);
                        }
                    }
                }
                None
            },
        }
    }
}

fn parse_quoted(v: &Vec<char>, pos: usize) -> (r: Option<(String, usize)>)
    requires
        pos <= v@.len(),
    ensures
        r matches Some(p) ==> pos < p.1 <= v@.len(),
        forall|s0: Seq<char>, rest: Seq<char>|
            v@.skip(pos as int) == #[trigger] quoted_form(s0, rest) ==> (r matches Some(p) && p.0@
                == s0 && p.1 == pos + ser_string(s0).len()),
{
    proof {
        reveal_strlit("\"");
        assert forall|s0: Seq<char>, rest: Seq<char>|
            v@.skip(pos as int) == #[trigger] quoted_form(s0, rest) implies v@.skip(pos as int)[0]
            == '"' && v@.skip((pos + 1) as int) == quoted_body_form(s0, rest) by {
            assert(ser_string(s0) + rest =~= "\""@ + (esc(s0) + "\""@ + rest));
            assert((("\""@ + (esc(s0) + "\""@ + rest)))[0] == '"');
            assert(v@.skip(pos as int).drop_first() =~= v@.skip((pos + 1) as int));
            assert((("\""@ + (esc(s0) + "\""@ + rest))).drop_first() =~= esc(s0) + "\""@
                + rest);
        }
    }
    if pos >= v.len() {
        proof {
            assert forall|s0: Seq<char>, rest: Seq<char>|
                v@.skip(pos as int) != #[trigger] quoted_form(s0, rest) by {
                if v@.skip(pos as int) == quoted_form(s0, rest) {
                    assert(v@.skip(pos as int).len() == ser_string(s0).len() + rest.len());
                    assert(ser_string(s0).len() == esc(s0).len() + 2);
                }
            }
        }
        return None;
    }
    if v[pos] != '"' {
        proof {
            assert(v@.skip(pos as int)[0] == v@[pos as int]);
        }
        return None;
    }
    match parse_qbody(v, pos + 1) {
        Some((s, p)) => {
            proof {
                assert forall|s0: Seq<char>, rest: Seq<char>|
                    v@.skip(pos as int) == #[trigger] quoted_form(s0, rest) implies (s@ == s0 && p
                    == pos + ser_string(s0).len()) by {
                    assert(v@.skip((pos + 1) as int) == quoted_body_form(s0, rest));
                    assert(ser_string(s0).len() == esc(s0).len() + 2);
                }
            }
            Some((s, p))
        },
        None => {
            proof {
                assert forall|s0: Seq<char>, rest: Seq<char>|
                    v@.skip(pos as int) != #[trigger] quoted_form(s0, rest) by {
                    if v@.skip(pos as int) == quoted_form(s0, rest) {
                        assert(v@.skip((pos + 1) as int) == quoted_body_form(s0, rest));
                    }
                }
            }
            None
        },
    }
}

/// The shape of a number-prefixed input, the trigger of completeness.
pub open spec fn number_form(n0: int, rest: Seq<char>) -> Seq<char> {
    dec_chars(n0) + rest
}

fn digit_char(c: char) -> (r: bool)
    ensures
        r == is_digit_char(c),
{
    let u = c as u32;
    48 <= u && u <= 57
}

proof fn lemma_number_prefix(v: Seq<char>, pos: int, k: int, n0: int, rest: Seq<char>)
    requires
        0 <= pos,
        0 <= k,
        pos + k <= v.len(),
        n0 >= 0,
        v.skip(pos) == number_form(n0, rest),
        rest.len() == 0 || !is_digit_char(rest[0]),
        forall|j: int| pos <= j < pos + k ==> is_digit_char(#[trigger] v[j]),
        pos + k == v.len() || !is_digit_char(v[pos + k]),
    ensures
        k == dec_chars(n0).len(),
        v.subrange(pos, pos + k) == dec_chars(n0),
        rest == v.skip(pos + k),
{
    let d = dec_chars(n0);
    lemma_dec_all_digits(n0);
    assert(v.skip(pos).len() == d.len() + rest.len());
    if k < d.len() {
        assert(pos + k < v.len());
        assert(v.skip(pos)[k] == v[pos + k]);
        assert((d + rest)[k] == d[k]);
        assert(is_digit_char(d[k]));
        assert(false);
    }
    if k > d.len() {
        if rest.len() == 0 {
            assert(v.skip(pos).len() == d.len());
            assert(false);
        } else {
            assert(v.skip(pos)[d.len() as int] == v[pos + d.len()]);
            assert((d + rest)[d.len() as int] == rest[0]);
            assert(is_digit_char(v[pos + d.len()]));
            assert(false);
        }
    }
    assert(v.subrange(pos, pos + k) =~= d);
    assert forall|j: int| 0 <= j < rest.len() implies rest[j] == v.skip(pos + k)[j] by {
        assert((d + rest)[k + j] == rest[j]);
        assert(v.skip(pos)[k + j] == v[pos + k + j]);
        assert(v.skip(pos + k)[j] == v[pos + k + j]);
    }
    assert(rest =~= v.skip(pos + k));
}

fn parse_number(v: &Vec<char>, pos: usize) -> (r: Option<(u32, usize)>)
    requires
        pos <= v@.len(),
    ensures
        r matches Some(p) ==> pos < p.1 <= v@.len(),
        forall|n0: int, rest: Seq<char>|
            (0 <= n0 <= 0xffff_ffff && (rest.len() == 0 || !is_digit_char(rest[0])) && v@.skip(
                pos as int,
            ) == #[trigger] number_form(n0, rest)) ==> (r matches Some(p) && p.0 == n0 && p.1 == pos
                + dec_chars(n0).len()),
{
    let vn = v.len();
    if pos >= vn || !digit_char(v[pos]) {
        proof {
            assert forall|n0: int, rest: Seq<char>|
                !(0 <= n0 <= 0xffff_ffff && (rest.len() == 0 || !is_digit_char(rest[0]))
                    && v@.skip(pos as int) == #[trigger] number_form(n0, rest)) by {
                if 0 <= n0 && v@.skip(pos as int) == number_form(n0, rest) {
                    lemma_dec_all_digits(n0);
                    assert(v@.skip(pos as int).len() >= 1);
                    assert(v@.skip(pos as int)[0] == v@[pos as int]);
                    assert((dec_chars(n0) + rest)[0] == dec_chars(n0)[0]);
                    assert(is_digit_char(v@[pos as int]));
                }
            }
        }
        return None;
    }
    let mut acc: u64 = 0;
    let mut i: usize = pos;
    while i < vn && digit_char(v[i])
        invariant
            pos <= i <= vn,
            vn == v@.len(),
            pos < vn && is_digit_char(v@[pos as int]),
            acc <= 0xffff_ffffu64,
            forall|j: int| pos <= j < i ==> is_digit_char(#[trigger] v@[j]),
            acc as int == num_val(v@.subrange(pos as int, i as int)),
        decreases vn - i,
    {
        let u = v[i] as u32;
        let d = (u - 48) as u64;
        let next = acc * 10 + d;
        proof {
            assert(v@.subrange(pos as int, i as int + 1).drop_last() =~= v@.subrange(
                pos as int,
                i as int,
            ));
            assert(v@.subrange(pos as int, i as int + 1).last() == v@[i as int]);
            assert(next as int == num_val(v@.subrange(pos as int, i as int + 1)));
        }
        if next > 0xffff_ffffu64 {
            proof {
                assert forall|n0: int, rest: Seq<char>|
                    !(0 <= n0 <= 0xffff_ffff && (rest.len() == 0 || !is_digit_char(rest[0]))
                        && v@.skip(pos as int) == #[trigger] number_form(n0, rest)) by {
                    if 0 <= n0 <= 0xffff_ffff && (rest.len() == 0 || !is_digit_char(rest[0]))
                        && v@.skip(pos as int) == number_form(n0, rest) {
                        let d0 = dec_chars(n0);
                        lemma_dec_all_digits(n0);
                        let m = i + 1 - pos;
                        assert(forall|j: int| pos <= j < pos + m ==> is_digit_char(
                            #[trigger] v@[j],
                        ));
                        assert(v@.skip(pos as int).len() == d0.len() + rest.len());
                        if m > d0.len() {
                            if rest.len() == 0 {
                                assert(false);
                            } else {
                                assert(v@.skip(pos as int)[d0.len() as int] == v@[pos
                                    + d0.len()]);
                                assert((d0 + rest)[d0.len() as int] == rest[0]);
                                assert(is_digit_char(v@[pos + d0.len()]));
                                assert(false);
                            }
                        }
                        assert(v@.subrange(pos as int, pos + m) =~= d0.take(m as int));
                        lemma_num_val_prefix_le(d0, m as int);
                        lemma_num_val_dec(n0);
                        assert(num_val(d0.take(m as int)) <= n0);
                        assert(next as int == num_val(v@.subrange(pos as int, i as int + 1)));
                        assert(false);
                    }
                }
            }
            return None;
        }
        acc = next;
        i = i + 1;
    }
    proof {
        assert forall|n0: int, rest: Seq<char>|
            (0 <= n0 <= 0xffff_ffff && (rest.len() == 0 || !is_digit_char(rest[0])) && v@.skip(
                pos as int,
            ) == #[trigger] number_form(n0, rest)) implies (acc as int == n0 && i == pos
            + dec_chars(n0).len()) by {
            lemma_number_prefix(v@, pos as int, i - pos, n0, rest);
            lemma_num_val_dec(n0);
        }
    }
    Some((acc as u32, i))
}

/// Stepping an input shape past a known prefix.
proof fn lemma_skip_concat(v: Seq<char>, pos: int, a: Seq<char>, b: Seq<char>)
    requires
        0 <= pos <= v.len(),
        v.skip(pos) == a + b,
    ensures
        pos + a.len() <= v.len(),
        v.skip(pos + a.len()) == b,
{
    assert(v.skip(pos).len() == a.len() + b.len());
    assert forall|j: int| 0 <= j < b.len() implies v.skip(pos + a.len())[j] == b[j] by {
        assert((a + b)[a.len() + j] == b[j]);
        assert(v.skip(pos)[a.len() + j] == v[pos + a.len() + j]);
        assert(v.skip(pos + a.len())[j] == v[pos + a.len() + j]);
    }
    assert(v.skip(pos + a.len()) =~= b);
}

/// The shape of a boolean-prefixed input, the trigger of completeness.
pub open spec fn bool_form(b0: bool, rest: Seq<char>) -> Seq<char> {
    ser_bool(b0) + rest
}

/// The shape of a byte-list-prefixed input (closing bracket included).
pub open spec fn bytes_form(bs0: Seq<u8>, rest: Seq<char>) -> Seq<char> {
    ser_bytes(bs0) + "]"@ + rest
}

/// The candidate record over the views of its two strings.
pub open spec fn ser_cand_views(a: Seq<char>, ch: Seq<char>) -> Seq<char> {
    "{\"address\":"@ + ser_string(a) + ",\"choice\":"@ + ser_string(ch) + "}"@
}

/// The shape of a candidate-record-prefixed input.
pub open spec fn cand_form(a: Seq<char>, ch: Seq<char>, rest: Seq<char>) -> Seq<char> {
    ser_cand_views(a, ch) + rest
}

/// The shape of a candidate-list-prefixed input (closing bracket included).
pub open spec fn cands_form(cs0: Seq<CandidateChoice>, rest: Seq<char>) -> Seq<char> {
    ser_candidates(cs0) + "]"@ + rest
}

/// Two candidate lists with equal views serialize identically.
proof fn lemma_ser_candidates_congruent(cs1: Seq<CandidateChoice>, cs2: Seq<CandidateChoice>)
    requires
        candidates_views_eq(cs1, cs2),
    ensures
        ser_candidates(cs1) == ser_candidates(cs2),
    decreases cs1.len(),
{
    if cs1.len() == 0 {
    } else {
        assert(cs1.last().address@ == cs2.last().address@ && cs1.last().choice@
            == cs2.last().choice@);
        assert(ser_candidate(cs1.last()) == ser_candidate(cs2.last()));
        if cs1.len() == 1 {
            assert(ser_candidates(cs1) == ser_candidate(cs1[0]));
            assert(ser_candidates(cs2) == ser_candidate(cs2[0]));
        } else {
            assert(candidates_views_eq(cs1.drop_last(), cs2.drop_last())) by {
                assert forall|i: int|
                    0 <= i < cs1.drop_last().len() implies (#[trigger] cs1.drop_last()[i]).address@
                    == cs2.drop_last()[i].address@ && cs1.drop_last()[i].choice@
                    == cs2.drop_last()[i].choice@ by {
                    assert(cs1.drop_last()[i] == cs1[i]);
                    assert(cs2.drop_last()[i] == cs2[i]);
                }
            }
            lemma_ser_candidates_congruent(cs1.drop_last(), cs2.drop_last());
        }
    }
}

fn parse_bool(v: &Vec<char>, pos: usize) -> (r: Option<(bool, usize)>)
    requires
        pos <= v@.len(),
    ensures
        r matches Some(p) ==> pos <= p.1 <= v@.len(),
        forall|b0: bool, rest: Seq<char>|
            v@.skip(pos as int) == #[trigger] bool_form(b0, rest) ==> (r matches Some(p) && p.0
                == b0 && p.1 == pos + ser_bool(b0).len()),
{
    proof {
        reveal_strlit("true");
        reveal_strlit("false");
    }
    match expect_lit(v, pos, "true") {
        Some(p) => {
            proof {
                assert forall|b0: bool, rest: Seq<char>|
                    v@.skip(pos as int) == #[trigger] bool_form(b0, rest) implies (b0 == true && p
                    == pos + ser_bool(b0).len()) by {
                    if !b0 {
                        assert(v@.subrange(pos as int, p as int)[0] == "true"@[0]);
                        assert(v@.subrange(pos as int, p as int)[0] == v@[pos as int]);
                        assert(v@.skip(pos as int)[0] == ("false"@ + rest)[0]);
                        assert(false);
                    }
                    assert(v@.skip(pos as int) == lit_form("true"@, rest));
                }
            }
            return Some((true, p));
        },
        None => {},
    }
    match expect_lit(v, pos, "false") {
        Some(p) => {
            proof {
                assert forall|b0: bool, rest: Seq<char>|
                    v@.skip(pos as int) == #[trigger] bool_form(b0, rest) implies (b0 == false && p
                    == pos + ser_bool(b0).len()) by {
                    if b0 {
                        assert(v@.skip(pos as int) == lit_form("true"@, rest));
                    }
                    assert(v@.skip(pos as int) == lit_form("false"@, rest));
                }
            }
            Some((false, p))
        },
        None => {
            proof {
                assert forall|b0: bool, rest: Seq<char>|
                    v@.skip(pos as int) != #[trigger] bool_form(b0, rest) by {
                    if v@.skip(pos as int) == bool_form(b0, rest) {
                        if b0 {
                            assert(v@.skip(pos as int) == lit_form("true"@, rest));
                        } else {
                            assert(v@.skip(pos as int) == lit_form("false"@, rest));
                        }
                    }
                }
            }
            None
        },
    }
}

/// Under the byte-list shape, what the first number and its terminator are.
proof fn lemma_bytes_head(v: Seq<char>, pos: int, bs0: Seq<u8>, rest: Seq<char>)
    requires
        0 <= pos <= v.len(),
        bs0.len() > 0,
        v.skip(pos) == bytes_form(bs0, rest),
    ensures
        v.skip(pos) == number_form(
            bs0[0] as int,
            if bs0.len() == 1 {
                "]"@ + rest
            } else {
                ","@ + (ser_bytes(bs0.drop_first()) + ("]"@ + rest))
            },
        ),
        bs0.len() > 1 ==> (ser_bytes(bs0.drop_first()) + ("]"@ + rest)) == bytes_form(
            bs0.drop_first(),
            rest,
        ),
{
    reveal_strlit("]");
    reveal_strlit(",");
    if bs0.len() == 1 {
        assert(ser_bytes(bs0) == dec_chars(bs0[0] as int));
        assert(bytes_form(bs0, rest) =~= dec_chars(bs0[0] as int) + ("]"@ + rest));
    } else {
        lemma_ser_bytes_unfold_front(bs0);
        assert(bytes_form(bs0, rest) =~= dec_chars(bs0[0] as int) + (","@ + (ser_bytes(
            bs0.drop_first(),
        ) + ("]"@ + rest))));
        assert((ser_bytes(bs0.drop_first()) + ("]"@ + rest)) =~= bytes_form(
            bs0.drop_first(),
            rest,
        ));
    }
}

fn parse_byte_list(v: &Vec<char>, pos: usize) -> (r: Option<(Vec<u8>, usize)>)
    requires
        pos <= v@.len(),
    ensures
        r matches Some(p) ==> pos <= p.1 <= v@.len(),
        forall|bs0: Seq<u8>, rest: Seq<char>|
            v@.skip(pos as int) == #[trigger] bytes_form(bs0, rest) ==> (r matches Some(p) && p.0@
                == bs0 && p.1 == pos + ser_bytes(bs0).len() + 1),
    decreases v@.len() - pos,
{
    proof {
        reveal_strlit("]");
        reveal_strlit(",");
    }
    match expect_lit(v, pos, "]") {
        Some(p) => {
            let out: Vec<u8> = Vec::new();
            proof {
                assert forall|bs0: Seq<u8>, rest: Seq<char>|
                    v@.skip(pos as int) == #[trigger] bytes_form(bs0, rest) implies (out@ == bs0
                    && p == pos + ser_bytes(bs0).len() + 1) by {
                    if bs0.len() > 0 {
                        lemma_bytes_head(v@, pos as int, bs0, rest);
                        lemma_dec_all_digits(bs0[0] as int);
                        assert(v@.skip(pos as int)[0] == v@[pos as int]);
                        assert(v@.subrange(pos as int, p as int)[0] == v@[pos as int]);
                        assert(v@[pos as int] == ']');
                        assert(is_digit_char(dec_chars(bs0[0] as int)[0]));
                        assert(false);
                    }
                    assert(ser_bytes(bs0) =~= Seq::<char>::empty());
                    assert(out@ =~= bs0);
                    assert(v@.skip(pos as int) == lit_form("]"@, rest));
                }
            }
            return Some((out, p));
        },
        None => {},
    }
    let (n, j) = match parse_number(v, pos) {
        Some(x) => x,
        None => {
            proof {
                assert forall|bs0: Seq<u8>, rest: Seq<char>|
                    v@.skip(pos as int) != #[trigger] bytes_form(bs0, rest) by {
                    if v@.skip(pos as int) == bytes_form(bs0, rest) {
                        if bs0.len() == 0 {
                            assert(ser_bytes(bs0) =~= Seq::<char>::empty());
                            assert(v@.skip(pos as int) =~= lit_form("]"@, rest));
                        } else {
                            lemma_bytes_head(v@, pos as int, bs0, rest);
                        }
                    }
                }
            }
            return None;
        },
    };
    if n > 255 {
        proof {
            assert forall|bs0: Seq<u8>, rest: Seq<char>|
                v@.skip(pos as int) != #[trigger] bytes_form(bs0, rest) by {
                if v@.skip(pos as int) == bytes_form(bs0, rest) {
                    if bs0.len() == 0 {
                        assert(ser_bytes(bs0) =~= Seq::<char>::empty());
                        assert(v@.skip(pos as int) =~= lit_form("]"@, rest));
                    } else {
                        lemma_bytes_head(v@, pos as int, bs0, rest);
                    }
                }
            }
        }
        return None;
    }
    match expect_lit(v, j, ",") {
        Some(k) => {
            match parse_byte_list(v, k) {
                Some((tail, p)) => {
                    let ghost tailv = tail@;
                    let mut out: Vec<u8> = Vec::new();
                    out.push(n as u8);
                    let mut tail = tail;
                    out.append(&mut tail);
                    proof {
                        assert(out@ == seq![n as u8] + tailv);
                    }
                    proof {
                        assert forall|bs0: Seq<u8>, rest: Seq<char>|
                            v@.skip(pos as int) == #[trigger] bytes_form(bs0, rest) implies (out@
                            == bs0 && p == pos + ser_bytes(bs0).len() + 1) by {
                            bytes_step(v@, pos as int, j as int, n as int, bs0, rest);
                            assert(v@.skip(k as int) == bytes_form(bs0.drop_first(), rest));
                            assert(out@ =~= bs0);
                        }
                    }
                    Some((out, p))
                },
                None => {
                    proof {
                        assert forall|bs0: Seq<u8>, rest: Seq<char>|
                            v@.skip(pos as int) != #[trigger] bytes_form(bs0, rest) by {
                            if v@.skip(pos as int) == bytes_form(bs0, rest) {
                                bytes_step(v@, pos as int, j as int, n as int, bs0, rest);
                            }
                        }
                    }
                    None
                },
            }
        },
        None => {
            match expect_lit(v, j, "]") {
                Some(k) => {
                    let mut out: Vec<u8> = Vec::new();
                    out.push(n as u8);
                    proof {
                        assert forall|bs0: Seq<u8>, rest: Seq<char>|
                            v@.skip(pos as int) == #[trigger] bytes_form(bs0, rest) implies (out@
                            == bs0 && k == pos + ser_bytes(bs0).len() + 1) by {
                            bytes_one(v@, pos as int, j as int, n as int, bs0, rest);
                            assert(out@ =~= bs0);
                        }
                    }
                    Some((out, k))
                },
                None => {
                    proof {
                        assert forall|bs0: Seq<u8>, rest: Seq<char>|
                            v@.skip(pos as int) != #[trigger] bytes_form(bs0, rest) by {
                            if v@.skip(pos as int) == bytes_form(bs0, rest) {
                                bytes_one(v@, pos as int, j as int, n as int, bs0, rest);
                            }
                        }
                    }
                    None
                },
            }
        },
    }
}

/// After the first number of a byte list, a comma continues the list.
proof fn bytes_step(v: Seq<char>, pos: int, j: int, n: int, bs0: Seq<u8>, rest: Seq<char>)
    requires
        0 <= pos <= v.len(),
        v.skip(pos) == bytes_form(bs0, rest),
        forall|r0: Seq<char>| v.skip(pos) != #[trigger] lit_form("]"@, r0),
        forall|n0: int, r0: Seq<char>|
            (0 <= n0 <= 0xffff_ffff && (r0.len() == 0 || !is_digit_char(r0[0])) && v.skip(pos)
                == #[trigger] number_form(n0, r0)) ==> n == n0 && j == pos + dec_chars(n0).len(),
        0 <= j <= v.len(),
        v.subrange(j, j + 1) == ","@,
    ensures
        bs0.len() >= 2,
        n == bs0[0] as int,
        v.skip(j + 1) == bytes_form(bs0.drop_first(), rest),
        ser_bytes(bs0).len() == dec_chars(bs0[0] as int).len() + 1 + ser_bytes(
            bs0.drop_first(),
        ).len(),
        j == pos + dec_chars(bs0[0] as int).len(),
{
    reveal_strlit("]");
    reveal_strlit(",");
    if bs0.len() == 0 {
        assert(ser_bytes(bs0) =~= Seq::<char>::empty());
        assert(v.skip(pos) =~= lit_form("]"@, rest));
        assert(false);
    }
    lemma_bytes_head(v, pos, bs0, rest);
    let u = if bs0.len() == 1 {
        "]"@ + rest
    } else {
        ","@ + (ser_bytes(bs0.drop_first()) + ("]"@ + rest))
    };
    assert(u.len() == 0 || !is_digit_char(u[0]));
    assert(n == bs0[0] as int && j == pos + dec_chars(bs0[0] as int).len());
    lemma_skip_concat(v, pos, dec_chars(bs0[0] as int), u);
    assert(v.skip(j) == u);
    assert(v.subrange(j, j + 1)[0] == v[j]);
    assert(v.skip(j)[0] == v[j]);
    if bs0.len() == 1 {
        assert(u[0] == ']');
        assert(v[j] == ',');
        assert(false);
    }
    lemma_skip_concat(v, j, ","@, ser_bytes(bs0.drop_first()) + ("]"@ + rest));
    assert(v.skip(j + 1) == bytes_form(bs0.drop_first(), rest));
    lemma_ser_bytes_unfold_front(bs0);
}

/// After the only number of a byte list, a bracket ends the list.
proof fn bytes_one(v: Seq<char>, pos: int, j: int, n: int, bs0: Seq<u8>, rest: Seq<char>)
    requires
        0 <= pos <= v.len(),
        v.skip(pos) == bytes_form(bs0, rest),
        forall|r0: Seq<char>| v.skip(pos) != #[trigger] lit_form("]"@, r0),
        forall|n0: int, r0: Seq<char>|
            (0 <= n0 <= 0xffff_ffff && (r0.len() == 0 || !is_digit_char(r0[0])) && v.skip(pos)
                == #[trigger] number_form(n0, r0)) ==> n == n0 && j == pos + dec_chars(n0).len(),
        0 <= j <= v.len(),
        forall|r0: Seq<char>| v.skip(j) != #[trigger] lit_form(","@, r0),
    ensures
        bs0.len() == 1,
        n == bs0[0] as int,
        j + 1 == pos + ser_bytes(bs0).len() + 1,
        v.skip(j) == lit_form("]"@, rest),
{
    reveal_strlit("]");
    reveal_strlit(",");
    if bs0.len() == 0 {
        assert(ser_bytes(bs0) =~= Seq::<char>::empty());
        assert(v.skip(pos) =~= lit_form("]"@, rest));
        assert(false);
    }
    lemma_bytes_head(v, pos, bs0, rest);
    let u = if bs0.len() == 1 {
        "]"@ + rest
    } else {
        ","@ + (ser_bytes(bs0.drop_first()) + ("]"@ + rest))
    };
    assert(u.len() == 0 || !is_digit_char(u[0]));
    assert(n == bs0[0] as int && j == pos + dec_chars(bs0[0] as int).len());
    lemma_skip_concat(v, pos, dec_chars(bs0[0] as int), u);
    assert(v.skip(j) == u);
    if bs0.len() > 1 {
        assert(v.skip(j) == lit_form(","@, ser_bytes(bs0.drop_first()) + ("]"@ + rest)));
        assert(false);
    }
    assert(ser_bytes(bs0) == dec_chars(bs0[0] as int));
}
/// The intermediate shapes of a candidate record, at each parse position.
proof fn cand_chain(v: Seq<char>, pos: int, a: Seq<char>, ch: Seq<char>, rest: Seq<char>)
    requires
        0 <= pos <= v.len(),
        v.skip(pos) == cand_form(a, ch, rest),
    ensures
        v.skip(pos) == lit_form(
            "{\"address\":"@,
            ser_string(a) + (",\"choice\":"@ + (ser_string(ch) + ("}"@ + rest))),
        ),
        v.skip(pos + "{\"address\":"@.len()) == quoted_form(
            a,
            ",\"choice\":"@ + (ser_string(ch) + ("}"@ + rest)),
        ),
        v.skip(pos + "{\"address\":"@.len() + ser_string(a).len()) == lit_form(
            ",\"choice\":"@,
            ser_string(ch) + ("}"@ + rest),
        ),
        v.skip(pos + "{\"address\":"@.len() + ser_string(a).len() + ",\"choice\":"@.len())
            == quoted_form(ch, "}"@ + rest),
        v.skip(
            pos + "{\"address\":"@.len() + ser_string(a).len() + ",\"choice\":"@.len()
                + ser_string(ch).len(),
        ) == lit_form("}"@, rest),
        ser_cand_views(a, ch).len() == "{\"address\":"@.len() + ser_string(a).len()
            + ",\"choice\":"@.len() + ser_string(ch).len() + "}"@.len(),
{
    let la = "{\"address\":"@;
    let lc = ",\"choice\":"@;
    let le = "}"@;
    let t4 = le + rest;
    let t3 = ser_string(ch) + t4;
    let t2 = lc + t3;
    let t1 = ser_string(a) + t2;
    assert(cand_form(a, ch, rest) =~= la + t1);
    lemma_skip_concat(v, pos, la, t1);
    lemma_skip_concat(v, pos + la.len(), ser_string(a), t2);
    lemma_skip_concat(v, pos + la.len() + ser_string(a).len(), lc, t3);
    lemma_skip_concat(v, pos + la.len() + ser_string(a).len() + lc.len(), ser_string(ch), t4);
    assert(v.skip(pos + la.len()) == quoted_form(a, t2));
    assert(v.skip(pos + la.len() + ser_string(a).len() + lc.len()) == quoted_form(ch, t4));
}

fn parse_candidate(v: &Vec<char>, pos: usize) -> (r: Option<(CandidateChoice, usize)>)
    requires
        pos <= v@.len(),
    ensures
        r matches Some(p) ==> pos < p.1 <= v@.len(),
        forall|a: Seq<char>, ch: Seq<char>, rest: Seq<char>|
            v@.skip(pos as int) == #[trigger] cand_form(a, ch, rest) ==> (r matches Some(p)
                && p.0.address@ == a && p.0.choice@ == ch && p.1 == pos + ser_cand_views(
                a,
                ch,
            ).len()),
{
    proof {
        assert forall|a: Seq<char>, ch: Seq<char>, rest: Seq<char>|
            v@.skip(pos as int) == #[trigger] cand_form(a, ch, rest) implies v@.skip(pos as int)
            == lit_form(
            "{\"address\":"@,
            ser_string(a) + (",\"choice\":"@ + (ser_string(ch) + ("}"@ + rest))),
        ) by {
            assert(cand_form(a, ch, rest) =~= "{\"address\":"@ + (ser_string(a) + (",\"choice\":"@
                + (ser_string(ch) + ("}"@ + rest)))));
        }
    }
    let p1 = match expect_lit(v, pos, "{\"address\":") {
        Some(p) => p,
        None => {
            proof {
                assert forall|a: Seq<char>, ch: Seq<char>, rest: Seq<char>|
                    v@.skip(pos as int) != #[trigger] cand_form(a, ch, rest) by {
                    if v@.skip(pos as int) == cand_form(a, ch, rest) {
                        cand_chain(v@, pos as int, a, ch, rest);
                    }
                }
            }
            return None;
        },
    };
    let (address, p2) = match parse_quoted(v, p1) {
        Some(x) => x,
        None => {
            proof {
                assert forall|a: Seq<char>, ch: Seq<char>, rest: Seq<char>|
                    v@.skip(pos as int) != #[trigger] cand_form(a, ch, rest) by {
                    if v@.skip(pos as int) == cand_form(a, ch, rest) {
                        cand_chain(v@, pos as int, a, ch, rest);
                    }
                }
            }
            return None;
        },
    };
    let p3 = match expect_lit(v, p2, ",\"choice\":") {
        Some(p) => p,
        None => {
            proof {
                assert forall|a: Seq<char>, ch: Seq<char>, rest: Seq<char>|
                    v@.skip(pos as int) != #[trigger] cand_form(a, ch, rest) by {
                    if v@.skip(pos as int) == cand_form(a, ch, rest) {
                        cand_chain(v@, pos as int, a, ch, rest);
                    }
                }
            }
            return None;
        },
    };
    let (choice, p4) = match parse_quoted(v, p3) {
        Some(x) => x,
        None => {
            proof {
                assert forall|a: Seq<char>, ch: Seq<char>, rest: Seq<char>|
                    v@.skip(pos as int) != #[trigger] cand_form(a, ch, rest) by {
                    if v@.skip(pos as int) == cand_form(a, ch, rest) {
                        cand_chain(v@, pos as int, a, ch, rest);
                    }
                }
            }
            return None;
        },
    };
    let p5 = match expect_lit(v, p4, "}") {
        Some(p) => p,
        None => {
            proof {
                assert forall|a: Seq<char>, ch: Seq<char>, rest: Seq<char>|
                    v@.skip(pos as int) != #[trigger] cand_form(a, ch, rest) by {
                    if v@.skip(pos as int) == cand_form(a, ch, rest) {
                        cand_chain(v@, pos as int, a, ch, rest);
                    }
                }
            }
            return None;
        },
    };
    proof {
        assert forall|a: Seq<char>, ch: Seq<char>, rest: Seq<char>|
            v@.skip(pos as int) == #[trigger] cand_form(a, ch, rest) implies (address@ == a
            && choice@ == ch && p5 == pos + ser_cand_views(a, ch).len()) by {
            cand_chain(v@, pos as int, a, ch, rest);
        }
    }
    Some((CandidateChoice { address, choice }, p5))
}

/// After the first record of a candidate list, a comma continues the list.
proof fn cands_step(
    v: Seq<char>,
    pos: int,
    j: int,
    cs0: Seq<CandidateChoice>,
    rest: Seq<char>,
    c: CandidateChoice,
)
    requires
        0 <= pos <= v.len(),
        v.skip(pos) == cands_form(cs0, rest),
        forall|r0: Seq<char>| v.skip(pos) != #[trigger] lit_form("]"@, r0),
        forall|a: Seq<char>, ch: Seq<char>, r0: Seq<char>|
            v.skip(pos) == #[trigger] cand_form(a, ch, r0) ==> c.address@ == a && c.choice@ == ch
                && j == pos + ser_cand_views(a, ch).len(),
        0 <= j <= v.len(),
        v.subrange(j, j + 1) == ","@,
    ensures
        cs0.len() >= 2,
        c.address@ == cs0[0].address@ && c.choice@ == cs0[0].choice@,
        v.skip(j + 1) == cands_form(cs0.drop_first(), rest),
        ser_candidates(cs0).len() == ser_candidate(cs0[0]).len() + 1 + ser_candidates(
            cs0.drop_first(),
        ).len(),
        j == pos + ser_candidate(cs0[0]).len(),
{
    reveal_strlit("]");
    reveal_strlit(",");
    if cs0.len() == 0 {
        assert(ser_candidates(cs0) =~= Seq::<char>::empty());
        assert(v.skip(pos) =~= lit_form("]"@, rest));
        assert(false);
    }
    cands_head(v, pos, cs0, rest);
    let u = if cs0.len() == 1 {
        "]"@ + rest
    } else {
        ","@ + (ser_candidates(cs0.drop_first()) + ("]"@ + rest))
    };
    assert(c.address@ == cs0[0].address@ && c.choice@ == cs0[0].choice@ && j == pos
        + ser_cand_views(cs0[0].address@, cs0[0].choice@).len());
    lemma_skip_concat(v, pos, ser_cand_views(cs0[0].address@, cs0[0].choice@), u);
    assert(v.skip(j) == u);
    assert(v.subrange(j, j + 1)[0] == v[j]);
    assert(v.skip(j)[0] == v[j]);
    if cs0.len() == 1 {
        assert(u[0] == ']');
        assert(v[j] == ',');
        assert(false);
    }
    lemma_skip_concat(v, j, ","@, ser_candidates(cs0.drop_first()) + ("]"@ + rest));
    assert(v.skip(j + 1) == cands_form(cs0.drop_first(), rest));
    lemma_ser_candidates_unfold_front(cs0);
}

/// After the only record of a candidate list, a bracket ends the list.
proof fn cands_one(
    v: Seq<char>,
    pos: int,
    j: int,
    cs0: Seq<CandidateChoice>,
    rest: Seq<char>,
    c: CandidateChoice,
)
    requires
        0 <= pos <= v.len(),
        v.skip(pos) == cands_form(cs0, rest),
        forall|r0: Seq<char>| v.skip(pos) != #[trigger] lit_form("]"@, r0),
        forall|a: Seq<char>, ch: Seq<char>, r0: Seq<char>|
            v.skip(pos) == #[trigger] cand_form(a, ch, r0) ==> c.address@ == a && c.choice@ == ch
                && j == pos + ser_cand_views(a, ch).len(),
        0 <= j <= v.len(),
        forall|r0: Seq<char>| v.skip(j) != #[trigger] lit_form(","@, r0),
    ensures
        cs0.len() == 1,
        c.address@ == cs0[0].address@ && c.choice@ == cs0[0].choice@,
        v.skip(j) == lit_form("]"@, rest),
        j + 1 == pos + ser_candidates(cs0).len() + 1,
{
    reveal_strlit("]");
    reveal_strlit(",");
    if cs0.len() == 0 {
        assert(ser_candidates(cs0) =~= Seq::<char>::empty());
        assert(v.skip(pos) =~= lit_form("]"@, rest));
        assert(false);
    }
    cands_head(v, pos, cs0, rest);
    let u = if cs0.len() == 1 {
        "]"@ + rest
    } else {
        ","@ + (ser_candidates(cs0.drop_first()) + ("]"@ + rest))
    };
    assert(c.address@ == cs0[0].address@ && c.choice@ == cs0[0].choice@ && j == pos
        + ser_cand_views(cs0[0].address@, cs0[0].choice@).len());
    lemma_skip_concat(v, pos, ser_cand_views(cs0[0].address@, cs0[0].choice@), u);
    assert(v.skip(j) == u);
    if cs0.len() > 1 {
        assert(v.skip(j) == lit_form(","@, ser_candidates(cs0.drop_first()) + ("]"@ + rest)));
        assert(false);
    }
    assert(ser_candidates(cs0) == ser_candidate(cs0[0]));
}

/// The shape of the head element of a candidate list.
proof fn cands_head(v: Seq<char>, pos: int, cs0: Seq<CandidateChoice>, rest: Seq<char>)
    requires
        0 <= pos <= v.len(),
        cs0.len() > 0,
        v.skip(pos) == cands_form(cs0, rest),
    ensures
        v.skip(pos) == cand_form(
            cs0[0].address@,
            cs0[0].choice@,
            if cs0.len() == 1 {
                "]"@ + rest
            } else {
                ","@ + (ser_candidates(cs0.drop_first()) + ("]"@ + rest))
            },
        ),
        cs0.len() > 1 ==> (ser_candidates(cs0.drop_first()) + ("]"@ + rest)) == cands_form(
            cs0.drop_first(),
            rest,
        ),
{
    assert(ser_candidate(cs0[0]) == ser_cand_views(cs0[0].address@, cs0[0].choice@));
    if cs0.len() == 1 {
        assert(ser_candidates(cs0) == ser_candidate(cs0[0]));
        assert(cands_form(cs0, rest) =~= ser_cand_views(cs0[0].address@, cs0[0].choice@) + ("]"@
            + rest));
    } else {
        lemma_ser_candidates_unfold_front(cs0);
        assert(cands_form(cs0, rest) =~= ser_cand_views(cs0[0].address@, cs0[0].choice@) + (","@
            + (ser_candidates(cs0.drop_first()) + ("]"@ + rest))));
        assert((ser_candidates(cs0.drop_first()) + ("]"@ + rest)) =~= cands_form(
            cs0.drop_first(),
            rest,
        ));
    }
}

fn parse_candidate_list(v: &Vec<char>, pos: usize) -> (r: Option<(Vec<CandidateChoice>, usize)>)
    requires
        pos <= v@.len(),
    ensures
        r matches Some(p) ==> pos <= p.1 <= v@.len(),
        forall|cs0: Seq<CandidateChoice>, rest: Seq<char>|
            v@.skip(pos as int) == #[trigger] cands_form(cs0, rest) ==> (r matches Some(p)
                && candidates_views_eq(p.0@, cs0) && p.1 == pos + ser_candidates(cs0).len() + 1),
    decreases v@.len() - pos,
{
    proof {
        reveal_strlit("]");
        reveal_strlit(",");
    }
    match expect_lit(v, pos, "]") {
        Some(p) => {
            let out: Vec<CandidateChoice> = Vec::new();
            proof {
                assert forall|cs0: Seq<CandidateChoice>, rest: Seq<char>|
                    v@.skip(pos as int) == #[trigger] cands_form(cs0, rest) implies (
                candidates_views_eq(out@, cs0) && p == pos + ser_candidates(cs0).len() + 1) by {
                    if cs0.len() > 0 {
                        assert(v@.skip(pos as int) =~= ser_candidates(cs0) + ("]"@ + rest));
                        proof_candidates_head_brace(
                            cs0,
                            "]"@ + rest,
                            ser_candidates(cs0) + ("]"@ + rest),
                        );
                        assert(v@.skip(pos as int)[0] == v@[pos as int]);
                        assert(v@.subrange(pos as int, p as int)[0] == v@[pos as int]);
                        assert(false);
                    }
                    assert(ser_candidates(cs0) =~= Seq::<char>::empty());
                    assert(v@.skip(pos as int) == lit_form("]"@, rest));
                }
            }
            return Some((out, p));
        },
        None => {},
    }
    let (c, j) = match parse_candidate(v, pos) {
        Some(x) => x,
        None => {
            proof {
                assert forall|cs0: Seq<CandidateChoice>, rest: Seq<char>|
                    v@.skip(pos as int) != #[trigger] cands_form(cs0, rest) by {
                    if v@.skip(pos as int) == cands_form(cs0, rest) {
                        if cs0.len() == 0 {
                            assert(ser_candidates(cs0) =~= Seq::<char>::empty());
                            assert(v@.skip(pos as int) =~= lit_form("]"@, rest));
                        } else {
                            cands_head(v@, pos as int, cs0, rest);
                        }
                    }
                }
            }
            return None;
        },
    };
    match expect_lit(v, j, ",") {
        Some(k) => {
            match parse_candidate_list(v, k) {
                Some((tail, p)) => {
                    let ghost tailv = tail@;
                    let mut out: Vec<CandidateChoice> = Vec::new();
                    out.push(c);
                    let mut tail = tail;
                    out.append(&mut tail);
                    proof {
                        assert(out@ == seq![c] + tailv);
                    }
                    proof {
                        assert forall|cs0: Seq<CandidateChoice>, rest: Seq<char>|
                            v@.skip(pos as int) == #[trigger] cands_form(cs0, rest) implies (
                        candidates_views_eq(out@, cs0) && p == pos + ser_candidates(cs0).len()
                            + 1) by {
                            cands_step(v@, pos as int, j as int, cs0, rest, c);
                            assert(k == j + 1);
                            assert(v@.skip(k as int) == cands_form(cs0.drop_first(), rest));
                            assert(candidates_views_eq(tailv, cs0.drop_first()));
                            assert forall|ix: int|
                                0 <= ix < out@.len() implies (#[trigger] out@[ix]).address@
                                == cs0[ix].address@ && out@[ix].choice@ == cs0[ix].choice@ by {
                                if ix > 0 {
                                    assert(out@[ix] == tailv[ix - 1]);
                                    assert(cs0.drop_first()[ix - 1] == cs0[ix]);
                                }
                            }
                        }
                    }
                    Some((out, p))
                },
                None => {
                    proof {
                        assert forall|cs0: Seq<CandidateChoice>, rest: Seq<char>|
                            v@.skip(pos as int) != #[trigger] cands_form(cs0, rest) by {
                            if v@.skip(pos as int) == cands_form(cs0, rest) {
                                cands_step(v@, pos as int, j as int, cs0, rest, c);
                                assert(k == j + 1);
                                assert(v@.skip(k as int) == cands_form(cs0.drop_first(), rest));
                            }
                        }
                    }
                    None
                },
            }
        },
        None => {
            match expect_lit(v, j, "]") {
                Some(k) => {
                    let mut out: Vec<CandidateChoice> = Vec::new();
                    out.push(c);
                    proof {
                        assert forall|cs0: Seq<CandidateChoice>, rest: Seq<char>|
                            v@.skip(pos as int) == #[trigger] cands_form(cs0, rest) implies (
                        candidates_views_eq(out@, cs0) && k == pos + ser_candidates(cs0).len()
                            + 1) by {
                            cands_one(v@, pos as int, j as int, cs0, rest, c);
                        }
                    }
                    Some((out, k))
                },
                None => {
                    proof {
                        assert forall|cs0: Seq<CandidateChoice>, rest: Seq<char>|
                            v@.skip(pos as int) != #[trigger] cands_form(cs0, rest) by {
                            if v@.skip(pos as int) == cands_form(cs0, rest) {
                                cands_one(v@, pos as int, j as int, cs0, rest, c);
                            }
                        }
                    }
                    None
                },
            }
        },
    }
}

pub open spec fn election_tail_18(e0: Election) -> Seq<char> {
    "}"@
}

pub open spec fn election_tail_17(e0: Election) -> Seq<char> {
    (ser_bytes(e0.nf@) + "]"@) + election_tail_18(e0)
}

pub open spec fn election_tail_16(e0: Election) -> Seq<char> {
    ",\"nf\":["@ + election_tail_17(e0)
}

pub open spec fn election_tail_15(e0: Election) -> Seq<char> {
    (ser_bytes(e0.cmx@) + "]"@) + election_tail_16(e0)
}

pub open spec fn election_tail_14(e0: Election) -> Seq<char> {
    ",\"cmx\":["@ + election_tail_15(e0)
}

pub open spec fn election_tail_13(e0: Election) -> Seq<char> {
    ser_bool(e0.signature_required) + election_tail_14(e0)
}

pub open spec fn election_tail_12(e0: Election) -> Seq<char> {
    ",\"signature_required\":"@ + election_tail_13(e0)
}

pub open spec fn election_tail_11(e0: Election) -> Seq<char> {
    (ser_candidates(e0.candidates@) + "]"@) + election_tail_12(e0)
}

pub open spec fn election_tail_10(e0: Election) -> Seq<char> {
    ",\"candidates\":["@ + election_tail_11(e0)
}

pub open spec fn election_tail_9(e0: Election) -> Seq<char> {
    ser_string(e0.question@) + election_tail_10(e0)
}

pub open spec fn election_tail_8(e0: Election) -> Seq<char> {
    ",\"question\":"@ + election_tail_9(e0)
}

pub open spec fn election_tail_7(e0: Election) -> Seq<char> {
    dec_chars(e0.end_height as int) + election_tail_8(e0)
}

pub open spec fn election_tail_6(e0: Election) -> Seq<char> {
    ",\"end_height\":"@ + election_tail_7(e0)
}

pub open spec fn election_tail_5(e0: Election) -> Seq<char> {
    dec_chars(e0.start_height as int) + election_tail_6(e0)
}

pub open spec fn election_tail_4(e0: Election) -> Seq<char> {
    ",\"start_height\":"@ + election_tail_5(e0)
}

pub open spec fn election_tail_3(e0: Election) -> Seq<char> {
    ser_string(e0.name@) + election_tail_4(e0)
}

pub open spec fn election_tail_2(e0: Election) -> Seq<char> {
    ",\"name\":"@ + election_tail_3(e0)
}

pub open spec fn election_tail_1(e0: Election) -> Seq<char> {
    ser_string(e0.id@) + election_tail_2(e0)
}

pub open spec fn election_tail_0(e0: Election) -> Seq<char> {
    "{\"id\":"@ + election_tail_1(e0)
}

#[verifier::rlimit(100)]
proof fn lemma_election_tail0(e0: Election)
    ensures
        ser_election(e0) == election_tail_0(e0),
{
    reveal_strlit("],\"signature_required\":");
    reveal_strlit(",\"signature_required\":");
    reveal_strlit("],\"nf\":[");
    reveal_strlit(",\"nf\":[");
    reveal_strlit("]}");
    reveal_strlit("]");
    reveal_strlit("}");
    lemma_ser_election_nested(e0);
    assert("],\"signature_required\":"@ =~= "]"@ + ",\"signature_required\":"@);
    assert("],\"nf\":["@ =~= "]"@ + ",\"nf\":["@);
    assert("]}"@ =~= "]"@ + "}"@);
    assert(election_tail_18(e0) == "}"@);
    assert(election_tail_17(e0) == (ser_bytes(e0.nf@) + "]"@) + election_tail_18(e0));
    assert(election_tail_16(e0) == ",\"nf\":["@ + election_tail_17(e0));
    assert(election_tail_15(e0) == (ser_bytes(e0.cmx@) + "]"@) + election_tail_16(e0));
    assert(election_tail_14(e0) == ",\"cmx\":["@ + election_tail_15(e0));
    assert(election_tail_13(e0) == ser_bool(e0.signature_required) + election_tail_14(e0));
    assert(election_tail_12(e0) == ",\"signature_required\":"@ + election_tail_13(e0));
    assert(election_tail_11(e0) == (ser_candidates(e0.candidates@) + "]"@) + election_tail_12(e0));
    assert(election_tail_10(e0) == ",\"candidates\":["@ + election_tail_11(e0));
    assert(election_tail_9(e0) == ser_string(e0.question@) + election_tail_10(e0));
    assert(election_tail_8(e0) == ",\"question\":"@ + election_tail_9(e0));
    assert(election_tail_7(e0) == dec_chars(e0.end_height as int) + election_tail_8(e0));
    assert(election_tail_6(e0) == ",\"end_height\":"@ + election_tail_7(e0));
    assert(election_tail_5(e0) == dec_chars(e0.start_height as int) + election_tail_6(e0));
    assert(election_tail_4(e0) == ",\"start_height\":"@ + election_tail_5(e0));
    assert(election_tail_3(e0) == ser_string(e0.name@) + election_tail_4(e0));
    assert(election_tail_2(e0) == ",\"name\":"@ + election_tail_3(e0));
    assert(election_tail_1(e0) == ser_string(e0.id@) + election_tail_2(e0));
    assert(election_tail_0(e0) == "{\"id\":"@ + election_tail_1(e0));
    assert(ser_election_nested(e0) =~= election_tail_0(e0));
}

#[verifier::rlimit(100)]
proof fn election_chain_head(v: Seq<char>, e0: Election)
    requires
        v == ser_election(e0),
    ensures
        v.skip(0) == lit_form("{\"id\":"@, election_tail_1(e0)),
        v.skip(("{\"id\":"@.len()) as int) == quoted_form(e0.id@, election_tail_2(e0)),
        v.skip(("{\"id\":"@.len() + ser_string(e0.id@).len()) as int) == lit_form(",\"name\":"@, election_tail_3(e0)),
        v.skip(("{\"id\":"@.len() + ser_string(e0.id@).len() + ",\"name\":"@.len()) as int) == quoted_form(e0.name@, election_tail_4(e0)),
        v.skip(("{\"id\":"@.len() + ser_string(e0.id@).len() + ",\"name\":"@.len() + ser_string(e0.name@).len()) as int) == lit_form(",\"start_height\":"@, election_tail_5(e0)),
        v.skip(("{\"id\":"@.len() + ser_string(e0.id@).len() + ",\"name\":"@.len() + ser_string(e0.name@).len() + ",\"start_height\":"@.len()) as int) == number_form(e0.start_height as int, election_tail_6(e0)),
        v.skip(("{\"id\":"@.len() + ser_string(e0.id@).len() + ",\"name\":"@.len() + ser_string(e0.name@).len() + ",\"start_height\":"@.len() + dec_chars(e0.start_height as int).len()) as int) == lit_form(",\"end_height\":"@, election_tail_7(e0)),
        v.skip(("{\"id\":"@.len() + ser_string(e0.id@).len() + ",\"name\":"@.len() + ser_string(e0.name@).len() + ",\"start_height\":"@.len() + dec_chars(e0.start_height as int).len() + ",\"end_height\":"@.len()) as int) == number_form(e0.end_height as int, election_tail_8(e0)),
        v.skip(("{\"id\":"@.len() + ser_string(e0.id@).len() + ",\"name\":"@.len() + ser_string(e0.name@).len() + ",\"start_height\":"@.len() + dec_chars(e0.start_height as int).len() + ",\"end_height\":"@.len() + dec_chars(e0.end_height as int).len()) as int) == lit_form(",\"question\":"@, election_tail_9(e0)),
        v.skip(("{\"id\":"@.len() + ser_string(e0.id@).len() + ",\"name\":"@.len() + ser_string(e0.name@).len() + ",\"start_height\":"@.len() + dec_chars(e0.start_height as int).len() + ",\"end_height\":"@.len() + dec_chars(e0.end_height as int).len() + ",\"question\":"@.len()) as int) == quoted_form(e0.question@, election_tail_10(e0)),
        election_tail_6(e0).len() > 0 && !is_digit_char(election_tail_6(e0)[0]),
        election_tail_8(e0).len() > 0 && !is_digit_char(election_tail_8(e0)[0]),
        0 <= ("{\"id\":"@.len() + ser_string(e0.id@).len() + ",\"name\":"@.len() + ser_string(e0.name@).len() + ",\"start_height\":"@.len() + dec_chars(e0.start_height as int).len() + ",\"end_height\":"@.len() + dec_chars(e0.end_height as int).len() + ",\"question\":"@.len() + ser_string(e0.question@).len()) as int <= v.len(),
        v.skip(("{\"id\":"@.len() + ser_string(e0.id@).len() + ",\"name\":"@.len() + ser_string(e0.name@).len() + ",\"start_height\":"@.len() + dec_chars(e0.start_height as int).len() + ",\"end_height\":"@.len() + dec_chars(e0.end_height as int).len() + ",\"question\":"@.len() + ser_string(e0.question@).len()) as int) == election_tail_10(e0),
{
    reveal_strlit(",\"end_height\":");
    reveal_strlit(",\"question\":");
    reveal_strlit(",");
    lemma_election_tail0(e0);
    assert(v.skip(0) =~= v);
    assert(election_tail_0(e0) == "{\"id\":"@ + election_tail_1(e0));
    lemma_skip_concat(v, 0, "{\"id\":"@, election_tail_1(e0));
    assert(v.skip(0) =~= lit_form("{\"id\":"@, election_tail_1(e0)));
    assert(election_tail_1(e0) == ser_string(e0.id@) + election_tail_2(e0));
    lemma_skip_concat(v, ("{\"id\":"@.len()) as int, ser_string(e0.id@), election_tail_2(e0));
    assert(v.skip(("{\"id\":"@.len()) as int) =~= quoted_form(e0.id@, election_tail_2(e0)));
    assert(election_tail_2(e0) == ",\"name\":"@ + election_tail_3(e0));
    lemma_skip_concat(v, ("{\"id\":"@.len() + ser_string(e0.id@).len()) as int, ",\"name\":"@, election_tail_3(e0));
    assert(v.skip(("{\"id\":"@.len() + ser_string(e0.id@).len()) as int) =~= lit_form(",\"name\":"@, election_tail_3(e0)));
    assert(election_tail_3(e0) == ser_string(e0.name@) + election_tail_4(e0));
    lemma_skip_concat(v, ("{\"id\":"@.len() + ser_string(e0.id@).len() + ",\"name\":"@.len()) as int, ser_string(e0.name@), election_tail_4(e0));
    assert(v.skip(("{\"id\":"@.len() + ser_string(e0.id@).len() + ",\"name\":"@.len()) as int) =~= quoted_form(e0.name@, election_tail_4(e0)));
    assert(election_tail_4(e0) == ",\"start_height\":"@ + election_tail_5(e0));
    lemma_skip_concat(v, ("{\"id\":"@.len() + ser_string(e0.id@).len() + ",\"name\":"@.len() + ser_string(e0.name@).len()) as int, ",\"start_height\":"@, election_tail_5(e0));
    assert(v.skip(("{\"id\":"@.len() + ser_string(e0.id@).len() + ",\"name\":"@.len() + ser_string(e0.name@).len()) as int) =~= lit_form(",\"start_height\":"@, election_tail_5(e0)));
    assert(election_tail_5(e0) == dec_chars(e0.start_height as int) + election_tail_6(e0));
    lemma_skip_concat(v, ("{\"id\":"@.len() + ser_string(e0.id@).len() + ",\"name\":"@.len() + ser_string(e0.name@).len() + ",\"start_height\":"@.len()) as int, dec_chars(e0.start_height as int), election_tail_6(e0));
    assert(v.skip(("{\"id\":"@.len() + ser_string(e0.id@).len() + ",\"name\":"@.len() + ser_string(e0.name@).len() + ",\"start_height\":"@.len()) as int) =~= number_form(e0.start_height as int, election_tail_6(e0)));
    assert(election_tail_6(e0) == ",\"end_height\":"@ + election_tail_7(e0));
    lemma_skip_concat(v, ("{\"id\":"@.len() + ser_string(e0.id@).len() + ",\"name\":"@.len() + ser_string(e0.name@).len() + ",\"start_height\":"@.len() + dec_chars(e0.start_height as int).len()) as int, ",\"end_height\":"@, election_tail_7(e0));
    assert(v.skip(("{\"id\":"@.len() + ser_string(e0.id@).len() + ",\"name\":"@.len() + ser_string(e0.name@).len() + ",\"start_height\":"@.len() + dec_chars(e0.start_height as int).len()) as int) =~= lit_form(",\"end_height\":"@, election_tail_7(e0)));
    assert(election_tail_7(e0) == dec_chars(e0.end_height as int) + election_tail_8(e0));
    lemma_skip_concat(v, ("{\"id\":"@.len() + ser_string(e0.id@).len() + ",\"name\":"@.len() + ser_string(e0.name@).len() + ",\"start_height\":"@.len() + dec_chars(e0.start_height as int).len() + ",\"end_height\":"@.len()) as int, dec_chars(e0.end_height as int), election_tail_8(e0));
    assert(v.skip(("{\"id\":"@.len() + ser_string(e0.id@).len() + ",\"name\":"@.len() + ser_string(e0.name@).len() + ",\"start_height\":"@.len() + dec_chars(e0.start_height as int).len() + ",\"end_height\":"@.len()) as int) =~= number_form(e0.end_height as int, election_tail_8(e0)));
    assert(election_tail_8(e0) == ",\"question\":"@ + election_tail_9(e0));
    lemma_skip_concat(v, ("{\"id\":"@.len() + ser_string(e0.id@).len() + ",\"name\":"@.len() + ser_string(e0.name@).len() + ",\"start_height\":"@.len() + dec_chars(e0.start_height as int).len() + ",\"end_height\":"@.len() + dec_chars(e0.end_height as int).len()) as int, ",\"question\":"@, election_tail_9(e0));
    assert(v.skip(("{\"id\":"@.len() + ser_string(e0.id@).len() + ",\"name\":"@.len() + ser_string(e0.name@).len() + ",\"start_height\":"@.len() + dec_chars(e0.start_height as int).len() + ",\"end_height\":"@.len() + dec_chars(e0.end_height as int).len()) as int) =~= lit_form(",\"question\":"@, election_tail_9(e0)));
    assert(election_tail_9(e0) == ser_string(e0.question@) + election_tail_10(e0));
    lemma_skip_concat(v, ("{\"id\":"@.len() + ser_string(e0.id@).len() + ",\"name\":"@.len() + ser_string(e0.name@).len() + ",\"start_height\":"@.len() + dec_chars(e0.start_height as int).len() + ",\"end_height\":"@.len() + dec_chars(e0.end_height as int).len() + ",\"question\":"@.len()) as int, ser_string(e0.question@), election_tail_10(e0));
    assert(v.skip(("{\"id\":"@.len() + ser_string(e0.id@).len() + ",\"name\":"@.len() + ser_string(e0.name@).len() + ",\"start_height\":"@.len() + dec_chars(e0.start_height as int).len() + ",\"end_height\":"@.len() + dec_chars(e0.end_height as int).len() + ",\"question\":"@.len()) as int) =~= quoted_form(e0.question@, election_tail_10(e0)));
    assert(election_tail_6(e0)[0] == ',');
    assert(election_tail_8(e0)[0] == ',');
}

#[verifier::rlimit(100)]
proof fn election_chain_tail(v: Seq<char>, e0: Election)
    requires
        v.len() >= 0,
        0 <= ("{\"id\":"@.len() + ser_string(e0.id@).len() + ",\"name\":"@.len() + ser_string(e0.name@).len() + ",\"start_height\":"@.len() + dec_chars(e0.start_height as int).len() + ",\"end_height\":"@.len() + dec_chars(e0.end_height as int).len() + ",\"question\":"@.len() + ser_string(e0.question@).len()) as int <= v.len(),
        v.skip(("{\"id\":"@.len() + ser_string(e0.id@).len() + ",\"name\":"@.len() + ser_string(e0.name@).len() + ",\"start_height\":"@.len() + dec_chars(e0.start_height as int).len() + ",\"end_height\":"@.len() + dec_chars(e0.end_height as int).len() + ",\"question\":"@.len() + ser_string(e0.question@).len()) as int) == election_tail_10(e0),
    ensures
        v.skip(("{\"id\":"@.len() + ser_string(e0.id@).len() + ",\"name\":"@.len() + ser_string(e0.name@).len() + ",\"start_height\":"@.len() + dec_chars(e0.start_height as int).len() + ",\"end_height\":"@.len() + dec_chars(e0.end_height as int).len() + ",\"question\":"@.len() + ser_string(e0.question@).len()) as int) == lit_form(",\"candidates\":["@, election_tail_11(e0)),
        v.skip(("{\"id\":"@.len() + ser_string(e0.id@).len() + ",\"name\":"@.len() + ser_string(e0.name@).len() + ",\"start_height\":"@.len() + dec_chars(e0.start_height as int).len() + ",\"end_height\":"@.len() + dec_chars(e0.end_height as int).len() + ",\"question\":"@.len() + ser_string(e0.question@).len() + ",\"candidates\":["@.len()) as int) == cands_form(e0.candidates@, election_tail_12(e0)),
        v.skip(("{\"id\":"@.len() + ser_string(e0.id@).len() + ",\"name\":"@.len() + ser_string(e0.name@).len() + ",\"start_height\":"@.len() + dec_chars(e0.start_height as int).len() + ",\"end_height\":"@.len() + dec_chars(e0.end_height as int).len() + ",\"question\":"@.len() + ser_string(e0.question@).len() + ",\"candidates\":["@.len() + ser_candidates(e0.candidates@).len() + 1) as int) == lit_form(",\"signature_required\":"@, election_tail_13(e0)),
        v.skip(("{\"id\":"@.len() + ser_string(e0.id@).len() + ",\"name\":"@.len() + ser_string(e0.name@).len() + ",\"start_height\":"@.len() + dec_chars(e0.start_height as int).len() + ",\"end_height\":"@.len() + dec_chars(e0.end_height as int).len() + ",\"question\":"@.len() + ser_string(e0.question@).len() + ",\"candidates\":["@.len() + ser_candidates(e0.candidates@).len() + 1 + ",\"signature_required\":"@.len()) as int) == bool_form(e0.signature_required, election_tail_14(e0)),
        v.skip(("{\"id\":"@.len() + ser_string(e0.id@).len() + ",\"name\":"@.len() + ser_string(e0.name@).len() + ",\"start_height\":"@.len() + dec_chars(e0.start_height as int).len() + ",\"end_height\":"@.len() + dec_chars(e0.end_height as int).len() + ",\"question\":"@.len() + ser_string(e0.question@).len() + ",\"candidates\":["@.len() + ser_candidates(e0.candidates@).len() + 1 + ",\"signature_required\":"@.len() + ser_bool(e0.signature_required).len()) as int) == lit_form(",\"cmx\":["@, election_tail_15(e0)),
        v.skip(("{\"id\":"@.len() + ser_string(e0.id@).len() + ",\"name\":"@.len() + ser_string(e0.name@).len() + ",\"start_height\":"@.len() + dec_chars(e0.start_height as int).len() + ",\"end_height\":"@.len() + dec_chars(e0.end_height as int).len() + ",\"question\":"@.len() + ser_string(e0.question@).len() + ",\"candidates\":["@.len() + ser_candidates(e0.candidates@).len() + 1 + ",\"signature_required\":"@.len() + ser_bool(e0.signature_required).len() + ",\"cmx\":["@.len()) as int) == bytes_form(e0.cmx@, election_tail_16(e0)),
        v.skip(("{\"id\":"@.len() + ser_string(e0.id@).len() + ",\"name\":"@.len() + ser_string(e0.name@).len() + ",\"start_height\":"@.len() + dec_chars(e0.start_height as int).len() + ",\"end_height\":"@.len() + dec_chars(e0.end_height as int).len() + ",\"question\":"@.len() + ser_string(e0.question@).len() + ",\"candidates\":["@.len() + ser_candidates(e0.candidates@).len() + 1 + ",\"signature_required\":"@.len() + ser_bool(e0.signature_required).len() + ",\"cmx\":["@.len() + ser_bytes(e0.cmx@).len() + 1) as int) == lit_form(",\"nf\":["@, election_tail_17(e0)),
        v.skip(("{\"id\":"@.len() + ser_string(e0.id@).len() + ",\"name\":"@.len() + ser_string(e0.name@).len() + ",\"start_height\":"@.len() + dec_chars(e0.start_height as int).len() + ",\"end_height\":"@.len() + dec_chars(e0.end_height as int).len() + ",\"question\":"@.len() + ser_string(e0.question@).len() + ",\"candidates\":["@.len() + ser_candidates(e0.candidates@).len() + 1 + ",\"signature_required\":"@.len() + ser_bool(e0.signature_required).len() + ",\"cmx\":["@.len() + ser_bytes(e0.cmx@).len() + 1 + ",\"nf\":["@.len()) as int) == bytes_form(e0.nf@, election_tail_18(e0)),
        v.skip(("{\"id\":"@.len() + ser_string(e0.id@).len() + ",\"name\":"@.len() + ser_string(e0.name@).len() + ",\"start_height\":"@.len() + dec_chars(e0.start_height as int).len() + ",\"end_height\":"@.len() + dec_chars(e0.end_height as int).len() + ",\"question\":"@.len() + ser_string(e0.question@).len() + ",\"candidates\":["@.len() + ser_candidates(e0.candidates@).len() + 1 + ",\"signature_required\":"@.len() + ser_bool(e0.signature_required).len() + ",\"cmx\":["@.len() + ser_bytes(e0.cmx@).len() + 1 + ",\"nf\":["@.len() + ser_bytes(e0.nf@).len() + 1) as int) == lit_form("}"@, Seq::<char>::empty()),
        ("{\"id\":"@.len() + ser_string(e0.id@).len() + ",\"name\":"@.len() + ser_string(e0.name@).len() + ",\"start_height\":"@.len() + dec_chars(e0.start_height as int).len() + ",\"end_height\":"@.len() + dec_chars(e0.end_height as int).len() + ",\"question\":"@.len() + ser_string(e0.question@).len() + ",\"candidates\":["@.len() + ser_candidates(e0.candidates@).len() + 1 + ",\"signature_required\":"@.len() + ser_bool(e0.signature_required).len() + ",\"cmx\":["@.len() + ser_bytes(e0.cmx@).len() + 1 + ",\"nf\":["@.len() + ser_bytes(e0.nf@).len() + 1 + "}"@.len()) as int == v.len(),
        0 <= ("{\"id\":"@.len() + ser_string(e0.id@).len() + ",\"name\":"@.len() + ser_string(e0.name@).len() + ",\"start_height\":"@.len() + dec_chars(e0.start_height as int).len() + ",\"end_height\":"@.len() + dec_chars(e0.end_height as int).len() + ",\"question\":"@.len() + ser_string(e0.question@).len()) as int <= v.len(),
{
    reveal_strlit("]");
    reveal_strlit("}");
    assert((ser_candidates(e0.candidates@) + "]"@).len() == ser_candidates(
        e0.candidates@,
    ).len() + 1);
    assert((ser_bytes(e0.cmx@) + "]"@).len() == ser_bytes(e0.cmx@).len() + 1);
    assert((ser_bytes(e0.nf@) + "]"@).len() == ser_bytes(e0.nf@).len() + 1);
    reveal_strlit(",\"end_height\":");
    reveal_strlit(",\"question\":");
    reveal_strlit(",");
    assert(election_tail_10(e0) == ",\"candidates\":["@ + election_tail_11(e0));
    lemma_skip_concat(v, ("{\"id\":"@.len() + ser_string(e0.id@).len() + ",\"name\":"@.len() + ser_string(e0.name@).len() + ",\"start_height\":"@.len() + dec_chars(e0.start_height as int).len() + ",\"end_height\":"@.len() + dec_chars(e0.end_height as int).len() + ",\"question\":"@.len() + ser_string(e0.question@).len()) as int, ",\"candidates\":["@, election_tail_11(e0));
    assert(v.skip(("{\"id\":"@.len() + ser_string(e0.id@).len() + ",\"name\":"@.len() + ser_string(e0.name@).len() + ",\"start_height\":"@.len() + dec_chars(e0.start_height as int).len() + ",\"end_height\":"@.len() + dec_chars(e0.end_height as int).len() + ",\"question\":"@.len() + ser_string(e0.question@).len()) as int) =~= lit_form(",\"candidates\":["@, election_tail_11(e0)));
    assert(election_tail_11(e0) == (ser_candidates(e0.candidates@) + "]"@) + election_tail_12(e0));
    lemma_skip_concat(v, ("{\"id\":"@.len() + ser_string(e0.id@).len() + ",\"name\":"@.len() + ser_string(e0.name@).len() + ",\"start_height\":"@.len() + dec_chars(e0.start_height as int).len() + ",\"end_height\":"@.len() + dec_chars(e0.end_height as int).len() + ",\"question\":"@.len() + ser_string(e0.question@).len() + ",\"candidates\":["@.len()) as int, (ser_candidates(e0.candidates@) + "]"@), election_tail_12(e0));
    assert(v.skip(("{\"id\":"@.len() + ser_string(e0.id@).len() + ",\"name\":"@.len() + ser_string(e0.name@).len() + ",\"start_height\":"@.len() + dec_chars(e0.start_height as int).len() + ",\"end_height\":"@.len() + dec_chars(e0.end_height as int).len() + ",\"question\":"@.len() + ser_string(e0.question@).len() + ",\"candidates\":["@.len()) as int) =~= cands_form(e0.candidates@, election_tail_12(e0)));
    assert(election_tail_12(e0) == ",\"signature_required\":"@ + election_tail_13(e0));
    lemma_skip_concat(v, ("{\"id\":"@.len() + ser_string(e0.id@).len() + ",\"name\":"@.len() + ser_string(e0.name@).len() + ",\"start_height\":"@.len() + dec_chars(e0.start_height as int).len() + ",\"end_height\":"@.len() + dec_chars(e0.end_height as int).len() + ",\"question\":"@.len() + ser_string(e0.question@).len() + ",\"candidates\":["@.len() + ser_candidates(e0.candidates@).len() + 1) as int, ",\"signature_required\":"@, election_tail_13(e0));
    assert(v.skip(("{\"id\":"@.len() + ser_string(e0.id@).len() + ",\"name\":"@.len() + ser_string(e0.name@).len() + ",\"start_height\":"@.len() + dec_chars(e0.start_height as int).len() + ",\"end_height\":"@.len() + dec_chars(e0.end_height as int).len() + ",\"question\":"@.len() + ser_string(e0.question@).len() + ",\"candidates\":["@.len() + ser_candidates(e0.candidates@).len() + 1) as int) =~= lit_form(",\"signature_required\":"@, election_tail_13(e0)));
    assert(election_tail_13(e0) == ser_bool(e0.signature_required) + election_tail_14(e0));
    lemma_skip_concat(v, ("{\"id\":"@.len() + ser_string(e0.id@).len() + ",\"name\":"@.len() + ser_string(e0.name@).len() + ",\"start_height\":"@.len() + dec_chars(e0.start_height as int).len() + ",\"end_height\":"@.len() + dec_chars(e0.end_height as int).len() + ",\"question\":"@.len() + ser_string(e0.question@).len() + ",\"candidates\":["@.len() + ser_candidates(e0.candidates@).len() + 1 + ",\"signature_required\":"@.len()) as int, ser_bool(e0.signature_required), election_tail_14(e0));
    assert(v.skip(("{\"id\":"@.len() + ser_string(e0.id@).len() + ",\"name\":"@.len() + ser_string(e0.name@).len() + ",\"start_height\":"@.len() + dec_chars(e0.start_height as int).len() + ",\"end_height\":"@.len() + dec_chars(e0.end_height as int).len() + ",\"question\":"@.len() + ser_string(e0.question@).len() + ",\"candidates\":["@.len() + ser_candidates(e0.candidates@).len() + 1 + ",\"signature_required\":"@.len()) as int) =~= bool_form(e0.signature_required, election_tail_14(e0)));
    assert(election_tail_14(e0) == ",\"cmx\":["@ + election_tail_15(e0));
    lemma_skip_concat(v, ("{\"id\":"@.len() + ser_string(e0.id@).len() + ",\"name\":"@.len() + ser_string(e0.name@).len() + ",\"start_height\":"@.len() + dec_chars(e0.start_height as int).len() + ",\"end_height\":"@.len() + dec_chars(e0.end_height as int).len() + ",\"question\":"@.len() + ser_string(e0.question@).len() + ",\"candidates\":["@.len() + ser_candidates(e0.candidates@).len() + 1 + ",\"signature_required\":"@.len() + ser_bool(e0.signature_required).len()) as int, ",\"cmx\":["@, election_tail_15(e0));
    assert(v.skip(("{\"id\":"@.len() + ser_string(e0.id@).len() + ",\"name\":"@.len() + ser_string(e0.name@).len() + ",\"start_height\":"@.len() + dec_chars(e0.start_height as int).len() + ",\"end_height\":"@.len() + dec_chars(e0.end_height as int).len() + ",\"question\":"@.len() + ser_string(e0.question@).len() + ",\"candidates\":["@.len() + ser_candidates(e0.candidates@).len() + 1 + ",\"signature_required\":"@.len() + ser_bool(e0.signature_required).len()) as int) =~= lit_form(",\"cmx\":["@, election_tail_15(e0)));
    assert(election_tail_15(e0) == (ser_bytes(e0.cmx@) + "]"@) + election_tail_16(e0));
    lemma_skip_concat(v, ("{\"id\":"@.len() + ser_string(e0.id@).len() + ",\"name\":"@.len() + ser_string(e0.name@).len() + ",\"start_height\":"@.len() + dec_chars(e0.start_height as int).len() + ",\"end_height\":"@.len() + dec_chars(e0.end_height as int).len() + ",\"question\":"@.len() + ser_string(e0.question@).len() + ",\"candidates\":["@.len() + ser_candidates(e0.candidates@).len() + 1 + ",\"signature_required\":"@.len() + ser_bool(e0.signature_required).len() + ",\"cmx\":["@.len()) as int, (ser_bytes(e0.cmx@) + "]"@), election_tail_16(e0));
    assert(v.skip(("{\"id\":"@.len() + ser_string(e0.id@).len() + ",\"name\":"@.len() + ser_string(e0.name@).len() + ",\"start_height\":"@.len() + dec_chars(e0.start_height as int).len() + ",\"end_height\":"@.len() + dec_chars(e0.end_height as int).len() + ",\"question\":"@.len() + ser_string(e0.question@).len() + ",\"candidates\":["@.len() + ser_candidates(e0.candidates@).len() + 1 + ",\"signature_required\":"@.len() + ser_bool(e0.signature_required).len() + ",\"cmx\":["@.len()) as int) =~= bytes_form(e0.cmx@, election_tail_16(e0)));
    assert(election_tail_16(e0) == ",\"nf\":["@ + election_tail_17(e0));
    lemma_skip_concat(v, ("{\"id\":"@.len() + ser_string(e0.id@).len() + ",\"name\":"@.len() + ser_string(e0.name@).len() + ",\"start_height\":"@.len() + dec_chars(e0.start_height as int).len() + ",\"end_height\":"@.len() + dec_chars(e0.end_height as int).len() + ",\"question\":"@.len() + ser_string(e0.question@).len() + ",\"candidates\":["@.len() + ser_candidates(e0.candidates@).len() + 1 + ",\"signature_required\":"@.len() + ser_bool(e0.signature_required).len() + ",\"cmx\":["@.len() + ser_bytes(e0.cmx@).len() + 1) as int, ",\"nf\":["@, election_tail_17(e0));
    assert(v.skip(("{\"id\":"@.len() + ser_string(e0.id@).len() + ",\"name\":"@.len() + ser_string(e0.name@).len() + ",\"start_height\":"@.len() + dec_chars(e0.start_height as int).len() + ",\"end_height\":"@.len() + dec_chars(e0.end_height as int).len() + ",\"question\":"@.len() + ser_string(e0.question@).len() + ",\"candidates\":["@.len() + ser_candidates(e0.candidates@).len() + 1 + ",\"signature_required\":"@.len() + ser_bool(e0.signature_required).len() + ",\"cmx\":["@.len() + ser_bytes(e0.cmx@).len() + 1) as int) =~= lit_form(",\"nf\":["@, election_tail_17(e0)));
    assert(election_tail_17(e0) == (ser_bytes(e0.nf@) + "]"@) + election_tail_18(e0));
    lemma_skip_concat(v, ("{\"id\":"@.len() + ser_string(e0.id@).len() + ",\"name\":"@.len() + ser_string(e0.name@).len() + ",\"start_height\":"@.len() + dec_chars(e0.start_height as int).len() + ",\"end_height\":"@.len() + dec_chars(e0.end_height as int).len() + ",\"question\":"@.len() + ser_string(e0.question@).len() + ",\"candidates\":["@.len() + ser_candidates(e0.candidates@).len() + 1 + ",\"signature_required\":"@.len() + ser_bool(e0.signature_required).len() + ",\"cmx\":["@.len() + ser_bytes(e0.cmx@).len() + 1 + ",\"nf\":["@.len()) as int, (ser_bytes(e0.nf@) + "]"@), election_tail_18(e0));
    assert(v.skip(("{\"id\":"@.len() + ser_string(e0.id@).len() + ",\"name\":"@.len() + ser_string(e0.name@).len() + ",\"start_height\":"@.len() + dec_chars(e0.start_height as int).len() + ",\"end_height\":"@.len() + dec_chars(e0.end_height as int).len() + ",\"question\":"@.len() + ser_string(e0.question@).len() + ",\"candidates\":["@.len() + ser_candidates(e0.candidates@).len() + 1 + ",\"signature_required\":"@.len() + ser_bool(e0.signature_required).len() + ",\"cmx\":["@.len() + ser_bytes(e0.cmx@).len() + 1 + ",\"nf\":["@.len()) as int) =~= bytes_form(e0.nf@, election_tail_18(e0)));
    assert(election_tail_18(e0) == "}"@ + Seq::<char>::empty());
    lemma_skip_concat(v, ("{\"id\":"@.len() + ser_string(e0.id@).len() + ",\"name\":"@.len() + ser_string(e0.name@).len() + ",\"start_height\":"@.len() + dec_chars(e0.start_height as int).len() + ",\"end_height\":"@.len() + dec_chars(e0.end_height as int).len() + ",\"question\":"@.len() + ser_string(e0.question@).len() + ",\"candidates\":["@.len() + ser_candidates(e0.candidates@).len() + 1 + ",\"signature_required\":"@.len() + ser_bool(e0.signature_required).len() + ",\"cmx\":["@.len() + ser_bytes(e0.cmx@).len() + 1 + ",\"nf\":["@.len() + ser_bytes(e0.nf@).len() + 1) as int, "}"@, Seq::<char>::empty());
    assert(v.skip(("{\"id\":"@.len() + ser_string(e0.id@).len() + ",\"name\":"@.len() + ser_string(e0.name@).len() + ",\"start_height\":"@.len() + dec_chars(e0.start_height as int).len() + ",\"end_height\":"@.len() + dec_chars(e0.end_height as int).len() + ",\"question\":"@.len() + ser_string(e0.question@).len() + ",\"candidates\":["@.len() + ser_candidates(e0.candidates@).len() + 1 + ",\"signature_required\":"@.len() + ser_bool(e0.signature_required).len() + ",\"cmx\":["@.len() + ser_bytes(e0.cmx@).len() + 1 + ",\"nf\":["@.len() + ser_bytes(e0.nf@).len() + 1) as int) =~= lit_form("}"@, Seq::<char>::empty()));
}

/// The shape of the canonical form at each parse position.
proof fn election_chain(v: Seq<char>, e0: Election)
    requires
        v == ser_election(e0),
    ensures
        v.skip(0) == lit_form("{\"id\":"@, election_tail_1(e0)),
        v.skip(("{\"id\":"@.len()) as int) == quoted_form(e0.id@, election_tail_2(e0)),
        v.skip(("{\"id\":"@.len() + ser_string(e0.id@).len()) as int) == lit_form(",\"name\":"@, election_tail_3(e0)),
        v.skip(("{\"id\":"@.len() + ser_string(e0.id@).len() + ",\"name\":"@.len()) as int) == quoted_form(e0.name@, election_tail_4(e0)),
        v.skip(("{\"id\":"@.len() + ser_string(e0.id@).len() + ",\"name\":"@.len() + ser_string(e0.name@).len()) as int) == lit_form(",\"start_height\":"@, election_tail_5(e0)),
        v.skip(("{\"id\":"@.len() + ser_string(e0.id@).len() + ",\"name\":"@.len() + ser_string(e0.name@).len() + ",\"start_height\":"@.len()) as int) == number_form(e0.start_height as int, election_tail_6(e0)),
        v.skip(("{\"id\":"@.len() + ser_string(e0.id@).len() + ",\"name\":"@.len() + ser_string(e0.name@).len() + ",\"start_height\":"@.len() + dec_chars(e0.start_height as int).len()) as int) == lit_form(",\"end_height\":"@, election_tail_7(e0)),
        v.skip(("{\"id\":"@.len() + ser_string(e0.id@).len() + ",\"name\":"@.len() + ser_string(e0.name@).len() + ",\"start_height\":"@.len() + dec_chars(e0.start_height as int).len() + ",\"end_height\":"@.len()) as int) == number_form(e0.end_height as int, election_tail_8(e0)),
        v.skip(("{\"id\":"@.len() + ser_string(e0.id@).len() + ",\"name\":"@.len() + ser_string(e0.name@).len() + ",\"start_height\":"@.len() + dec_chars(e0.start_height as int).len() + ",\"end_height\":"@.len() + dec_chars(e0.end_height as int).len()) as int) == lit_form(",\"question\":"@, election_tail_9(e0)),
        v.skip(("{\"id\":"@.len() + ser_string(e0.id@).len() + ",\"name\":"@.len() + ser_string(e0.name@).len() + ",\"start_height\":"@.len() + dec_chars(e0.start_height as int).len() + ",\"end_height\":"@.len() + dec_chars(e0.end_height as int).len() + ",\"question\":"@.len()) as int) == quoted_form(e0.question@, election_tail_10(e0)),
        v.skip(("{\"id\":"@.len() + ser_string(e0.id@).len() + ",\"name\":"@.len() + ser_string(e0.name@).len() + ",\"start_height\":"@.len() + dec_chars(e0.start_height as int).len() + ",\"end_height\":"@.len() + dec_chars(e0.end_height as int).len() + ",\"question\":"@.len() + ser_string(e0.question@).len()) as int) == lit_form(",\"candidates\":["@, election_tail_11(e0)),
        v.skip(("{\"id\":"@.len() + ser_string(e0.id@).len() + ",\"name\":"@.len() + ser_string(e0.name@).len() + ",\"start_height\":"@.len() + dec_chars(e0.start_height as int).len() + ",\"end_height\":"@.len() + dec_chars(e0.end_height as int).len() + ",\"question\":"@.len() + ser_string(e0.question@).len() + ",\"candidates\":["@.len()) as int) == cands_form(e0.candidates@, election_tail_12(e0)),
        v.skip(("{\"id\":"@.len() + ser_string(e0.id@).len() + ",\"name\":"@.len() + ser_string(e0.name@).len() + ",\"start_height\":"@.len() + dec_chars(e0.start_height as int).len() + ",\"end_height\":"@.len() + dec_chars(e0.end_height as int).len() + ",\"question\":"@.len() + ser_string(e0.question@).len() + ",\"candidates\":["@.len() + ser_candidates(e0.candidates@).len() + 1) as int) == lit_form(",\"signature_required\":"@, election_tail_13(e0)),
        v.skip(("{\"id\":"@.len() + ser_string(e0.id@).len() + ",\"name\":"@.len() + ser_string(e0.name@).len() + ",\"start_height\":"@.len() + dec_chars(e0.start_height as int).len() + ",\"end_height\":"@.len() + dec_chars(e0.end_height as int).len() + ",\"question\":"@.len() + ser_string(e0.question@).len() + ",\"candidates\":["@.len() + ser_candidates(e0.candidates@).len() + 1 + ",\"signature_required\":"@.len()) as int) == bool_form(e0.signature_required, election_tail_14(e0)),
        v.skip(("{\"id\":"@.len() + ser_string(e0.id@).len() + ",\"name\":"@.len() + ser_string(e0.name@).len() + ",\"start_height\":"@.len() + dec_chars(e0.start_height as int).len() + ",\"end_height\":"@.len() + dec_chars(e0.end_height as int).len() + ",\"question\":"@.len() + ser_string(e0.question@).len() + ",\"candidates\":["@.len() + ser_candidates(e0.candidates@).len() + 1 + ",\"signature_required\":"@.len() + ser_bool(e0.signature_required).len()) as int) == lit_form(",\"cmx\":["@, election_tail_15(e0)),
        v.skip(("{\"id\":"@.len() + ser_string(e0.id@).len() + ",\"name\":"@.len() + ser_string(e0.name@).len() + ",\"start_height\":"@.len() + dec_chars(e0.start_height as int).len() + ",\"end_height\":"@.len() + dec_chars(e0.end_height as int).len() + ",\"question\":"@.len() + ser_string(e0.question@).len() + ",\"candidates\":["@.len() + ser_candidates(e0.candidates@).len() + 1 + ",\"signature_required\":"@.len() + ser_bool(e0.signature_required).len() + ",\"cmx\":["@.len()) as int) == bytes_form(e0.cmx@, election_tail_16(e0)),
        v.skip(("{\"id\":"@.len() + ser_string(e0.id@).len() + ",\"name\":"@.len() + ser_string(e0.name@).len() + ",\"start_height\":"@.len() + dec_chars(e0.start_height as int).len() + ",\"end_height\":"@.len() + dec_chars(e0.end_height as int).len() + ",\"question\":"@.len() + ser_string(e0.question@).len() + ",\"candidates\":["@.len() + ser_candidates(e0.candidates@).len() + 1 + ",\"signature_required\":"@.len() + ser_bool(e0.signature_required).len() + ",\"cmx\":["@.len() + ser_bytes(e0.cmx@).len() + 1) as int) == lit_form(",\"nf\":["@, election_tail_17(e0)),
        v.skip(("{\"id\":"@.len() + ser_string(e0.id@).len() + ",\"name\":"@.len() + ser_string(e0.name@).len() + ",\"start_height\":"@.len() + dec_chars(e0.start_height as int).len() + ",\"end_height\":"@.len() + dec_chars(e0.end_height as int).len() + ",\"question\":"@.len() + ser_string(e0.question@).len() + ",\"candidates\":["@.len() + ser_candidates(e0.candidates@).len() + 1 + ",\"signature_required\":"@.len() + ser_bool(e0.signature_required).len() + ",\"cmx\":["@.len() + ser_bytes(e0.cmx@).len() + 1 + ",\"nf\":["@.len()) as int) == bytes_form(e0.nf@, election_tail_18(e0)),
        v.skip(("{\"id\":"@.len() + ser_string(e0.id@).len() + ",\"name\":"@.len() + ser_string(e0.name@).len() + ",\"start_height\":"@.len() + dec_chars(e0.start_height as int).len() + ",\"end_height\":"@.len() + dec_chars(e0.end_height as int).len() + ",\"question\":"@.len() + ser_string(e0.question@).len() + ",\"candidates\":["@.len() + ser_candidates(e0.candidates@).len() + 1 + ",\"signature_required\":"@.len() + ser_bool(e0.signature_required).len() + ",\"cmx\":["@.len() + ser_bytes(e0.cmx@).len() + 1 + ",\"nf\":["@.len() + ser_bytes(e0.nf@).len() + 1) as int) == lit_form("}"@, Seq::<char>::empty()),
        election_tail_6(e0).len() > 0 && !is_digit_char(election_tail_6(e0)[0]),
        election_tail_8(e0).len() > 0 && !is_digit_char(election_tail_8(e0)[0]),
        ("{\"id\":"@.len() + ser_string(e0.id@).len() + ",\"name\":"@.len() + ser_string(e0.name@).len() + ",\"start_height\":"@.len() + dec_chars(e0.start_height as int).len() + ",\"end_height\":"@.len() + dec_chars(e0.end_height as int).len() + ",\"question\":"@.len() + ser_string(e0.question@).len() + ",\"candidates\":["@.len() + ser_candidates(e0.candidates@).len() + 1 + ",\"signature_required\":"@.len() + ser_bool(e0.signature_required).len() + ",\"cmx\":["@.len() + ser_bytes(e0.cmx@).len() + 1 + ",\"nf\":["@.len() + ser_bytes(e0.nf@).len() + 1 + "}"@.len()) as int == v.len(),
{
    election_chain_head(v, e0);
    election_chain_tail(v, e0);
}

#[verifier::rlimit(100)]
fn parse_election_head(v: &Vec<char>) -> (r: Option<(String, String, u32, u32, String, usize)>)
    ensures
        r matches Some(p) ==> p.5 <= v@.len(),
        forall|e0: Election|
            v@ == #[trigger] ser_election(e0) ==> (r matches Some(p) && p.0@ == e0.id@
                && p.1@ == e0.name@ && p.2 == e0.start_height && p.3 == e0.end_height
                && p.4@ == e0.question@ && p.5 as int == ("{\"id\":"@.len() + ser_string(e0.id@).len() + ",\"name\":"@.len() + ser_string(e0.name@).len() + ",\"start_height\":"@.len() + dec_chars(e0.start_height as int).len() + ",\"end_height\":"@.len() + dec_chars(e0.end_height as int).len() + ",\"question\":"@.len() + ser_string(e0.question@).len()) as int),
{
    let p1 = match expect_lit(v, 0, "{\"id\":") {
        Some(x) => x,
        None => {
            proof {
                assert forall|e0: Election| v@ != #[trigger] ser_election(e0) by {
                    if v@ == ser_election(e0) {
                        election_chain(v@, e0);
                    }
                }
            }
            return None;
        },
    };
    let (idv, p2) = match parse_quoted(v, p1) {
        Some(x) => x,
        None => {
            proof {
                assert forall|e0: Election| v@ != #[trigger] ser_election(e0) by {
                    if v@ == ser_election(e0) {
                        election_chain(v@, e0);
                        assert(p1 as int == ("{\"id\":"@.len()) as int);
                    }
                }
            }
            return None;
        },
    };
    let p3 = match expect_lit(v, p2, ",\"name\":") {
        Some(x) => x,
        None => {
            proof {
                assert forall|e0: Election| v@ != #[trigger] ser_election(e0) by {
                    if v@ == ser_election(e0) {
                        election_chain(v@, e0);
                        assert(p1 as int == ("{\"id\":"@.len()) as int);
                        assert(p2 as int == ("{\"id\":"@.len() + ser_string(e0.id@).len()) as int);
                    }
                }
            }
            return None;
        },
    };
    let (namev, p4) = match parse_quoted(v, p3) {
        Some(x) => x,
        None => {
            proof {
                assert forall|e0: Election| v@ != #[trigger] ser_election(e0) by {
                    if v@ == ser_election(e0) {
                        election_chain(v@, e0);
                        assert(p1 as int == ("{\"id\":"@.len()) as int);
                        assert(p2 as int == ("{\"id\":"@.len() + ser_string(e0.id@).len()) as int);
                        assert(p3 as int == ("{\"id\":"@.len() + ser_string(e0.id@).len() + ",\"name\":"@.len()) as int);
                    }
                }
            }
            return None;
        },
    };
    let p5 = match expect_lit(v, p4, ",\"start_height\":") {
        Some(x) => x,
        None => {
            proof {
                assert forall|e0: Election| v@ != #[trigger] ser_election(e0) by {
                    if v@ == ser_election(e0) {
                        election_chain(v@, e0);
                        assert(p1 as int == ("{\"id\":"@.len()) as int);
                        assert(p2 as int == ("{\"id\":"@.len() + ser_string(e0.id@).len()) as int);
                        assert(p3 as int == ("{\"id\":"@.len() + ser_string(e0.id@).len() + ",\"name\":"@.len()) as int);
                        assert(p4 as int == ("{\"id\":"@.len() + ser_string(e0.id@).len() + ",\"name\":"@.len() + ser_string(e0.name@).len()) as int);
                    }
                }
            }
            return None;
        },
    };
    let (sh, p6) = match parse_number(v, p5) {
        Some(x) => x,
        None => {
            proof {
                assert forall|e0: Election| v@ != #[trigger] ser_election(e0) by {
                    if v@ == ser_election(e0) {
                        election_chain(v@, e0);
                        assert(p1 as int == ("{\"id\":"@.len()) as int);
                        assert(p2 as int == ("{\"id\":"@.len() + ser_string(e0.id@).len()) as int);
                        assert(p3 as int == ("{\"id\":"@.len() + ser_string(e0.id@).len() + ",\"name\":"@.len()) as int);
                        assert(p4 as int == ("{\"id\":"@.len() + ser_string(e0.id@).len() + ",\"name\":"@.len() + ser_string(e0.name@).len()) as int);
                        assert(p5 as int == ("{\"id\":"@.len() + ser_string(e0.id@).len() + ",\"name\":"@.len() + ser_string(e0.name@).len() + ",\"start_height\":"@.len()) as int);
                    }
                }
            }
            return None;
        },
    };
    let p7 = match expect_lit(v, p6, ",\"end_height\":") {
        Some(x) => x,
        None => {
            proof {
                assert forall|e0: Election| v@ != #[trigger] ser_election(e0) by {
                    if v@ == ser_election(e0) {
                        election_chain(v@, e0);
                        assert(p1 as int == ("{\"id\":"@.len()) as int);
                        assert(p2 as int == ("{\"id\":"@.len() + ser_string(e0.id@).len()) as int);
                        assert(p3 as int == ("{\"id\":"@.len() + ser_string(e0.id@).len() + ",\"name\":"@.len()) as int);
                        assert(p4 as int == ("{\"id\":"@.len() + ser_string(e0.id@).len() + ",\"name\":"@.len() + ser_string(e0.name@).len()) as int);
                        assert(p5 as int == ("{\"id\":"@.len() + ser_string(e0.id@).len() + ",\"name\":"@.len() + ser_string(e0.name@).len() + ",\"start_height\":"@.len()) as int);
                        assert(p6 as int == ("{\"id\":"@.len() + ser_string(e0.id@).len() + ",\"name\":"@.len() + ser_string(e0.name@).len() + ",\"start_height\":"@.len() + dec_chars(e0.start_height as int).len()) as int);
                    }
                }
            }
            return None;
        },
    };
    let (eh, p8) = match parse_number(v, p7) {
        Some(x) => x,
        None => {
            proof {
                assert forall|e0: Election| v@ != #[trigger] ser_election(e0) by {
                    if v@ == ser_election(e0) {
                        election_chain(v@, e0);
                        assert(p1 as int == ("{\"id\":"@.len()) as int);
                        assert(p2 as int == ("{\"id\":"@.len() + ser_string(e0.id@).len()) as int);
                        assert(p3 as int == ("{\"id\":"@.len() + ser_string(e0.id@).len() + ",\"name\":"@.len()) as int);
                        assert(p4 as int == ("{\"id\":"@.len() + ser_string(e0.id@).len() + ",\"name\":"@.len() + ser_string(e0.name@).len()) as int);
                        assert(p5 as int == ("{\"id\":"@.len() + ser_string(e0.id@).len() + ",\"name\":"@.len() + ser_string(e0.name@).len() + ",\"start_height\":"@.len()) as int);
                        assert(p6 as int == ("{\"id\":"@.len() + ser_string(e0.id@).len() + ",\"name\":"@.len() + ser_string(e0.name@).len() + ",\"start_height\":"@.len() + dec_chars(e0.start_height as int).len()) as int);
                        assert(p7 as int == ("{\"id\":"@.len() + ser_string(e0.id@).len() + ",\"name\":"@.len() + ser_string(e0.name@).len() + ",\"start_height\":"@.len() + dec_chars(e0.start_height as int).len() + ",\"end_height\":"@.len()) as int);
                    }
                }
            }
            return None;
        },
    };
    let p9 = match expect_lit(v, p8, ",\"question\":") {
        Some(x) => x,
        None => {
            proof {
                assert forall|e0: Election| v@ != #[trigger] ser_election(e0) by {
                    if v@ == ser_election(e0) {
                        election_chain(v@, e0);
                        assert(p1 as int == ("{\"id\":"@.len()) as int);
                        assert(p2 as int == ("{\"id\":"@.len() + ser_string(e0.id@).len()) as int);
                        assert(p3 as int == ("{\"id\":"@.len() + ser_string(e0.id@).len() + ",\"name\":"@.len()) as int);
                        assert(p4 as int == ("{\"id\":"@.len() + ser_string(e0.id@).len() + ",\"name\":"@.len() + ser_string(e0.name@).len()) as int);
                        assert(p5 as int == ("{\"id\":"@.len() + ser_string(e0.id@).len() + ",\"name\":"@.len() + ser_string(e0.name@).len() + ",\"start_height\":"@.len()) as int);
                        assert(p6 as int == ("{\"id\":"@.len() + ser_string(e0.id@).len() + ",\"name\":"@.len() + ser_string(e0.name@).len() + ",\"start_height\":"@.len() + dec_chars(e0.start_height as int).len()) as int);
                        assert(p7 as int == ("{\"id\":"@.len() + ser_string(e0.id@).len() + ",\"name\":"@.len() + ser_string(e0.name@).len() + ",\"start_height\":"@.len() + dec_chars(e0.start_height as int).len() + ",\"end_height\":"@.len()) as int);
                        assert(p8 as int == ("{\"id\":"@.len() + ser_string(e0.id@).len() + ",\"name\":"@.len() + ser_string(e0.name@).len() + ",\"start_height\":"@.len() + dec_chars(e0.start_height as int).len() + ",\"end_height\":"@.len() + dec_chars(e0.end_height as int).len()) as int);
                    }
                }
            }
            return None;
        },
    };
    let (questionv, p10) = match parse_quoted(v, p9) {
        Some(x) => x,
        None => {
            proof {
                assert forall|e0: Election| v@ != #[trigger] ser_election(e0) by {
                    if v@ == ser_election(e0) {
                        election_chain(v@, e0);
                        assert(p1 as int == ("{\"id\":"@.len()) as int);
                        assert(p2 as int == ("{\"id\":"@.len() + ser_string(e0.id@).len()) as int);
                        assert(p3 as int == ("{\"id\":"@.len() + ser_string(e0.id@).len() + ",\"name\":"@.len()) as int);
                        assert(p4 as int == ("{\"id\":"@.len() + ser_string(e0.id@).len() + ",\"name\":"@.len() + ser_string(e0.name@).len()) as int);
                        assert(p5 as int == ("{\"id\":"@.len() + ser_string(e0.id@).len() + ",\"name\":"@.len() + ser_string(e0.name@).len() + ",\"start_height\":"@.len()) as int);
                        assert(p6 as int == ("{\"id\":"@.len() + ser_string(e0.id@).len() + ",\"name\":"@.len() + ser_string(e0.name@).len() + ",\"start_height\":"@.len() + dec_chars(e0.start_height as int).len()) as int);
                        assert(p7 as int == ("{\"id\":"@.len() + ser_string(e0.id@).len() + ",\"name\":"@.len() + ser_string(e0.name@).len() + ",\"start_height\":"@.len() + dec_chars(e0.start_height as int).len() + ",\"end_height\":"@.len()) as int);
                        assert(p8 as int == ("{\"id\":"@.len() + ser_string(e0.id@).len() + ",\"name\":"@.len() + ser_string(e0.name@).len() + ",\"start_height\":"@.len() + dec_chars(e0.start_height as int).len() + ",\"end_height\":"@.len() + dec_chars(e0.end_height as int).len()) as int);
                        assert(p9 as int == ("{\"id\":"@.len() + ser_string(e0.id@).len() + ",\"name\":"@.len() + ser_string(e0.name@).len() + ",\"start_height\":"@.len() + dec_chars(e0.start_height as int).len() + ",\"end_height\":"@.len() + dec_chars(e0.end_height as int).len() + ",\"question\":"@.len()) as int);
                    }
                }
            }
            return None;
        },
    };
    proof {
        assert forall|e0: Election| v@ == #[trigger] ser_election(e0) implies (idv@
            == e0.id@ && namev@ == e0.name@ && sh == e0.start_height && eh
            == e0.end_height && questionv@ == e0.question@ && p10 as int == ("{\"id\":"@.len() + ser_string(e0.id@).len() + ",\"name\":"@.len() + ser_string(e0.name@).len() + ",\"start_height\":"@.len() + dec_chars(e0.start_height as int).len() + ",\"end_height\":"@.len() + dec_chars(e0.end_height as int).len() + ",\"question\":"@.len() + ser_string(e0.question@).len()) as int) by {
            election_chain(v@, e0);
            assert(p1 as int == ("{\"id\":"@.len()) as int);
            assert(p2 as int == ("{\"id\":"@.len() + ser_string(e0.id@).len()) as int);
            assert(p3 as int == ("{\"id\":"@.len() + ser_string(e0.id@).len() + ",\"name\":"@.len()) as int);
            assert(p4 as int == ("{\"id\":"@.len() + ser_string(e0.id@).len() + ",\"name\":"@.len() + ser_string(e0.name@).len()) as int);
            assert(p5 as int == ("{\"id\":"@.len() + ser_string(e0.id@).len() + ",\"name\":"@.len() + ser_string(e0.name@).len() + ",\"start_height\":"@.len()) as int);
            assert(p6 as int == ("{\"id\":"@.len() + ser_string(e0.id@).len() + ",\"name\":"@.len() + ser_string(e0.name@).len() + ",\"start_height\":"@.len() + dec_chars(e0.start_height as int).len()) as int);
            assert(p7 as int == ("{\"id\":"@.len() + ser_string(e0.id@).len() + ",\"name\":"@.len() + ser_string(e0.name@).len() + ",\"start_height\":"@.len() + dec_chars(e0.start_height as int).len() + ",\"end_height\":"@.len()) as int);
            assert(p8 as int == ("{\"id\":"@.len() + ser_string(e0.id@).len() + ",\"name\":"@.len() + ser_string(e0.name@).len() + ",\"start_height\":"@.len() + dec_chars(e0.start_height as int).len() + ",\"end_height\":"@.len() + dec_chars(e0.end_height as int).len()) as int);
            assert(p9 as int == ("{\"id\":"@.len() + ser_string(e0.id@).len() + ",\"name\":"@.len() + ser_string(e0.name@).len() + ",\"start_height\":"@.len() + dec_chars(e0.start_height as int).len() + ",\"end_height\":"@.len() + dec_chars(e0.end_height as int).len() + ",\"question\":"@.len()) as int);
            assert(p10 as int == ("{\"id\":"@.len() + ser_string(e0.id@).len() + ",\"name\":"@.len() + ser_string(e0.name@).len() + ",\"start_height\":"@.len() + dec_chars(e0.start_height as int).len() + ",\"end_height\":"@.len() + dec_chars(e0.end_height as int).len() + ",\"question\":"@.len() + ser_string(e0.question@).len()) as int);
        }
    }
    Some((idv, namev, sh, eh, questionv, p10))
}

#[verifier::rlimit(100)]
fn parse_election_chars(v: &Vec<char>) -> (r: Option<Election>)
    ensures
        forall|e0: Election|
            v@ == #[trigger] ser_election(e0) ==> (r matches Some(e) && ser_election(e)
                == v@),
{
    let (idv, namev, sh, eh, questionv, p10) = match parse_election_head(v) {
        Some(x) => x,
        None => {
            proof {
                assert forall|e0: Election| v@ != #[trigger] ser_election(e0) by {
                    if v@ == ser_election(e0) {
                        election_chain(v@, e0);
                    }
                }
            }
            return None;
        },
    };
    let p11 = match expect_lit(v, p10, ",\"candidates\":[") {
        Some(x) => x,
        None => {
            proof {
                assert forall|e0: Election| v@ != #[trigger] ser_election(e0) by {
                    if v@ == ser_election(e0) {
                        election_chain(v@, e0);
                        assert(p10 as int == ("{\"id\":"@.len() + ser_string(e0.id@).len() + ",\"name\":"@.len() + ser_string(e0.name@).len() + ",\"start_height\":"@.len() + dec_chars(e0.start_height as int).len() + ",\"end_height\":"@.len() + dec_chars(e0.end_height as int).len() + ",\"question\":"@.len() + ser_string(e0.question@).len()) as int);
                    }
                }
            }
            return None;
        },
    };
    let (candidates, p12) = match parse_candidate_list(v, p11) {
        Some(x) => x,
        None => {
            proof {
                assert forall|e0: Election| v@ != #[trigger] ser_election(e0) by {
                    if v@ == ser_election(e0) {
                        election_chain(v@, e0);
                        assert(p10 as int == ("{\"id\":"@.len() + ser_string(e0.id@).len() + ",\"name\":"@.len() + ser_string(e0.name@).len() + ",\"start_height\":"@.len() + dec_chars(e0.start_height as int).len() + ",\"end_height\":"@.len() + dec_chars(e0.end_height as int).len() + ",\"question\":"@.len() + ser_string(e0.question@).len()) as int);
                        assert(p11 as int == ("{\"id\":"@.len() + ser_string(e0.id@).len() + ",\"name\":"@.len() + ser_string(e0.name@).len() + ",\"start_height\":"@.len() + dec_chars(e0.start_height as int).len() + ",\"end_height\":"@.len() + dec_chars(e0.end_height as int).len() + ",\"question\":"@.len() + ser_string(e0.question@).len() + ",\"candidates\":["@.len()) as int);
                    }
                }
            }
            return None;
        },
    };
    let p13 = match expect_lit(v, p12, ",\"signature_required\":") {
        Some(x) => x,
        None => {
            proof {
                assert forall|e0: Election| v@ != #[trigger] ser_election(e0) by {
                    if v@ == ser_election(e0) {
                        election_chain(v@, e0);
                        assert(p10 as int == ("{\"id\":"@.len() + ser_string(e0.id@).len() + ",\"name\":"@.len() + ser_string(e0.name@).len() + ",\"start_height\":"@.len() + dec_chars(e0.start_height as int).len() + ",\"end_height\":"@.len() + dec_chars(e0.end_height as int).len() + ",\"question\":"@.len() + ser_string(e0.question@).len()) as int);
                        assert(p11 as int == ("{\"id\":"@.len() + ser_string(e0.id@).len() + ",\"name\":"@.len() + ser_string(e0.name@).len() + ",\"start_height\":"@.len() + dec_chars(e0.start_height as int).len() + ",\"end_height\":"@.len() + dec_chars(e0.end_height as int).len() + ",\"question\":"@.len() + ser_string(e0.question@).len() + ",\"candidates\":["@.len()) as int);
                        assert(p12 as int == ("{\"id\":"@.len() + ser_string(e0.id@).len() + ",\"name\":"@.len() + ser_string(e0.name@).len() + ",\"start_height\":"@.len() + dec_chars(e0.start_height as int).len() + ",\"end_height\":"@.len() + dec_chars(e0.end_height as int).len() + ",\"question\":"@.len() + ser_string(e0.question@).len() + ",\"candidates\":["@.len() + ser_candidates(e0.candidates@).len() + 1) as int);
                    }
                }
            }
            return None;
        },
    };
    let (sig, p14) = match parse_bool(v, p13) {
        Some(x) => x,
        None => {
            proof {
                assert forall|e0: Election| v@ != #[trigger] ser_election(e0) by {
                    if v@ == ser_election(e0) {
                        election_chain(v@, e0);
                        assert(p10 as int == ("{\"id\":"@.len() + ser_string(e0.id@).len() + ",\"name\":"@.len() + ser_string(e0.name@).len() + ",\"start_height\":"@.len() + dec_chars(e0.start_height as int).len() + ",\"end_height\":"@.len() + dec_chars(e0.end_height as int).len() + ",\"question\":"@.len() + ser_string(e0.question@).len()) as int);
                        assert(p11 as int == ("{\"id\":"@.len() + ser_string(e0.id@).len() + ",\"name\":"@.len() + ser_string(e0.name@).len() + ",\"start_height\":"@.len() + dec_chars(e0.start_height as int).len() + ",\"end_height\":"@.len() + dec_chars(e0.end_height as int).len() + ",\"question\":"@.len() + ser_string(e0.question@).len() + ",\"candidates\":["@.len()) as int);
                        assert(p12 as int == ("{\"id\":"@.len() + ser_string(e0.id@).len() + ",\"name\":"@.len() + ser_string(e0.name@).len() + ",\"start_height\":"@.len() + dec_chars(e0.start_height as int).len() + ",\"end_height\":"@.len() + dec_chars(e0.end_height as int).len() + ",\"question\":"@.len() + ser_string(e0.question@).len() + ",\"candidates\":["@.len() + ser_candidates(e0.candidates@).len() + 1) as int);
                        assert(p13 as int == ("{\"id\":"@.len() + ser_string(e0.id@).len() + ",\"name\":"@.len() + ser_string(e0.name@).len() + ",\"start_height\":"@.len() + dec_chars(e0.start_height as int).len() + ",\"end_height\":"@.len() + dec_chars(e0.end_height as int).len() + ",\"question\":"@.len() + ser_string(e0.question@).len() + ",\"candidates\":["@.len() + ser_candidates(e0.candidates@).len() + 1 + ",\"signature_required\":"@.len()) as int);
                    }
                }
            }
            return None;
        },
    };
    let p15 = match expect_lit(v, p14, ",\"cmx\":[") {
        Some(x) => x,
        None => {
            proof {
                assert forall|e0: Election| v@ != #[trigger] ser_election(e0) by {
                    if v@ == ser_election(e0) {
                        election_chain(v@, e0);
                        assert(p10 as int == ("{\"id\":"@.len() + ser_string(e0.id@).len() + ",\"name\":"@.len() + ser_string(e0.name@).len() + ",\"start_height\":"@.len() + dec_chars(e0.start_height as int).len() + ",\"end_height\":"@.len() + dec_chars(e0.end_height as int).len() + ",\"question\":"@.len() + ser_string(e0.question@).len()) as int);
                        assert(p11 as int == ("{\"id\":"@.len() + ser_string(e0.id@).len() + ",\"name\":"@.len() + ser_string(e0.name@).len() + ",\"start_height\":"@.len() + dec_chars(e0.start_height as int).len() + ",\"end_height\":"@.len() + dec_chars(e0.end_height as int).len() + ",\"question\":"@.len() + ser_string(e0.question@).len() + ",\"candidates\":["@.len()) as int);
                        assert(p12 as int == ("{\"id\":"@.len() + ser_string(e0.id@).len() + ",\"name\":"@.len() + ser_string(e0.name@).len() + ",\"start_height\":"@.len() + dec_chars(e0.start_height as int).len() + ",\"end_height\":"@.len() + dec_chars(e0.end_height as int).len() + ",\"question\":"@.len() + ser_string(e0.question@).len() + ",\"candidates\":["@.len() + ser_candidates(e0.candidates@).len() + 1) as int);
                        assert(p13 as int == ("{\"id\":"@.len() + ser_string(e0.id@).len() + ",\"name\":"@.len() + ser_string(e0.name@).len() + ",\"start_height\":"@.len() + dec_chars(e0.start_height as int).len() + ",\"end_height\":"@.len() + dec_chars(e0.end_height as int).len() + ",\"question\":"@.len() + ser_string(e0.question@).len() + ",\"candidates\":["@.len() + ser_candidates(e0.candidates@).len() + 1 + ",\"signature_required\":"@.len()) as int);
                        assert(p14 as int == ("{\"id\":"@.len() + ser_string(e0.id@).len() + ",\"name\":"@.len() + ser_string(e0.name@).len() + ",\"start_height\":"@.len() + dec_chars(e0.start_height as int).len() + ",\"end_height\":"@.len() + dec_chars(e0.end_height as int).len() + ",\"question\":"@.len() + ser_string(e0.question@).len() + ",\"candidates\":["@.len() + ser_candidates(e0.candidates@).len() + 1 + ",\"signature_required\":"@.len() + ser_bool(e0.signature_required).len()) as int);
                    }
                }
            }
            return None;
        },
    };
    let (cmxv, p16) = match parse_byte_list(v, p15) {
        Some(x) => x,
        None => {
            proof {
                assert forall|e0: Election| v@ != #[trigger] ser_election(e0) by {
                    if v@ == ser_election(e0) {
                        election_chain(v@, e0);
                        assert(p10 as int == ("{\"id\":"@.len() + ser_string(e0.id@).len() + ",\"name\":"@.len() + ser_string(e0.name@).len() + ",\"start_height\":"@.len() + dec_chars(e0.start_height as int).len() + ",\"end_height\":"@.len() + dec_chars(e0.end_height as int).len() + ",\"question\":"@.len() + ser_string(e0.question@).len()) as int);
                        assert(p11 as int == ("{\"id\":"@.len() + ser_string(e0.id@).len() + ",\"name\":"@.len() + ser_string(e0.name@).len() + ",\"start_height\":"@.len() + dec_chars(e0.start_height as int).len() + ",\"end_height\":"@.len() + dec_chars(e0.end_height as int).len() + ",\"question\":"@.len() + ser_string(e0.question@).len() + ",\"candidates\":["@.len()) as int);
                        assert(p12 as int == ("{\"id\":"@.len() + ser_string(e0.id@).len() + ",\"name\":"@.len() + ser_string(e0.name@).len() + ",\"start_height\":"@.len() + dec_chars(e0.start_height as int).len() + ",\"end_height\":"@.len() + dec_chars(e0.end_height as int).len() + ",\"question\":"@.len() + ser_string(e0.question@).len() + ",\"candidates\":["@.len() + ser_candidates(e0.candidates@).len() + 1) as int);
                        assert(p13 as int == ("{\"id\":"@.len() + ser_string(e0.id@).len() + ",\"name\":"@.len() + ser_string(e0.name@).len() + ",\"start_height\":"@.len() + dec_chars(e0.start_height as int).len() + ",\"end_height\":"@.len() + dec_chars(e0.end_height as int).len() + ",\"question\":"@.len() + ser_string(e0.question@).len() + ",\"candidates\":["@.len() + ser_candidates(e0.candidates@).len() + 1 + ",\"signature_required\":"@.len()) as int);
                        assert(p14 as int == ("{\"id\":"@.len() + ser_string(e0.id@).len() + ",\"name\":"@.len() + ser_string(e0.name@).len() + ",\"start_height\":"@.len() + dec_chars(e0.start_height as int).len() + ",\"end_height\":"@.len() + dec_chars(e0.end_height as int).len() + ",\"question\":"@.len() + ser_string(e0.question@).len() + ",\"candidates\":["@.len() + ser_candidates(e0.candidates@).len() + 1 + ",\"signature_required\":"@.len() + ser_bool(e0.signature_required).len()) as int);
                        assert(p15 as int == ("{\"id\":"@.len() + ser_string(e0.id@).len() + ",\"name\":"@.len() + ser_string(e0.name@).len() + ",\"start_height\":"@.len() + dec_chars(e0.start_height as int).len() + ",\"end_height\":"@.len() + dec_chars(e0.end_height as int).len() + ",\"question\":"@.len() + ser_string(e0.question@).len() + ",\"candidates\":["@.len() + ser_candidates(e0.candidates@).len() + 1 + ",\"signature_required\":"@.len() + ser_bool(e0.signature_required).len() + ",\"cmx\":["@.len()) as int);
                    }
                }
            }
            return None;
        },
    };
    let p17 = match expect_lit(v, p16, ",\"nf\":[") {
        Some(x) => x,
        None => {
            proof {
                assert forall|e0: Election| v@ != #[trigger] ser_election(e0) by {
                    if v@ == ser_election(e0) {
                        election_chain(v@, e0);
                        assert(p10 as int == ("{\"id\":"@.len() + ser_string(e0.id@).len() + ",\"name\":"@.len() + ser_string(e0.name@).len() + ",\"start_height\":"@.len() + dec_chars(e0.start_height as int).len() + ",\"end_height\":"@.len() + dec_chars(e0.end_height as int).len() + ",\"question\":"@.len() + ser_string(e0.question@).len()) as int);
                        assert(p11 as int == ("{\"id\":"@.len() + ser_string(e0.id@).len() + ",\"name\":"@.len() + ser_string(e0.name@).len() + ",\"start_height\":"@.len() + dec_chars(e0.start_height as int).len() + ",\"end_height\":"@.len() + dec_chars(e0.end_height as int).len() + ",\"question\":"@.len() + ser_string(e0.question@).len() + ",\"candidates\":["@.len()) as int);
                        assert(p12 as int == ("{\"id\":"@.len() + ser_string(e0.id@).len() + ",\"name\":"@.len() + ser_string(e0.name@).len() + ",\"start_height\":"@.len() + dec_chars(e0.start_height as int).len() + ",\"end_height\":"@.len() + dec_chars(e0.end_height as int).len() + ",\"question\":"@.len() + ser_string(e0.question@).len() + ",\"candidates\":["@.len() + ser_candidates(e0.candidates@).len() + 1) as int);
                        assert(p13 as int == ("{\"id\":"@.len() + ser_string(e0.id@).len() + ",\"name\":"@.len() + ser_string(e0.name@).len() + ",\"start_height\":"@.len() + dec_chars(e0.start_height as int).len() + ",\"end_height\":"@.len() + dec_chars(e0.end_height as int).len() + ",\"question\":"@.len() + ser_string(e0.question@).len() + ",\"candidates\":["@.len() + ser_candidates(e0.candidates@).len() + 1 + ",\"signature_required\":"@.len()) as int);
                        assert(p14 as int == ("{\"id\":"@.len() + ser_string(e0.id@).len() + ",\"name\":"@.len() + ser_string(e0.name@).len() + ",\"start_height\":"@.len() + dec_chars(e0.start_height as int).len() + ",\"end_height\":"@.len() + dec_chars(e0.end_height as int).len() + ",\"question\":"@.len() + ser_string(e0.question@).len() + ",\"candidates\":["@.len() + ser_candidates(e0.candidates@).len() + 1 + ",\"signature_required\":"@.len() + ser_bool(e0.signature_required).len()) as int);
                        assert(p15 as int == ("{\"id\":"@.len() + ser_string(e0.id@).len() + ",\"name\":"@.len() + ser_string(e0.name@).len() + ",\"start_height\":"@.len() + dec_chars(e0.start_height as int).len() + ",\"end_height\":"@.len() + dec_chars(e0.end_height as int).len() + ",\"question\":"@.len() + ser_string(e0.question@).len() + ",\"candidates\":["@.len() + ser_candidates(e0.candidates@).len() + 1 + ",\"signature_required\":"@.len() + ser_bool(e0.signature_required).len() + ",\"cmx\":["@.len()) as int);
                        assert(p16 as int == ("{\"id\":"@.len() + ser_string(e0.id@).len() + ",\"name\":"@.len() + ser_string(e0.name@).len() + ",\"start_height\":"@.len() + dec_chars(e0.start_height as int).len() + ",\"end_height\":"@.len() + dec_chars(e0.end_height as int).len() + ",\"question\":"@.len() + ser_string(e0.question@).len() + ",\"candidates\":["@.len() + ser_candidates(e0.candidates@).len() + 1 + ",\"signature_required\":"@.len() + ser_bool(e0.signature_required).len() + ",\"cmx\":["@.len() + ser_bytes(e0.cmx@).len() + 1) as int);
                    }
                }
            }
            return None;
        },
    };
    let (nfv, p18) = match parse_byte_list(v, p17) {
        Some(x) => x,
        None => {
            proof {
                assert forall|e0: Election| v@ != #[trigger] ser_election(e0) by {
                    if v@ == ser_election(e0) {
                        election_chain(v@, e0);
                        assert(p10 as int == ("{\"id\":"@.len() + ser_string(e0.id@).len() + ",\"name\":"@.len() + ser_string(e0.name@).len() + ",\"start_height\":"@.len() + dec_chars(e0.start_height as int).len() + ",\"end_height\":"@.len() + dec_chars(e0.end_height as int).len() + ",\"question\":"@.len() + ser_string(e0.question@).len()) as int);
                        assert(p11 as int == ("{\"id\":"@.len() + ser_string(e0.id@).len() + ",\"name\":"@.len() + ser_string(e0.name@).len() + ",\"start_height\":"@.len() + dec_chars(e0.start_height as int).len() + ",\"end_height\":"@.len() + dec_chars(e0.end_height as int).len() + ",\"question\":"@.len() + ser_string(e0.question@).len() + ",\"candidates\":["@.len()) as int);
                        assert(p12 as int == ("{\"id\":"@.len() + ser_string(e0.id@).len() + ",\"name\":"@.len() + ser_string(e0.name@).len() + ",\"start_height\":"@.len() + dec_chars(e0.start_height as int).len() + ",\"end_height\":"@.len() + dec_chars(e0.end_height as int).len() + ",\"question\":"@.len() + ser_string(e0.question@).len() + ",\"candidates\":["@.len() + ser_candidates(e0.candidates@).len() + 1) as int);
                        assert(p13 as int == ("{\"id\":"@.len() + ser_string(e0.id@).len() + ",\"name\":"@.len() + ser_string(e0.name@).len() + ",\"start_height\":"@.len() + dec_chars(e0.start_height as int).len() + ",\"end_height\":"@.len() + dec_chars(e0.end_height as int).len() + ",\"question\":"@.len() + ser_string(e0.question@).len() + ",\"candidates\":["@.len() + ser_candidates(e0.candidates@).len() + 1 + ",\"signature_required\":"@.len()) as int);
                        assert(p14 as int == ("{\"id\":"@.len() + ser_string(e0.id@).len() + ",\"name\":"@.len() + ser_string(e0.name@).len() + ",\"start_height\":"@.len() + dec_chars(e0.start_height as int).len() + ",\"end_height\":"@.len() + dec_chars(e0.end_height as int).len() + ",\"question\":"@.len() + ser_string(e0.question@).len() + ",\"candidates\":["@.len() + ser_candidates(e0.candidates@).len() + 1 + ",\"signature_required\":"@.len() + ser_bool(e0.signature_required).len()) as int);
                        assert(p15 as int == ("{\"id\":"@.len() + ser_string(e0.id@).len() + ",\"name\":"@.len() + ser_string(e0.name@).len() + ",\"start_height\":"@.len() + dec_chars(e0.start_height as int).len() + ",\"end_height\":"@.len() + dec_chars(e0.end_height as int).len() + ",\"question\":"@.len() + ser_string(e0.question@).len() + ",\"candidates\":["@.len() + ser_candidates(e0.candidates@).len() + 1 + ",\"signature_required\":"@.len() + ser_bool(e0.signature_required).len() + ",\"cmx\":["@.len()) as int);
                        assert(p16 as int == ("{\"id\":"@.len() + ser_string(e0.id@).len() + ",\"name\":"@.len() + ser_string(e0.name@).len() + ",\"start_height\":"@.len() + dec_chars(e0.start_height as int).len() + ",\"end_height\":"@.len() + dec_chars(e0.end_height as int).len() + ",\"question\":"@.len() + ser_string(e0.question@).len() + ",\"candidates\":["@.len() + ser_candidates(e0.candidates@).len() + 1 + ",\"signature_required\":"@.len() + ser_bool(e0.signature_required).len() + ",\"cmx\":["@.len() + ser_bytes(e0.cmx@).len() + 1) as int);
                        assert(p17 as int == ("{\"id\":"@.len() + ser_string(e0.id@).len() + ",\"name\":"@.len() + ser_string(e0.name@).len() + ",\"start_height\":"@.len() + dec_chars(e0.start_height as int).len() + ",\"end_height\":"@.len() + dec_chars(e0.end_height as int).len() + ",\"question\":"@.len() + ser_string(e0.question@).len() + ",\"candidates\":["@.len() + ser_candidates(e0.candidates@).len() + 1 + ",\"signature_required\":"@.len() + ser_bool(e0.signature_required).len() + ",\"cmx\":["@.len() + ser_bytes(e0.cmx@).len() + 1 + ",\"nf\":["@.len()) as int);
                    }
                }
            }
            return None;
        },
    };
    let p19 = match expect_lit(v, p18, "}") {
        Some(x) => x,
        None => {
            proof {
                assert forall|e0: Election| v@ != #[trigger] ser_election(e0) by {
                    if v@ == ser_election(e0) {
                        election_chain(v@, e0);
                        assert(p10 as int == ("{\"id\":"@.len() + ser_string(e0.id@).len() + ",\"name\":"@.len() + ser_string(e0.name@).len() + ",\"start_height\":"@.len() + dec_chars(e0.start_height as int).len() + ",\"end_height\":"@.len() + dec_chars(e0.end_height as int).len() + ",\"question\":"@.len() + ser_string(e0.question@).len()) as int);
                        assert(p11 as int == ("{\"id\":"@.len() + ser_string(e0.id@).len() + ",\"name\":"@.len() + ser_string(e0.name@).len() + ",\"start_height\":"@.len() + dec_chars(e0.start_height as int).len() + ",\"end_height\":"@.len() + dec_chars(e0.end_height as int).len() + ",\"question\":"@.len() + ser_string(e0.question@).len() + ",\"candidates\":["@.len()) as int);
                        assert(p12 as int == ("{\"id\":"@.len() + ser_string(e0.id@).len() + ",\"name\":"@.len() + ser_string(e0.name@).len() + ",\"start_height\":"@.len() + dec_chars(e0.start_height as int).len() + ",\"end_height\":"@.len() + dec_chars(e0.end_height as int).len() + ",\"question\":"@.len() + ser_string(e0.question@).len() + ",\"candidates\":["@.len() + ser_candidates(e0.candidates@).len() + 1) as int);
                        assert(p13 as int == ("{\"id\":"@.len() + ser_string(e0.id@).len() + ",\"name\":"@.len() + ser_string(e0.name@).len() + ",\"start_height\":"@.len() + dec_chars(e0.start_height as int).len() + ",\"end_height\":"@.len() + dec_chars(e0.end_height as int).len() + ",\"question\":"@.len() + ser_string(e0.question@).len() + ",\"candidates\":["@.len() + ser_candidates(e0.candidates@).len() + 1 + ",\"signature_required\":"@.len()) as int);
                        assert(p14 as int == ("{\"id\":"@.len() + ser_string(e0.id@).len() + ",\"name\":"@.len() + ser_string(e0.name@).len() + ",\"start_height\":"@.len() + dec_chars(e0.start_height as int).len() + ",\"end_height\":"@.len() + dec_chars(e0.end_height as int).len() + ",\"question\":"@.len() + ser_string(e0.question@).len() + ",\"candidates\":["@.len() + ser_candidates(e0.candidates@).len() + 1 + ",\"signature_required\":"@.len() + ser_bool(e0.signature_required).len()) as int);
                        assert(p15 as int == ("{\"id\":"@.len() + ser_string(e0.id@).len() + ",\"name\":"@.len() + ser_string(e0.name@).len() + ",\"start_height\":"@.len() + dec_chars(e0.start_height as int).len() + ",\"end_height\":"@.len() + dec_chars(e0.end_height as int).len() + ",\"question\":"@.len() + ser_string(e0.question@).len() + ",\"candidates\":["@.len() + ser_candidates(e0.candidates@).len() + 1 + ",\"signature_required\":"@.len() + ser_bool(e0.signature_required).len() + ",\"cmx\":["@.len()) as int);
                        assert(p16 as int == ("{\"id\":"@.len() + ser_string(e0.id@).len() + ",\"name\":"@.len() + ser_string(e0.name@).len() + ",\"start_height\":"@.len() + dec_chars(e0.start_height as int).len() + ",\"end_height\":"@.len() + dec_chars(e0.end_height as int).len() + ",\"question\":"@.len() + ser_string(e0.question@).len() + ",\"candidates\":["@.len() + ser_candidates(e0.candidates@).len() + 1 + ",\"signature_required\":"@.len() + ser_bool(e0.signature_required).len() + ",\"cmx\":["@.len() + ser_bytes(e0.cmx@).len() + 1) as int);
                        assert(p17 as int == ("{\"id\":"@.len() + ser_string(e0.id@).len() + ",\"name\":"@.len() + ser_string(e0.name@).len() + ",\"start_height\":"@.len() + dec_chars(e0.start_height as int).len() + ",\"end_height\":"@.len() + dec_chars(e0.end_height as int).len() + ",\"question\":"@.len() + ser_string(e0.question@).len() + ",\"candidates\":["@.len() + ser_candidates(e0.candidates@).len() + 1 + ",\"signature_required\":"@.len() + ser_bool(e0.signature_required).len() + ",\"cmx\":["@.len() + ser_bytes(e0.cmx@).len() + 1 + ",\"nf\":["@.len()) as int);
                        assert(p18 as int == ("{\"id\":"@.len() + ser_string(e0.id@).len() + ",\"name\":"@.len() + ser_string(e0.name@).len() + ",\"start_height\":"@.len() + dec_chars(e0.start_height as int).len() + ",\"end_height\":"@.len() + dec_chars(e0.end_height as int).len() + ",\"question\":"@.len() + ser_string(e0.question@).len() + ",\"candidates\":["@.len() + ser_candidates(e0.candidates@).len() + 1 + ",\"signature_required\":"@.len() + ser_bool(e0.signature_required).len() + ",\"cmx\":["@.len() + ser_bytes(e0.cmx@).len() + 1 + ",\"nf\":["@.len() + ser_bytes(e0.nf@).len() + 1) as int);
                    }
                }
            }
            return None;
        },
    };
    if p19 != v.len() {
        proof {
            assert forall|e0: Election| v@ != #[trigger] ser_election(e0) by {
                if v@ == ser_election(e0) {
                    election_chain(v@, e0);
                    assert(p10 as int == ("{\"id\":"@.len() + ser_string(e0.id@).len() + ",\"name\":"@.len() + ser_string(e0.name@).len() + ",\"start_height\":"@.len() + dec_chars(e0.start_height as int).len() + ",\"end_height\":"@.len() + dec_chars(e0.end_height as int).len() + ",\"question\":"@.len() + ser_string(e0.question@).len()) as int);
                    assert(p11 as int == ("{\"id\":"@.len() + ser_string(e0.id@).len() + ",\"name\":"@.len() + ser_string(e0.name@).len() + ",\"start_height\":"@.len() + dec_chars(e0.start_height as int).len() + ",\"end_height\":"@.len() + dec_chars(e0.end_height as int).len() + ",\"question\":"@.len() + ser_string(e0.question@).len() + ",\"candidates\":["@.len()) as int);
                    assert(p12 as int == ("{\"id\":"@.len() + ser_string(e0.id@).len() + ",\"name\":"@.len() + ser_string(e0.name@).len() + ",\"start_height\":"@.len() + dec_chars(e0.start_height as int).len() + ",\"end_height\":"@.len() + dec_chars(e0.end_height as int).len() + ",\"question\":"@.len() + ser_string(e0.question@).len() + ",\"candidates\":["@.len() + ser_candidates(e0.candidates@).len() + 1) as int);
                    assert(p13 as int == ("{\"id\":"@.len() + ser_string(e0.id@).len() + ",\"name\":"@.len() + ser_string(e0.name@).len() + ",\"start_height\":"@.len() + dec_chars(e0.start_height as int).len() + ",\"end_height\":"@.len() + dec_chars(e0.end_height as int).len() + ",\"question\":"@.len() + ser_string(e0.question@).len() + ",\"candidates\":["@.len() + ser_candidates(e0.candidates@).len() + 1 + ",\"signature_required\":"@.len()) as int);
                    assert(p14 as int == ("{\"id\":"@.len() + ser_string(e0.id@).len() + ",\"name\":"@.len() + ser_string(e0.name@).len() + ",\"start_height\":"@.len() + dec_chars(e0.start_height as int).len() + ",\"end_height\":"@.len() + dec_chars(e0.end_height as int).len() + ",\"question\":"@.len() + ser_string(e0.question@).len() + ",\"candidates\":["@.len() + ser_candidates(e0.candidates@).len() + 1 + ",\"signature_required\":"@.len() + ser_bool(e0.signature_required).len()) as int);
                    assert(p15 as int == ("{\"id\":"@.len() + ser_string(e0.id@).len() + ",\"name\":"@.len() + ser_string(e0.name@).len() + ",\"start_height\":"@.len() + dec_chars(e0.start_height as int).len() + ",\"end_height\":"@.len() + dec_chars(e0.end_height as int).len() + ",\"question\":"@.len() + ser_string(e0.question@).len() + ",\"candidates\":["@.len() + ser_candidates(e0.candidates@).len() + 1 + ",\"signature_required\":"@.len() + ser_bool(e0.signature_required).len() + ",\"cmx\":["@.len()) as int);
                    assert(p16 as int == ("{\"id\":"@.len() + ser_string(e0.id@).len() + ",\"name\":"@.len() + ser_string(e0.name@).len() + ",\"start_height\":"@.len() + dec_chars(e0.start_height as int).len() + ",\"end_height\":"@.len() + dec_chars(e0.end_height as int).len() + ",\"question\":"@.len() + ser_string(e0.question@).len() + ",\"candidates\":["@.len() + ser_candidates(e0.candidates@).len() + 1 + ",\"signature_required\":"@.len() + ser_bool(e0.signature_required).len() + ",\"cmx\":["@.len() + ser_bytes(e0.cmx@).len() + 1) as int);
                    assert(p17 as int == ("{\"id\":"@.len() + ser_string(e0.id@).len() + ",\"name\":"@.len() + ser_string(e0.name@).len() + ",\"start_height\":"@.len() + dec_chars(e0.start_height as int).len() + ",\"end_height\":"@.len() + dec_chars(e0.end_height as int).len() + ",\"question\":"@.len() + ser_string(e0.question@).len() + ",\"candidates\":["@.len() + ser_candidates(e0.candidates@).len() + 1 + ",\"signature_required\":"@.len() + ser_bool(e0.signature_required).len() + ",\"cmx\":["@.len() + ser_bytes(e0.cmx@).len() + 1 + ",\"nf\":["@.len()) as int);
                    assert(p18 as int == ("{\"id\":"@.len() + ser_string(e0.id@).len() + ",\"name\":"@.len() + ser_string(e0.name@).len() + ",\"start_height\":"@.len() + dec_chars(e0.start_height as int).len() + ",\"end_height\":"@.len() + dec_chars(e0.end_height as int).len() + ",\"question\":"@.len() + ser_string(e0.question@).len() + ",\"candidates\":["@.len() + ser_candidates(e0.candidates@).len() + 1 + ",\"signature_required\":"@.len() + ser_bool(e0.signature_required).len() + ",\"cmx\":["@.len() + ser_bytes(e0.cmx@).len() + 1 + ",\"nf\":["@.len() + ser_bytes(e0.nf@).len() + 1) as int);
                    assert(p19 as int == ("{\"id\":"@.len() + ser_string(e0.id@).len() + ",\"name\":"@.len() + ser_string(e0.name@).len() + ",\"start_height\":"@.len() + dec_chars(e0.start_height as int).len() + ",\"end_height\":"@.len() + dec_chars(e0.end_height as int).len() + ",\"question\":"@.len() + ser_string(e0.question@).len() + ",\"candidates\":["@.len() + ser_candidates(e0.candidates@).len() + 1 + ",\"signature_required\":"@.len() + ser_bool(e0.signature_required).len() + ",\"cmx\":["@.len() + ser_bytes(e0.cmx@).len() + 1 + ",\"nf\":["@.len() + ser_bytes(e0.nf@).len() + 1 + "}"@.len()) as int);
                }
            }
        }
        return None;
    }
    let e = Election {
        id: idv,
        name: namev,
        start_height: sh,
        end_height: eh,
        question: questionv,
        candidates,
        signature_required: sig,
        cmx: cmxv,
        nf: nfv,
    };
    proof {
        assert forall|e0: Election| v@ == #[trigger] ser_election(e0) implies ser_election(e)
            == v@ by {
            election_chain(v@, e0);
            assert(p10 as int == ("{\"id\":"@.len() + ser_string(e0.id@).len() + ",\"name\":"@.len() + ser_string(e0.name@).len() + ",\"start_height\":"@.len() + dec_chars(e0.start_height as int).len() + ",\"end_height\":"@.len() + dec_chars(e0.end_height as int).len() + ",\"question\":"@.len() + ser_string(e0.question@).len()) as int);
            assert(p11 as int == ("{\"id\":"@.len() + ser_string(e0.id@).len() + ",\"name\":"@.len() + ser_string(e0.name@).len() + ",\"start_height\":"@.len() + dec_chars(e0.start_height as int).len() + ",\"end_height\":"@.len() + dec_chars(e0.end_height as int).len() + ",\"question\":"@.len() + ser_string(e0.question@).len() + ",\"candidates\":["@.len()) as int);
            assert(p12 as int == ("{\"id\":"@.len() + ser_string(e0.id@).len() + ",\"name\":"@.len() + ser_string(e0.name@).len() + ",\"start_height\":"@.len() + dec_chars(e0.start_height as int).len() + ",\"end_height\":"@.len() + dec_chars(e0.end_height as int).len() + ",\"question\":"@.len() + ser_string(e0.question@).len() + ",\"candidates\":["@.len() + ser_candidates(e0.candidates@).len() + 1) as int);
            assert(p13 as int == ("{\"id\":"@.len() + ser_string(e0.id@).len() + ",\"name\":"@.len() + ser_string(e0.name@).len() + ",\"start_height\":"@.len() + dec_chars(e0.start_height as int).len() + ",\"end_height\":"@.len() + dec_chars(e0.end_height as int).len() + ",\"question\":"@.len() + ser_string(e0.question@).len() + ",\"candidates\":["@.len() + ser_candidates(e0.candidates@).len() + 1 + ",\"signature_required\":"@.len()) as int);
            assert(p14 as int == ("{\"id\":"@.len() + ser_string(e0.id@).len() + ",\"name\":"@.len() + ser_string(e0.name@).len() + ",\"start_height\":"@.len() + dec_chars(e0.start_height as int).len() + ",\"end_height\":"@.len() + dec_chars(e0.end_height as int).len() + ",\"question\":"@.len() + ser_string(e0.question@).len() + ",\"candidates\":["@.len() + ser_candidates(e0.candidates@).len() + 1 + ",\"signature_required\":"@.len() + ser_bool(e0.signature_required).len()) as int);
            assert(p15 as int == ("{\"id\":"@.len() + ser_string(e0.id@).len() + ",\"name\":"@.len() + ser_string(e0.name@).len() + ",\"start_height\":"@.len() + dec_chars(e0.start_height as int).len() + ",\"end_height\":"@.len() + dec_chars(e0.end_height as int).len() + ",\"question\":"@.len() + ser_string(e0.question@).len() + ",\"candidates\":["@.len() + ser_candidates(e0.candidates@).len() + 1 + ",\"signature_required\":"@.len() + ser_bool(e0.signature_required).len() + ",\"cmx\":["@.len()) as int);
            assert(p16 as int == ("{\"id\":"@.len() + ser_string(e0.id@).len() + ",\"name\":"@.len() + ser_string(e0.name@).len() + ",\"start_height\":"@.len() + dec_chars(e0.start_height as int).len() + ",\"end_height\":"@.len() + dec_chars(e0.end_height as int).len() + ",\"question\":"@.len() + ser_string(e0.question@).len() + ",\"candidates\":["@.len() + ser_candidates(e0.candidates@).len() + 1 + ",\"signature_required\":"@.len() + ser_bool(e0.signature_required).len() + ",\"cmx\":["@.len() + ser_bytes(e0.cmx@).len() + 1) as int);
            assert(p17 as int == ("{\"id\":"@.len() + ser_string(e0.id@).len() + ",\"name\":"@.len() + ser_string(e0.name@).len() + ",\"start_height\":"@.len() + dec_chars(e0.start_height as int).len() + ",\"end_height\":"@.len() + dec_chars(e0.end_height as int).len() + ",\"question\":"@.len() + ser_string(e0.question@).len() + ",\"candidates\":["@.len() + ser_candidates(e0.candidates@).len() + 1 + ",\"signature_required\":"@.len() + ser_bool(e0.signature_required).len() + ",\"cmx\":["@.len() + ser_bytes(e0.cmx@).len() + 1 + ",\"nf\":["@.len()) as int);
            assert(p18 as int == ("{\"id\":"@.len() + ser_string(e0.id@).len() + ",\"name\":"@.len() + ser_string(e0.name@).len() + ",\"start_height\":"@.len() + dec_chars(e0.start_height as int).len() + ",\"end_height\":"@.len() + dec_chars(e0.end_height as int).len() + ",\"question\":"@.len() + ser_string(e0.question@).len() + ",\"candidates\":["@.len() + ser_candidates(e0.candidates@).len() + 1 + ",\"signature_required\":"@.len() + ser_bool(e0.signature_required).len() + ",\"cmx\":["@.len() + ser_bytes(e0.cmx@).len() + 1 + ",\"nf\":["@.len() + ser_bytes(e0.nf@).len() + 1) as int);
            assert(p19 as int == ("{\"id\":"@.len() + ser_string(e0.id@).len() + ",\"name\":"@.len() + ser_string(e0.name@).len() + ",\"start_height\":"@.len() + dec_chars(e0.start_height as int).len() + ",\"end_height\":"@.len() + dec_chars(e0.end_height as int).len() + ",\"question\":"@.len() + ser_string(e0.question@).len() + ",\"candidates\":["@.len() + ser_candidates(e0.candidates@).len() + 1 + ",\"signature_required\":"@.len() + ser_bool(e0.signature_required).len() + ",\"cmx\":["@.len() + ser_bytes(e0.cmx@).len() + 1 + ",\"nf\":["@.len() + ser_bytes(e0.nf@).len() + 1 + "}"@.len()) as int);
            assert(e.id@ == e0.id@ && e.name@ == e0.name@ && e.question@ == e0.question@);
            assert(e.start_height == e0.start_height && e.end_height == e0.end_height);
            assert(e.signature_required == e0.signature_required);
            assert(e.cmx@ == e0.cmx@ && e.nf@ == e0.nf@);
            assert(candidates_views_eq(e.candidates@, e0.candidates@));
            lemma_ser_candidates_congruent(e.candidates@, e0.candidates@);
            assert(ser_election(e) == ser_election(e0));
        }
    }
    Some(e)
}

/// Parses the canonical form back into an election record: whatever comes
/// back serializes to exactly the given text, and on the canonical form of
/// any record the parse succeeds, so re-parsing an exported record yields a
/// record whose canonical form — and so, by
/// [`lemma_canonical_form_injective`], every field — is that of the record
/// that was written.
pub fn parse_election(s: &str) -> (r: Option<Election>)
    ensures
        r matches Some(e) ==> s@ == ser_election(e),
        (exists|e0: Election| s@ == ser_election(e0)) ==> r is Some,
{
    let v = chars_vec(s);
    let e = match parse_election_chars(&v) {
        Some(e) => e,
        None => {
            proof {
                if exists|e0: Election| s@ == ser_election(e0) {
                    let e0 = choose|e0: Election| s@ == ser_election(e0);
                    assert(v@ == ser_election(e0));
                    assert(false);
                }
            }
            return None;
        },
    };
    let out = election_to_json(&e);
    let t = String::from_str(s);
    if out == t {
        Some(e)
    } else {
        proof {
            if exists|e0: Election| s@ == ser_election(e0) {
                let e0 = choose|e0: Election| s@ == ser_election(e0);
                assert(v@ == ser_election(e0));
                assert(ser_election(e) == v@);
                assert(out@ == t@);
                assert(false);
            }
        }
        None
    }
}

proof fn lemma_peel(a: Seq<char>, x: Seq<char>, y: Seq<char>)
    requires
        a + x == a + y,
    ensures
        x == y,
{
    assert((a + x).len() == a.len() + x.len());
    assert((a + y).len() == a.len() + y.len());
    assert(x.len() == y.len());
    assert forall|i: int| 0 <= i < x.len() implies x[i] == y[i] by {
        assert((a + x)[a.len() + i] == x[i]);
        assert((a + y)[a.len() + i] == y[i]);
    }
    assert(x =~= y);
}

proof fn lemma_cons_eq<T>(a1: Seq<T>, a2: Seq<T>)
    requires
        a1.len() > 0,
        a2.len() > 0,
        a1[0] == a2[0],
        a1.drop_first() == a2.drop_first(),
    ensures
        a1 == a2,
{
    assert(a1.drop_first().len() == a1.len() - 1);
    assert(a2.drop_first().len() == a2.len() - 1);
    assert forall|i: int| 0 <= i < a1.len() implies a1[i] == a2[i] by {
        if i > 0 {
            assert(a1.drop_first()[i - 1] == a1[i]);
            assert(a2.drop_first()[i - 1] == a2[i]);
        }
    }
    assert(a1 =~= a2);
}

proof fn lemma_esc_unfold_front(s: Seq<char>)
    requires
        s.len() > 0,
    ensures
        esc(s) == esc_char(s[0]) + esc(s.drop_first()),
    decreases s.len(),
{
    if s.len() == 1 {
        assert(s.drop_last() =~= Seq::<char>::empty());
        assert(s.drop_first() =~= Seq::<char>::empty());
        assert(esc(s) =~= esc_char(s[0]) + esc(s.drop_first()));
    } else {
        let dl = s.drop_last();
        lemma_esc_unfold_front(dl);
        assert(dl[0] == s[0]);
        assert(dl.drop_first() =~= s.drop_first().drop_last());
        assert(s.drop_first().last() == s.last());
        assert(esc(s) == esc(dl) + esc_char(s.last()));
        assert(esc(s.drop_first()) == esc(s.drop_first().drop_last()) + esc_char(s.last()));
        assert(esc(s) =~= esc_char(s[0]) + esc(s.drop_first()));
    }
}

proof fn lemma_esc_terminated_unique(a1: Seq<char>, a2: Seq<char>, r1: Seq<char>, r2: Seq<char>)
    requires
        esc(a1) + "\""@ + r1 == esc(a2) + "\""@ + r2,
    ensures
        a1 == a2,
        r1 == r2,
    decreases a1.len(),
{
    reveal_strlit("\"");
    let q = "\""@;
    assert(q.len() == 1 && q[0] == '"');
    let x = esc(a1) + q + r1;
    let y = esc(a2) + q + r2;
    if a1.len() == 0 && a2.len() == 0 {
        assert(esc(a1) =~= Seq::<char>::empty());
        assert(esc(a2) =~= Seq::<char>::empty());
        assert(x =~= q + r1);
        assert(y =~= q + r2);
        lemma_peel(q, r1, r2);
        assert(a1 =~= a2);
    } else if a1.len() == 0 {
        assert(esc(a1) =~= Seq::<char>::empty());
        assert(x[0] == '"');
        lemma_esc_unfold_front(a2);
        let c2 = a2[0];
        if needs_escape(c2) {
            assert(y[0] == '\\');
        } else {
            assert(y[0] == c2 && c2 != '"');
        }
        assert(false);
    } else if a2.len() == 0 {
        assert(esc(a2) =~= Seq::<char>::empty());
        assert(y[0] == '"');
        lemma_esc_unfold_front(a1);
        let c1 = a1[0];
        if needs_escape(c1) {
            assert(x[0] == '\\');
        } else {
            assert(x[0] == c1 && c1 != '"');
        }
        assert(false);
    } else {
        let c1 = a1[0];
        let c2 = a2[0];
        lemma_esc_unfold_front(a1);
        lemma_esc_unfold_front(a2);
        let e1 = needs_escape(c1) || is_ctrl_char(c1);
        let e2 = needs_escape(c2) || is_ctrl_char(c2);
        if e1 && !e2 {
            assert(x[0] == '\\');
            assert(y[0] == c2 && c2 != '\\');
            assert(false);
        } else if !e1 && e2 {
            assert(y[0] == '\\');
            assert(x[0] == c1 && c1 != '\\');
            assert(false);
        } else if !e1 && !e2 {
            assert(x[0] == c1 && y[0] == c2);
            assert(c1 == c2);
            assert(x.skip(1) =~= esc(a1.drop_first()) + q + r1);
            assert(y.skip(1) =~= esc(a2.drop_first()) + q + r2);
            lemma_esc_terminated_unique(a1.drop_first(), a2.drop_first(), r1, r2);
            lemma_cons_eq(a1, a2);
        } else if needs_escape(c1) && needs_escape(c2) {
            assert(x[0] == '\\' && x[1] == c1);
            assert(y[0] == '\\' && y[1] == c2);
            assert(c1 == c2);
            assert(x.skip(2) =~= esc(a1.drop_first()) + q + r1);
            assert(y.skip(2) =~= esc(a2.drop_first()) + q + r2);
            lemma_esc_terminated_unique(a1.drop_first(), a2.drop_first(), r1, r2);
            lemma_cons_eq(a1, a2);
        } else if needs_escape(c1) && is_ctrl_char(c2) {
            assert(x[1] == c1);
            assert(y[1] == 'u');
            assert(c1 != 'u');
            assert(false);
        } else if is_ctrl_char(c1) && needs_escape(c2) {
            assert(x[1] == 'u');
            assert(y[1] == c2);
            assert(c2 != 'u');
            assert(false);
        } else {
            let u1 = c1 as u32 as int;
            let u2 = c2 as u32 as int;
            assert(x[4] == hex_digit(u1 / 16) && x[5] == hex_digit(u1 % 16));
            assert(y[4] == hex_digit(u2 / 16) && y[5] == hex_digit(u2 % 16));
            assert(0 <= u1 / 16 < 16 && 0 <= u1 % 16 < 16);
            assert(0 <= u2 / 16 < 16 && 0 <= u2 % 16 < 16);
            assert(u1 / 16 == u2 / 16);
            assert(u1 % 16 == u2 % 16);
            vstd::arithmetic::div_mod::lemma_fundamental_div_mod(u1, 16);
            vstd::arithmetic::div_mod::lemma_fundamental_div_mod(u2, 16);
            assert(u1 == u2);
            vstd::utf8::char_u32_cast(c1, c1 as u32);
            vstd::utf8::char_u32_cast(c2, c2 as u32);
            assert(c1 as u32 == c2 as u32);
            assert(c1 == c2);
            assert(x.skip(6) =~= esc(a1.drop_first()) + q + r1);
            assert(y.skip(6) =~= esc(a2.drop_first()) + q + r2);
            lemma_esc_terminated_unique(a1.drop_first(), a2.drop_first(), r1, r2);
            lemma_cons_eq(a1, a2);
        }
    }
}

proof fn lemma_quoted_unique(a1: Seq<char>, a2: Seq<char>, r1: Seq<char>, r2: Seq<char>)
    requires
        ser_string(a1) + r1 == ser_string(a2) + r2,
    ensures
        a1 == a2,
        r1 == r2,
{
    let q = "\""@;
    assert(ser_string(a1) + r1 =~= q + (esc(a1) + q + r1));
    assert(ser_string(a2) + r2 =~= q + (esc(a2) + q + r2));
    lemma_peel(q, esc(a1) + q + r1, esc(a2) + q + r2);
    lemma_esc_terminated_unique(a1, a2, r1, r2);
}

proof fn lemma_bool_unique(b1: bool, b2: bool, r1: Seq<char>, r2: Seq<char>)
    requires
        ser_bool(b1) + r1 == ser_bool(b2) + r2,
    ensures
        b1 == b2,
        r1 == r2,
{
    reveal_strlit("true");
    reveal_strlit("false");
    let x = ser_bool(b1) + r1;
    let y = ser_bool(b2) + r2;
    if b1 != b2 {
        assert(x[0] == ser_bool(b1)[0]);
        assert(y[0] == ser_bool(b2)[0]);
        assert(false);
    }
    lemma_peel(ser_bool(b1), r1, r2);
}

proof fn lemma_ser_bytes_unfold_front(bs: Seq<u8>)
    requires
        bs.len() >= 2,
    ensures
        ser_bytes(bs) == dec_chars(bs[0] as int) + ","@ + ser_bytes(bs.drop_first()),
    decreases bs.len(),
{
    if bs.len() == 2 {
        assert(bs.drop_last().len() == 1);
        assert(bs.drop_last()[0] == bs[0]);
        assert(bs.drop_first().len() == 1);
        assert(bs.drop_first()[0] == bs[1]);
        assert(bs.last() == bs[1]);
        assert(ser_bytes(bs.drop_last()) == dec_chars(bs[0] as int));
        assert(ser_bytes(bs.drop_first()) == dec_chars(bs[1] as int));
        assert(ser_bytes(bs) == ser_bytes(bs.drop_last()) + ","@ + dec_chars(bs.last() as int));
        assert(ser_bytes(bs) =~= dec_chars(bs[0] as int) + ","@ + ser_bytes(bs.drop_first()));
    } else {
        let dl = bs.drop_last();
        lemma_ser_bytes_unfold_front(dl);
        assert(dl[0] == bs[0]);
        assert(dl.drop_first() =~= bs.drop_first().drop_last());
        assert(bs.drop_first().last() == bs.last());
        assert(bs.drop_first().len() >= 2);
        let s0 = dec_chars(bs[0] as int);
        let mid = ser_bytes(dl.drop_first());
        let tail = dec_chars(bs.last() as int);
        assert(ser_bytes(bs) == ser_bytes(dl) + ","@ + tail);
        assert(ser_bytes(dl) == s0 + ","@ + mid);
        assert(ser_bytes(bs.drop_first()) == ser_bytes(bs.drop_first().drop_last()) + ","@
            + dec_chars(bs.drop_first().last() as int));
        assert(ser_bytes(bs.drop_first().drop_last()) == mid);
        assert(ser_bytes(bs) =~= s0 + ","@ + ser_bytes(bs.drop_first()));
    }
}

proof fn lemma_bytes_terminated_unique(bs1: Seq<u8>, bs2: Seq<u8>, r1: Seq<char>, r2: Seq<char>)
    requires
        ser_bytes(bs1) + r1 == ser_bytes(bs2) + r2,
        r1.len() > 0 && r1[0] == ']',
        r2.len() > 0 && r2[0] == ']',
    ensures
        bs1 == bs2,
        r1 == r2,
    decreases bs1.len(),
{
    reveal_strlit(",");
    let x = ser_bytes(bs1) + r1;
    let y = ser_bytes(bs2) + r2;
    if bs1.len() == 0 && bs2.len() == 0 {
        assert(ser_bytes(bs1) =~= Seq::<char>::empty());
        assert(ser_bytes(bs2) =~= Seq::<char>::empty());
        assert(r1 =~= r2);
        assert(bs1 =~= bs2);
    } else if bs1.len() == 0 {
        assert(ser_bytes(bs1) =~= Seq::<char>::empty());
        assert(x[0] == r1[0]);
        proof_bytes_head_digit(bs2, r2, y);
        assert(false);
    } else if bs2.len() == 0 {
        assert(ser_bytes(bs2) =~= Seq::<char>::empty());
        assert(y[0] == r2[0]);
        proof_bytes_head_digit(bs1, r1, x);
        assert(false);
    } else {
        let h1 = bs1[0] as int;
        let h2 = bs2[0] as int;
        let u1: Seq<char> = if bs1.len() == 1 {
            r1
        } else {
            ","@ + (ser_bytes(bs1.drop_first()) + r1)
        };
        let u2: Seq<char> = if bs2.len() == 1 {
            r2
        } else {
            ","@ + (ser_bytes(bs2.drop_first()) + r2)
        };
        if bs1.len() >= 2 {
            lemma_ser_bytes_unfold_front(bs1);
        }
        if bs2.len() >= 2 {
            lemma_ser_bytes_unfold_front(bs2);
        }
        assert(x =~= dec_chars(h1) + u1);
        assert(y =~= dec_chars(h2) + u2);
        assert(u1.len() > 0 && !is_digit_char(u1[0]));
        assert(u2.len() > 0 && !is_digit_char(u2[0]));
        lemma_dec_terminated_unique(h1, h2, u1, u2);
        if bs1.len() == 1 && bs2.len() == 1 {
            assert(bs1 =~= bs2);
        } else if bs1.len() == 1 {
            assert(u1[0] == ']');
            assert(u2[0] == ',');
            assert(false);
        } else if bs2.len() == 1 {
            assert(u2[0] == ']');
            assert(u1[0] == ',');
            assert(false);
        } else {
            lemma_peel(","@, ser_bytes(bs1.drop_first()) + r1, ser_bytes(bs2.drop_first()) + r2);
            lemma_bytes_terminated_unique(bs1.drop_first(), bs2.drop_first(), r1, r2);
            lemma_cons_eq(bs1, bs2);
        }
    }
}

proof fn proof_bytes_head_digit(bs: Seq<u8>, r: Seq<char>, y: Seq<char>)
    requires
        bs.len() > 0,
        y == ser_bytes(bs) + r,
    ensures
        y.len() > 0,
        is_digit_char(y[0]),
{
    lemma_dec_all_digits(bs[0] as int);
    if bs.len() == 1 {
        assert(y[0] == dec_chars(bs[0] as int)[0]);
    } else {
        lemma_ser_bytes_unfold_front(bs);
        assert(ser_bytes(bs) =~= dec_chars(bs[0] as int) + (","@ + ser_bytes(bs.drop_first())));
        assert(y[0] == dec_chars(bs[0] as int)[0]);
    }
}

proof fn lemma_candidate_unique(c1: CandidateChoice, c2: CandidateChoice, r1: Seq<char>, r2: Seq<char>)
    requires
        ser_candidate(c1) + r1 == ser_candidate(c2) + r2,
    ensures
        c1.address@ == c2.address@,
        c1.choice@ == c2.choice@,
        r1 == r2,
{
    let la = "{\"address\":"@;
    let lc = ",\"choice\":"@;
    let le = "}"@;
    let x = ser_candidate(c1) + r1;
    let y = ser_candidate(c2) + r2;
    assert(x =~= la + (ser_string(c1.address@) + (lc + (ser_string(c1.choice@) + (le + r1)))));
    assert(y =~= la + (ser_string(c2.address@) + (lc + (ser_string(c2.choice@) + (le + r2)))));
    lemma_peel(
        la,
        ser_string(c1.address@) + (lc + (ser_string(c1.choice@) + (le + r1))),
        ser_string(c2.address@) + (lc + (ser_string(c2.choice@) + (le + r2))),
    );
    lemma_quoted_unique(
        c1.address@,
        c2.address@,
        lc + (ser_string(c1.choice@) + (le + r1)),
        lc + (ser_string(c2.choice@) + (le + r2)),
    );
    lemma_peel(lc, ser_string(c1.choice@) + (le + r1), ser_string(c2.choice@) + (le + r2));
    lemma_quoted_unique(c1.choice@, c2.choice@, le + r1, le + r2);
    lemma_peel(le, r1, r2);
}

proof fn lemma_ser_candidates_unfold_front(cs: Seq<CandidateChoice>)
    requires
        cs.len() >= 2,
    ensures
        ser_candidates(cs) == ser_candidate(cs[0]) + ","@ + ser_candidates(cs.drop_first()),
    decreases cs.len(),
{
    if cs.len() == 2 {
        assert(cs.drop_last().len() == 1);
        assert(cs.drop_last()[0] == cs[0]);
        assert(cs.drop_first().len() == 1);
        assert(cs.drop_first()[0] == cs[1]);
        assert(cs.last() == cs[1]);
        assert(ser_candidates(cs.drop_last()) == ser_candidate(cs[0]));
        assert(ser_candidates(cs.drop_first()) == ser_candidate(cs[1]));
        assert(ser_candidates(cs) == ser_candidates(cs.drop_last()) + ","@ + ser_candidate(
            cs.last(),
        ));
        assert(ser_candidates(cs) =~= ser_candidate(cs[0]) + ","@ + ser_candidates(
            cs.drop_first(),
        ));
    } else {
        let dl = cs.drop_last();
        lemma_ser_candidates_unfold_front(dl);
        assert(dl[0] == cs[0]);
        assert(dl.drop_first() =~= cs.drop_first().drop_last());
        assert(cs.drop_first().last() == cs.last());
        assert(cs.drop_first().len() >= 2);
        let s0 = ser_candidate(cs[0]);
        let mid = ser_candidates(dl.drop_first());
        let tail = ser_candidate(cs.last());
        assert(ser_candidates(cs) == ser_candidates(dl) + ","@ + tail);
        assert(ser_candidates(dl) == s0 + ","@ + mid);
        assert(ser_candidates(cs.drop_first()) == ser_candidates(cs.drop_first().drop_last())
            + ","@ + ser_candidate(cs.drop_first().last()));
        assert(ser_candidates(cs.drop_first().drop_last()) == mid);
        assert(ser_candidates(cs) =~= s0 + ","@ + ser_candidates(cs.drop_first()));
    }
}

proof fn proof_candidates_head_brace(cs: Seq<CandidateChoice>, r: Seq<char>, y: Seq<char>)
    requires
        cs.len() > 0,
        y == ser_candidates(cs) + r,
    ensures
        y.len() > 0,
        y[0] == '{',
{
    reveal_strlit("{\"address\":");
    let la = "{\"address\":"@;
    assert(la[0] == '{');
    assert(ser_candidate(cs[0])[0] == '{');
    if cs.len() == 1 {
        assert(y[0] == ser_candidate(cs[0])[0]);
    } else {
        lemma_ser_candidates_unfold_front(cs);
        assert(ser_candidates(cs) =~= ser_candidate(cs[0]) + (","@ + ser_candidates(
            cs.drop_first(),
        )));
        assert(y[0] == ser_candidate(cs[0])[0]);
    }
}

/// Pointwise equality of two candidate lists at the level of views.
pub open spec fn candidates_views_eq(cs1: Seq<CandidateChoice>, cs2: Seq<CandidateChoice>) -> bool {
    &&& cs1.len() == cs2.len()
    &&& forall|i: int|
        0 <= i < cs1.len() ==> (#[trigger] cs1[i]).address@ == cs2[i].address@ && cs1[i].choice@
            == cs2[i].choice@
}

#[verifier::rlimit(100)]
proof fn lemma_candidates_terminated_unique(
    cs1: Seq<CandidateChoice>,
    cs2: Seq<CandidateChoice>,
    r1: Seq<char>,
    r2: Seq<char>,
)
    requires
        ser_candidates(cs1) + r1 == ser_candidates(cs2) + r2,
        r1.len() > 0 && r1[0] == ']',
        r2.len() > 0 && r2[0] == ']',
    ensures
        candidates_views_eq(cs1, cs2),
        r1 == r2,
    decreases cs1.len(),
{
    reveal_strlit(",");
    let x = ser_candidates(cs1) + r1;
    let y = ser_candidates(cs2) + r2;
    if cs1.len() == 0 && cs2.len() == 0 {
        assert(ser_candidates(cs1) =~= Seq::<char>::empty());
        assert(ser_candidates(cs2) =~= Seq::<char>::empty());
        assert(r1 =~= r2);
    } else if cs1.len() == 0 {
        assert(ser_candidates(cs1) =~= Seq::<char>::empty());
        assert(x[0] == r1[0]);
        proof_candidates_head_brace(cs2, r2, y);
        assert(false);
    } else if cs2.len() == 0 {
        assert(ser_candidates(cs2) =~= Seq::<char>::empty());
        assert(y[0] == r2[0]);
        proof_candidates_head_brace(cs1, r1, x);
        assert(false);
    } else {
        let u1: Seq<char> = if cs1.len() == 1 {
            r1
        } else {
            ","@ + (ser_candidates(cs1.drop_first()) + r1)
        };
        let u2: Seq<char> = if cs2.len() == 1 {
            r2
        } else {
            ","@ + (ser_candidates(cs2.drop_first()) + r2)
        };
        if cs1.len() >= 2 {
            lemma_ser_candidates_unfold_front(cs1);
        }
        if cs2.len() >= 2 {
            lemma_ser_candidates_unfold_front(cs2);
        }
        assert(x =~= ser_candidate(cs1[0]) + u1);
        assert(y =~= ser_candidate(cs2[0]) + u2);
        lemma_candidate_unique(cs1[0], cs2[0], u1, u2);
        if cs1.len() == 1 && cs2.len() == 1 {
            assert(candidates_views_eq(cs1, cs2));
        } else if cs1.len() == 1 {
            assert(u1[0] == ']');
            assert(u2[0] == ',');
            assert(false);
        } else if cs2.len() == 1 {
            assert(u2[0] == ']');
            assert(u1[0] == ',');
            assert(false);
        } else {
            lemma_peel(
                ","@,
                ser_candidates(cs1.drop_first()) + r1,
                ser_candidates(cs2.drop_first()) + r2,
            );
            lemma_candidates_terminated_unique(cs1.drop_first(), cs2.drop_first(), r1, r2);
            assert forall|i: int|
                0 <= i < cs1.len() implies (#[trigger] cs1[i]).address@ == cs2[i].address@
                && cs1[i].choice@ == cs2[i].choice@ by {
                if i > 0 {
                    assert(cs1.drop_first()[i - 1] == cs1[i]);
                    assert(cs2.drop_first()[i - 1] == cs2[i]);
                }
            }
        }
    }
}

proof fn lemma_assoc(a: Seq<char>, b: Seq<char>, c: Seq<char>)
    ensures
        (a + b) + c == a + (b + c),
{
    assert((a + b) + c =~= a + (b + c));
}

/// The right-nested reading of the canonical form, the shape the
/// uniqueness lemmas consume piece by piece.
pub open spec fn ser_election_nested(e: Election) -> Seq<char> {
    "{\"id\":"@ + (ser_string(e.id@) + (",\"name\":"@ + (ser_string(e.name@) + (",\"start_height\":"@ + (dec_chars(e.start_height as int) + (",\"end_height\":"@ + (dec_chars(e.end_height as int) + (",\"question\":"@ + (ser_string(e.question@) + (",\"candidates\":["@ + (ser_candidates(e.candidates@) + ("],\"signature_required\":"@ + (ser_bool(e.signature_required) + (",\"cmx\":["@ + (ser_bytes(e.cmx@) + ("],\"nf\":["@ + (ser_bytes(e.nf@) + ("]}"@))))))))))))))))))
}

proof fn lemma_ser_election_nested(e: Election)
    ensures
        ser_election(e) == ser_election_nested(e),
{
    let t1 = "{\"id\":"@;
    let t2 = ser_string(e.id@);
    let t3 = ",\"name\":"@;
    let t4 = ser_string(e.name@);
    let t5 = ",\"start_height\":"@;
    let t6 = dec_chars(e.start_height as int);
    let t7 = ",\"end_height\":"@;
    let t8 = dec_chars(e.end_height as int);
    let t9 = ",\"question\":"@;
    let t10 = ser_string(e.question@);
    let t11 = ",\"candidates\":["@;
    let t12 = ser_candidates(e.candidates@);
    let t13 = "],\"signature_required\":"@;
    let t14 = ser_bool(e.signature_required);
    let t15 = ",\"cmx\":["@;
    let t16 = ser_bytes(e.cmx@);
    let t17 = "],\"nf\":["@;
    let t18 = ser_bytes(e.nf@);
    let t19 = "]}"@;
    assert(ser_election(e) == t1 + t2 + t3 + t4 + t5 + t6 + t7 + t8 + t9 + t10 + t11 + t12 + t13 + t14 + t15 + t16 + t17 + t18 + t19);
    let u19 = t19;
    let u18 = t18 + u19;
    lemma_assoc(t1 + t2 + t3 + t4 + t5 + t6 + t7 + t8 + t9 + t10 + t11 + t12 + t13 + t14 + t15 + t16 + t17, t18, u19);
    let u17 = t17 + u18;
    lemma_assoc(t1 + t2 + t3 + t4 + t5 + t6 + t7 + t8 + t9 + t10 + t11 + t12 + t13 + t14 + t15 + t16, t17, u18);
    let u16 = t16 + u17;
    lemma_assoc(t1 + t2 + t3 + t4 + t5 + t6 + t7 + t8 + t9 + t10 + t11 + t12 + t13 + t14 + t15, t16, u17);
    let u15 = t15 + u16;
    lemma_assoc(t1 + t2 + t3 + t4 + t5 + t6 + t7 + t8 + t9 + t10 + t11 + t12 + t13 + t14, t15, u16);
    let u14 = t14 + u15;
    lemma_assoc(t1 + t2 + t3 + t4 + t5 + t6 + t7 + t8 + t9 + t10 + t11 + t12 + t13, t14, u15);
    let u13 = t13 + u14;
    lemma_assoc(t1 + t2 + t3 + t4 + t5 + t6 + t7 + t8 + t9 + t10 + t11 + t12, t13, u14);
    let u12 = t12 + u13;
    lemma_assoc(t1 + t2 + t3 + t4 + t5 + t6 + t7 + t8 + t9 + t10 + t11, t12, u13);
    let u11 = t11 + u12;
    lemma_assoc(t1 + t2 + t3 + t4 + t5 + t6 + t7 + t8 + t9 + t10, t11, u12);
    let u10 = t10 + u11;
    lemma_assoc(t1 + t2 + t3 + t4 + t5 + t6 + t7 + t8 + t9, t10, u11);
    let u9 = t9 + u10;
    lemma_assoc(t1 + t2 + t3 + t4 + t5 + t6 + t7 + t8, t9, u10);
    let u8 = t8 + u9;
    lemma_assoc(t1 + t2 + t3 + t4 + t5 + t6 + t7, t8, u9);
    let u7 = t7 + u8;
    lemma_assoc(t1 + t2 + t3 + t4 + t5 + t6, t7, u8);
    let u6 = t6 + u7;
    lemma_assoc(t1 + t2 + t3 + t4 + t5, t6, u7);
    let u5 = t5 + u6;
    lemma_assoc(t1 + t2 + t3 + t4, t5, u6);
    let u4 = t4 + u5;
    lemma_assoc(t1 + t2 + t3, t4, u5);
    let u3 = t3 + u4;
    lemma_assoc(t1 + t2, t3, u4);
    let u2 = t2 + u3;
    lemma_assoc(t1, t2, u3);
    let u1 = t1 + u2;
    assert(u1 == ser_election_nested(e));
    assert(ser_election(e) == u1);
}

/// The canonical form identifies the record: two elections with the same
/// canonical form agree on every field (strings and lists compared by
/// their views). Together with the contract of [`parse_election`] — which
/// only returns a record whose canonical form is the parsed text — this is
/// the round trip: re-parsing an exported record yields a record identical
/// field for field.
#[verifier::rlimit(100)]
pub proof fn lemma_canonical_form_injective(e1: Election, e2: Election)
    requires
        ser_election(e1) == ser_election(e2),
    ensures
        e1.id@ == e2.id@,
        e1.name@ == e2.name@,
        e1.start_height == e2.start_height,
        e1.end_height == e2.end_height,
        e1.question@ == e2.question@,
        candidates_views_eq(e1.candidates@, e2.candidates@),
        e1.signature_required == e2.signature_required,
        e1.cmx@ == e2.cmx@,
        e1.nf@ == e2.nf@,
{
    reveal_strlit(",\"end_height\":");
    reveal_strlit(",\"question\":");
    reveal_strlit("],\"signature_required\":");
    reveal_strlit("],\"nf\":[");
    reveal_strlit("]}");
    lemma_ser_election_nested(e1);
    lemma_ser_election_nested(e2);
    let l_id = "{\"id\":"@;
    let l_name = ",\"name\":"@;
    let l_sh = ",\"start_height\":"@;
    let l_eh = ",\"end_height\":"@;
    let l_q = ",\"question\":"@;
    let l_c = ",\"candidates\":["@;
    let l_sig = "],\"signature_required\":"@;
    let l_cmx = ",\"cmx\":["@;
    let l_nf = "],\"nf\":["@;
    let l_end = "]}"@;

    let a9 = ser_bytes(e1.nf@) + (l_end);
    let a8 = ser_bytes(e1.cmx@) + (l_nf + a9);
    let a7 = ser_bool(e1.signature_required) + (l_cmx + a8);
    let a6 = ser_candidates(e1.candidates@) + (l_sig + a7);
    let a5 = ser_string(e1.question@) + (l_c + a6);
    let a4 = dec_chars(e1.end_height as int) + (l_q + a5);
    let a3 = dec_chars(e1.start_height as int) + (l_eh + a4);
    let a2 = ser_string(e1.name@) + (l_sh + a3);
    let a1 = ser_string(e1.id@) + (l_name + a2);
    assert(ser_election_nested(e1) == l_id + a1);

    let b9 = ser_bytes(e2.nf@) + (l_end);
    let b8 = ser_bytes(e2.cmx@) + (l_nf + b9);
    let b7 = ser_bool(e2.signature_required) + (l_cmx + b8);
    let b6 = ser_candidates(e2.candidates@) + (l_sig + b7);
    let b5 = ser_string(e2.question@) + (l_c + b6);
    let b4 = dec_chars(e2.end_height as int) + (l_q + b5);
    let b3 = dec_chars(e2.start_height as int) + (l_eh + b4);
    let b2 = ser_string(e2.name@) + (l_sh + b3);
    let b1 = ser_string(e2.id@) + (l_name + b2);
    assert(ser_election_nested(e2) == l_id + b1);

    lemma_peel(l_id, a1, b1);
    lemma_quoted_unique(e1.id@, e2.id@, l_name + a2, l_name + b2);
    lemma_peel(l_name, a2, b2);
    lemma_quoted_unique(e1.name@, e2.name@, l_sh + a3, l_sh + b3);
    lemma_peel(l_sh, a3, b3);
    assert((l_eh + a4)[0] == ',' && (l_eh + b4)[0] == ',');
    lemma_dec_terminated_unique(
        e1.start_height as int,
        e2.start_height as int,
        l_eh + a4,
        l_eh + b4,
    );
    lemma_peel(l_eh, a4, b4);
    assert((l_q + a5)[0] == ',' && (l_q + b5)[0] == ',');
    lemma_dec_terminated_unique(e1.end_height as int, e2.end_height as int, l_q + a5, l_q + b5);
    lemma_peel(l_q, a5, b5);
    lemma_quoted_unique(e1.question@, e2.question@, l_c + a6, l_c + b6);
    lemma_peel(l_c, a6, b6);
    assert((l_sig + a7)[0] == ']' && (l_sig + b7)[0] == ']');
    lemma_candidates_terminated_unique(e1.candidates@, e2.candidates@, l_sig + a7, l_sig + b7);
    lemma_peel(l_sig, a7, b7);
    lemma_bool_unique(e1.signature_required, e2.signature_required, l_cmx + a8, l_cmx + b8);
    lemma_peel(l_cmx, a8, b8);
    assert((l_nf + a9)[0] == ']' && (l_nf + b9)[0] == ']');
    lemma_bytes_terminated_unique(e1.cmx@, e2.cmx@, l_nf + a9, l_nf + b9);
    lemma_peel(l_nf, a9, b9);
    assert(l_end[0] == ']');
    lemma_bytes_terminated_unique(e1.nf@, e2.nf@, l_end, l_end);
}

} // verus!
