use vstd::prelude::*;
use vstd::arithmetic::div_mod::{lemma_mod_breakdown, lemma_small_mod};
use vstd::arithmetic::power::{pow, lemma_pow_increases, lemma_pow_positive};
use vstd::string::{StrSliceExecFns, StringExecFns};
use crate::record::{PostRecord, RecordView, record_wf};

verus! {

/// The character that writes the digit value `d` (base 16, lower case).
pub open spec fn digit_char(d: int) -> char {
    if d == 0 { '0' }
    else if d == 1 { '1' }
    else if d == 2 { '2' }
    else if d == 3 { '3' }
    else if d == 4 { '4' }
    else if d == 5 { '5' }
    else if d == 6 { '6' }
    else if d == 7 { '7' }
    else if d == 8 { '8' }
    else if d == 9 { '9' }
    else if d == 10 { 'a' }
    else if d == 11 { 'b' }
    else if d == 12 { 'c' }
    else if d == 13 { 'd' }
    else if d == 14 { 'e' }
    else { 'f' }
}

/// The digit value a character stands for, if it is a hex digit.
pub open spec fn digit_val(c: char) -> Option<int> {
    if c == '0' { Option::Some(0int) }
    else if c == '1' { Option::Some(1int) }
    else if c == '2' { Option::Some(2int) }
    else if c == '3' { Option::Some(3int) }
    else if c == '4' { Option::Some(4int) }
    else if c == '5' { Option::Some(5int) }
    else if c == '6' { Option::Some(6int) }
    else if c == '7' { Option::Some(7int) }
    else if c == '8' { Option::Some(8int) }
    else if c == '9' { Option::Some(9int) }
    else if c == 'a' { Option::Some(10int) }
    else if c == 'b' { Option::Some(11int) }
    else if c == 'c' { Option::Some(12int) }
    else if c == 'd' { Option::Some(13int) }
    else if c == 'e' { Option::Some(14int) }
    else if c == 'f' { Option::Some(15int) }
    else { Option::None }
}

/// The `k` lowest base-16 digits of `n`, most significant first.
pub open spec fn hex_digits(n: int, k: nat) -> Seq<char>
    decreases k,
{
    if k == 0 {
        Seq::empty()
    } else {
        hex_digits(n / 16, (k - 1) as nat) + seq![digit_char(n % 16)]
    }
}

/// A number written as exactly sixteen hex digits.
pub open spec fn hex16(n: int) -> Seq<char> {
    hex_digits(n, 16)
}

/// Reads hex digits left to right, folding them onto `acc`.
pub open spec fn parse_hex_acc(s: Seq<char>, acc: int) -> Option<int>
    decreases s.len(),
{
    if s.len() == 0 {
        Option::Some(acc)
    } else {
        match digit_val(s[0]) {
            Option::Some(d) => parse_hex_acc(s.drop_first(), acc * 16 + d),
            Option::None => Option::None,
        }
    }
}

/// The value of the sixteen hex digits of `s` starting at `pos`,
/// if they are all hex digits and lie within `s`.
pub open spec fn parse_hex16_at(s: Seq<char>, pos: int) -> Option<int> {
    if 0 <= pos && pos + 16 <= s.len() {
        parse_hex_acc(s.subrange(pos, pos + 16), 0)
    } else {
        Option::None
    }
}

pub proof fn lemma_hex_digits_len(n: int, k: nat)
    ensures
        hex_digits(n, k).len() == k,
    decreases k,
{
    if k > 0 {
        lemma_hex_digits_len(n / 16, (k - 1) as nat);
    }
}

proof fn lemma_parse_acc_concat(s1: Seq<char>, s2: Seq<char>, acc: int)
    ensures
        parse_hex_acc(s1 + s2, acc) == match parse_hex_acc(s1, acc) {
            Option::Some(m) => parse_hex_acc(s2, m),
            Option::None => Option::None::<int>,
        },
    decreases s1.len(),
{
    if s1.len() == 0 {
        assert(s1 + s2 =~= s2);
    } else {
        assert((s1 + s2)[0] == s1[0]);
        match digit_val(s1[0]) {
            Option::Some(d) => {
                assert((s1 + s2).drop_first() =~= s1.drop_first() + s2);
                lemma_parse_acc_concat(s1.drop_first(), s2, acc * 16 + d);
            },
            Option::None => {
                assert(parse_hex_acc(s1 + s2, acc) is None);
            },
        }
    }
}

proof fn lemma_parse_hex_digits(n: int, k: nat, acc: int)
    requires
        0 <= n,
    ensures
        parse_hex_acc(hex_digits(n, k), acc) == Option::Some(acc * pow(16, k) + n % pow(16, k)),
    decreases k,
{
    reveal(pow);
    if k == 0 {
        assert(pow(16, 0) == 1);
        assert(n % 1 == 0) by (nonlinear_arith)
            requires 0 <= n;
    } else {
        let km1 = (k - 1) as nat;
        let p = pow(16, km1);
        assert(pow(16, k) == 16 * p);
        assert(p > 0) by {
            lemma_pow_positive(16, km1);
        };
        lemma_parse_hex_digits(n / 16, km1, acc);
        lemma_parse_acc_concat(hex_digits(n / 16, km1), seq![digit_char(n % 16)], acc);
        let mid = acc * p + (n / 16) % p;
        assert(parse_hex_acc(hex_digits(n / 16, km1), acc) == Option::Some(mid));
        let d = n % 16;
        assert(0 <= d < 16);
        assert(digit_val(digit_char(d)) == Option::Some(d));
        let one = seq![digit_char(d)];
        assert(one.drop_first() =~= Seq::<char>::empty());
        assert(parse_hex_acc(Seq::<char>::empty(), mid * 16 + d) == Option::Some(mid * 16 + d));
        assert(parse_hex_acc(one, mid) == Option::Some(mid * 16 + d));
        lemma_mod_breakdown(n, 16, p);
        assert(n % (16 * p) == 16 * ((n / 16) % p) + n % 16);
        assert(mid * 16 == acc * (16 * p) + ((n / 16) % p) * 16) by (nonlinear_arith)
            requires
                mid == acc * p + (n / 16) % p;
        assert(mid * 16 + d == acc * pow(16, k) + n % pow(16, k));
    }
}

pub proof fn lemma_parse_hex16(n: int)
    requires
        0 <= n < 0x10000000000000000,
    ensures
        parse_hex_acc(hex16(n), 0) == Option::Some(n),
{
    assert(pow(16, 16) == 0x10000000000000000) by {
        reveal_with_fuel(pow, 17);
    };
    lemma_parse_hex_digits(n, 16, 0);
    lemma_small_mod(n as nat, pow(16, 16) as nat);
}

/// The decimal digits of `n`, without leading zeroes.
pub open spec fn dec_digits(n: nat) -> Seq<char>
    decreases n,
{
    if n < 10 {
        seq![digit_char(n as int)]
    } else {
        dec_digits(n / 10) + seq![digit_char((n % 10) as int)]
    }
}

/// A post's identifier: the creation time in seconds, a dash, and a
/// caller-supplied random token.
pub open spec fn unique_id_spec(now: nat, token: Seq<char>) -> Seq<char> {
    dec_digits(now) + seq!['-'] + token
}

/// One of the sixteen digit characters, as a one-character string.
fn digit_str(d: u8) -> (c: &'static str)
    requires
        d < 16,
    ensures
        c@ == seq![digit_char(d as int)],
{
    let s: &'static str = if d == 0 { "0" }
    else if d == 1 { "1" }
    else if d == 2 { "2" }
    else if d == 3 { "3" }
    else if d == 4 { "4" }
    else if d == 5 { "5" }
    else if d == 6 { "6" }
    else if d == 7 { "7" }
    else if d == 8 { "8" }
    else if d == 9 { "9" }
    else if d == 10 { "a" }
    else if d == 11 { "b" }
    else if d == 12 { "c" }
    else if d == 13 { "d" }
    else if d == 14 { "e" }
    else { "f" };
    proof {
        reveal_strlit("0");
        reveal_strlit("1");
        reveal_strlit("2");
        reveal_strlit("3");
        reveal_strlit("4");
        reveal_strlit("5");
        reveal_strlit("6");
        reveal_strlit("7");
        reveal_strlit("8");
        reveal_strlit("9");
        reveal_strlit("a");
        reveal_strlit("b");
        reveal_strlit("c");
        reveal_strlit("d");
        reveal_strlit("e");
        reveal_strlit("f");
        assert(s@ =~= seq![digit_char(d as int)]);
    }
    s
}

/// The digit value of a character, if it is a hex digit.
fn digit_of(c: char) -> (r: Option<u8>)
    ensures
        match r {
            Option::Some(d) => digit_val(c) == Option::Some(d as int) && d < 16,
            Option::None => digit_val(c) is None,
        },
{
    match c {
        '0' => Option::Some(0u8),
        '1' => Option::Some(1u8),
        '2' => Option::Some(2u8),
        '3' => Option::Some(3u8),
        '4' => Option::Some(4u8),
        '5' => Option::Some(5u8),
        '6' => Option::Some(6u8),
        '7' => Option::Some(7u8),
        '8' => Option::Some(8u8),
        '9' => Option::Some(9u8),
        'a' => Option::Some(10u8),
        'b' => Option::Some(11u8),
        'c' => Option::Some(12u8),
        'd' => Option::Some(13u8),
        'e' => Option::Some(14u8),
        'f' => Option::Some(15u8),
        _ => Option::None,
    }
}

/// Appends the `k` lowest hex digits of `n` to `out`.
fn push_hex_digits(out: &mut String, n: u64, k: u64)
    ensures
        final(out)@ == old(out)@ + hex_digits(n as int, k as nat),
    decreases k,
{
    if k == 0 {
        assert(final(out)@ =~= old(out)@ + hex_digits(n as int, 0));
        return;
    }
    push_hex_digits(out, n / 16, k - 1);
    let d: u8 = (n % 16) as u8;
    out.append(digit_str(d));
    proof {
        assert(n as int % 16 == d as int);
        assert(final(out)@ =~= old(out)@ + hex_digits(n as int, k as nat));
    }
}

/// Appends the decimal digits of `n` to `out`.
fn push_dec_digits(out: &mut String, n: u64)
    ensures
        final(out)@ == old(out)@ + dec_digits(n as nat),
    decreases n,
{
    if n < 10 {
        out.append(digit_str(n as u8));
    } else {
        push_dec_digits(out, n / 10);
        let d: u8 = (n % 10) as u8;
        out.append(digit_str(d));
        proof {
            assert(final(out)@ =~= old(out)@ + dec_digits(n as nat));
        }
    }
}

/// Builds a fresh identifier from the creation time and a random token.
pub fn generate_unique_id(now: i64, token: &str) -> (id: String)
    requires
        0 <= now,
    ensures
        id@ == unique_id_spec(now as nat, token@),
{
    let mut out = String::new();
    push_dec_digits(&mut out, now as u64);
    out.append("-");
    out.append(token);
    proof {
        reveal_strlit("-");
        assert("-"@ =~= seq!['-']);
        assert(out@ =~= unique_id_spec(now as nat, token@));
    }
    out
}

/// A length-prefixed field: sixteen hex digits of the character count,
/// then the characters themselves.
pub open spec fn len_field(s: Seq<char>) -> Seq<char> {
    hex16(s.len() as int) + s
}

/// The stored form of a record: identifier, title and message as
/// length-prefixed fields, the creation time as sixteen hex digits, and
/// a final flag `0`, or `1` followed by the media reference.
pub open spec fn encode_spec(r: RecordView) -> Seq<char> {
    len_field(r.id) + len_field(r.title) + len_field(r.message) + hex16(r.created_at)
        + match r.media {
            Option::Some(m) => seq!['1'] + len_field(m),
            Option::None => seq!['0'],
        }
}

/// Reads a length-prefixed field at `pos`: the field and the position
/// just after it.
pub open spec fn field_at(s: Seq<char>, pos: int) -> Option<(Seq<char>, int)> {
    match parse_hex16_at(s, pos) {
        Option::Some(n) => if pos + 16 + n <= s.len() {
            Option::Some((s.subrange(pos + 16, pos + 16 + n), pos + 16 + n))
        } else {
            Option::None
        },
        Option::None => Option::None,
    }
}

/// The record a stored string stands for, if it is a well-formed
/// encoding and nothing follows it.
pub open spec fn decode_spec(s: Seq<char>) -> Option<RecordView> {
    match field_at(s, 0) {
        Option::None => Option::None,
        Option::Some((id, p1)) => match field_at(s, p1) {
            Option::None => Option::None,
            Option::Some((title, p2)) => match field_at(s, p2) {
                Option::None => Option::None,
                Option::Some((message, p3)) => match parse_hex16_at(s, p3) {
                    Option::None => Option::None,
                    Option::Some(ts) => if !(0 <= ts < 0x8000000000000000) {
                        Option::None
                    } else if p3 + 16 >= s.len() {
                        Option::None
                    } else if s[p3 + 16] == '0' {
                        if p3 + 17 == s.len() {
                            Option::Some(RecordView {
                                id,
                                title,
                                message,
                                media: Option::None,
                                created_at: ts,
                            })
                        } else {
                            Option::None
                        }
                    } else if s[p3 + 16] == '1' {
                        match field_at(s, p3 + 17) {
                            Option::Some((m, p4)) => if p4 == s.len() {
                                Option::Some(RecordView {
                                    id,
                                    title,
                                    message,
                                    media: Option::Some(m),
                                    created_at: ts,
                                })
                            } else {
                                Option::None
                            },
                            Option::None => Option::None,
                        }
                    } else {
                        Option::None
                    },
                },
            },
        },
    }
}

/// Appends a length-prefixed field to `out`.
fn push_field(out: &mut String, s: &str)
    ensures
        final(out)@ == old(out)@ + len_field(s@),
        s@.len() < 0x10000000000000000,
{
    let n = s.unicode_len();
    push_hex_digits(out, n as u64, 16);
    out.append(s);
    proof {
        assert(final(out)@ =~= old(out)@ + len_field(s@));
    }
}

/// Writes a record in its stored form.
pub fn encode_record(record: &PostRecord) -> (out: String)
    requires
        0 <= record.created_at,
    ensures
        out@ == encode_spec(record@),
        record_wf(record@),
{
    let mut out = String::new();
    push_field(&mut out, record.directory_id.as_str());
    push_field(&mut out, record.title.as_str());
    push_field(&mut out, record.message.as_str());
    push_hex_digits(&mut out, record.created_at as u64, 16);
    match &record.media_reference {
        Option::Some(m) => {
            out.append("1");
            push_field(&mut out, m.as_str());
            proof {
                reveal_strlit("1");
                assert("1"@ =~= seq!['1']);
            }
        },
        Option::None => {
            out.append("0");
            proof {
                reveal_strlit("0");
                assert("0"@ =~= seq!['0']);
            }
        },
    }
    proof {
        assert(out@ =~= encode_spec(record@));
    }
    out
}

proof fn lemma_hex16_at(s: Seq<char>, pos: int, n: int, rest: Seq<char>)
    requires
        0 <= pos <= s.len(),
        s.subrange(pos, s.len() as int) == hex16(n) + rest,
        0 <= n < 0x10000000000000000,
    ensures
        parse_hex16_at(s, pos) == Option::Some(n),
{
    lemma_hex_digits_len(n, 16);
    assert(hex16(n).len() == 16);
    assert((hex16(n) + rest).len() == 16 + rest.len());
    assert(s.subrange(pos, s.len() as int).len() == s.len() - pos);
    assert(s.len() - pos == 16 + rest.len());
    assert(s.subrange(pos, pos + 16) =~= hex16(n)) by {
        assert forall|i: int| 0 <= i < 16 implies s.subrange(pos, pos + 16)[i] == hex16(n)[i] by {
            assert(s.subrange(pos, s.len() as int)[i] == (hex16(n) + rest)[i]);
        };
    };
    lemma_parse_hex16(n);
}

proof fn lemma_field_at(s: Seq<char>, pos: int, f: Seq<char>, rest: Seq<char>)
    requires
        0 <= pos <= s.len(),
        s.subrange(pos, s.len() as int) == len_field(f) + rest,
        f.len() < 0x10000000000000000,
    ensures
        field_at(s, pos) == Option::Some((f, pos + 16 + f.len())),
{
    lemma_hex_digits_len(f.len() as int, 16);
    assert(hex16(f.len() as int).len() == 16);
    assert(len_field(f).len() == 16 + f.len());
    assert(s.subrange(pos, s.len() as int).len() == s.len() - pos);
    assert(s.subrange(pos, s.len() as int) =~= hex16(f.len() as int) + (f + rest));
    lemma_hex16_at(s, pos, f.len() as int, f + rest);
    assert(pos + 16 + f.len() <= s.len());
    assert(s.subrange(pos + 16, pos + 16 + f.len() as int) =~= f) by {
        assert forall|i: int| 0 <= i < f.len() implies s.subrange(
            pos + 16,
            pos + 16 + f.len() as int,
        )[i] == f[i] by {
            assert(s.subrange(pos, s.len() as int)[16 + i] == (len_field(f) + rest)[16 + i]);
            assert((len_field(f) + rest)[16 + i] == len_field(f)[16 + i]);
            assert(len_field(f)[16 + i] == f[i]);
            assert(s.subrange(pos, s.len() as int)[16 + i] == s[pos + 16 + i]);
            assert(s.subrange(pos + 16, pos + 16 + f.len() as int)[i] == s[pos + 16 + i]);
        };
    };
}

/// Decoding reads back exactly the record that was encoded.
pub proof fn lemma_encode_decode(r: RecordView)
    requires
        record_wf(r),
    ensures
        decode_spec(encode_spec(r)) == Option::Some(r),
{
    let e = encode_spec(r);
    let tail = match r.media {
        Option::Some(m) => seq!['1'] + len_field(m),
        Option::None => seq!['0'],
    };
    lemma_hex_digits_len(r.id.len() as int, 16);
    lemma_hex_digits_len(r.title.len() as int, 16);
    lemma_hex_digits_len(r.message.len() as int, 16);
    lemma_hex_digits_len(r.created_at, 16);
    match r.media {
        Option::Some(m) => { lemma_hex_digits_len(m.len() as int, 16); },
        Option::None => {},
    }
    let p1 = 16 + r.id.len() as int;
    let p2 = p1 + 16 + r.title.len() as int;
    let p3 = p2 + 16 + r.message.len() as int;
    let p4 = p3 + 17;
    assert(e.subrange(0, e.len() as int) =~= len_field(r.id) + (len_field(r.title) + len_field(
        r.message,
    ) + hex16(r.created_at) + tail));
    lemma_field_at(e, 0, r.id, len_field(r.title) + len_field(r.message) + hex16(r.created_at)
        + tail);
    assert(e.subrange(p1, e.len() as int) =~= len_field(r.title) + (len_field(r.message) + hex16(
        r.created_at,
    ) + tail));
    lemma_field_at(e, p1, r.title, len_field(r.message) + hex16(r.created_at) + tail);
    assert(e.subrange(p2, e.len() as int) =~= len_field(r.message) + (hex16(r.created_at) + tail));
    lemma_field_at(e, p2, r.message, hex16(r.created_at) + tail);
    assert(e.subrange(p3, e.len() as int) =~= hex16(r.created_at) + tail);
    lemma_hex16_at(e, p3, r.created_at, tail);
    assert(e[p3 + 16] == tail[0]);
    match r.media {
        Option::None => {
            assert(tail[0] == '0');
            assert(p3 + 17 == e.len());
            assert(decode_spec(e) == Option::Some(r));
        },
        Option::Some(m) => {
            assert(tail[0] == '1');
            assert(e.subrange(p4, e.len() as int) =~= len_field(m) + Seq::<char>::empty());
            lemma_field_at(e, p4, m, Seq::<char>::empty());
            assert(p4 + 16 + m.len() == e.len());
            assert(decode_spec(e) == Option::Some(r));
        },
    }
}

/// Reads the sixteen hex digits starting at `pos`.
fn parse_hex16_exec(s: &str, pos: usize, len: usize) -> (r: Option<u64>)
    requires
        len == s@.len(),
        pos + 16 <= len,
    ensures
        match r {
            Option::Some(v) => parse_hex16_at(s@, pos as int) == Option::Some(v as int),
            Option::None => parse_hex16_at(s@, pos as int) is None,
        },
{
    let mut acc: u64 = 0;
    let mut j: usize = 0;
    proof {
        assert(s@.subrange(pos as int, pos as int) =~= Seq::<char>::empty());
        reveal(pow);
    }
    while j < 16
        invariant
            j <= 16,
            pos + 16 <= len,
            len == s@.len(),
            parse_hex_acc(s@.subrange(pos as int, pos as int + j as int), 0) == Option::Some(
                acc as int,
            ),
            acc < pow(16, j as nat),
        decreases 16 - j,
    {
        let c = s.get_char(pos + j);
        let ghost pre = s@.subrange(pos as int, pos as int + j as int);
        match digit_of(c) {
            Option::Some(d) => {
                proof {
                    reveal(pow);
                    assert(pow(16, 15) == 0x1000000000000000 && pow(16, 16)
                        == 0x10000000000000000) by {
                        reveal_with_fuel(pow, 17);
                    };
                    if j < 15 {
                        lemma_pow_increases(16, (j + 1) as nat, 15);
                    }
                    assert(pow(16, (j + 1) as nat) == 16 * pow(16, j as nat));
                    let one = seq![s@[pos as int + j as int]];
                    assert(s@.subrange(pos as int, pos as int + j as int + 1) =~= pre + one);
                    lemma_parse_acc_concat(pre, one, 0);
                    assert(one.drop_first() =~= Seq::<char>::empty());
                    assert(one[0] == c && digit_val(one[0]) == Option::Some(d as int));
                    assert(parse_hex_acc(Seq::<char>::empty(), acc as int * 16 + d as int)
                        == Option::Some(acc as int * 16 + d as int));
                    assert(parse_hex_acc(one, acc as int) == Option::Some(
                        acc as int * 16 + d as int,
                    ));
                }
                acc = acc * 16 + (d as u64);
                j = j + 1;
            },
            Option::None => {
                proof {
                    let full = s@.subrange(pos as int, pos as int + 16);
                    let rest = s@.subrange(pos as int + j as int, pos as int + 16);
                    assert(full =~= pre + rest);
                    lemma_parse_acc_concat(pre, rest, 0);
                    assert(rest[0] == s@[pos as int + j as int]);
                }
                return Option::None;
            },
        }
    }
    Option::Some(acc)
}

/// Reads a length-prefixed field at `pos`.
fn take_field(s: &str, pos: usize, len: usize) -> (r: Option<(String, usize)>)
    requires
        len == s@.len(),
    ensures
        match r {
            Option::Some(f) => field_at(s@, pos as int) == Option::Some((f.0@, f.1 as int))
                && pos <= f.1 <= len,
            Option::None => field_at(s@, pos as int) is None,
        },
{
    if pos > len || len - pos < 16 {
        return Option::None;
    }
    let n = match parse_hex16_exec(s, pos, len) {
        Option::Some(n) => n,
        Option::None => { return Option::None; },
    };
    let rem = len - (pos + 16);
    if n > rem as u64 {
        return Option::None;
    }
    let nn = n as usize;
    let f = s.substring_char(pos + 16, pos + 16 + nn).to_owned();
    Option::Some((f, pos + 16 + nn))
}

/// Reads a record back from its stored form.
pub fn decode_record(s: &str) -> (r: Option<PostRecord>)
    ensures
        match r {
            Option::Some(rec) => decode_spec(s@) == Option::Some(rec@) && 0 <= rec.created_at,
            Option::None => decode_spec(s@) is None,
        },
{
    let len = s.unicode_len();
    let (id, p1) = match take_field(s, 0, len) {
        Option::Some(x) => x,
        Option::None => { return Option::None; },
    };
    let (title, p2) = match take_field(s, p1, len) {
        Option::Some(x) => x,
        Option::None => { return Option::None; },
    };
    let (message, p3) = match take_field(s, p2, len) {
        Option::Some(x) => x,
        Option::None => { return Option::None; },
    };
    if len - p3 < 16 {
        return Option::None;
    }
    let ts = match parse_hex16_exec(s, p3, len) {
        Option::Some(t) => t,
        Option::None => { return Option::None; },
    };
    if ts >= 0x8000000000000000u64 {
        return Option::None;
    }
    let p4 = p3 + 16;
    if p4 >= len {
        return Option::None;
    }
    let flag = s.get_char(p4);
    if flag == '0' {
        if p4 + 1 == len {
            Option::Some(PostRecord {
                directory_id: id,
                title,
                message,
                media_reference: Option::None,
                created_at: ts as i64,
            })
        } else {
            Option::None
        }
    } else if flag == '1' {
        match take_field(s, p4 + 1, len) {
            Option::Some((m, p5)) => {
                if p5 == len {
                    Option::Some(PostRecord {
                        directory_id: id,
                        title,
                        message,
                        media_reference: Option::Some(m),
                        created_at: ts as i64,
                    })
                } else {
                    Option::None
                }
            },
            Option::None => Option::None,
        }
    } else {
        Option::None
    }
}

} // verus!
