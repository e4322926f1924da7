//! The session codec: serialises an identity to a self-describing text
//! payload and reconstructs it, all-or-nothing.
//!
//! The payload is a sequence of length-prefixed fields: first the subject,
//! then the number of authorities terminated by `;`, then each authority.
//! A field is written `<len>:<chars>` with the length in decimal, so any
//! conforming decoder can reconstruct the exact identity without escaping.
//! Decoding fails with [`DecodeError::Malformed`] on any input that does not
//! round-trip; it never produces a partially populated identity.

use vstd::prelude::*;

use crate::authentication::Authentication;
use crate::error::DecodeError;

verus! {

// ---------------------------------------------------------------------------
// Decimal numerals over characters.
// ---------------------------------------------------------------------------

/// A decimal digit character.
pub open spec fn is_digit(c: char) -> bool {
    48 <= c as int <= 57
}

/// The numeric value of a digit character (0 for non-digits, so the
/// function is total).
pub open spec fn digit_val(c: char) -> nat {
    if is_digit(c) {
        (c as int - 48) as nat
    } else {
        0
    }
}

/// The digit character for a value below ten.
pub open spec fn digit_for(d: nat) -> char {
    if d == 0 {
        '0'
    } else if d == 1 {
        '1'
    } else if d == 2 {
        '2'
    } else if d == 3 {
        '3'
    } else if d == 4 {
        '4'
    } else if d == 5 {
        '5'
    } else if d == 6 {
        '6'
    } else if d == 7 {
        '7'
    } else if d == 8 {
        '8'
    } else {
        '9'
    }
}

/// The decimal numeral of `n`, most significant digit first, without
/// leading zeros.
pub open spec fn spec_dec_digits(n: nat) -> Seq<char>
    decreases n,
{
    if n < 10 {
        seq![digit_for(n)]
    } else {
        spec_dec_digits(n / 10).push(digit_for(n % 10))
    }
}

/// The value of a digit string, read left to right.
pub open spec fn spec_parse_digits(s: Seq<char>) -> nat
    decreases s.len(),
{
    if s.len() == 0 {
        0
    } else {
        spec_parse_digits(s.drop_last()) * 10 + digit_val(s.last())
    }
}

/// A numeral consists of digit characters and is never empty.
pub proof fn lemma_dec_digits_wf(n: nat)
    ensures
        spec_dec_digits(n).len() >= 1,
        forall|k: int|
            0 <= k < spec_dec_digits(n).len() ==> is_digit(#[trigger] spec_dec_digits(n)[k]),
    decreases n,
{
    if n >= 10 {
        lemma_dec_digits_wf(n / 10);
    }
}

/// A digit character carries the value it was chosen for.
pub proof fn lemma_digit_for_val(d: nat)
    requires
        d < 10,
    ensures
        is_digit(digit_for(d)),
        digit_val(digit_for(d)) == d,
{
    if d == 0 {
        assert(digit_val('0') == 0);
    } else if d == 1 {
        assert(digit_val('1') == 1);
    } else if d == 2 {
        assert(digit_val('2') == 2);
    } else if d == 3 {
        assert(digit_val('3') == 3);
    } else if d == 4 {
        assert(digit_val('4') == 4);
    } else if d == 5 {
        assert(digit_val('5') == 5);
    } else if d == 6 {
        assert(digit_val('6') == 6);
    } else if d == 7 {
        assert(digit_val('7') == 7);
    } else if d == 8 {
        assert(digit_val('8') == 8);
    } else {
        assert(digit_val('9') == 9);
    }
}

/// Reading a printed numeral gives back the number.
pub proof fn lemma_parse_dec(n: nat)
    ensures
        spec_parse_digits(spec_dec_digits(n)) == n,
    decreases n,
{
    if n < 10 {
        lemma_digit_for_val(n);
        let one = seq![digit_for(n)];
        assert(one.drop_last() =~= Seq::<char>::empty());
        assert(one.last() == digit_for(n));
        assert(spec_parse_digits(Seq::<char>::empty()) == 0);
        assert(spec_parse_digits(one) == spec_parse_digits(one.drop_last()) * 10 + digit_val(
            one.last(),
        ));
    } else {
        lemma_parse_dec(n / 10);
        lemma_digit_for_val(n % 10);
        let pre = spec_dec_digits(n / 10);
        let whole = pre.push(digit_for(n % 10));
        assert(whole.drop_last() =~= pre);
        assert(whole.last() == digit_for(n % 10));
        assert(spec_parse_digits(whole) == spec_parse_digits(whole.drop_last()) * 10 + digit_val(
            whole.last(),
        ));
        assert(n / 10 * 10 + n % 10 == n) by {
            vstd::arithmetic::div_mod::lemma_fundamental_div_mod(n as int, 10);
        }
    }
}

/// Extending a digit string to the right never shrinks its value.
pub proof fn lemma_parse_digits_extend(s: Seq<char>, i: int, k: int, j: int)
    requires
        0 <= i <= k <= j <= s.len(),
    ensures
        spec_parse_digits(s.subrange(i, j)) >= spec_parse_digits(s.subrange(i, k)),
    decreases j - k,
{
    if k < j {
        lemma_parse_digits_extend(s, i, k, j - 1);
        assert(s.subrange(i, j).drop_last() =~= s.subrange(i, j - 1));
    }
}

// ---------------------------------------------------------------------------
// The wire format.
// ---------------------------------------------------------------------------

/// Scans forward from `i` over digit characters; the result is the first
/// index at or after `i` holding no digit.
pub open spec fn spec_scan_digits(s: Seq<char>, i: int) -> int
    decreases s.len() - i,
{
    if 0 <= i < s.len() && is_digit(s[i]) {
        spec_scan_digits(s, i + 1)
    } else {
        i
    }
}

/// The scan stops exactly at the end of a known digit run.
pub proof fn lemma_scan_digits_exact(s: Seq<char>, i: int, j: int)
    requires
        0 <= i <= j <= s.len(),
        forall|k: int| i <= k < j ==> is_digit(#[trigger] s[k]),
        j == s.len() || !is_digit(s[j]),
    ensures
        spec_scan_digits(s, i) == j,
    decreases j - i,
{
    if i < j {
        lemma_scan_digits_exact(s, i + 1, j);
    }
}

/// One field on the wire: the length of the payload in decimal, a colon,
/// then the payload itself.
pub open spec fn spec_enc_str(f: Seq<char>) -> Seq<char> {
    spec_dec_digits(f.len()) + seq![':'] + f
}

/// Parses one field at position `i`: the payload together with the position
/// just past it, or nothing if the input does not carry a field there.
pub open spec fn spec_parse_field(s: Seq<char>, i: int) -> Option<(Seq<char>, int)> {
    let j = spec_scan_digits(s, i);
    if i < j < s.len() && s[j] == ':' {
        let n = spec_parse_digits(s.subrange(i, j));
        if j + 1 + n <= s.len() {
            Some((s.subrange(j + 1, j + 1 + n), j + 1 + n))
        } else {
            None
        }
    } else {
        None
    }
}

/// Parsing what `spec_enc_str` wrote yields the payload and stops just past
/// it, whatever follows.
pub proof fn lemma_parse_field_enc(s: Seq<char>, i: int, f: Seq<char>)
    requires
        0 <= i,
        i + spec_enc_str(f).len() <= s.len(),
        s.subrange(i, i + spec_enc_str(f).len()) == spec_enc_str(f),
    ensures
        spec_parse_field(s, i) == Some((f, i + spec_enc_str(f).len())),
{
    let d = spec_dec_digits(f.len());
    let dl = d.len() as int;
    let el = spec_enc_str(f).len() as int;
    lemma_dec_digits_wf(f.len());
    assert forall|k: int| i <= k < i + dl implies is_digit(#[trigger] s[k]) by {
        assert(s[k] == s.subrange(i, i + el)[k - i]);
        assert(spec_enc_str(f)[k - i] == d[k - i]);
    }
    assert(s[i + dl] == s.subrange(i, i + el)[dl]);
    assert(spec_enc_str(f)[dl] == ':');
    assert(!is_digit(':'));
    lemma_scan_digits_exact(s, i, i + dl);
    assert(s.subrange(i, i + dl) =~= d) by {
        assert forall|k: int| 0 <= k < dl implies s.subrange(i, i + dl)[k] == d[k] by {
            assert(s[i + k] == s.subrange(i, i + el)[k]);
        }
    }
    lemma_parse_dec(f.len());
    assert(s.subrange(i + dl + 1, i + dl + 1 + f.len()) =~= f) by {
        assert forall|k: int| 0 <= k < f.len() implies s.subrange(
            i + dl + 1,
            i + dl + 1 + f.len(),
        )[k] == f[k] by {
            assert(s[i + dl + 1 + k] == s.subrange(i, i + el)[dl + 1 + k]);
            assert(spec_enc_str(f)[dl + 1 + k] == f[k]);
        }
    }
}

/// The authority fields, one after another.
pub open spec fn spec_encode_auths(auths: Seq<Seq<char>>) -> Seq<char>
    decreases auths.len(),
{
    if auths.len() == 0 {
        Seq::empty()
    } else {
        spec_enc_str(auths.first()) + spec_encode_auths(auths.drop_first())
    }
}

/// Appending one authority appends exactly its field.
pub proof fn lemma_encode_auths_push(auths: Seq<Seq<char>>, f: Seq<char>)
    ensures
        spec_encode_auths(auths.push(f)) == spec_encode_auths(auths) + spec_enc_str(f),
    decreases auths.len(),
{
    if auths.len() == 0 {
        assert(auths.push(f).drop_first() =~= Seq::<Seq<char>>::empty());
        assert(auths.push(f).first() == f);
        assert(spec_encode_auths(Seq::<Seq<char>>::empty()) == Seq::<char>::empty());
        assert(spec_encode_auths(auths.push(f)) == spec_enc_str(f) + Seq::<char>::empty());
        assert(spec_enc_str(f) + Seq::<char>::empty() =~= Seq::<char>::empty() + spec_enc_str(f));
        assert(spec_encode_auths(auths) == Seq::<char>::empty());
    } else {
        lemma_encode_auths_push(auths.drop_first(), f);
        assert(auths.push(f).drop_first() =~= auths.drop_first().push(f));
        assert(auths.push(f).first() == auths.first());
        assert(spec_encode_auths(auths.push(f)) == spec_enc_str(auths.first())
            + spec_encode_auths(auths.drop_first().push(f)));
        assert(spec_enc_str(auths.first()) + (spec_encode_auths(auths.drop_first()) + spec_enc_str(
            f,
        )) =~= (spec_enc_str(auths.first()) + spec_encode_auths(auths.drop_first())) + spec_enc_str(
            f,
        ));
    }
}

/// Parses `cnt` consecutive fields starting at `i`.
pub open spec fn spec_parse_auths(s: Seq<char>, i: int, cnt: nat) -> Option<(Seq<Seq<char>>, int)>
    decreases cnt,
{
    if cnt == 0 {
        Some((Seq::empty(), i))
    } else {
        match spec_parse_field(s, i) {
            Some((f, i2)) => match spec_parse_auths(s, i2, (cnt - 1) as nat) {
                Some((fs, e)) => Some((seq![f] + fs, e)),
                None => None,
            },
            None => None,
        }
    }
}

/// Each parsed field consumes at least two characters, so a successful
/// parse of `cnt` fields needs room for all of them.
pub proof fn lemma_parse_auths_bound(s: Seq<char>, i: int, cnt: nat)
    requires
        0 <= i <= s.len(),
    ensures
        match spec_parse_auths(s, i, cnt) {
            Some((fs, e)) => fs.len() == cnt && i + 2 * cnt <= e <= s.len(),
            None => true,
        },
    decreases cnt,
{
    if cnt > 0 {
        match spec_parse_field(s, i) {
            Some((f, i2)) => {
                lemma_parse_auths_bound(s, i2, (cnt - 1) as nat);
            },
            None => {},
        }
    }
}

/// Parsing what `spec_encode_auths` wrote yields the authorities and stops
/// just past them.
pub proof fn lemma_parse_auths_enc(s: Seq<char>, i: int, auths: Seq<Seq<char>>)
    requires
        0 <= i,
        i + spec_encode_auths(auths).len() <= s.len(),
        s.subrange(i, i + spec_encode_auths(auths).len()) == spec_encode_auths(auths),
    ensures
        spec_parse_auths(s, i, auths.len()) == Some((auths, i + spec_encode_auths(auths).len())),
    decreases auths.len(),
{
    let region = spec_encode_auths(auths);
    let rl = region.len() as int;
    if auths.len() == 0 {
    } else {
        let f = auths.first();
        let e0 = spec_enc_str(f);
        let l0 = e0.len() as int;
        let rest = spec_encode_auths(auths.drop_first());
        assert(region == e0 + rest);
        assert(s.subrange(i, i + l0) =~= e0) by {
            assert forall|k: int| 0 <= k < l0 implies s.subrange(i, i + l0)[k] == e0[k] by {
                assert(s[i + k] == s.subrange(i, i + rl)[k]);
                assert(region[k] == e0[k]);
            }
        }
        lemma_parse_field_enc(s, i, f);
        assert(s.subrange(i + l0, i + l0 + rest.len()) =~= rest) by {
            assert forall|k: int| 0 <= k < rest.len() implies s.subrange(
                i + l0,
                i + l0 + rest.len(),
            )[k] == rest[k] by {
                assert(s[i + l0 + k] == s.subrange(i, i + rl)[l0 + k]);
                assert(region[l0 + k] == rest[k]);
            }
        }
        lemma_parse_auths_enc(s, i + l0, auths.drop_first());
        assert(seq![f] + auths.drop_first() =~= auths);
    }
}

/// The whole payload: the subject field, the number of authorities
/// terminated by a semicolon, then the authority fields.
pub open spec fn spec_encode(ident: Seq<char>, auths: Seq<Seq<char>>) -> Seq<char> {
    spec_enc_str(ident) + spec_dec_digits(auths.len()) + seq![';'] + spec_encode_auths(auths)
}

/// The identity a payload describes, if it describes exactly one valid
/// identity: non-empty subject, duplicate-free authorities, nothing left
/// over.
pub open spec fn spec_decode(s: Seq<char>) -> Option<(Seq<char>, Seq<Seq<char>>)> {
    match spec_parse_field(s, 0) {
        Some((ident, i)) => {
            let j = spec_scan_digits(s, i);
            if i < j < s.len() && s[j] == ';' {
                let cnt = spec_parse_digits(s.subrange(i, j));
                match spec_parse_auths(s, j + 1, cnt) {
                    Some((auths, e)) => if e == s.len() && ident.len() > 0
                        && auths.no_duplicates() {
                        Some((ident, auths))
                    } else {
                        None
                    },
                    None => None,
                }
            } else {
                None
            }
        },
        None => None,
    }
}

/// Round-trip: decoding an encoded identity gives back exactly that
/// identity, for every valid identity.
pub proof fn lemma_codec_round_trip(ident: Seq<char>, auths: Seq<Seq<char>>)
    requires
        ident.len() > 0,
        auths.no_duplicates(),
    ensures
        spec_decode(spec_encode(ident, auths)) == Some((ident, auths)),
{
    let s = spec_encode(ident, auths);
    let e0 = spec_enc_str(ident);
    let l0 = e0.len() as int;
    let d = spec_dec_digits(auths.len());
    let dl = d.len() as int;
    let region = spec_encode_auths(auths);
    assert(s.len() == l0 + dl + 1 + region.len());
    assert(s.subrange(0, l0) =~= e0);
    lemma_parse_field_enc(s, 0, ident);
    lemma_dec_digits_wf(auths.len());
    assert forall|k: int| l0 <= k < l0 + dl implies is_digit(#[trigger] s[k]) by {
        assert(s[k] == d[k - l0]);
    }
    assert(s[l0 + dl] == ';');
    assert(!is_digit(';'));
    lemma_scan_digits_exact(s, l0, l0 + dl);
    assert(s.subrange(l0, l0 + dl) =~= d);
    lemma_parse_dec(auths.len());
    assert(s.subrange(l0 + dl + 1, l0 + dl + 1 + region.len()) =~= region);
    lemma_parse_auths_enc(s, l0 + dl + 1, auths);
}

// ---------------------------------------------------------------------------
// Executable encoding.
// ---------------------------------------------------------------------------

/// Relies on `String::push`: appends exactly the given character.
#[verifier::external_body]
fn push_char(out: &mut String, c: char)
    ensures
        final(out)@ == old(out)@.push(c),
{
    out.push(c);
}

/// The digit character for a value below ten.
fn digit_char(d: usize) -> (c: char)
    requires
        d < 10,
    ensures
        c == digit_for(d as nat),
{
    if d == 0 {
        '0'
    } else if d == 1 {
        '1'
    } else if d == 2 {
        '2'
    } else if d == 3 {
        '3'
    } else if d == 4 {
        '4'
    } else if d == 5 {
        '5'
    } else if d == 6 {
        '6'
    } else if d == 7 {
        '7'
    } else if d == 8 {
        '8'
    } else {
        '9'
    }
}

/// Appends the decimal numeral of `n`.
pub fn push_dec(out: &mut String, n: usize)
    ensures
        final(out)@ == old(out)@ + spec_dec_digits(n as nat),
    decreases n,
{
    if n < 10 {
        push_char(out, digit_char(n));
        proof {
            assert(final(out)@ =~= old(out)@ + spec_dec_digits(n as nat));
        }
    } else {
        push_dec(out, n / 10);
        push_char(out, digit_char(n % 10));
        proof {
            assert(final(out)@ =~= old(out)@ + spec_dec_digits(n as nat));
        }
    }
}

/// Appends one length-prefixed field.
fn push_field(out: &mut String, f: &String)
    ensures
        final(out)@ == old(out)@ + spec_enc_str(f@),
{
    push_dec(out, f.as_str().unicode_len());
    push_char(out, ':');
    out.append(f.as_str());
    proof {
        assert(final(out)@ =~= old(out)@ + spec_enc_str(f@));
    }
}

/// Serialises an identity to its payload.  Encoding is total: every
/// identity has exactly one payload, and decoding that payload gives the
/// identity back.
pub fn encode(a: &Authentication) -> (r: String)
    ensures
        r@ == spec_encode(a.identity@, a.authorities.deep_view()),
{
    let mut out = String::new();
    push_field(&mut out, &a.identity);
    let n = a.authorities.len();
    push_dec(&mut out, n);
    push_char(&mut out, ';');
    let ghost head = out@;
    for k in 0..n
        invariant
            n == a.authorities.len(),
            out@ == head + spec_encode_auths(a.authorities.deep_view().take(k as int)),
    {
        proof {
            assert(a.authorities.deep_view()[k as int] == a.authorities@[k as int]@);
        }
        push_field(&mut out, &a.authorities[k]);
        proof {
            lemma_encode_auths_push(
                a.authorities.deep_view().take(k as int),
                a.authorities.deep_view()[k as int],
            );
            assert(a.authorities.deep_view().take(k as int).push(
                a.authorities.deep_view()[k as int],
            ) =~= a.authorities.deep_view().take(k + 1));
            assert(out@ =~= head + spec_encode_auths(a.authorities.deep_view().take(k + 1)));
        }
    }
    proof {
        assert(a.authorities.deep_view().take(n as int) =~= a.authorities.deep_view());
        assert(out@ =~= spec_encode(a.identity@, a.authorities.deep_view()));
    }
    out
}

// ---------------------------------------------------------------------------
// Executable decoding.
// ---------------------------------------------------------------------------

/// Scans forward over digit characters.
fn scan_digits(s: &str, len: usize, i: usize) -> (j: usize)
    requires
        len == s@.len(),
        i <= len,
    ensures
        i <= j <= len,
        j as int == spec_scan_digits(s@, i as int),
{
    let mut j = i;
    loop
        invariant
            i <= j <= len,
            len == s@.len(),
            spec_scan_digits(s@, i as int) == spec_scan_digits(s@, j as int),
        ensures
            i <= j <= len,
            j as int == spec_scan_digits(s@, i as int),
        decreases len - j,
    {
        if j >= len {
            break ;
        }
        let c = s.get_char(j);
        let v = c as u32;
        if !(48 <= v && v <= 57) {
            break ;
        }
        j = j + 1;
    }
    j
}

/// Parses one length-prefixed field at position `i`, exactly as
/// `spec_parse_field` reads it.
#[verifier::loop_isolation(false)]
fn parse_field(s: &str, len: usize, i: usize) -> (r: Option<(String, usize)>)
    requires
        len == s@.len(),
        i <= len,
    ensures
        match r {
            Some(p) => spec_parse_field(s@, i as int) == Some((p.0@, p.1 as int)) && i < p.1
                <= len,
            None => spec_parse_field(s@, i as int) is None,
        },
{
    let j = scan_digits(s, len, i);
    if j == i || j >= len {
        return None;
    }
    let cj = s.get_char(j);
    if cj as u32 != 58 {
        proof {
            assert(s@[j as int] != ':');
        }
        return None;
    }
    proof {
        assert(s@[j as int] == ':');
    }
    // Read the decimal length, stopping as soon as it can no longer fit in
    // the input: a longer prefix only grows the value.
    let mut k = i;
    let mut acc: usize = 0;
    while k < j
        invariant
            i <= k <= j,
            acc as nat == spec_parse_digits(s@.subrange(i as int, k as int)),
            acc <= len,
        decreases j - k,
    {
        proof {
            lemma_scan_stays_digits(s@, i as int, k as int);
        }
        let c = s.get_char(k);
        let d = ((c as u32) - 48) as usize;
        let wide: u128 = acc as u128 * 10 + d as u128;
        proof {
            assert(s@.subrange(i as int, k + 1).drop_last() =~= s@.subrange(i as int, k as int));
            assert(s@.subrange(i as int, k + 1).last() == s@[k as int]);
            assert(digit_val(s@[k as int]) == d as nat);
        }
        if wide > len as u128 {
            proof {
                lemma_parse_digits_extend(s@, i as int, k + 1, j as int);
                assert(spec_parse_digits(s@.subrange(i as int, j as int)) > len);
            }
            return None;
        }
        acc = wide as usize;
        k = k + 1;
    }
    if acc > len - (j + 1) {
        return None;
    }
    let f = s.substring_char(j + 1, j + 1 + acc).to_owned();
    Some((f, j + 1 + acc))
}

/// Positions strictly before the end of a digit scan hold digits.
proof fn lemma_scan_stays_digits(s: Seq<char>, i: int, k: int)
    requires
        0 <= i <= k,
        k < spec_scan_digits(s, i),
    ensures
        k < s.len(),
        is_digit(s[k]),
    decreases k - i,
{
    if i < k {
        lemma_scan_stays_digits(s, i + 1, k);
    }
}

/// True exactly when the list repeats an element.
fn has_duplicate(v: &Vec<String>) -> (r: bool)
    ensures
        r == !v.deep_view().no_duplicates(),
{
    let n = v.len();
    for a in 0..n
        invariant
            n == v.len(),
            forall|x: int, y: int|
                0 <= x < y < n && x < a ==> v.deep_view()[x] != v.deep_view()[y],
    {
        for b in (a + 1)..n
            invariant
                a < n,
                n == v.len(),
                forall|x: int, y: int|
                    0 <= x < y < n && x < a ==> v.deep_view()[x] != v.deep_view()[y],
                forall|y: int| a < y < b ==> v.deep_view()[a as int] != v.deep_view()[y],
        {
            proof {
                assert(v.deep_view()[a as int] == v@[a as int]@);
                assert(v.deep_view()[b as int] == v@[b as int]@);
            }
            if v[a].eq(&v[b]) {
                return true;
            }
        }
    }
    false
}

/// Reconstructs the identity a payload describes.  Succeeds exactly on the
/// payloads `spec_decode` accepts, and then returns exactly the identity the
/// payload spells; every other input is rejected as malformed, never
/// partially decoded.
#[verifier::loop_isolation(false)]
pub fn decode(s: &str) -> (r: Result<Authentication, DecodeError>)
    ensures
        match r {
            Ok(a) => spec_decode(s@) == Some((a.identity@, a.authorities.deep_view())) && a.wf(),
            Err(e) => spec_decode(s@) is None && e == DecodeError::Malformed,
        },
{
    let len = s.unicode_len();
    let (ident, i1) = match parse_field(s, len, 0) {
        Some(p) => p,
        None => {
            return Err(DecodeError::Malformed);
        },
    };
    let j = scan_digits(s, len, i1);
    if j == i1 || j >= len {
        return Err(DecodeError::Malformed);
    }
    let cj = s.get_char(j);
    if cj as u32 != 59 {
        proof {
            assert(s@[j as int] != ';');
        }
        return Err(DecodeError::Malformed);
    }
    proof {
        assert(s@[j as int] == ';');
    }
    // Read the authority count, with the same early stop: more fields than
    // characters can never parse.
    let mut k = i1;
    let mut cnt: usize = 0;
    while k < j
        invariant
            i1 <= k <= j,
            cnt as nat == spec_parse_digits(s@.subrange(i1 as int, k as int)),
            cnt <= len,
        decreases j - k,
    {
        proof {
            lemma_scan_stays_digits(s@, i1 as int, k as int);
        }
        let c = s.get_char(k);
        let d = ((c as u32) - 48) as usize;
        let wide: u128 = cnt as u128 * 10 + d as u128;
        proof {
            assert(s@.subrange(i1 as int, k + 1).drop_last() =~= s@.subrange(
                i1 as int,
                k as int,
            ));
            assert(s@.subrange(i1 as int, k + 1).last() == s@[k as int]);
            assert(digit_val(s@[k as int]) == d as nat);
        }
        if wide > len as u128 {
            proof {
                lemma_parse_digits_extend(s@, i1 as int, k + 1, j as int);
                let true_cnt = spec_parse_digits(s@.subrange(i1 as int, j as int));
                assert(true_cnt > len);
                lemma_parse_auths_bound(s@, j + 1, true_cnt);
            }
            return Err(DecodeError::Malformed);
        }
        cnt = wide as usize;
        k = k + 1;
    }
    let ghost start = j + 1;
    let mut auths: Vec<String> = Vec::new();
    let mut pos: usize = j + 1;
    let mut parsed: usize = 0;
    while parsed < cnt
        invariant
            parsed <= cnt,
            pos <= len,
            auths.deep_view().len() == parsed,
            match spec_parse_auths(s@, pos as int, (cnt - parsed) as nat) {
                Some(p) => spec_parse_auths(s@, start, cnt as nat) == Some(
                    (auths.deep_view() + p.0, p.1),
                ),
                None => spec_parse_auths(s@, start, cnt as nat) is None,
            },
        decreases cnt - parsed,
    {
        match parse_field(s, len, pos) {
            None => {
                return Err(DecodeError::Malformed);
            },
            Some((f, p2)) => {
                let ghost before = auths.deep_view();
                let ghost fv = f@;
                let ghost m = (cnt - parsed) as nat;
                let ghost oldpos = pos as int;
                auths.push(f);
                pos = p2;
                parsed = parsed + 1;
                proof {
                    assert(auths.deep_view() =~= before.push(fv));
                    assert(spec_parse_field(s@, oldpos) == Some((fv, p2 as int)));
                    match spec_parse_auths(s@, p2 as int, (m - 1) as nat) {
                        Some(p) => {
                            assert(spec_parse_auths(s@, oldpos, m) == Some(
                                (seq![fv] + p.0, p.1),
                            ));
                            assert(before + (seq![fv] + p.0) =~= before.push(fv) + p.0);
                        },
                        None => {
                            assert(spec_parse_auths(s@, oldpos, m) is None);
                        },
                    }
                }
            },
        }
    }
    proof {
        assert(spec_parse_auths(s@, pos as int, 0) == Some(
            (Seq::<Seq<char>>::empty(), pos as int),
        ));
        assert(auths.deep_view() + Seq::<Seq<char>>::empty() =~= auths.deep_view());
        assert(spec_parse_auths(s@, start, cnt as nat) == Some(
            (auths.deep_view(), pos as int),
        ));
    }
    if pos != len {
        return Err(DecodeError::Malformed);
    }
    if ident.as_str().unicode_len() == 0 {
        return Err(DecodeError::Malformed);
    }
    if has_duplicate(&auths) {
        return Err(DecodeError::Malformed);
    }
    Ok(Authentication { identity: ident, authorities: auths })
}

} // verus!
