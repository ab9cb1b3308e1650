//! The stored key envelope: one JSON object holding base64 key material and
//! the key metadata, written and parsed by the library itself, character by
//! character.

use vstd::prelude::*;
use crate::encoding::is_base64_char;
use crate::encoding::str_to_chars;
use crate::timestamp::{
    char_digit, char_digit_exec, digit_char, digit_char_exec, parse_rfc3339, push_rfc3339,
    rfc3339_of, UtcTime,
};

verus! {

broadcast use vstd::slice::axiom_spec_len;

/// Whether a character may stand in a JSON string at all: anything but a
/// control character. Quotes and backslashes are escaped; control
/// characters are refused.
pub open spec fn printable_char(c: char) -> bool {
    (c as u32) >= 32
}

/// Whether every character of the text is printable.
pub open spec fn printable_text(s: Seq<char>) -> bool {
    forall|i: int| 0 <= i < s.len() ==> printable_char(#[trigger] s[i])
}

/// The JSON escaping of one character: quote and backslash take a leading
/// backslash, everything else stands as itself.
pub open spec fn esc_char(c: char) -> Seq<char> {
    if c == '"' {
        seq!['\\', '"']
    } else if c == '\\' {
        seq!['\\', '\\']
    } else {
        seq![c]
    }
}

/// The JSON escaping of a text, character by character.
pub open spec fn esc(s: Seq<char>) -> Seq<char>
    decreases s.len(),
{
    if s.len() == 0 {
        Seq::empty()
    } else {
        esc(s.drop_last()) + esc_char(s.last())
    }
}

/// Escaping distributes over concatenation.
proof fn lemma_esc_concat(a: Seq<char>, b: Seq<char>)
    ensures
        esc(a + b) == esc(a) + esc(b),
    decreases b.len(),
{
    if b.len() == 0 {
        assert(a + b =~= a);
        assert(esc(b) =~= Seq::<char>::empty());
        assert(esc(a) + esc(b) =~= esc(a));
    } else {
        lemma_esc_concat(a, b.drop_last());
        assert((a + b).drop_last() =~= a + b.drop_last());
        assert((a + b).last() == b.last());
        assert(esc(a + b) =~= esc(a) + esc(b));
    }
}

/// Escaping one more character appends its escaped form.
proof fn lemma_esc_take_succ(s: Seq<char>, k: int)
    requires
        0 <= k < s.len(),
    ensures
        esc(s.take(k + 1)) == esc(s.take(k)) + esc_char(s[k]),
{
    assert(s.take(k + 1).drop_last() =~= s.take(k));
    assert(s.take(k + 1).last() == s[k]);
}

/// The escaping of a prefix is no longer than the whole escaping.
proof fn lemma_esc_take_len(s: Seq<char>, k: int)
    requires
        0 <= k <= s.len(),
    ensures
        esc(s.take(k)).len() <= esc(s).len(),
    decreases s.len() - k,
{
    if k == s.len() {
        assert(s.take(k) =~= s);
    } else {
        lemma_esc_take_succ(s, k);
        lemma_esc_take_len(s, k + 1);
    }
}

/// The escaped text decomposes around any one source character.
proof fn lemma_esc_decompose(s: Seq<char>, k: int)
    requires
        0 <= k < s.len(),
    ensures
        esc(s) == esc(s.take(k)) + esc_char(s[k]) + esc(s.skip(k + 1)),
{
    assert(s =~= s.take(k + 1) + s.skip(k + 1));
    lemma_esc_concat(s.take(k + 1), s.skip(k + 1));
    lemma_esc_take_succ(s, k);
    assert(esc(s) =~= esc(s.take(k)) + esc_char(s[k]) + esc(s.skip(k + 1)));
}

/// The escaping of printable `content`, closed by a bare quote, stands at
/// `from` in `v`.
pub open spec fn str_at(v: Seq<char>, from: int, content: Seq<char>) -> bool {
    &&& 0 <= from
    &&& printable_text(content)
    &&& from + esc(content).len() < v.len()
    &&& v.subrange(from, from + esc(content).len() as int) == esc(content)
    &&& v[from + esc(content).len() as int] == '"'
}

/// The minimal decimal rendering of a number.
pub open spec fn dec_of(n: nat) -> Seq<char>
    decreases n,
{
    if n < 10 {
        seq![digit_char(n)]
    } else {
        dec_of(n / 10) + seq![digit_char(n % 10)]
    }
}

/// The value read back from a digit string, most significant digit first.
pub open spec fn digits_val(s: Seq<char>) -> nat
    decreases s.len(),
{
    if s.len() == 0 {
        0
    } else {
        digits_val(s.drop_last()) * 10 + (match char_digit(s.last()) {
            Some(d) => d,
            None => 0,
        })
    }
}

/// Whether every character of the text is a decimal digit.
pub open spec fn all_digits(s: Seq<char>) -> bool {
    forall|i: int| 0 <= i < s.len() ==> char_digit(#[trigger] s[i]) is Some
}

/// Ten to the power `k`.
pub open spec fn pow10(k: nat) -> nat
    decreases k,
{
    if k == 0 {
        1
    } else {
        10 * pow10((k - 1) as nat)
    }
}

/// The decimal rendering reads back to the number it was made from, is all
/// digits, and is never empty.
pub proof fn lemma_dec_of_props(m: nat)
    ensures
        all_digits(dec_of(m)),
        digits_val(dec_of(m)) == m,
        dec_of(m).len() >= 1,
    decreases m,
{
    if m < 10 {
        crate::timestamp::lemma_digit_roundtrip(m);
        assert(dec_of(m) == seq![digit_char(m)]);
        assert(dec_of(m).drop_last() =~= Seq::<char>::empty());
        assert(dec_of(m).last() == digit_char(m));
        assert(digits_val(Seq::<char>::empty()) == 0);
        assert(digits_val(dec_of(m)) == m);
    } else {
        lemma_dec_of_props(m / 10);
        crate::timestamp::lemma_digit_roundtrip(m % 10);
        let s = dec_of(m);
        assert(s == dec_of(m / 10) + seq![digit_char(m % 10)]);
        assert(s.drop_last() =~= dec_of(m / 10));
        assert(s.last() == digit_char(m % 10));
        assert(digits_val(s) == digits_val(dec_of(m / 10)) * 10 + m % 10);
        assert((m / 10) * 10 + m % 10 == m) by {
            vstd::arithmetic::div_mod::lemma_fundamental_div_mod(m as int, 10);
        }
        assert forall|i: int| 0 <= i < s.len() implies char_digit(#[trigger] s[i]) is Some by {
            if i < s.len() - 1 {
                assert(s[i] == dec_of(m / 10)[i]);
            } else {
                assert(s[i] == digit_char(m % 10));
            }
        }
    }
}

/// A number under `pow10(k)` renders in at most `k` digits.
pub proof fn lemma_dec_of_len(m: nat, k: nat)
    requires
        k >= 1,
        m < pow10(k),
    ensures
        dec_of(m).len() <= k,
    decreases k,
{
    if m < 10 {
    } else {
        assert(k >= 2) by {
            if k == 1 {
                assert(pow10(0nat) == 1);
                assert(pow10(1nat) == 10);
            }
        }
        assert(pow10(k) == 10 * pow10((k - 1) as nat));
        assert(m / 10 < pow10((k - 1) as nat));
        lemma_dec_of_len(m / 10, (k - 1) as nat);
    }
}

/// Every value of `u32` renders in at most ten digits.
pub proof fn lemma_dec_of_u32_len(m: u32)
    ensures
        dec_of(m as nat).len() <= 10,
{
    assert(pow10(0nat) == 1);
    assert(pow10(1nat) == 10);
    assert(pow10(2nat) == 100);
    assert(pow10(3nat) == 1000);
    assert(pow10(4nat) == 10000);
    assert(pow10(5nat) == 100000);
    assert(pow10(6nat) == 1000000);
    assert(pow10(7nat) == 10000000);
    assert(pow10(8nat) == 100000000);
    assert(pow10(9nat) == 1000000000);
    assert(pow10(10nat) == 10000000000);
    lemma_dec_of_len(m as nat, 10);
}

/// The `rotated_at` field: `null`, or a quoted timestamp.
pub open spec fn rotated_json(r: Option<UtcTime>) -> Seq<char> {
    match r {
        None => "null"@,
        Some(t) => seq!['"'] + rfc3339_of(t) + seq!['"'],
    }
}

/// The envelope: a JSON object with the base64 material and the metadata
/// object, every field in a fixed order, the metadata strings escaped.
pub open spec fn envelope_json(
    mb64: Seq<char>,
    algorithm: Seq<char>,
    created: UtcTime,
    rotated: Option<UtcTime>,
    version: u32,
    device: Seq<char>,
) -> Seq<char> {
    "{\"material\":\""@ + mb64 + "\",\"metadata\":{\"algorithm\":\""@ + esc(algorithm)
        + "\",\"created_at\":\""@ + rfc3339_of(created) + "\",\"rotated_at\":"@ + rotated_json(
        rotated,
    ) + ",\"version\":"@ + dec_of(version as nat) + ",\"device_id\":\""@ + esc(device) + "\"}}"@
}

/// An envelope text is canonical for these parts when it is their rendering
/// and the parts are in range: base64 material text, printable metadata
/// strings, well-formed timestamps.
pub open spec fn canonical_envelope(
    s: Seq<char>,
    mb64: Seq<char>,
    algorithm: Seq<char>,
    created: UtcTime,
    rotated: Option<UtcTime>,
    version: u32,
    device: Seq<char>,
) -> bool {
    &&& s == envelope_json(mb64, algorithm, created, rotated, version, device)
    &&& (forall|i: int| 0 <= i < mb64.len() ==> is_base64_char(#[trigger] mb64[i]))
    &&& printable_text(algorithm)
    &&& printable_text(device)
    &&& created.wf()
    &&& (rotated matches Some(t) ==> t.wf())
}

/// Offset of the quote that closes the material field.
pub open spec fn o_mat_end(mb64: Seq<char>) -> int {
    13 + mb64.len() as int
}

/// Offset where the algorithm text starts.
pub open spec fn o_alg(mb64: Seq<char>) -> int {
    o_mat_end(mb64) + 27
}

/// Offset of the quote that closes the algorithm field.
pub open spec fn o_alg_end(mb64: Seq<char>, algorithm: Seq<char>) -> int {
    o_alg(mb64) + esc(algorithm).len() as int
}

/// Offset where the created-at timestamp starts.
pub open spec fn o_created(mb64: Seq<char>, algorithm: Seq<char>) -> int {
    o_alg_end(mb64, algorithm) + 16
}

/// Offset where the rotated-at value starts.
pub open spec fn o_rot(mb64: Seq<char>, algorithm: Seq<char>) -> int {
    o_created(mb64, algorithm) + 20 + 15
}

/// Offset where the version digits start.
pub open spec fn o_ver(mb64: Seq<char>, algorithm: Seq<char>, rotated: Option<UtcTime>) -> int {
    o_rot(mb64, algorithm) + rotated_json(rotated).len() as int + 11
}

/// Offset where the device-id text starts.
pub open spec fn o_dev(
    mb64: Seq<char>,
    algorithm: Seq<char>,
    rotated: Option<UtcTime>,
    version: u32,
) -> int {
    o_ver(mb64, algorithm, rotated) + dec_of(version as nat).len() as int + 14
}

/// Offset of the quote that closes the device-id field.
pub open spec fn o_dev_end(
    mb64: Seq<char>,
    algorithm: Seq<char>,
    rotated: Option<UtcTime>,
    version: u32,
    device: Seq<char>,
) -> int {
    o_dev(mb64, algorithm, rotated, version) + esc(device).len() as int
}

/// The decimal rendering of `m` stands at `from`, followed by a non-digit.
pub open spec fn dec_at(v: Seq<char>, from: int, m: nat) -> bool {
    &&& 0 <= from
    &&& from + dec_of(m).len() < v.len()
    &&& v.subrange(from, from + dec_of(m).len() as int) == dec_of(m)
    &&& char_digit(v[from + dec_of(m).len() as int]) is None
}

/// Where each piece of a canonical envelope sits.
pub proof fn lemma_envelope_structure(
    s: Seq<char>,
    mb64: Seq<char>,
    algorithm: Seq<char>,
    created: UtcTime,
    rotated: Option<UtcTime>,
    version: u32,
    device: Seq<char>,
)
    requires
        canonical_envelope(s, mb64, algorithm, created, rotated, version, device),
    ensures
        s.len() == o_dev_end(mb64, algorithm, rotated, version, device) + 3,
        s.subrange(0, 13) == "{\"material\":\""@,
        s.subrange(13, o_mat_end(mb64)) == mb64,
        forall|k: int| 13 <= k < o_mat_end(mb64) ==> s[k] != '"',
        s[o_mat_end(mb64)] == '"',
        s.subrange(o_mat_end(mb64), o_alg(mb64)) == "\",\"metadata\":{\"algorithm\":\""@,
        s.subrange(o_alg(mb64), o_alg_end(mb64, algorithm)) == esc(algorithm),
        s[o_alg_end(mb64, algorithm)] == '"',
        str_at(s, o_alg(mb64), algorithm),
        s.subrange(o_alg_end(mb64, algorithm), o_created(mb64, algorithm))
            == "\",\"created_at\":\""@,
        s.subrange(o_created(mb64, algorithm), o_created(mb64, algorithm) + 20) == rfc3339_of(
            created,
        ),
        s.subrange(o_created(mb64, algorithm) + 20, o_rot(mb64, algorithm))
            == "\",\"rotated_at\":"@,
        s.subrange(o_rot(mb64, algorithm), o_rot(mb64, algorithm) + rotated_json(rotated).len())
            == rotated_json(rotated),
        s.subrange(
            o_rot(mb64, algorithm) + rotated_json(rotated).len(),
            o_ver(mb64, algorithm, rotated),
        ) == ",\"version\":"@,
        s.subrange(
            o_ver(mb64, algorithm, rotated),
            o_ver(mb64, algorithm, rotated) + dec_of(version as nat).len(),
        ) == dec_of(version as nat),
        s.subrange(
            o_ver(mb64, algorithm, rotated) + dec_of(version as nat).len(),
            o_dev(mb64, algorithm, rotated, version),
        ) == ",\"device_id\":\""@,
        s.subrange(
            o_dev(mb64, algorithm, rotated, version),
            o_dev_end(mb64, algorithm, rotated, version, device),
        ) == esc(device),
        s[o_dev_end(mb64, algorithm, rotated, version, device)] == '"',
        str_at(s, o_dev(mb64, algorithm, rotated, version), device),
        s.subrange(o_dev_end(mb64, algorithm, rotated, version, device), s.len() as int)
            == "\"}}"@,
        "null"@ == seq!['n', 'u', 'l', 'l'],
        "\""@ == seq!['"'],
        rotated is None ==> s.subrange(o_rot(mb64, algorithm), o_rot(mb64, algorithm) + 4)
            == "null"@,
        rotated matches Some(t) ==> s[o_rot(mb64, algorithm)] == '"' && s.subrange(
            o_rot(mb64, algorithm),
            o_rot(mb64, algorithm) + 1,
        ) == "\""@ && s.subrange(o_rot(mb64, algorithm) + 1, o_rot(mb64, algorithm) + 21)
            == rfc3339_of(t) && s.subrange(o_rot(mb64, algorithm) + 21, o_rot(mb64, algorithm) + 22)
            == "\""@,
        dec_at(s, o_ver(mb64, algorithm, rotated), version as nat),
        dec_of(version as nat).len() >= 1,
{
    reveal_strlit("{\"material\":\"");
    reveal_strlit("\"");
    reveal_strlit("\",\"metadata\":{\"algorithm\":\"");
    reveal_strlit("\",\"created_at\":\"");
    reveal_strlit("\",\"rotated_at\":");
    reveal_strlit("null");
    reveal_strlit(",\"version\":");
    reveal_strlit(",\"device_id\":\"");
    reveal_strlit("\"}}");
    let l1 = "{\"material\":\""@;
    let l2 = "\",\"metadata\":{\"algorithm\":\""@;
    let l3 = "\",\"created_at\":\""@;
    let l4 = "\",\"rotated_at\":"@;
    let l5 = ",\"version\":"@;
    let l6 = ",\"device_id\":\""@;
    let l7 = "\"}}"@;
    assert(l1.len() == 13);
    assert(l2.len() == 27);
    assert(l3.len() == 16);
    assert(l4.len() == 15);
    assert(l5.len() == 11);
    assert(l6.len() == 14);
    assert(l7.len() == 3);
    assert(rfc3339_of(created).len() == 20);
    assert(rotated_json(rotated).len() == if rotated is Some {
        22int
    } else {
        4int
    });
    assert(s.subrange(0, 13) =~= l1);
    assert(s.subrange(13, o_mat_end(mb64)) =~= mb64);
    assert(s.subrange(o_mat_end(mb64), o_alg(mb64)) =~= l2);
    assert(s.subrange(o_alg(mb64), o_alg_end(mb64, algorithm)) =~= esc(algorithm));
    assert(s.subrange(o_alg_end(mb64, algorithm), o_created(mb64, algorithm)) =~= l3);
    assert(s.subrange(o_created(mb64, algorithm), o_created(mb64, algorithm) + 20) =~= rfc3339_of(
        created,
    ));
    assert(s.subrange(o_created(mb64, algorithm) + 20, o_rot(mb64, algorithm)) =~= l4);
    assert(s.subrange(o_rot(mb64, algorithm), o_rot(mb64, algorithm) + rotated_json(rotated).len())
        =~= rotated_json(rotated));
    assert(s.subrange(
        o_rot(mb64, algorithm) + rotated_json(rotated).len(),
        o_ver(mb64, algorithm, rotated),
    ) =~= l5);
    assert(s.subrange(
        o_ver(mb64, algorithm, rotated),
        o_ver(mb64, algorithm, rotated) + dec_of(version as nat).len(),
    ) =~= dec_of(version as nat));
    assert(s.subrange(
        o_ver(mb64, algorithm, rotated) + dec_of(version as nat).len(),
        o_dev(mb64, algorithm, rotated, version),
    ) =~= l6);
    assert(s.subrange(
        o_dev(mb64, algorithm, rotated, version),
        o_dev_end(mb64, algorithm, rotated, version, device),
    ) =~= esc(device));
    assert(s.subrange(o_dev_end(mb64, algorithm, rotated, version, device), s.len() as int)
        =~= l7);
    assert(s[o_mat_end(mb64)] == l2[0]);
    assert(s[o_alg_end(mb64, algorithm)] == l3[0]);
    assert(s[o_dev_end(mb64, algorithm, rotated, version, device)] == l7[0]);
    assert forall|k: int| 13 <= k < o_mat_end(mb64) implies s[k] != '"' by {
        assert(s[k] == mb64[k - 13]);
        assert(is_base64_char(mb64[k - 13]));
    }
    assert(str_at(s, o_alg(mb64), algorithm));
    assert(str_at(s, o_dev(mb64, algorithm, rotated, version), device));
    assert("null"@ =~= seq!['n', 'u', 'l', 'l']);
    assert("\""@ =~= seq!['"']);
    if rotated is Some {
        let t = rotated->0;
        let ro = o_rot(mb64, algorithm);
        let rj = rotated_json(rotated);
        assert(s[ro] == rj[0]);
        assert(s.subrange(ro, ro + 1) =~= "\""@);
        assert(s.subrange(ro + 1, ro + 21) =~= rfc3339_of(t));
        assert(s.subrange(ro + 21, ro + 22) =~= "\""@);
    }
    lemma_dec_of_props(version as nat);
    let vo = o_ver(mb64, algorithm, rotated);
    let dl = dec_of(version as nat).len() as int;
    assert(s[vo + dl] == l6[0]);
    assert(char_digit(',') is None);
    assert(dec_at(s, vo, version as nat));
}

/// `pow10` grows with its argument.
proof fn lemma_pow10_mono(a: nat, b: nat)
    requires
        a <= b,
    ensures
        pow10(a) <= pow10(b),
    decreases b,
{
    if a < b {
        lemma_pow10_mono(a, (b - 1) as nat);
        assert(pow10(b) == 10 * pow10((b - 1) as nat));
    }
}

/// Appends every character of `s`.
pub(crate) fn push_chars(out: &mut Vec<char>, s: &[char])
    ensures
        final(out)@ == old(out)@ + s@,
{
    let mut i: usize = 0;
    while i < s.len()
        invariant
            i <= s@.len(),
            out@ == old(out)@ + s@.subrange(0, i as int),
        decreases s@.len() - i,
    {
        out.push(s[i]);
        proof {
            assert(out@ =~= old(out)@ + s@.subrange(0, (i + 1) as int));
        }
        i += 1;
    }
    proof {
        assert(out@ =~= old(out)@ + s@);
    }
}

/// Appends every character of the string.
pub(crate) fn push_str_chars(out: &mut Vec<char>, s: &str)
    ensures
        final(out)@ == old(out)@ + s@,
{
    let cs = str_to_chars(s);
    push_chars(out, cs.as_slice());
}

/// Appends the minimal decimal rendering of `n`.
pub(crate) fn push_dec_u32(out: &mut Vec<char>, n: u32)
    ensures
        final(out)@ == old(out)@ + dec_of(n as nat),
    decreases n,
{
    if n < 10 {
        out.push(digit_char_exec(n as u8));
        proof {
            assert(out@ =~= old(out)@ + dec_of(n as nat));
        }
    } else {
        push_dec_u32(out, n / 10);
        out.push(digit_char_exec((n % 10) as u8));
        proof {
            assert(out@ =~= old(out)@ + dec_of(n as nat));
        }
    }
}

/// Copies the characters of `v` between `from` and `to`.
pub(crate) fn chars_range_to_vec(v: &[char], from: usize, to: usize) -> (r: Vec<char>)
    requires
        from <= to <= v@.len(),
    ensures
        r@ == v@.subrange(from as int, to as int),
{
    let mut out: Vec<char> = Vec::new();
    let mut i: usize = from;
    while i < to
        invariant
            from <= i <= to <= v@.len(),
            out@ == v@.subrange(from as int, i as int),
        decreases to - i,
    {
        out.push(v[i]);
        proof {
            assert(out@ =~= v@.subrange(from as int, (i + 1) as int));
        }
        i += 1;
    }
    out
}

/// Whether the characters at `at` are exactly the pattern.
pub(crate) fn match_lit(v: &[char], at: usize, pat: &str) -> (r: bool)
    ensures
        r == (at + pat@.len() <= v@.len() && v@.subrange(at as int, at + pat@.len()) == pat@),
{
    let p = str_to_chars(pat);
    let total = v.len();
    proof {
        vstd::slice::axiom_spec_len::<char>(v);
        assert(v@.len() == total);
    }
    if at > total || total - at < p.len() {
        return false;
    }
    let mut i: usize = 0;
    let mut ok = true;
    while i < p.len()
        invariant
            i <= p@.len(),
            at + p@.len() <= v@.len(),
            at + p@.len() <= usize::MAX,
            p@ == pat@,
            ok == (forall|j: int| 0 <= j < i ==> v@[at + j] == p@[j]),
        decreases p@.len() - i,
    {
        let same = v[at + i] == p[i];
        ok = ok && same;
        i += 1;
    }
    proof {
        if ok {
            assert(v@.subrange(at as int, at + p@.len()) =~= p@);
        } else {
            let j = choose|j: int| 0 <= j < p@.len() && v@[at + j] != p@[j];
            assert(v@.subrange(at as int, at + p@.len())[j] == v@[at + j]);
        }
    }
    ok
}

/// The first quote at or after `from`, if any.
pub(crate) fn scan_quote(v: &[char], from: usize) -> (r: Option<usize>)
    requires
        from <= v@.len(),
    ensures
        r matches Some(j) ==> from <= j < v@.len() && v@[j as int] == '"' && (forall|k: int|
            from <= k < j ==> v@[k] != '"'),
        r is None ==> (forall|k: int| from <= k < v@.len() ==> v@[k] != '"'),
{
    let mut i: usize = from;
    while i < v.len()
        invariant
            from <= i <= v@.len(),
            forall|k: int| from <= k < i ==> v@[k] != '"',
        decreases v@.len() - i,
    {
        if v[i] == '"' {
            return Some(i);
        }
        i += 1;
    }
    None
}

/// Reads the decimal number at `from`; exact wherever a minimal rendering
/// followed by a non-digit stands there.
pub(crate) fn parse_dec_u32(v: &[char], from: usize) -> (r: Option<(u32, usize)>)
    requires
        from <= v@.len(),
    ensures
        forall|m: u32|
            #[trigger] dec_at(v@, from as int, m as nat) ==> (r matches Some(p) && p.0 == m && p.1
                == from + dec_of(m as nat).len()),
{
    let mut j: usize = from;
    let mut acc: u64 = 0;
    let mut done = false;
    while j < v.len() && j - from < 10 && !done
        invariant
            from <= j <= v@.len(),
            j - from <= 10,
            forall|k: int| from <= k < j ==> char_digit(#[trigger] v@[k]) is Some,
            acc == digits_val(v@.subrange(from as int, j as int)),
            acc < pow10((j - from) as nat),
            done ==> j < v@.len() && char_digit(v@[j as int]) is None,
        decreases v@.len() - j + (if done {
            0int
        } else {
            1int
        }),
    {
        match char_digit_exec(v[j]) {
            Some(d) => {
                proof {
                    assert(pow10((j - from) as nat) <= pow10(9nat)) by {
                        lemma_pow10_mono((j - from) as nat, 9nat);
                    }
                    assert(pow10(9nat) == 1000000000) by {
                        assert(pow10(0nat) == 1);
                        assert(pow10(1nat) == 10);
                        assert(pow10(2nat) == 100);
                        assert(pow10(3nat) == 1000);
                        assert(pow10(4nat) == 10000);
                        assert(pow10(5nat) == 100000);
                        assert(pow10(6nat) == 1000000);
                        assert(pow10(7nat) == 10000000);
                        assert(pow10(8nat) == 100000000);
                        assert(pow10(9nat) == 1000000000);
                    }
                }
                acc = acc * 10 + (d as u64);
                proof {
                    let pre = v@.subrange(from as int, j as int);
                    let post = v@.subrange(from as int, (j + 1) as int);
                    assert(post.drop_last() =~= pre);
                    assert(post.last() == v@[j as int]);
                    assert(digits_val(post) == digits_val(pre) * 10 + d);
                    assert(pow10(((j + 1) - from) as nat) == 10 * pow10((j - from) as nat));
                }
                j += 1;
            },
            None => {
                done = true;
            },
        }
    }
    let r = if j == from {
        None
    } else if acc > 0xFFFFFFFFu64 {
        None
    } else {
        Some((acc as u32, j))
    };
    proof {
        assert forall|m: u32| #[trigger] dec_at(v@, from as int, m as nat) implies (r matches Some(
            p,
        ) && p.0 == m && p.1 == from + dec_of(m as nat).len()) by {
            lemma_dec_of_props(m as nat);
            lemma_dec_of_u32_len(m);
            let len = dec_of(m as nat).len() as int;
            assert(from + len < v@.len());
            // the loop cannot have gone past the digits: the character after
            // them is not a digit
            assert(j <= from + len) by {
                if j > from + len {
                    assert(char_digit(v@[from + len]) is Some);
                }
            }
            // the loop cannot have stopped early: every earlier character is
            // a digit, the cap is not reached, and the text does not end
            assert(j >= from + len) by {
                if j < from + len {
                    assert(v@[j as int] == dec_of(m as nat)[j - from]);
                    assert(char_digit(v@[j as int]) is Some);
                    assert(!done);
                    assert(j - from < 10);
                    assert(j < v@.len());
                }
            }
            assert(v@.subrange(from as int, j as int) == dec_of(m as nat));
            assert(acc == m);
        }
    }
    r
}

/// Whether the character may stand in a JSON string at all.
pub(crate) fn printable_char_exec(c: char) -> (r: bool)
    ensures
        r == printable_char(c),
{
    (c as u32) >= 32
}

/// Whether every character is printable.
pub(crate) fn check_printable(s: &[char]) -> (r: bool)
    ensures
        r == printable_text(s@),
{
    let mut i: usize = 0;
    while i < s.len()
        invariant
            i <= s@.len(),
            forall|k: int| 0 <= k < i ==> printable_char(#[trigger] s@[k]),
        decreases s@.len() - i,
    {
        if !printable_char_exec(s[i]) {
            return false;
        }
        i += 1;
    }
    true
}

/// Appends the JSON escaping of `s`.
pub(crate) fn push_escaped(out: &mut Vec<char>, s: &[char])
    ensures
        final(out)@ == old(out)@ + esc(s@),
{
    let mut i: usize = 0;
    proof {
        assert(s@.take(0) =~= Seq::<char>::empty());
        assert(esc(s@.take(0)) =~= Seq::<char>::empty());
        assert(out@ =~= old(out)@ + esc(s@.take(0)));
    }
    while i < s.len()
        invariant
            i <= s@.len(),
            out@ == old(out)@ + esc(s@.take(i as int)),
        decreases s@.len() - i,
    {
        let c = s[i];
        if c == '"' || c == '\\' {
            out.push('\\');
            out.push(c);
        } else {
            out.push(c);
        }
        proof {
            lemma_esc_take_succ(s@, i as int);
            assert(out@ =~= old(out)@ + esc(s@.take(i + 1)));
        }
        i += 1;
    }
    proof {
        assert(s@.take(s@.len() as int) =~= s@);
    }
}

/// Reads an escaped JSON string up to its closing bare quote; exact
/// wherever the escaping of a printable text stands at `from`.
pub(crate) fn scan_string(v: &[char], from: usize) -> (r: Option<(Vec<char>, usize)>)
    requires
        from <= v@.len(),
    ensures
        forall|content: Seq<char>|
            #[trigger] str_at(v@, from as int, content) ==> (r matches Some(p) && p.0@ == content
                && p.1 == from + esc(content).len()),
{
    let total = v.len();
    proof {
        vstd::slice::axiom_spec_len::<char>(v);
        assert(v@.len() == total);
    }
    let mut p: usize = from;
    let mut out: Vec<char> = Vec::new();
    proof {
        assert(esc(Seq::<char>::empty()) =~= Seq::<char>::empty());
    }
    loop
        invariant
            from <= p <= total,
            v@.len() == total,
            forall|content: Seq<char>|
                #[trigger] str_at(v@, from as int, content) ==> (out@.len() <= content.len()
                    && out@ == content.take(out@.len() as int) && p == from + esc(
                    content.take(out@.len() as int),
                ).len()),
        decreases total - p,
    {
        proof {
            assert forall|content: Seq<char>|
                #[trigger] str_at(v@, from as int, content) implies p < total && (out@.len()
                < content.len() ==> v@[p as int] == esc_char(content[out@.len() as int])[0]) && (
            out@.len() == content.len() ==> v@[p as int] == '"') by {
                let k = out@.len() as int;
                lemma_esc_take_len(content, k);
                if k < content.len() {
                    lemma_esc_decompose(content, k);
                    lemma_esc_take_len(content, k + 1);
                    lemma_esc_take_succ(content, k);
                    assert(v@[p as int] == esc(content)[p - from]);
                } else {
                    assert(content.take(k) =~= content);
                }
            }
        }
        if p == total {
            return None;
        }
        let c = v[p];
        if c == '"' {
            proof {
                assert forall|content: Seq<char>|
                    #[trigger] str_at(v@, from as int, content) implies out@ == content && p == from
                    + esc(content).len() by {
                    let k = out@.len() as int;
                    if k < content.len() {
                        lemma_esc_decompose(content, k);
                        assert(esc_char(content[k])[0] != '"');
                    }
                    assert(content.take(content.len() as int) =~= content);
                }
            }
            return Some((out, p));
        } else if c == '\\' {
            if p + 1 == total {
                proof {
                    assert forall|content: Seq<char>|
                        !(#[trigger] str_at(v@, from as int, content)) by {
                        if str_at(v@, from as int, content) {
                            let k = out@.len() as int;
                            if k < content.len() {
                                lemma_esc_decompose(content, k);
                                lemma_esc_take_succ(content, k);
                                lemma_esc_take_len(content, k + 1);
                            }
                        }
                    }
                }
                return None;
            }
            let d = v[p + 1];
            if d == '"' || d == '\\' {
                proof {
                    assert forall|content: Seq<char>|
                        #[trigger] str_at(v@, from as int, content) implies (out@.len()
                        < content.len() && d == content[out@.len() as int] && (
                        out@.push(d).len() <= content.len()) && out@.push(d) == content.take(
                            out@.push(d).len() as int,
                        ) && p + 2 == from + esc(content.take(out@.push(d).len() as int)).len())
                        by {
                        let k = out@.len() as int;
                        assert(k < content.len());
                        lemma_esc_decompose(content, k);
                        lemma_esc_take_succ(content, k);
                        assert(v@[p + 1] == esc(content)[p + 1 - from]);
                        assert(esc_char(content[k]).len() == 2 ==> v@[p + 1] == esc_char(
                            content[k],
                        )[1]);
                        assert(content[k] == '"' || content[k] == '\\');
                        assert(d == content[k]);
                        assert(out@.push(d) =~= content.take(k + 1));
                    }
                }
                out.push(d);
                p = p + 2;
            } else {
                proof {
                    assert forall|content: Seq<char>|
                        !(#[trigger] str_at(v@, from as int, content)) by {
                        if str_at(v@, from as int, content) {
                            let k = out@.len() as int;
                            assert(k < content.len());
                            lemma_esc_decompose(content, k);
                            assert(v@[p + 1] == esc(content)[p + 1 - from]);
                        }
                    }
                }
                return None;
            }
        } else if (c as u32) >= 32 {
            proof {
                assert forall|content: Seq<char>|
                    #[trigger] str_at(v@, from as int, content) implies (out@.len() < content.len()
                    && c == content[out@.len() as int] && out@.push(c) == content.take(
                        out@.push(c).len() as int,
                    ) && p + 1 == from + esc(content.take(out@.push(c).len() as int)).len()) by {
                    let k = out@.len() as int;
                    assert(k < content.len());
                    lemma_esc_decompose(content, k);
                    lemma_esc_take_succ(content, k);
                    assert(c == content[k]);
                    assert(out@.push(c) =~= content.take(k + 1));
                }
            }
            out.push(c);
            p = p + 1;
        } else {
            proof {
                assert forall|content: Seq<char>| !(#[trigger] str_at(v@, from as int, content)) by {
                    if str_at(v@, from as int, content) {
                        let k = out@.len() as int;
                        if k < content.len() {
                            lemma_esc_decompose(content, k);
                            assert(printable_char(content[k]));
                        }
                    }
                }
            }
            return None;
        }
    }
}

/// Whether the timestamp's fields are in range.
pub(crate) fn check_time(t: &UtcTime) -> (r: bool)
    ensures
        r == t.wf(),
{
    1000 <= t.year && t.year <= 9999 && 1 <= t.month && t.month <= 12 && 1 <= t.day && t.day <= 31
        && t.hour <= 23 && t.minute <= 59 && t.second <= 59
}

/// The fields read out of an envelope.
pub(crate) struct EnvelopeParts {
    /// Base64 text of the key material.
    pub material_b64: Vec<char>,
    /// Algorithm name.
    pub algorithm: Vec<char>,
    /// Creation instant.
    pub created_at: UtcTime,
    /// Last rotation instant, if any.
    pub rotated_at: Option<UtcTime>,
    /// Key version.
    pub version: u32,
    /// Device the key belongs to.
    pub device_id: Vec<char>,
}

/// Renders the envelope for these parts, refusing metadata text that would
/// need escaping and out-of-range timestamps.
pub(crate) fn encode_envelope(
    mb64: &str,
    algorithm: &str,
    created: UtcTime,
    rotated: Option<UtcTime>,
    version: u32,
    device: &str,
) -> (r: Option<Vec<char>>)
    ensures
        r matches Some(s) ==> s@ == envelope_json(
            mb64@,
            algorithm@,
            created,
            rotated,
            version,
            device@,
        ),
        (printable_text(algorithm@) && printable_text(device@) && created.wf() && (rotated matches
            Some(t) ==> t.wf())) <==> r is Some,
{
    let alg_chars = str_to_chars(algorithm);
    let dev_chars = str_to_chars(device);
    if !check_printable(alg_chars.as_slice()) || !check_printable(dev_chars.as_slice()) {
        return None;
    }
    if !check_time(&created) {
        return None;
    }
    if let Some(t) = &rotated {
        if !check_time(t) {
            return None;
        }
    }
    let mb_chars = str_to_chars(mb64);
    let mut out: Vec<char> = Vec::new();
    push_str_chars(&mut out, "{\"material\":\"");
    push_chars(&mut out, mb_chars.as_slice());
    push_str_chars(&mut out, "\",\"metadata\":{\"algorithm\":\"");
    push_escaped(&mut out, alg_chars.as_slice());
    push_str_chars(&mut out, "\",\"created_at\":\"");
    push_rfc3339(&mut out, &created);
    push_str_chars(&mut out, "\",\"rotated_at\":");
    match &rotated {
        None => push_str_chars(&mut out, "null"),
        Some(t) => {
            push_str_chars(&mut out, "\"");
            push_rfc3339(&mut out, t);
            push_str_chars(&mut out, "\"");
        },
    }
    push_str_chars(&mut out, ",\"version\":");
    push_dec_u32(&mut out, version);
    push_str_chars(&mut out, ",\"device_id\":\"");
    push_escaped(&mut out, dev_chars.as_slice());
    push_str_chars(&mut out, "\"}}");
    proof {
        reveal_strlit("\"");
        assert(out@ =~= envelope_json(mb64@, algorithm@, created, rotated, version, device@));
    }
    Some(out)
}

/// Reads an envelope back into its parts. For every canonical envelope the
/// parts come back exactly as they were written.
#[verifier::rlimit(100)]
#[verifier::spinoff_prover]
pub(crate) fn decode_envelope(v: &[char]) -> (r: Option<EnvelopeParts>)
    ensures
        forall|
            mb64: Seq<char>,
            algorithm: Seq<char>,
            created: UtcTime,
            rotated: Option<UtcTime>,
            version: u32,
            device: Seq<char>,
        |
            #[trigger] canonical_envelope(v@, mb64, algorithm, created, rotated, version, device)
                ==> (r matches Some(p) && p.material_b64@ == mb64 && p.algorithm@ == algorithm
                && p.created_at == created && p.rotated_at == rotated && p.version == version
                && p.device_id@ == device),
{
    proof {
        reveal_strlit("{\"material\":\"");
        reveal_strlit("\",\"metadata\":{\"algorithm\":\"");
        reveal_strlit("\",\"created_at\":\"");
        reveal_strlit("\",\"rotated_at\":");
        reveal_strlit("null");
        reveal_strlit("\"");
        reveal_strlit(",\"version\":");
        reveal_strlit(",\"device_id\":\"");
        reveal_strlit("\"}}");
        assert("{\"material\":\""@.len() == 13);
        assert("\",\"metadata\":{\"algorithm\":\""@.len() == 27);
        assert("\",\"created_at\":\""@.len() == 16);
        assert("\",\"rotated_at\":"@.len() == 15);
        assert("null"@.len() == 4);
        assert("\""@.len() == 1);
        assert(",\"version\":"@.len() == 11);
        assert(",\"device_id\":\""@.len() == 14);
        assert("\"}}"@.len() == 3);
        vstd::slice::axiom_spec_len::<char>(v);
    }
    let total = v.len();
    proof {
        assert(v@.len() == total);
    }
    if !match_lit(v, 0, "{\"material\":\"") {
        proof {
            lemma_decode_vacuous(v@);
        }
        return None;
    }
    let j1 = match scan_quote(v, 13) {
        Some(j) => j,
        None => {
            proof {
                lemma_decode_vacuous(v@);
            }
            return None;
        },
    };
    let material_b64 = chars_range_to_vec(v, 13, j1);
    if !match_lit(v, j1, "\",\"metadata\":{\"algorithm\":\"") {
        proof {
            lemma_decode_vacuous(v@);
        }
        return None;
    }
    let a0 = j1 + 27;
    let (algorithm, j2) = match scan_string(v, a0) {
        Some(p) => p,
        None => {
            proof {
                lemma_decode_vacuous(v@);
            }
            return None;
        },
    };
    if !match_lit(v, j2, "\",\"created_at\":\"") {
        proof {
            lemma_decode_vacuous(v@);
        }
        return None;
    }
    let c0 = j2 + 16;
    if v.len() - c0 < 20 {
        proof {
            lemma_decode_vacuous(v@);
        }
        return None;
    }
    let created = match parse_rfc3339(v, c0) {
        Some(t) => t,
        None => {
            proof {
                lemma_decode_vacuous(v@);
            }
            return None;
        },
    };
    if !match_lit(v, c0 + 20, "\",\"rotated_at\":") {
        proof {
            lemma_decode_vacuous(v@);
        }
        return None;
    }
    let r0 = c0 + 35;
    let rotated: Option<UtcTime>;
    let ver_lit_at: usize;
    if match_lit(v, r0, "null") {
        rotated = None;
        ver_lit_at = r0 + 4;
    } else if match_lit(v, r0, "\"") {
        if v.len() - (r0 + 1) < 20 {
            proof {
                lemma_decode_vacuous(v@);
            }
            return None;
        }
        let t = match parse_rfc3339(v, r0 + 1) {
            Some(t) => t,
            None => {
                proof {
                    lemma_decode_vacuous(v@);
                }
                return None;
            },
        };
        if !match_lit(v, r0 + 21, "\"") {
            proof {
                lemma_decode_vacuous(v@);
            }
            return None;
        }
        rotated = Some(t);
        ver_lit_at = r0 + 22;
    } else {
        proof {
            lemma_decode_vacuous(v@);
        }
        return None;
    }
    if !match_lit(v, ver_lit_at, ",\"version\":") {
        proof {
            lemma_decode_vacuous(v@);
        }
        return None;
    }
    let d0 = ver_lit_at + 11;
    let (version, after_ver) = match parse_dec_u32(v, d0) {
        Some(p) => p,
        None => {
            proof {
                lemma_decode_vacuous(v@);
            }
            return None;
        },
    };
    if !match_lit(v, after_ver, ",\"device_id\":\"") {
        proof {
            lemma_decode_vacuous(v@);
        }
        return None;
    }
    let dv0 = after_ver + 14;
    let (device_id, j3) = match scan_string(v, dv0) {
        Some(p) => p,
        None => {
            proof {
                lemma_decode_vacuous(v@);
            }
            return None;
        },
    };
    if !match_lit(v, j3, "\"}}") {
        proof {
            lemma_decode_vacuous(v@);
        }
        return None;
    }
    if j3 + 3 != v.len() {
        proof {
            lemma_decode_vacuous(v@);
        }
        return None;
    }
    let parts = EnvelopeParts {
        material_b64,
        algorithm,
        created_at: created,
        rotated_at: rotated,
        version,
        device_id,
    };
    proof {
        assert forall|
            mb64: Seq<char>,
            alg: Seq<char>,
            cr: UtcTime,
            rot: Option<UtcTime>,
            ver: u32,
            dev: Seq<char>,
        |
            #[trigger] canonical_envelope(v@, mb64, alg, cr, rot, ver, dev) implies (
        parts.material_b64@ == mb64 && parts.algorithm@ == alg && parts.created_at == cr
            && parts.rotated_at == rot && parts.version == ver && parts.device_id@ == dev) by {
            lemma_envelope_structure(v@, mb64, alg, cr, rot, ver, dev);
        }
    }
    Some(parts)
}

/// In every refusing branch of the decoder the input cannot be canonical;
/// this helper discharges those branches at once by contradiction.
#[verifier::spinoff_prover]
proof fn lemma_decode_vacuous(s: Seq<char>)
    ensures
        forall|
            mb64: Seq<char>,
            algorithm: Seq<char>,
            created: UtcTime,
            rotated: Option<UtcTime>,
            version: u32,
            device: Seq<char>,
        |
            #[trigger] canonical_envelope(s, mb64, algorithm, created, rotated, version, device)
                ==> canonical_facts(s, mb64, algorithm, created, rotated, version, device),
{
    assert forall|
        mb64: Seq<char>,
        algorithm: Seq<char>,
        created: UtcTime,
        rotated: Option<UtcTime>,
        version: u32,
        device: Seq<char>,
    |
        #[trigger] canonical_envelope(s, mb64, algorithm, created, rotated, version, device)
            implies canonical_facts(s, mb64, algorithm, created, rotated, version, device) by {
        lemma_envelope_structure(s, mb64, algorithm, created, rotated, version, device);
    }
}

/// The positional facts of a canonical envelope, bundled so that a single
/// lemma can hand them to every branch of the decoder.
pub open spec fn canonical_facts(
    s: Seq<char>,
    mb64: Seq<char>,
    algorithm: Seq<char>,
    created: UtcTime,
    rotated: Option<UtcTime>,
    version: u32,
    device: Seq<char>,
) -> bool {
    &&& s.len() == o_dev_end(mb64, algorithm, rotated, version, device) + 3
    &&& s.subrange(0, 13) == "{\"material\":\""@
    &&& s.subrange(13, o_mat_end(mb64)) == mb64
    &&& (forall|k: int| 13 <= k < o_mat_end(mb64) ==> s[k] != '"')
    &&& s[o_mat_end(mb64)] == '"'
    &&& s.subrange(o_mat_end(mb64), o_alg(mb64)) == "\",\"metadata\":{\"algorithm\":\""@
    &&& s.subrange(o_alg(mb64), o_alg_end(mb64, algorithm)) == esc(algorithm)
    &&& s[o_alg_end(mb64, algorithm)] == '"'
    &&& str_at(s, o_alg(mb64), algorithm)
    &&& s.subrange(o_alg_end(mb64, algorithm), o_created(mb64, algorithm))
        == "\",\"created_at\":\""@
    &&& s.subrange(o_created(mb64, algorithm), o_created(mb64, algorithm) + 20) == rfc3339_of(
        created,
    )
    &&& s.subrange(o_created(mb64, algorithm) + 20, o_rot(mb64, algorithm))
        == "\",\"rotated_at\":"@
    &&& (rotated is None ==> s.subrange(o_rot(mb64, algorithm), o_rot(mb64, algorithm) + 4)
        == "null"@)
    &&& (rotated matches Some(t) ==> s[o_rot(mb64, algorithm)] == '"' && s.subrange(
        o_rot(mb64, algorithm),
        o_rot(mb64, algorithm) + 1,
    ) == "\""@ && s.subrange(o_rot(mb64, algorithm) + 1, o_rot(mb64, algorithm) + 21)
        == rfc3339_of(t) && s.subrange(o_rot(mb64, algorithm) + 21, o_rot(mb64, algorithm) + 22)
        == "\""@)
    &&& "null"@ == seq!['n', 'u', 'l', 'l']
    &&& "\""@ == seq!['"']
    &&& s.subrange(
        o_rot(mb64, algorithm) + rotated_json(rotated).len(),
        o_ver(mb64, algorithm, rotated),
    ) == ",\"version\":"@
    &&& dec_at(s, o_ver(mb64, algorithm, rotated), version as nat)
    &&& dec_of(version as nat).len() >= 1
    &&& s.subrange(
        o_ver(mb64, algorithm, rotated) + dec_of(version as nat).len(),
        o_dev(mb64, algorithm, rotated, version),
    ) == ",\"device_id\":\""@
    &&& s.subrange(
        o_dev(mb64, algorithm, rotated, version),
        o_dev_end(mb64, algorithm, rotated, version, device),
    ) == esc(device)
    &&& s[o_dev_end(mb64, algorithm, rotated, version, device)] == '"'
    &&& str_at(s, o_dev(mb64, algorithm, rotated, version), device)
    &&& s.subrange(o_dev_end(mb64, algorithm, rotated, version, device), s.len() as int)
        == "\"}}"@
}

} // verus!
