use vstd::prelude::*;

verus! {

/// JSON whitespace: space, tab, line feed, carriage return.
pub open spec fn is_ws(b: u8) -> bool {
    b == 0x20 || b == 0x09 || b == 0x0a || b == 0x0d
}

/// An ASCII decimal digit.
pub open spec fn is_digit(b: u8) -> bool {
    0x30 <= b && b <= 0x39
}

/// The first position at or after `i` that holds no whitespace, or the end of `s`.
pub open spec fn skip_ws(s: Seq<u8>, i: nat) -> nat
    decreases s.len() - i,
{
    if i < s.len() && is_ws(s[i as int]) {
        skip_ws(s, i + 1)
    } else {
        i
    }
}

/// The end of the run of digits that starts at `i`.
pub open spec fn digits_end(s: Seq<u8>, i: nat) -> nat
    decreases s.len() - i,
{
    if i < s.len() && is_digit(s[i as int]) {
        digits_end(s, i + 1)
    } else {
        i
    }
}

/// The value of a sequence of decimal digits, most significant first.
pub open spec fn digits_value(d: Seq<u8>) -> nat
    decreases d.len(),
{
    if d.len() == 0 {
        0
    } else {
        10 * digits_value(d.drop_last()) + (d.last() - 0x30) as nat
    }
}

/// The shortest decimal text of `n`.
pub open spec fn decimal(n: nat) -> Seq<u8>
    decreases n,
{
    if n < 10 {
        seq![(n + 0x30) as u8]
    } else {
        decimal(n / 10).push((n % 10 + 0x30) as u8)
    }
}

/// The unsigned integer written at `i`, with the position after it: a nonempty run of
/// digits with no leading zero (but for `0` itself).
pub open spec fn number_at(s: Seq<u8>, i: nat) -> Option<(nat, nat)> {
    let e = digits_end(s, i);
    if e == i || (e > i + 1 && s[i as int] == 0x30) {
        None
    } else {
        Some((digits_value(s.subrange(i as int, e as int)), e))
    }
}

/// Whether `s` holds the byte `b` at `i`.
pub open spec fn byte_at(s: Seq<u8>, i: nat, b: u8) -> bool {
    i < s.len() && s[i as int] == b
}

/// Whether `s` holds the bytes `t` from `i` on.
pub open spec fn token_at(s: Seq<u8>, i: nat, t: Seq<u8>) -> bool {
    i + t.len() <= s.len() && s.subrange(i as int, (i + t.len()) as int) == t
}

/// The quoted key `"id"`.
pub open spec fn id_key() -> Seq<u8> {
    seq![0x22, 0x69, 0x64, 0x22]
}

/// The quoted key `"permissions"`.
pub open spec fn permissions_key() -> Seq<u8> {
    seq![0x22, 0x70, 0x65, 0x72, 0x6d, 0x69, 0x73, 0x73, 0x69, 0x6f, 0x6e, 0x73, 0x22]
}

/// The member `key : number` whose key starts at `i`, whitespace allowed around the
/// colon: its number and the position after it.
pub open spec fn member_at(s: Seq<u8>, i: nat, key: Seq<u8>) -> Option<(nat, nat)> {
    if !token_at(s, i, key) {
        None
    } else {
        let c = skip_ws(s, i + key.len());
        if !byte_at(s, c, 0x3a) {
            None
        } else {
            number_at(s, skip_ws(s, c + 1))
        }
    }
}

/// The id and the permission bits that `s` writes as a JSON object with exactly the two
/// members `"id"` and `"permissions"`, in either order, each an unsigned integer, with
/// whitespace allowed between tokens; `None` when `s` is not such a text.
pub open spec fn parse_card(s: Seq<u8>) -> Option<(nat, nat)> {
    let o = skip_ws(s, 0);
    let k1 = skip_ws(s, o + 1);
    let id_first = token_at(s, k1, id_key());
    let first = if id_first { id_key() } else { permissions_key() };
    let second = if id_first { permissions_key() } else { id_key() };
    if !byte_at(s, o, 0x7b) {
        None
    } else {
        match member_at(s, k1, first) {
            None => None,
            Some((v1, e1)) => {
                let c = skip_ws(s, e1);
                if !byte_at(s, c, 0x2c) {
                    None
                } else {
                    match member_at(s, skip_ws(s, c + 1), second) {
                        None => None,
                        Some((v2, e2)) => {
                            let z = skip_ws(s, e2);
                            if byte_at(s, z, 0x7d) && skip_ws(s, z + 1) == s.len() {
                                if id_first {
                                    Some((v1, v2))
                                } else {
                                    Some((v2, v1))
                                }
                            } else {
                                None
                            }
                        }
                    }
                }
            }
        }
    }
}

/// The bytes `{"id":`.
pub open spec fn card_head() -> Seq<u8> {
    seq![0x7b, 0x22, 0x69, 0x64, 0x22, 0x3a]
}

/// The bytes `,"permissions":`.
pub open spec fn card_middle() -> Seq<u8> {
    seq![0x2c, 0x22, 0x70, 0x65, 0x72, 0x6d, 0x69, 0x73, 0x73, 0x69, 0x6f, 0x6e, 0x73, 0x22, 0x3a]
}

/// The canonical text of a card: `{"id":<id>,"permissions":<bits>}`, no whitespace.
pub open spec fn card_text(id: nat, bits: nat) -> Seq<u8> {
    card_head() + decimal(id) + card_middle() + decimal(bits) + seq![0x7du8]
}


proof fn lemma_digits_end_ge(s: Seq<u8>, i: nat)
    ensures
        digits_end(s, i) >= i,
        i <= s.len() ==> digits_end(s, i) <= s.len(),
    decreases s.len() - i,
{
    if i < s.len() && is_digit(s[i as int]) {
        lemma_digits_end_ge(s, i + 1);
    }
}

proof fn lemma_digits_end_at(s: Seq<u8>, i: nat, e: nat)
    requires
        i <= e <= s.len(),
        forall|k: int| i <= k < e ==> is_digit(#[trigger] s[k]),
        e == s.len() || !is_digit(s[e as int]),
    ensures
        digits_end(s, i) == e,
    decreases e - i,
{
    if i < e {
        lemma_digits_end_at(s, i + 1, e);
    }
}

/// A prefix of a digit sequence is worth at most the whole.
proof fn lemma_value_prefix(d: Seq<u8>, k: nat)
    requires
        k <= d.len(),
    ensures
        digits_value(d.take(k as int)) <= digits_value(d),
    decreases d.len(),
{
    if k < d.len() {
        lemma_value_prefix(d.drop_last(), k);
        assert(d.drop_last().take(k as int) =~= d.take(k as int));
    } else {
        assert(d.take(k as int) =~= d);
    }
}

/// The decimal text of `n` is a nonempty run of digits, without a leading zero, worth `n`.
pub proof fn lemma_decimal(n: nat)
    ensures
        decimal(n).len() >= 1,
        forall|k: int| 0 <= k < decimal(n).len() ==> is_digit(#[trigger] decimal(n)[k]),
        digits_value(decimal(n)) == n,
        decimal(n).len() > 1 ==> decimal(n)[0] != 0x30,
    decreases n,
{
    if n < 10 {
        let d = decimal(n);
        assert(d == seq![(n + 0x30) as u8]);
        assert(d.drop_last() =~= Seq::<u8>::empty());
        assert(digits_value(d.drop_last()) == 0);
        assert(d.last() == n + 0x30);
        assert(digits_value(d) == n);
    } else {
        lemma_decimal(n / 10);
        let d = decimal(n);
        assert(d == decimal(n / 10).push((n % 10 + 0x30) as u8));
        assert(d.drop_last() =~= decimal(n / 10));
        assert(d.last() == n % 10 + 0x30);
        vstd::arithmetic::div_mod::lemma_fundamental_div_mod(n as int, 10);
        assert(digits_value(d) == 10 * (n / 10) + n % 10);
        assert forall|k: int| 0 <= k < d.len() implies is_digit(#[trigger] d[k]) by {
            if k < d.len() - 1 {
                assert(d[k] == decimal(n / 10)[k]);
            }
        }
        assert(d[0] == decimal(n / 10)[0]);
        if n / 10 < 10 {
            assert(decimal(n / 10) == seq![((n / 10) + 0x30) as u8]);
            assert(decimal(n / 10)[0] != 0x30);
        } else {
            assert(decimal(n / 10).len() == decimal(n / 10 / 10).len() + 1);
        }
    }
}

/// Where `s` holds the decimal text of `n` at `i`, followed by no digit, the number read
/// at `i` is `n`.
proof fn lemma_number_in(s: Seq<u8>, i: nat, n: nat)
    requires
        i + decimal(n).len() <= s.len(),
        s.subrange(i as int, (i + decimal(n).len()) as int) == decimal(n),
        i + decimal(n).len() == s.len() || !is_digit(s[(i + decimal(n).len()) as int]),
    ensures
        number_at(s, i) == Some((n, i + decimal(n).len())),
{
    let e = i + decimal(n).len();
    lemma_decimal(n);
    assert forall|k: int| i <= k < e implies is_digit(#[trigger] s[k]) by {
        assert(s[k] == s.subrange(i as int, e as int)[k - i]);
    }
    lemma_digits_end_at(s, i, e as nat);
    assert(s[i as int] == s.subrange(i as int, e as int)[0]);
}

/// Where `s` holds `key`, a colon and the decimal text of `n` from `i` on, followed by no
/// digit, the member read at `i` is worth `n`.
proof fn lemma_member_in(s: Seq<u8>, i: nat, key: Seq<u8>, n: nat)
    requires
        token_at(s, i, key),
        byte_at(s, i + key.len(), 0x3a),
        i + key.len() + 1 + decimal(n).len() <= s.len(),
        s.subrange((i + key.len() + 1) as int, (i + key.len() + 1 + decimal(n).len()) as int)
            == decimal(n),
        i + key.len() + 1 + decimal(n).len() == s.len() || !is_digit(
            s[(i + key.len() + 1 + decimal(n).len()) as int],
        ),
    ensures
        member_at(s, i, key) == Some((n, i + key.len() + 1 + decimal(n).len())),
{
    let j = (i + key.len() + 1) as int;
    lemma_decimal(n);
    assert(s[j] == s.subrange(j, j + decimal(n).len() as int)[0]);
    lemma_number_in(s, j as nat, n);
}

/// The canonical text of a card reads back as the same id and bits.
#[verifier::rlimit(100)]
pub proof fn lemma_card_text_parses(id: nat, bits: nat)
    ensures
        parse_card(card_text(id, bits)) == Some((id, bits)),
{
    let s = card_text(id, bits);
    let d1 = decimal(id);
    let d2 = decimal(bits);
    let l1 = d1.len() as int;
    let l2 = d2.len() as int;
    lemma_decimal(id);
    lemma_decimal(bits);
    lemma_card_text_layout(id, bits);
    assert(skip_ws(s, 0) == 0);
    assert(skip_ws(s, 1) == 1);
    assert(!is_digit(s[6 + l1]));
    lemma_member_in(s, 1, id_key(), id);
    let e1 = (6 + l1) as nat;
    assert(member_at(s, 1, id_key()) == Some((id, e1)));
    assert(skip_ws(s, e1) == e1);
    assert(byte_at(s, e1, 0x2c));
    assert(skip_ws(s, e1 + 1) == e1 + 1);
    assert(!is_digit(s[21 + l1 + l2]));
    lemma_member_in(s, e1 + 1, permissions_key(), bits);
    let e2 = (21 + l1 + l2) as nat;
    assert(member_at(s, e1 + 1, permissions_key()) == Some((bits, e2)));
    assert(skip_ws(s, e2) == e2);
    assert(byte_at(s, e2, 0x7d));
    assert(skip_ws(s, e2 + 1) == s.len());
}

/// Where each piece of the canonical text of a card stands.
#[verifier::rlimit(50)]
proof fn lemma_card_text_layout(id: nat, bits: nat)
    ensures
        ({
            let s = card_text(id, bits);
            let l1 = decimal(id).len() as int;
            let l2 = decimal(bits).len() as int;
            &&& s.len() == 22 + l1 + l2
            &&& s[0] == 0x7b
            &&& token_at(s, 1, id_key())
            &&& s[5] == 0x3a
            &&& s.subrange(6, 6 + l1) == decimal(id)
            &&& s[6 + l1] == 0x2c
            &&& token_at(s, (7 + l1) as nat, permissions_key())
            &&& s[20 + l1] == 0x3a
            &&& s.subrange(21 + l1, 21 + l1 + l2) == decimal(bits)
            &&& s[21 + l1 + l2] == 0x7d
        }),
{
    let s = card_text(id, bits);
    let d1 = decimal(id);
    let d2 = decimal(bits);
    let l1 = d1.len() as int;
    let l2 = d2.len() as int;
    let h = card_head() + d1;
    let m = h + card_middle();
    let t = m + d2;
    assert(s == t + seq![0x7du8]);
    assert(s.subrange(0, 6) =~= card_head());
    assert(s.subrange(1, 5) =~= id_key());
    assert(s.subrange(6, 6 + l1) =~= d1);
    assert(s.subrange(6 + l1, 21 + l1) =~= card_middle());
    assert(s.subrange(7 + l1, 20 + l1) =~= permissions_key());
    assert(s.subrange(21 + l1, 21 + l1 + l2) =~= d2);
    assert(s[0] == s.subrange(0, 6)[0]);
    assert(s[5] == s.subrange(0, 6)[5]);
    assert(s[6 + l1] == s.subrange(6 + l1, 21 + l1)[0]);
    assert(s[20 + l1] == s.subrange(6 + l1, 21 + l1)[14]);
}

/// The position of the first byte at or after `i` that is not whitespace.
pub fn skip_ws_from(s: &[u8], i: usize) -> (r: usize)
    requires
        i <= s@.len(),
    ensures
        r as nat == skip_ws(s@, i as nat),
        r <= s@.len(),
{
    let mut j: usize = i;
    while j < s.len() && (s[j] == 0x20 || s[j] == 0x09 || s[j] == 0x0a || s[j] == 0x0d)
        invariant
            i <= j <= s@.len(),
            skip_ws(s@, j as nat) == skip_ws(s@, i as nat),
        decreases s@.len() - j,
    {
        j = j + 1;
    }
    j
}

/// Whether `s` holds the bytes `t` from `i` on.
pub fn token_from(s: &[u8], i: usize, t: &[u8]) -> (r: bool)
    requires
        i <= s@.len(),
    ensures
        r == token_at(s@, i as nat, t@),
{
    if t.len() > s.len() - i {
        return false;
    }
    let mut k: usize = 0;
    while k < t.len()
        invariant
            k <= t@.len(),
            i + t@.len() <= s@.len(),
            s@.len() <= usize::MAX,
            forall|m: int| 0 <= m < k ==> s@[i + m] == t@[m],
        decreases t@.len() - k,
    {
        if s[i + k] != t[k] {
            assert(s@.subrange(i as int, (i + t@.len()) as int)[k as int] != t@[k as int]);
            return false;
        }
        k = k + 1;
    }
    assert(s@.subrange(i as int, (i + t@.len()) as int) =~= t@);
    true
}

/// The unsigned integer written at `i` and the position after it, where it is at most
/// `limit`.
#[verifier::rlimit(30)]
pub fn number_from(s: &[u8], i: usize, limit: u32) -> (r: Option<(u32, usize)>)
    requires
        i <= s@.len(),
        limit <= 0xffff,
    ensures
        match r {
            Some((v, e)) => number_at(s@, i as nat) == Some((v as nat, e as nat)) && v <= limit
                && e <= s@.len(),
            None => match number_at(s@, i as nat) {
                None => true,
                Some((v, _)) => v > limit,
            },
        },
{
    let mut j: usize = i;
    let mut v: u32 = 0;
    let len = s.len();
    assert(s@.subrange(i as int, i as int) =~= Seq::<u8>::empty());
    while j < len && 0x30 <= s[j] && s[j] <= 0x39
        invariant
            i <= j <= s@.len(),
            v <= limit,
            limit <= 0xffff,
            len == s@.len(),
            v as nat == digits_value(s@.subrange(i as int, j as int)),
            digits_end(s@, j as nat) == digits_end(s@, i as nat),
            forall|k: int| i <= k < j ==> is_digit(#[trigger] s@[k]),
            j > i + 1 ==> s@[i as int] != 0x30,
        decreases s@.len() - j,
    {
        if j > i && s[i] == 0x30 {
            proof {
                lemma_digits_end_ge(s@, (j + 1) as nat);
            }
            return None;
        }
        let d = (s[j] - 0x30) as u32;
        proof {
            assert(s@.subrange(i as int, j + 1).drop_last() =~= s@.subrange(i as int, j as int));
        }
        v = v * 10 + d;
        j = j + 1;
        proof {
            assert(digits_end(s@, (j - 1) as nat) == digits_end(s@, j as nat));
        }
        if v > limit {
            proof {
                let e = digits_end(s@, i as nat);
                lemma_digits_end_ge(s@, j as nat);
                lemma_digits_end_ge(s@, i as nat);
                lemma_value_prefix(s@.subrange(i as int, e as int), (j - i) as nat);
                assert(s@.subrange(i as int, e as int).take((j - i) as int) =~= s@.subrange(
                    i as int,
                    j as int,
                ));
            }
            return None;
        }
    }
    if j == i {
        return None;
    }
    Some((v, j))
}

/// The member `key : number` whose key starts at `i`, where its number is at most `limit`.
pub fn member_from(s: &[u8], i: usize, key: &[u8], limit: u32) -> (r: Option<(u32, usize)>)
    requires
        i <= s@.len(),
        limit <= 0xffff,
    ensures
        match r {
            Some((v, e)) => member_at(s@, i as nat, key@) == Some((v as nat, e as nat)) && v
                <= limit && e <= s@.len(),
            None => match member_at(s@, i as nat, key@) {
                None => true,
                Some((v, _)) => v > limit,
            },
        },
{
    let len = s.len();
    if !token_from(s, i, key) {
        return None;
    }
    let c = skip_ws_from(s, i + key.len());
    if c >= len || s[c] != 0x3a {
        return None;
    }
    let n = skip_ws_from(s, c + 1);
    number_from(s, n, limit)
}

/// The bytes of the quoted key `"id"`.
pub fn id_key_bytes() -> (r: Vec<u8>)
    ensures
        r@ == id_key(),
{
    let r: Vec<u8> = vec![0x22, 0x69, 0x64, 0x22];
    assert(r@ =~= id_key());
    r
}

/// The bytes of the quoted key `"permissions"`.
pub fn permissions_key_bytes() -> (r: Vec<u8>)
    ensures
        r@ == permissions_key(),
{
    let r: Vec<u8> = vec![0x22, 0x70, 0x65, 0x72, 0x6d, 0x69, 0x73, 0x73, 0x69, 0x6f, 0x6e, 0x73, 0x22];
    assert(r@ =~= permissions_key());
    r
}


/// Appends every byte of `t`.
fn push_all(out: &mut Vec<u8>, t: &[u8])
    ensures
        final(out)@ == old(out)@ + t@,
{
    let mut k: usize = 0;
    while k < t.len()
        invariant
            k <= t@.len(),
            out@ == old(out)@ + t@.take(k as int),
        decreases t@.len() - k,
    {
        out.push(t[k]);
        k = k + 1;
        assert(t@.take(k as int) =~= t@.take(k - 1).push(t@[k - 1]));
    }
    assert(t@.take(k as int) =~= t@);
}

/// Appends the shortest decimal text of `n`.
fn push_decimal(out: &mut Vec<u8>, n: u16)
    ensures
        final(out)@ == old(out)@ + decimal(n as nat),
    decreases n,
{
    if n >= 10 {
        push_decimal(out, n / 10);
    }
    out.push((n % 10) as u8 + 0x30);
    assert(out@ =~= old(out)@ + decimal(n as nat));
}

/// The canonical text of the card with id `id` and permission bits `bits`.
pub fn card_bytes(id: u16, bits: u8) -> (r: Vec<u8>)
    ensures
        r@ == card_text(id as nat, bits as nat),
{
    let head: Vec<u8> = vec![0x7b, 0x22, 0x69, 0x64, 0x22, 0x3a];
    let middle: Vec<u8> = vec![
        0x2c, 0x22, 0x70, 0x65, 0x72, 0x6d, 0x69, 0x73, 0x73, 0x69, 0x6f, 0x6e, 0x73, 0x22, 0x3a,
    ];
    assert(head@ =~= card_head());
    assert(middle@ =~= card_middle());
    let mut out: Vec<u8> = Vec::new();
    push_all(&mut out, head.as_slice());
    push_decimal(&mut out, id);
    push_all(&mut out, middle.as_slice());
    push_decimal(&mut out, bits as u16);
    out.push(0x7d);
    assert(out@ =~= card_text(id as nat, bits as nat));
    out
}

/// The id and the permission bits written in `s`, where `s` is the text of a card whose
/// id fits 16 bits and whose bits are all recognized.
pub fn parse_card_bytes(s: &[u8]) -> (r: Option<(u16, u8)>)
    ensures
        match r {
            Some((id, bits)) => parse_card(s@) == Some((id as nat, bits as nat)) && bits
                <= 0x3f,
            None => !(parse_card(s@) matches Some((id, bits)) && id <= 0xffff && bits <= 0x3f),
        },
{
    let len = s.len();
    let o = skip_ws_from(s, 0);
    if o >= len || s[o] != 0x7b {
        return None;
    }
    let k1 = skip_ws_from(s, o + 1);
    let id_key = id_key_bytes();
    let permissions_key = permissions_key_bytes();
    let id_first = token_from(s, k1, id_key.as_slice());
    let first = if id_first {
        member_from(s, k1, id_key.as_slice(), 0xffff)
    } else {
        member_from(s, k1, permissions_key.as_slice(), 0x3f)
    };
    let (v1, e1) = match first {
        None => {
            return None;
        },
        Some(m) => m,
    };
    let c = skip_ws_from(s, e1);
    if c >= len || s[c] != 0x2c {
        return None;
    }
    let k2 = skip_ws_from(s, c + 1);
    let second = if id_first {
        member_from(s, k2, permissions_key.as_slice(), 0x3f)
    } else {
        member_from(s, k2, id_key.as_slice(), 0xffff)
    };
    let (v2, e2) = match second {
        None => {
            return None;
        },
        Some(m) => m,
    };
    let z = skip_ws_from(s, e2);
    if z >= len || s[z] != 0x7d {
        return None;
    }
    if skip_ws_from(s, z + 1) != len {
        return None;
    }
    if id_first {
        Some((v1 as u16, v2 as u8))
    } else {
        Some((v2 as u16, v1 as u8))
    }
}

} // verus!
