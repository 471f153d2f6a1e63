//! The compact JSON framing shared by the message header and the MLS state blobs:
//! arrays of byte values written as decimal numbers, and strings of plain characters,
//! with encoders and exact parsers.

use vstd::prelude::*;

use crate::bytes::{decimal_ascii, push_decimal};

verus! {

/// The bytes of `values` as a JSON array of decimal numbers, without brackets:
/// `1,2,3`.
pub open spec fn json_number_list(values: Seq<u8>) -> Seq<u8>
    decreases values.len(),
{
    if values.len() == 0 {
        Seq::empty()
    } else if values.len() == 1 {
        decimal_ascii(values[0] as nat)
    } else {
        json_number_list(values.drop_last()) + seq![44u8] + decimal_ascii(values.last() as nat)
    }
}

/// An ASCII decimal digit.
pub open spec fn is_digit(b: u8) -> bool {
    48 <= b <= 57
}

/// A byte that a JSON string holds as itself: no quote, no backslash, no control
/// character.
pub open spec fn plain_byte(b: u8) -> bool {
    b >= 32 && b != 34 && b != 92
}

/// Text made of plain bytes only.
pub open spec fn plain_text(t: Seq<u8>) -> bool {
    forall|i: int| 0 <= i < t.len() ==> plain_byte(#[trigger] t[i])
}

/// `bytes` holds `piece` from `pos` on.
pub open spec fn holds_at(bytes: Seq<u8>, pos: int, piece: Seq<u8>) -> bool {
    0 <= pos && pos + piece.len() <= bytes.len() && bytes.subrange(pos, pos + piece.len()) == piece
}

/// Append the decimal numbers of `values`, separated by commas.
pub fn append_number_list(v: &mut Vec<u8>, values: &[u8])
    ensures
        final(v)@ == old(v)@ + json_number_list(values@),
{
    let mut i: usize = 0;
    while i < values.len()
        invariant
            i <= values@.len(),
            v@ == old(v)@ + json_number_list(values@.take(i as int)),
        decreases values@.len() - i,
    {
        let ghost before = v@;
        if i > 0 {
            v.push(44u8);
        }
        push_decimal(v, values[i] as u64);
        assert(values@.take(i + 1).drop_last() =~= values@.take(i as int));
        if i > 0 {
            assert(v@ =~= before + seq![44u8] + decimal_ascii(values@[i as int] as nat));
        } else {
            assert(values@.take(1) =~= seq![values@[0]]);
        }
        assert(v@ =~= old(v)@ + json_number_list(values@.take(i + 1)));
        i = i + 1;
    }
    assert(values@.take(values@.len() as int) =~= values@);
}

/// The decimal digits of a byte value, by its number of digits.
proof fn lemma_decimal_byte(x: u8)
    ensures
        x < 10 ==> decimal_ascii(x as nat) == seq![(48 + x) as u8],
        10 <= x < 100 ==> decimal_ascii(x as nat) == seq![(48 + x / 10) as u8, (48 + x % 10) as u8],
        100 <= x ==> decimal_ascii(x as nat) == seq![
            (48 + x / 100) as u8,
            (48 + (x / 10) % 10) as u8,
            (48 + x % 10) as u8,
        ],
        1 <= decimal_ascii(x as nat).len() <= 3,
        is_digit(decimal_ascii(x as nat)[0]),
{
    reveal_with_fuel(decimal_ascii, 3);
    if x >= 100 {
        assert((x / 10) / 10 == x / 100);
        assert(decimal_ascii((x / 10) as nat) =~= seq![(48 + x / 100) as u8, (48 + (x / 10) % 10) as u8]);
        assert(decimal_ascii(x as nat) =~= seq![
            (48 + x / 100) as u8,
            (48 + (x / 10) % 10) as u8,
            (48 + x % 10) as u8,
        ]);
    } else if x >= 10 {
        assert(decimal_ascii(x as nat) =~= seq![(48 + x / 10) as u8, (48 + x % 10) as u8]);
    }
}

/// What `bytes` holds at `pos` when the decimal number of `x` stands there, followed by
/// a byte that is not a digit.
proof fn lemma_number_at(bytes: Seq<u8>, pos: int, x: u8)
    requires
        holds_at(bytes, pos, decimal_ascii(x as nat)),
        pos + decimal_ascii(x as nat).len() < bytes.len(),
        !is_digit(bytes[pos + decimal_ascii(x as nat).len()]),
    ensures
        x < 10 ==> bytes[pos] == 48 + x && !is_digit(bytes[pos + 1]),
        10 <= x < 100 ==> bytes[pos] == 48 + x / 10 && bytes[pos + 1] == 48 + x % 10 && !is_digit(
            bytes[pos + 2],
        ),
        100 <= x ==> bytes[pos] == 48 + x / 100 && bytes[pos + 1] == 48 + (x / 10) % 10 && bytes[pos + 2]
            == 48 + x % 10 && !is_digit(bytes[pos + 3]),
{
    lemma_decimal_byte(x);
    let d = decimal_ascii(x as nat);
    assert(bytes.subrange(pos, pos + d.len())[0] == bytes[pos]);
    if d.len() >= 2 {
        assert(bytes.subrange(pos, pos + d.len())[1] == bytes[pos + 1]);
    }
    if d.len() >= 3 {
        assert(bytes.subrange(pos, pos + d.len())[2] == bytes[pos + 2]);
    }
}

/// Read the decimal number of a byte value at `pos`.
fn parse_byte_number(bytes: &[u8], pos: usize, Ghost(target): Ghost<u8>) -> (r: Option<(u8, usize)>)
    ensures
        r matches Some((x, end)) ==> pos < end <= bytes@.len() && bytes@.subrange(pos as int, end as int)
            == decimal_ascii(x as nat),
        holds_at(bytes@, pos as int, decimal_ascii(target as nat)) && pos + decimal_ascii(target as nat).len()
            < bytes@.len() && !is_digit(bytes@[pos + decimal_ascii(target as nat).len()]) ==> r == Some(
            (target, (pos + decimal_ascii(target as nat).len()) as usize),
        ),
{
    let ghost hit: bool = holds_at(bytes@, pos as int, decimal_ascii(target as nat)) && pos
        + decimal_ascii(target as nat).len() < bytes@.len() && !is_digit(
        bytes@[pos + decimal_ascii(target as nat).len()],
    );
    proof {
        lemma_decimal_byte(target);
        if hit {
            lemma_number_at(bytes@, pos as int, target);
        }
    }
    if pos >= bytes.len() {
        return None;
    }
    let d0 = bytes[pos];
    if d0 < 48 || d0 > 57 {
        return None;
    }
    if d0 == 48 {
        proof {
            lemma_decimal_byte(0u8);
            assert(bytes@.subrange(pos as int, pos + 1) =~= seq![48u8]);
        }
        return Some((0u8, pos + 1));
    }
    let a: u32 = (d0 - 48) as u32;
    if pos + 1 >= bytes.len() || bytes[pos + 1] < 48 || bytes[pos + 1] > 57 {
        proof {
            lemma_decimal_byte(a as u8);
            assert(bytes@.subrange(pos as int, pos + 1) =~= seq![d0]);
        }
        return Some((a as u8, pos + 1));
    }
    let b: u32 = (bytes[pos + 1] - 48) as u32;
    if pos + 2 >= bytes.len() || bytes[pos + 2] < 48 || bytes[pos + 2] > 57 {
        let value: u32 = a * 10 + b;
        proof {
            lemma_decimal_byte(value as u8);
            assert(value / 10 == a && value % 10 == b);
            assert(bytes@.subrange(pos as int, pos + 2) =~= seq![d0, bytes@[pos + 1]]);
            if hit && target >= 10 {
                assert(target == (target / 10) * 10 + target % 10);
            }
        }
        return Some((value as u8, pos + 2));
    }
    let c: u32 = (bytes[pos + 2] - 48) as u32;
    if pos + 3 < bytes.len() && bytes[pos + 3] >= 48 && bytes[pos + 3] <= 57 {
        return None;
    }
    let value: u32 = a * 100 + b * 10 + c;
    proof {
        if hit && target >= 100 {
            assert(target == (target / 100) * 100 + ((target / 10) % 10) * 10 + target % 10) by (nonlinear_arith)
                requires
                    100 <= target <= 255,
            ;
        }
    }
    if value > 255 {
        return None;
    }
    proof {
        lemma_decimal_byte(value as u8);
        assert(value / 100 == a && (value / 10) % 10 == b && value % 10 == c) by (nonlinear_arith)
            requires
                value == a * 100 + b * 10 + c,
                1 <= a <= 9,
                b <= 9,
                c <= 9,
        ;
        assert(bytes@.subrange(pos as int, pos + 3) =~= seq![d0, bytes@[pos + 1], bytes@[pos + 2]]);
    }
    Some((value as u8, pos + 3))
}

/// The encoding of the first `k` values is a prefix of the encoding of all of them.
proof fn lemma_number_list_prefix(values: Seq<u8>, k: int)
    requires
        0 <= k <= values.len(),
    ensures
        json_number_list(values.take(k)).len() <= json_number_list(values).len(),
        json_number_list(values).subrange(0, json_number_list(values.take(k)).len() as int)
            == json_number_list(values.take(k)),
    decreases values.len() - k,
{
    if k == values.len() {
        assert(values.take(k) =~= values);
    } else {
        lemma_number_list_prefix(values, k + 1);
        let t = values.take(k + 1);
        assert(t.drop_last() =~= values.take(k));
        let whole = json_number_list(values);
        let longer = json_number_list(t);
        let shorter = json_number_list(values.take(k));
        assert(longer.subrange(0, shorter.len() as int) =~= shorter);
        assert(whole.subrange(0, shorter.len() as int) =~= longer.subrange(0, shorter.len() as int));
    }
}

/// The encoding of `k + 1` values: that of the first `k`, a comma if `k > 0`, then the
/// next number.
proof fn lemma_number_list_step(values: Seq<u8>, k: int)
    requires
        0 <= k < values.len(),
    ensures
        json_number_list(values.take(k + 1)) == json_number_list(values.take(k)) + (if k > 0 {
            seq![44u8]
        } else {
            Seq::<u8>::empty()
        }) + decimal_ascii(values[k] as nat),
{
    let t = values.take(k + 1);
    assert(t.drop_last() =~= values.take(k));
    if k == 0 {
        assert(json_number_list(values.take(0)) =~= Seq::<u8>::empty());
    }
}

/// Where the `k`-th number of an encoded list stands in `bytes`, and what follows it.
proof fn lemma_next_number(bytes: Seq<u8>, pos: int, target: Seq<u8>, k: int)
    requires
        0 <= k < target.len(),
        holds_at(bytes, pos, json_number_list(target)),
        pos + json_number_list(target).len() < bytes.len(),
        bytes[pos + json_number_list(target).len()] == 93,
    ensures
        ({
            let start = pos + json_number_list(target.take(k)).len() + (if k > 0 {
                1int
            } else {
                0int
            });
            let d = decimal_ascii(target[k] as nat);
            &&& holds_at(bytes, start, d)
            &&& start + d.len() < bytes.len()
            &&& start + d.len() == pos + json_number_list(target.take(k + 1)).len()
            &&& (k + 1 < target.len() ==> bytes[start + d.len()] == 44)
            &&& (k + 1 == target.len() ==> bytes[start + d.len()] == 93)
        }),
{
    let whole = json_number_list(target);
    let shorter = json_number_list(target.take(k));
    let longer = json_number_list(target.take(k + 1));
    let sep: Seq<u8> = if k > 0 {
        seq![44u8]
    } else {
        Seq::<u8>::empty()
    };
    let d = decimal_ascii(target[k] as nat);
    let start = pos + shorter.len() + sep.len();
    lemma_number_list_prefix(target, k + 1);
    lemma_number_list_step(target, k);
    assert(bytes.subrange(pos, pos + whole.len()) == whole);
    assert(bytes.subrange(start, start + d.len()) =~= whole.subrange((shorter.len() + sep.len()) as int, longer.len() as int));
    assert(whole.subrange((shorter.len() + sep.len()) as int, longer.len() as int) =~= longer.subrange(
        (shorter.len() + sep.len()) as int,
        longer.len() as int,
    ));
    assert(longer.subrange((shorter.len() + sep.len()) as int, longer.len() as int) =~= d);
    if k + 1 < target.len() {
        lemma_number_list_prefix(target, k + 2);
        lemma_number_list_step(target, k + 1);
        let after = json_number_list(target.take(k + 2));
        assert(after[longer.len() as int] == 44);
        assert(whole.subrange(0, after.len() as int)[longer.len() as int] == 44);
        assert(bytes.subrange(pos, pos + whole.len())[longer.len() as int] == bytes[pos + longer.len()]);
    } else {
        assert(target.take(k + 1) =~= target);
    }
}

/// Read a list of decimal byte values starting at `pos` and ending before a `]`; the
/// result is the values and the position of the `]`.
pub fn parse_number_list(bytes: &[u8], pos: usize, Ghost(target): Ghost<Seq<u8>>) -> (r: Option<(Vec<u8>, usize)>)
    ensures
        r matches Some((v, end)) ==> pos <= end < bytes@.len() && bytes@.subrange(pos as int, end as int)
            == json_number_list(v@) && bytes@[end as int] == 93,
        holds_at(bytes@, pos as int, json_number_list(target)) && pos + json_number_list(target).len()
            < bytes@.len() && bytes@[pos + json_number_list(target).len()] == 93 ==> (r matches Some((v, end))
            && v@ == target && end == pos + json_number_list(target).len()),
{
    let ghost hit: bool = holds_at(bytes@, pos as int, json_number_list(target)) && pos + json_number_list(
        target,
    ).len() < bytes@.len() && bytes@[pos + json_number_list(target).len()] == 93;
    let mut out: Vec<u8> = Vec::new();
    if pos >= bytes.len() {
        return None;
    }
    if bytes[pos] == 93 {
        proof {
            assert(bytes@.subrange(pos as int, pos as int) =~= json_number_list(out@));
            if hit && target.len() > 0 {
                lemma_next_number(bytes@, pos as int, target, 0);
                assert(target.take(0) =~= Seq::<u8>::empty());
                lemma_decimal_byte(target[0]);
                assert(bytes@.subrange(pos as int, pos + decimal_ascii(target[0] as nat).len())[0]
                    == bytes@[pos as int]);
            }
            if hit && target.len() == 0 {
                assert(target =~= out@);
            }
        }
        return Some((out, pos));
    }
    let mut p: usize = pos;
    loop
        invariant
            pos <= p <= bytes@.len(),
            bytes@.subrange(pos as int, p as int) == json_number_list(out@) + (if out@.len() > 0 {
                seq![44u8]
            } else {
                Seq::<u8>::empty()
            }),
            hit == (holds_at(bytes@, pos as int, json_number_list(target)) && pos + json_number_list(
                target,
            ).len() < bytes@.len() && bytes@[pos + json_number_list(target).len()] == 93),
            hit ==> out@.len() < target.len() && out@ == target.take(out@.len() as int),
        decreases bytes@.len() - p,
    {
        let ghost k = out@.len() as int;
        let ghost next: u8 = if hit {
            target[k]
        } else {
            0u8
        };
        proof {
            if hit {
                lemma_next_number(bytes@, pos as int, target, k);
                assert(bytes@.subrange(pos as int, p as int).len() == p - pos);
                assert(p == pos + json_number_list(target.take(k)).len() + (if k > 0 {
                    1int
                } else {
                    0int
                }));
            }
        }
        let (x, e) = match parse_byte_number(bytes, p, Ghost(next)) {
            Some(pair) => pair,
            None => {
                return None;
            },
        };
        let ghost before = out@;
        out.push(x);
        proof {
            lemma_number_list_step(out@, k);
            assert(out@.take(k) =~= before);
            assert(out@.take(k + 1) =~= out@);
            assert(bytes@.subrange(pos as int, e as int) =~= bytes@.subrange(pos as int, p as int)
                + bytes@.subrange(p as int, e as int));
            if hit {
                assert(out@ =~= target.take(k + 1));
            }
        }
        p = e;
        if p >= bytes.len() {
            return None;
        }
        if bytes[p] == 93 {
            proof {
                if hit {
                    assert(out@ =~= target);
                }
            }
            return Some((out, p));
        }
        if bytes[p] != 44 {
            return None;
        }
        proof {
            assert(bytes@.subrange(pos as int, p + 1) =~= bytes@.subrange(pos as int, p as int) + seq![44u8]);
        }
        p = p + 1;
    }
}

/// Read plain text starting at `pos` and ending before a `"`; the result is the text and
/// the position of the `"`.
pub fn parse_plain_text(bytes: &[u8], pos: usize, Ghost(target): Ghost<Seq<u8>>) -> (r: Option<(Vec<u8>, usize)>)
    ensures
        r matches Some((t, end)) ==> pos <= end < bytes@.len() && bytes@.subrange(pos as int, end as int)
            == t@ && plain_text(t@) && bytes@[end as int] == 34,
        plain_text(target) && holds_at(bytes@, pos as int, target) && pos + target.len() < bytes@.len()
            && bytes@[pos + target.len()] == 34 ==> (r matches Some((t, end)) && t@ == target && end == pos
            + target.len()),
{
    let mut out: Vec<u8> = Vec::new();
    if pos > bytes.len() {
        return None;
    }
    let mut p: usize = pos;
    assert(out@ =~= bytes@.subrange(pos as int, p as int));
    while p < bytes.len()
        invariant
            pos <= p <= bytes@.len(),
            out@ == bytes@.subrange(pos as int, p as int),
            plain_text(out@),
            plain_text(target) && holds_at(bytes@, pos as int, target) && pos + target.len() < bytes@.len()
                && bytes@[pos + target.len()] == 34 ==> p <= pos + target.len(),
        decreases bytes@.len() - p,
    {
        let b = bytes[p];
        if b == 34 {
            proof {
                if plain_text(target) && holds_at(bytes@, pos as int, target) && pos + target.len()
                    < bytes@.len() && bytes@[pos + target.len()] == 34 {
                    if p < pos + target.len() {
                        assert(target[p - pos] == bytes@[p as int]);
                    }
                    assert(out@ =~= target);
                }
            }
            return Some((out, p));
        }
        if b < 32 || b == 92 {
            proof {
                if plain_text(target) && holds_at(bytes@, pos as int, target) && pos + target.len()
                    < bytes@.len() && bytes@[pos + target.len()] == 34 {
                    assert(p < pos + target.len());
                    assert(target[p - pos] == bytes@[p as int]);
                }
            }
            return None;
        }
        out.push(b);
        proof {
            assert(out@ =~= bytes@.subrange(pos as int, p + 1));
        }
        p = p + 1;
    }
    None
}

/// Whether `bytes` holds `piece` from `pos` on.
pub fn bytes_at(bytes: &[u8], pos: usize, piece: &[u8]) -> (r: bool)
    ensures
        r == holds_at(bytes@, pos as int, piece@),
{
    if pos > bytes.len() || piece.len() > bytes.len() - pos {
        return false;
    }
    let end: usize = pos + piece.len();
    let mut i: usize = 0;
    while i < piece.len()
        invariant
            i <= piece@.len(),
            end == pos + piece@.len(),
            pos + piece@.len() <= bytes@.len(),
            forall|j: int| 0 <= j < i ==> bytes@[pos + j] == piece@[j],
        decreases piece@.len() - i,
    {
        assert(pos + i < end);
        if bytes[pos + i] != piece[i] {
            proof {
                assert(bytes@.subrange(pos as int, pos + piece@.len())[i as int] != piece@[i as int]);
            }
            return false;
        }
        i = i + 1;
    }
    assert(bytes@.subrange(pos as int, pos + piece@.len()) =~= piece@);
    true
}

} // verus!
