//! The opaque state blobs that carry an MLS group, or the secrets of a key package,
//! between calls: a compact JSON object holding the provider's key store (base64 text
//! by base64 text), the JSON of the signing key pair and of the credential, and, for a
//! group, the JSON of its identifier.

use vstd::prelude::*;

use crate::bytes::append_bytes;
use crate::json::{
    append_number_list, bytes_at, holds_at, json_number_list, parse_number_list, parse_plain_text,
    plain_text,
};

verus! {

/// The values a state blob carries.
#[verifier::ext_equal]
pub struct BundleFields {
    /// The key store's entries, key text and value text.
    pub store: Seq<(Seq<u8>, Seq<u8>)>,
    pub signer: Seq<u8>,
    pub credential_with_key: Seq<u8>,
    /// Present in a group's state, absent in a key package's secrets.
    pub group_id: Option<Seq<u8>>,
}

/// A state blob's contents.
pub struct StateBundle {
    /// The key store's entries as base64 text: key, value.
    pub store: Vec<(Vec<u8>, Vec<u8>)>,
    /// JSON of the signature key pair.
    pub signer: Vec<u8>,
    /// JSON of the credential with its key.
    pub credential_with_key: Vec<u8>,
    /// JSON of the group identifier.
    pub group_id: Option<Vec<u8>>,
}

/// The store entries as byte strings.
pub open spec fn entries_view(v: Seq<(Vec<u8>, Vec<u8>)>) -> Seq<(Seq<u8>, Seq<u8>)> {
    v.map_values(|e: (Vec<u8>, Vec<u8>)| (e.0@, e.1@))
}

impl View for StateBundle {
    type V = BundleFields;

    open spec fn view(&self) -> BundleFields {
        BundleFields {
            store: entries_view(self.store@),
            signer: self.signer@,
            credential_with_key: self.credential_with_key@,
            group_id: match self.group_id {
                Some(g) => Some(g@),
                None => None,
            },
        }
    }
}

/// Text between double quotes.
pub open spec fn quoted(t: Seq<u8>) -> Seq<u8> {
    seq![34u8] + t + seq![34u8]
}

/// One store entry as a JSON member: `"key":"value"`.
pub open spec fn entry_json(e: (Seq<u8>, Seq<u8>)) -> Seq<u8> {
    quoted(e.0) + seq![58u8] + quoted(e.1)
}

/// The store entries as JSON members separated by commas.
pub open spec fn entries_json(es: Seq<(Seq<u8>, Seq<u8>)>) -> Seq<u8>
    decreases es.len(),
{
    if es.len() == 0 {
        Seq::empty()
    } else if es.len() == 1 {
        entry_json(es[0])
    } else {
        entries_json(es.drop_last()) + seq![44u8] + entry_json(es.last())
    }
}

/// Every key and value text of the store is plain.
pub open spec fn store_plain(es: Seq<(Seq<u8>, Seq<u8>)>) -> bool {
    forall|i: int| 0 <= i < es.len() ==> plain_text(#[trigger] es[i].0) && plain_text(es[i].1)
}

/// ASCII `{"store":{`.
#[verifier::opaque]
pub open spec fn store_open() -> Seq<u8> {
    seq![123u8, 34u8, 115u8, 116u8, 111u8, 114u8, 101u8, 34u8, 58u8, 123u8]
}

/// ASCII `},"signer":[`.
#[verifier::opaque]
pub open spec fn signer_open() -> Seq<u8> {
    seq![125u8, 44u8, 34u8, 115u8, 105u8, 103u8, 110u8, 101u8, 114u8, 34u8, 58u8, 91u8]
}

/// ASCII `],"credential_with_key":[`.
#[verifier::opaque]
pub open spec fn credential_open() -> Seq<u8> {
    seq![
        93u8, 44u8, 34u8, 99u8, 114u8, 101u8, 100u8, 101u8, 110u8, 116u8, 105u8, 97u8, 108u8, 95u8,
        119u8, 105u8, 116u8, 104u8, 95u8, 107u8, 101u8, 121u8, 34u8, 58u8, 91u8,
    ]
}

/// ASCII `],"group_id":[`.
#[verifier::opaque]
pub open spec fn group_id_open() -> Seq<u8> {
    seq![93u8, 44u8, 34u8, 103u8, 114u8, 111u8, 117u8, 112u8, 95u8, 105u8, 100u8, 34u8, 58u8, 91u8]
}

/// The compact JSON object of a state blob, members in this order: `store` (an object
/// of strings), `signer`, `credential_with_key` and, for a group, `group_id` (arrays of
/// byte values).
pub open spec fn bundle_json(b: BundleFields) -> Seq<u8> {
    store_open() + entries_json(b.store) + signer_open() + json_number_list(b.signer) + credential_open()
        + json_number_list(b.credential_with_key) + (match b.group_id {
        Some(g) => group_id_open() + json_number_list(g),
        None => Seq::empty(),
    }) + seq![93u8, 125u8]
}

fn append_entry(v: &mut Vec<u8>, key: &[u8], value: &[u8])
    ensures
        final(v)@ == old(v)@ + entry_json((key@, value@)),
{
    v.push(34u8);
    append_bytes(v, key);
    v.push(34u8);
    v.push(58u8);
    v.push(34u8);
    append_bytes(v, value);
    v.push(34u8);
    assert(v@ =~= old(v)@ + entry_json((key@, value@)));
}

/// The blob of a state bundle.
pub fn encode_bundle(b: &StateBundle) -> (r: Vec<u8>)
    ensures
        r@ == bundle_json(b@),
{
    let mut out: Vec<u8> = Vec::new();
    let open: [u8; 10] = [123u8, 34u8, 115u8, 116u8, 111u8, 114u8, 101u8, 34u8, 58u8, 123u8];
    assert(open@ =~= store_open()) by {
        reveal(store_open);
    }
    append_bytes(&mut out, &open);
    let mut i: usize = 0;
    while i < b.store.len()
        invariant
            i <= b.store@.len(),
            out@ == store_open() + entries_json(entries_view(b.store@).take(i as int)),
        decreases b.store@.len() - i,
    {
        let ghost before = out@;
        if i > 0 {
            out.push(44u8);
        }
        append_entry(&mut out, b.store[i].0.as_slice(), b.store[i].1.as_slice());
        proof {
            let es = entries_view(b.store@);
            assert(es.take(i + 1).drop_last() =~= es.take(i as int));
            if i == 0 {
                assert(es.take(1) =~= seq![es[0]]);
                assert(out@ =~= store_open() + entries_json(es.take(1)));
            } else {
                assert(out@ =~= store_open() + entries_json(es.take(i as int)) + seq![44u8] + entry_json(
                    es[i as int],
                ));
            }
        }
        i = i + 1;
    }
    assert(entries_view(b.store@).take(b.store@.len() as int) =~= entries_view(b.store@));
    let signer: [u8; 12] = [125u8, 44u8, 34u8, 115u8, 105u8, 103u8, 110u8, 101u8, 114u8, 34u8, 58u8, 91u8];
    assert(signer@ =~= signer_open()) by {
        reveal(signer_open);
    }
    append_bytes(&mut out, &signer);
    append_number_list(&mut out, b.signer.as_slice());
    let credential: [u8; 25] = [
        93u8, 44u8, 34u8, 99u8, 114u8, 101u8, 100u8, 101u8, 110u8, 116u8, 105u8, 97u8, 108u8, 95u8,
        119u8, 105u8, 116u8, 104u8, 95u8, 107u8, 101u8, 121u8, 34u8, 58u8, 91u8,
    ];
    assert(credential@ =~= credential_open()) by {
        reveal(credential_open);
    }
    append_bytes(&mut out, &credential);
    append_number_list(&mut out, b.credential_with_key.as_slice());
    let ghost middle = out@;
    match &b.group_id {
        Some(g) => {
            let group: [u8; 14] = [93u8, 44u8, 34u8, 103u8, 114u8, 111u8, 117u8, 112u8, 95u8, 105u8, 100u8, 34u8, 58u8, 91u8];
            assert(group@ =~= group_id_open()) by {
                reveal(group_id_open);
            }
            append_bytes(&mut out, &group);
            append_number_list(&mut out, g.as_slice());
        },
        None => {},
    }
    out.push(93u8);
    out.push(125u8);
    assert(out@ =~= bundle_json(b@));
    out
}

/// The encoding of the first `k` entries is a prefix of the encoding of all of them.
proof fn lemma_entries_prefix(es: Seq<(Seq<u8>, Seq<u8>)>, k: int)
    requires
        0 <= k <= es.len(),
    ensures
        entries_json(es.take(k)).len() <= entries_json(es).len(),
        entries_json(es).subrange(0, entries_json(es.take(k)).len() as int) == entries_json(es.take(k)),
    decreases es.len() - k,
{
    if k == es.len() {
        assert(es.take(k) =~= es);
    } else {
        lemma_entries_prefix(es, k + 1);
        let t = es.take(k + 1);
        assert(t.drop_last() =~= es.take(k));
        let whole = entries_json(es);
        let longer = entries_json(t);
        let shorter = entries_json(es.take(k));
        assert(longer.subrange(0, shorter.len() as int) =~= shorter);
        assert(whole.subrange(0, shorter.len() as int) =~= longer.subrange(0, shorter.len() as int));
    }
}

/// The encoding of `k + 1` entries: that of the first `k`, a comma if `k > 0`, then the
/// next entry.
proof fn lemma_entries_step(es: Seq<(Seq<u8>, Seq<u8>)>, k: int)
    requires
        0 <= k < es.len(),
    ensures
        entries_json(es.take(k + 1)) == entries_json(es.take(k)) + (if k > 0 {
            seq![44u8]
        } else {
            Seq::<u8>::empty()
        }) + entry_json(es[k]),
{
    let t = es.take(k + 1);
    assert(t.drop_last() =~= es.take(k));
    if k == 0 {
        assert(entries_json(es.take(0)) =~= Seq::<u8>::empty());
    }
}

/// The pieces of an entry that stands in `bytes` at `start`.
proof fn lemma_entry_parts(bytes: Seq<u8>, start: int, key: Seq<u8>, value: Seq<u8>)
    requires
        holds_at(bytes, start, entry_json((key, value))),
    ensures
        bytes[start] == 34,
        holds_at(bytes, start + 1, key),
        bytes[start + 1 + key.len()] == 34,
        bytes[start + 2 + key.len()] == 58,
        bytes[start + 3 + key.len()] == 34,
        holds_at(bytes, start + 4 + key.len(), value),
        bytes[start + 4 + key.len() + value.len()] == 34,
        entry_json((key, value)).len() == 5 + key.len() + value.len(),
{
    let e = entry_json((key, value));
    let kl = key.len() as int;
    let vl = value.len() as int;
    let here = bytes.subrange(start, start + e.len());
    assert(here == e);
    assert(here[0] == bytes[start]);
    assert(bytes.subrange(start + 1, start + 1 + kl) =~= e.subrange(1, 1 + kl));
    assert(e.subrange(1, 1 + kl) =~= key);
    assert(here[1 + kl] == bytes[start + 1 + kl]);
    assert(here[2 + kl] == bytes[start + 2 + kl]);
    assert(here[3 + kl] == bytes[start + 3 + kl]);
    assert(bytes.subrange(start + 4 + kl, start + 4 + kl + vl) =~= e.subrange(4 + kl, 4 + kl + vl));
    assert(e.subrange(4 + kl, 4 + kl + vl) =~= value);
    assert(here[4 + kl + vl] == bytes[start + 4 + kl + vl]);
}

/// Where the `k`-th entry of an encoded store stands in `bytes`, and what follows it.
proof fn lemma_next_entry(bytes: Seq<u8>, pos: int, target: Seq<(Seq<u8>, Seq<u8>)>, k: int)
    requires
        0 <= k < target.len(),
        holds_at(bytes, pos, entries_json(target)),
        pos + entries_json(target).len() < bytes.len(),
        bytes[pos + entries_json(target).len()] == 125,
    ensures
        ({
            let start = pos + entries_json(target.take(k)).len() + (if k > 0 {
                1int
            } else {
                0int
            });
            let after = start + entry_json(target[k]).len();
            &&& holds_at(bytes, start, entry_json(target[k]))
            &&& after == pos + entries_json(target.take(k + 1)).len()
            &&& after < bytes.len()
            &&& (k + 1 < target.len() ==> bytes[after] == 44)
            &&& (k + 1 == target.len() ==> bytes[after] == 125)
        }),
{
    let whole = entries_json(target);
    let shorter = entries_json(target.take(k));
    let longer = entries_json(target.take(k + 1));
    let sep: Seq<u8> = if k > 0 {
        seq![44u8]
    } else {
        Seq::<u8>::empty()
    };
    let e = entry_json(target[k]);
    let start = pos + shorter.len() + sep.len();
    lemma_entries_prefix(target, k + 1);
    lemma_entries_step(target, k);
    assert(bytes.subrange(pos, pos + whole.len()) == whole);
    assert(bytes.subrange(start, start + e.len()) =~= whole.subrange(
        (shorter.len() + sep.len()) as int,
        longer.len() as int,
    ));
    assert(whole.subrange((shorter.len() + sep.len()) as int, longer.len() as int) =~= longer.subrange(
        (shorter.len() + sep.len()) as int,
        longer.len() as int,
    ));
    assert(longer.subrange((shorter.len() + sep.len()) as int, longer.len() as int) =~= e);
    if k + 1 < target.len() {
        lemma_entries_prefix(target, k + 2);
        lemma_entries_step(target, k + 1);
        let next = entries_json(target.take(k + 2));
        assert(next[longer.len() as int] == 44);
        assert(whole.subrange(0, next.len() as int)[longer.len() as int] == 44);
        assert(bytes.subrange(pos, pos + whole.len())[longer.len() as int] == bytes[pos + longer.len()]);
    } else {
        assert(target.take(k + 1) =~= target);
    }
}

/// Appending one more parsed entry keeps what the parsed prefix says of `bytes`.
proof fn lemma_entries_extend(
    bytes: Seq<u8>,
    pos: int,
    p: int,
    before: Seq<(Seq<u8>, Seq<u8>)>,
    key: Seq<u8>,
    value: Seq<u8>,
)
    requires
        0 <= pos <= p,
        p + 5 + key.len() + value.len() <= bytes.len(),
        bytes.subrange(pos, p) == entries_json(before) + (if before.len() > 0 {
            seq![44u8]
        } else {
            Seq::<u8>::empty()
        }),
        store_plain(before),
        plain_text(key),
        plain_text(value),
        bytes[p] == 34,
        bytes.subrange(p + 1, p + 1 + key.len()) == key,
        bytes[p + 1 + key.len()] == 34,
        bytes[p + 2 + key.len()] == 58,
        bytes[p + 3 + key.len()] == 34,
        bytes.subrange(p + 4 + key.len(), p + 4 + key.len() + value.len()) == value,
        bytes[p + 4 + key.len() + value.len()] == 34,
    ensures
        bytes.subrange(pos, p + 5 + key.len() + value.len()) == entries_json(before.push((key, value))),
        store_plain(before.push((key, value))),
{
    let es = before.push((key, value));
    let k = before.len() as int;
    assert(es.take(k) =~= before);
    assert(es.take(k + 1) =~= es);
    lemma_entries_step(es, k);
    let kl = key.len() as int;
    let vl = value.len() as int;
    assert(bytes.subrange(p, p + 5 + kl + vl) =~= entry_json((key, value)));
    assert(bytes.subrange(pos, p + 5 + kl + vl) =~= bytes.subrange(pos, p) + bytes.subrange(p, p + 5 + kl
        + vl));
    assert forall|i: int| 0 <= i < es.len() implies plain_text(#[trigger] es[i].0) && plain_text(es[i].1) by {
        if i < k {
            assert(es[i] == before[i]);
        }
    }
}

/// Read the store entries starting at `pos` and ending before a `}`; the result is the
/// entries and the position of the `}`.
fn parse_entries(bytes: &[u8], pos: usize, Ghost(target): Ghost<Seq<(Seq<u8>, Seq<u8>)>>) -> (r: Option<
    (Vec<(Vec<u8>, Vec<u8>)>, usize),
>)
    ensures
        r matches Some((v, end)) ==> pos <= end < bytes@.len() && bytes@.subrange(pos as int, end as int)
            == entries_json(entries_view(v@)) && bytes@[end as int] == 125 && store_plain(entries_view(v@)),
        store_plain(target) && holds_at(bytes@, pos as int, entries_json(target)) && pos + entries_json(
            target,
        ).len() < bytes@.len() && bytes@[pos + entries_json(target).len()] == 125 ==> (r matches Some(
            (v, end),
        ) && entries_view(v@) == target && end == pos + entries_json(target).len()),
{
    let ghost hit: bool = store_plain(target) && holds_at(bytes@, pos as int, entries_json(target)) && pos
        + entries_json(target).len() < bytes@.len() && bytes@[pos + entries_json(target).len()] == 125;
    let mut out: Vec<(Vec<u8>, Vec<u8>)> = Vec::new();
    if pos >= bytes.len() {
        return None;
    }
    if bytes[pos] == 125 {
        proof {
            assert(entries_view(out@) =~= Seq::<(Seq<u8>, Seq<u8>)>::empty());
            assert(bytes@.subrange(pos as int, pos as int) =~= entries_json(entries_view(out@)));
            if hit && target.len() > 0 {
                lemma_next_entry(bytes@, pos as int, target, 0);
                assert(target.take(0) =~= Seq::<(Seq<u8>, Seq<u8>)>::empty());
                assert(entries_json(target.take(0)) =~= Seq::<u8>::empty());
                assert(target[0] == (target[0].0, target[0].1));
                lemma_entry_parts(bytes@, pos as int, target[0].0, target[0].1);
            }
            if hit && target.len() == 0 {
                assert(target =~= entries_view(out@));
            }
        }
        return Some((out, pos));
    }
    let mut p: usize = pos;
    loop
        invariant
            pos <= p <= bytes@.len(),
            bytes@.subrange(pos as int, p as int) == entries_json(entries_view(out@)) + (if out@.len() > 0 {
                seq![44u8]
            } else {
                Seq::<u8>::empty()
            }),
            store_plain(entries_view(out@)),
            hit == (store_plain(target) && holds_at(bytes@, pos as int, entries_json(target)) && pos
                + entries_json(target).len() < bytes@.len() && bytes@[pos + entries_json(target).len()] == 125),
            hit ==> out@.len() < target.len() && entries_view(out@) == target.take(out@.len() as int),
        decreases bytes@.len() - p,
    {
        let ghost k = out@.len() as int;
        let ghost key_target: Seq<u8> = if hit {
            target[k].0
        } else {
            Seq::empty()
        };
        let ghost value_target: Seq<u8> = if hit {
            target[k].1
        } else {
            Seq::empty()
        };
        proof {
            if hit {
                lemma_next_entry(bytes@, pos as int, target, k);
                assert(bytes@.subrange(pos as int, p as int).len() == p - pos);
                assert(entries_view(out@) == target.take(k));
                assert(p == pos + entries_json(target.take(k)).len() + (if k > 0 {
                    1int
                } else {
                    0int
                }));
                assert(target[k] == (key_target, value_target));
                lemma_entry_parts(bytes@, p as int, key_target, value_target);
                assert(plain_text(target[k].0) && plain_text(target[k].1));
            }
        }
        if p >= bytes.len() || bytes[p] != 34 {
            return None;
        }
        let (key, e1) = match parse_plain_text(bytes, p + 1, Ghost(key_target)) {
            Some(pair) => pair,
            None => {
                return None;
            },
        };
        if bytes.len() - e1 <= 3 || bytes[e1 + 1] != 58 || bytes[e1 + 2] != 34 {
            return None;
        }
        let (value, e2) = match parse_plain_text(bytes, e1 + 3, Ghost(value_target)) {
            Some(pair) => pair,
            None => {
                return None;
            },
        };
        let ghost before = out@;
        proof {
            lemma_entries_extend(bytes@, pos as int, p as int, entries_view(before), key@, value@);
        }
        let ghost pair_view = (key@, value@);
        out.push((key, value));
        proof {
            assert(entries_view(out@) =~= entries_view(before).push(pair_view));
            if hit {
                assert(entries_view(out@) =~= target.take(k + 1));
            }
        }
        p = e2 + 1;
        if p >= bytes.len() {
            return None;
        }
        if bytes[p] == 125 {
            proof {
                if hit {
                    assert(entries_view(out@) =~= target);
                }
            }
            return Some((out, p));
        }
        if bytes[p] != 44 {
            return None;
        }
        proof {
            assert(bytes@.subrange(pos as int, p + 1) =~= bytes@.subrange(pos as int, p as int) + seq![44u8]);
        }
        p = p + 1;
    }
}

/// What stands at `p` is two pieces, one after the other.
proof fn lemma_holds_split(s: Seq<u8>, p: int, x: Seq<u8>, y: Seq<u8>)
    requires
        holds_at(s, p, x + y),
    ensures
        holds_at(s, p, x),
        holds_at(s, p + x.len(), y),
{
    let whole = s.subrange(p, p + x.len() + y.len());
    assert(whole == x + y);
    assert(s.subrange(p, p + x.len()) =~= whole.subrange(0, x.len() as int));
    assert(whole.subrange(0, x.len() as int) =~= x);
    assert(s.subrange(p + x.len(), p + x.len() + y.len()) =~= whole.subrange(
        x.len() as int,
        (x.len() + y.len()) as int,
    ));
    assert(whole.subrange(x.len() as int, (x.len() + y.len()) as int) =~= y);
}

/// The lengths and first bytes of the fixed pieces of a state blob.
proof fn lemma_fixed_pieces()
    ensures
        store_open().len() == 10,
        signer_open().len() == 12,
        signer_open()[0] == 125,
        credential_open().len() == 25,
        credential_open()[0] == 93,
        group_id_open().len() == 14,
        group_id_open()[0] == 93,
{
    reveal(store_open);
    reveal(signer_open);
    reveal(credential_open);
    reveal(group_id_open);
}

/// Two pieces, one after the other, make their concatenation.
proof fn lemma_holds_join(s: Seq<u8>, p: int, x: Seq<u8>, y: Seq<u8>)
    requires
        holds_at(s, p, x),
        holds_at(s, p + x.len(), y),
    ensures
        holds_at(s, p, x + y),
{
    assert(s.subrange(p, p + x.len() + y.len()) =~= s.subrange(p, p + x.len()) + s.subrange(
        p + x.len(),
        p + x.len() + y.len(),
    ));
}

/// The first byte of a piece.
proof fn lemma_holds_first(s: Seq<u8>, p: int, x: Seq<u8>)
    requires
        holds_at(s, p, x),
        x.len() > 0,
    ensures
        s[p] == x[0],
{
    assert(s.subrange(p, p + x.len())[0] == s[p]);
}

/// Where each piece of a state blob stands.
proof fn lemma_bundle_layout(t: BundleFields)
    ensures
        ({
            let bytes = bundle_json(t);
            let p1: int = 10 + entries_json(t.store).len() as int;
            let p2: int = p1 + 12 + json_number_list(t.signer).len();
            let p3: int = p2 + 25 + json_number_list(t.credential_with_key).len();
            &&& holds_at(bytes, 0, store_open())
            &&& holds_at(bytes, 10, entries_json(t.store))
            &&& holds_at(bytes, p1, signer_open())
            &&& bytes[p1] == 125
            &&& holds_at(bytes, p1 + 12, json_number_list(t.signer))
            &&& holds_at(bytes, p2, credential_open())
            &&& bytes[p2] == 93
            &&& holds_at(bytes, p2 + 25, json_number_list(t.credential_with_key))
            &&& bytes[p3] == 93
            &&& (t.group_id matches Some(g) ==> {
                &&& holds_at(bytes, p3, group_id_open())
                &&& holds_at(bytes, p3 + 14, json_number_list(g))
                &&& bytes[p3 + 14 + json_number_list(g).len()] == 93
                &&& holds_at(bytes, p3 + 14 + json_number_list(g).len(), seq![93u8, 125u8])
                &&& bytes.len() == p3 + 16 + json_number_list(g).len()
            })
            &&& (t.group_id is None ==> holds_at(bytes, p3, seq![93u8, 125u8]) && bytes.len() == p3 + 2)
        }),
{
    lemma_fixed_pieces();
    let bytes = bundle_json(t);
    let o = store_open();
    let st = entries_json(t.store);
    let so = signer_open();
    let l1 = json_number_list(t.signer);
    let co = credential_open();
    let l2 = json_number_list(t.credential_with_key);
    let gp: Seq<u8> = match t.group_id {
        Some(g) => group_id_open() + json_number_list(g),
        None => Seq::empty(),
    };
    let cl = seq![93u8, 125u8];
    let a1 = o + st;
    let a2 = a1 + so;
    let a3 = a2 + l1;
    let a4 = a3 + co;
    let a5 = a4 + l2;
    let a6 = a5 + gp;
    assert(bytes == a6 + cl);
    assert(bytes.subrange(0, bytes.len() as int) =~= bytes);
    assert(holds_at(bytes, 0, a6 + cl));
    lemma_holds_split(bytes, 0, a6, cl);
    lemma_holds_split(bytes, 0, a5, gp);
    lemma_holds_split(bytes, 0, a4, l2);
    lemma_holds_split(bytes, 0, a3, co);
    lemma_holds_split(bytes, 0, a2, l1);
    lemma_holds_split(bytes, 0, a1, so);
    lemma_holds_split(bytes, 0, o, st);
    lemma_holds_first(bytes, a1.len() as int, so);
    lemma_holds_first(bytes, a3.len() as int, co);
    match t.group_id {
        Some(g) => {
            lemma_holds_split(bytes, a5.len() as int, group_id_open(), json_number_list(g));
            lemma_holds_first(bytes, a5.len() as int, group_id_open());
            lemma_holds_first(bytes, a6.len() as int, cl);
        },
        None => {
            lemma_holds_first(bytes, a5.len() as int, cl);
        },
    }
}

/// The pieces read from a blob make up the blob.
proof fn lemma_bundle_assemble(bytes: Seq<u8>, e1: int, e2: int, e3: int, end: int, b: BundleFields)
    requires
        10 <= e1,
        e1 + 12 <= e2,
        e2 + 25 <= e3,
        e3 <= end,
        end + 2 == bytes.len(),
        holds_at(bytes, 0, store_open()),
        bytes.subrange(10, e1) == entries_json(b.store),
        holds_at(bytes, e1, signer_open()),
        bytes.subrange(e1 + 12, e2) == json_number_list(b.signer),
        holds_at(bytes, e2, credential_open()),
        bytes.subrange(e2 + 25, e3) == json_number_list(b.credential_with_key),
        b.group_id is None ==> end == e3,
        b.group_id matches Some(g) ==> e3 + 14 <= end && holds_at(bytes, e3, group_id_open())
            && bytes.subrange(e3 + 14, end) == json_number_list(g),
        holds_at(bytes, end, seq![93u8, 125u8]),
    ensures
        bytes == bundle_json(b),
{
    lemma_fixed_pieces();
    let o = store_open();
    let st = entries_json(b.store);
    let so = signer_open();
    let l1 = json_number_list(b.signer);
    let co = credential_open();
    let l2 = json_number_list(b.credential_with_key);
    let gp: Seq<u8> = match b.group_id {
        Some(g) => group_id_open() + json_number_list(g),
        None => Seq::empty(),
    };
    let cl = seq![93u8, 125u8];
    lemma_holds_join(bytes, 0, o, st);
    lemma_holds_join(bytes, 0, o + st, so);
    lemma_holds_join(bytes, 0, o + st + so, l1);
    lemma_holds_join(bytes, 0, o + st + so + l1, co);
    lemma_holds_join(bytes, 0, o + st + so + l1 + co, l2);
    match b.group_id {
        Some(g) => {
            lemma_holds_join(bytes, e3, group_id_open(), json_number_list(g));
        },
        None => {
            assert(bytes.subrange(e3, e3) =~= gp);
        },
    }
    lemma_holds_join(bytes, 0, o + st + so + l1 + co + l2, gp);
    lemma_holds_join(bytes, 0, o + st + so + l1 + co + l2 + gp, cl);
    assert(bytes.subrange(0, bytes.len() as int) =~= bytes);
}

/// A blob that `encode_bundle` writes for `f`, whose group identifier is present
/// exactly when `with_group_id`.
pub open spec fn written_for(bytes: Seq<u8>, with_group_id: bool, f: BundleFields) -> bool {
    bundle_json(f) == bytes && store_plain(f.store) && (f.group_id is Some <==> with_group_id)
}

/// Read a state blob. It is read back exactly when `encode_bundle` could have written
/// it, with a group identifier present as asked; the result is then the bundle that was
/// written, whichever `target` is named.
#[verifier::rlimit(50)]
pub fn parse_bundle(bytes: &[u8], with_group_id: bool, Ghost(target): Ghost<BundleFields>) -> (r: Option<StateBundle>)
    ensures
        r matches Some(b) ==> written_for(bytes@, with_group_id, b@),
        (exists|f: BundleFields| #[trigger] written_for(bytes@, with_group_id, f)) ==> r is Some,
        written_for(bytes@, with_group_id, target) ==> (r matches Some(b) && b@ == target),
{
    let ghost hit: bool = exists|f: BundleFields| #[trigger] written_for(bytes@, with_group_id, f);
    let ghost t: BundleFields = if written_for(bytes@, with_group_id, target) {
        target
    } else if hit {
        choose|f: BundleFields| #[trigger] written_for(bytes@, with_group_id, f)
    } else {
        target
    };
    assert(hit ==> written_for(bytes@, with_group_id, t));
    let n: usize = bytes.len();
    let ghost gid: Seq<u8> = match t.group_id {
        Some(g) => g,
        None => Seq::empty(),
    };
    proof {
        if hit {
            lemma_bundle_layout(t);
        }
    }
    let open: [u8; 10] = [123u8, 34u8, 115u8, 116u8, 111u8, 114u8, 101u8, 34u8, 58u8, 123u8];
    assert(open@ =~= store_open()) by {
        reveal(store_open);
    }
    if !bytes_at(bytes, 0, &open) {
        return None;
    }
    let (store, e1) = match parse_entries(bytes, 10, Ghost(t.store)) {
        Some(pair) => pair,
        None => {
            return None;
        },
    };
    let signer_lit: [u8; 12] = [125u8, 44u8, 34u8, 115u8, 105u8, 103u8, 110u8, 101u8, 114u8, 34u8, 58u8, 91u8];
    assert(signer_lit@ =~= signer_open()) by {
        reveal(signer_open);
    }
    if !bytes_at(bytes, e1, &signer_lit) {
        return None;
    }
    let (signer, e2) = match parse_number_list(bytes, e1 + 12, Ghost(t.signer)) {
        Some(pair) => pair,
        None => {
            return None;
        },
    };
    let credential_lit: [u8; 25] = [
        93u8, 44u8, 34u8, 99u8, 114u8, 101u8, 100u8, 101u8, 110u8, 116u8, 105u8, 97u8, 108u8, 95u8,
        119u8, 105u8, 116u8, 104u8, 95u8, 107u8, 101u8, 121u8, 34u8, 58u8, 91u8,
    ];
    assert(credential_lit@ =~= credential_open()) by {
        reveal(credential_open);
    }
    if !bytes_at(bytes, e2, &credential_lit) {
        return None;
    }
    let (credential_with_key, e3) = match parse_number_list(bytes, e2 + 25, Ghost(t.credential_with_key)) {
        Some(pair) => pair,
        None => {
            return None;
        },
    };
    let mut end: usize = e3;
    let mut group_id: Option<Vec<u8>> = None;
    if with_group_id {
        let group_lit: [u8; 14] = [93u8, 44u8, 34u8, 103u8, 114u8, 111u8, 117u8, 112u8, 95u8, 105u8, 100u8, 34u8, 58u8, 91u8];
        assert(group_lit@ =~= group_id_open()) by {
            reveal(group_id_open);
        }
        if !bytes_at(bytes, e3, &group_lit) {
            return None;
        }
        let (g, e4) = match parse_number_list(bytes, e3 + 14, Ghost(gid)) {
            Some(pair) => pair,
            None => {
                return None;
            },
        };
        end = e4;
        group_id = Some(g);
    }
    let close: [u8; 2] = [93u8, 125u8];
    if !bytes_at(bytes, end, &close) || bytes.len() - end != 2 {
        return None;
    }
    let b = StateBundle { store, signer, credential_with_key, group_id };
    proof {
        lemma_bundle_assemble(bytes@, e1 as int, e2 as int, e3 as int, end as int, b@);
        if hit {
            assert(b@ =~= t);
        }
    }
    Some(b)
}

} // verus!
