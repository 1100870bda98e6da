//! Decoding of whole store replies into records.

use vstd::prelude::*;

use vstd::string::StringSliceAdditionalSpecFns;

use crate::hash::{field_int, hash_of, hash_of_pairs, hash_to_map, key_of, redis_map_get_i64};
use crate::reply::{int_of, try_get_int, DecodeError, Reply};
use crate::types::{MostLeastRecentlyUpdated, RecentlyUpdated, TaxRatesValue, WorldItemUpload};

verus! {

/// The elements of `s` read two at a time: pair `i` is elements `2i` and
/// `2i + 1`. A trailing unpaired element belongs to no pair.
pub open spec fn pairs_of(s: Seq<Reply>) -> Seq<(Reply, Reply)> {
    Seq::new(s.len() / 2, |i: int| (s[2 * i], s[2 * i + 1]))
}

/// The ids that the elements of `s` coerce to, in order; elements that do not
/// coerce are left out.
pub open spec fn ids_of(s: Seq<Reply>) -> Seq<u32>
    decreases s.len(),
{
    if s.len() == 0 {
        Seq::empty()
    } else {
        let rest = ids_of(s.drop_last());
        match int_of(s.last()) {
            Some(n) => rest.push(n as u32),
            None => rest,
        }
    }
}

/// The upload that a pair of (item id, time) stands for, if both coerce;
/// its world is left at zero.
pub open spec fn upload_of(p: (Reply, Reply)) -> Option<WorldItemUpload> {
    match (int_of(p.0), int_of(p.1)) {
        (Some(item), Some(time)) => Some(
            WorldItemUpload { world_id: 0, item_id: item as u32, last_upload_time: time },
        ),
        _ => None,
    }
}

/// The uploads of the pairs in `p`, in order; pairs with a half that does not
/// coerce are left out.
pub open spec fn uploads_of_pairs(p: Seq<(Reply, Reply)>) -> Seq<WorldItemUpload>
    decreases p.len(),
{
    if p.len() == 0 {
        Seq::empty()
    } else {
        let rest = uploads_of_pairs(p.drop_last());
        match upload_of(p.last()) {
            Some(u) => rest.push(u),
            None => rest,
        }
    }
}

/// What `decode_id_list` gives for the reply `v`.
pub open spec fn id_list_of(v: Reply) -> Result<Seq<u32>, DecodeError> {
    match v {
        Reply::Bulk(items) => Ok(ids_of(items@)),
        _ => Err(DecodeError::TypeMismatch),
    }
}

/// What `decode_ranked_uploads` gives for the reply `v`.
pub open spec fn ranked_uploads_of(v: Reply) -> Result<Seq<WorldItemUpload>, DecodeError> {
    match v {
        Reply::Bulk(items) => Ok(uploads_of_pairs(pairs_of(items@))),
        _ => Err(DecodeError::TypeMismatch),
    }
}

/// Decodes a sequence reply into item ids: each element that coerces to an
/// integer gives its low 32 bits, the others are dropped, order is kept.
pub fn decode_id_list(v: &Reply) -> (r: Result<RecentlyUpdated, DecodeError>)
    ensures
        match r {
            Ok(ru) => id_list_of(*v) == Ok::<Seq<u32>, DecodeError>(ru.items@),
            Err(e) => id_list_of(*v) == Err::<Seq<u32>, DecodeError>(e),
        },
{
    match v {
        Reply::Bulk(values) => {
            let mut items: Vec<u32> = Vec::new();
            let mut i: usize = 0;
            while i < values.len()
                invariant
                    i <= values@.len(),
                    items@ == ids_of(values@.take(i as int)),
                decreases values@.len() - i,
            {
                proof {
                    assert(values@.take(i + 1).drop_last() =~= values@.take(i as int));
                }
                match try_get_int(&values[i]) {
                    Some(n) => items.push(#[verifier::truncate] (n as u32)),
                    None => {},
                }
                i = i + 1;
            }
            proof {
                assert(values@.take(i as int) =~= values@);
            }
            Ok(RecentlyUpdated { items })
        },
        _ => Err(DecodeError::TypeMismatch),
    }
}

/// Decodes a sequence reply of consecutive (item id, time) pairs into
/// uploads with world zero. A pair with a half that does not coerce is
/// dropped whole; a trailing unpaired element is dropped.
pub fn decode_ranked_uploads(v: &Reply) -> (r: Result<MostLeastRecentlyUpdated, DecodeError>)
    ensures
        match r {
            Ok(ru) => ranked_uploads_of(*v) == Ok::<Seq<WorldItemUpload>, DecodeError>(
                ru.items@,
            ),
            Err(e) => ranked_uploads_of(*v) == Err::<Seq<WorldItemUpload>, DecodeError>(e),
        },
{
    match v {
        Reply::Bulk(values) => {
            let ghost p = pairs_of(values@);
            let len = values.len();
            let n = len / 2;
            let mut items: Vec<WorldItemUpload> = Vec::new();
            let mut i: usize = 0;
            while i < n
                invariant
                    i <= n,
                    n == values@.len() / 2,
                    len == values@.len(),
                    p == pairs_of(values@),
                    items@ == uploads_of_pairs(p.take(i as int)),
                decreases n - i,
            {
                assert(2 * i + 1 < len);
                proof {
                    assert(p.take(i + 1).drop_last() =~= p.take(i as int));
                    assert(p.take(i + 1).last() == (values@[2 * i], values@[2 * i + 1]));
                }
                let item = try_get_int(&values[2 * i]);
                let time = try_get_int(&values[2 * i + 1]);
                match (item, time) {
                    (Some(item_id), Some(t)) => {
                        items.push(
                            WorldItemUpload { world_id: 0, item_id: #[verifier::truncate] (item_id as u32), last_upload_time: t },
                        );
                    },
                    _ => {},
                }
                i = i + 1;
            }
            proof {
                assert(p.take(i as int) =~= p);
            }
            Ok(MostLeastRecentlyUpdated { items })
        },
        _ => Err(DecodeError::TypeMismatch),
    }
}

/// The field that holds the tax rate of Limsa Lominsa.
pub open spec fn limsa_lominsa_key() -> Seq<u8> {
    "Limsa Lominsa".spec_bytes()
}

/// The field that holds the tax rate of Gridania.
pub open spec fn gridania_key() -> Seq<u8> {
    "Gridania".spec_bytes()
}

/// The field that holds the tax rate of Ul'dah.
pub open spec fn uldah_key() -> Seq<u8> {
    "Ul'dah".spec_bytes()
}

/// The field that holds the tax rate of Ishgard.
pub open spec fn ishgard_key() -> Seq<u8> {
    "Ishgard".spec_bytes()
}

/// The field that holds the tax rate of Kugane.
pub open spec fn kugane_key() -> Seq<u8> {
    "Kugane".spec_bytes()
}

/// The field that holds the tax rate of the Crystarium.
pub open spec fn crystarium_key() -> Seq<u8> {
    "Crystarium".spec_bytes()
}

/// The field that holds the tax rate of Old Sharlayan.
pub open spec fn old_sharlayan_key() -> Seq<u8> {
    "Old Sharlayan".spec_bytes()
}

/// Whether the hash `m` has the field of every city.
pub open spec fn has_every_city(m: Map<Seq<u8>, Reply>) -> bool {
    &&& m.contains_key(limsa_lominsa_key())
    &&& m.contains_key(gridania_key())
    &&& m.contains_key(uldah_key())
    &&& m.contains_key(ishgard_key())
    &&& m.contains_key(kugane_key())
    &&& m.contains_key(crystarium_key())
    &&& m.contains_key(old_sharlayan_key())
}

/// The tax rate that field `k` of `m` holds: the low eight bits of its integer.
pub open spec fn rate_of(m: Map<Seq<u8>, Reply>, k: Seq<u8>) -> u8 {
    field_int(m, k) as u8
}

/// The tax rates that the hash `m` holds.
pub open spec fn rates_of(m: Map<Seq<u8>, Reply>) -> TaxRatesValue {
    TaxRatesValue {
        limsa_lominsa: rate_of(m, limsa_lominsa_key()),
        gridania: rate_of(m, gridania_key()),
        uldah: rate_of(m, uldah_key()),
        ishgard: rate_of(m, ishgard_key()),
        kugane: rate_of(m, kugane_key()),
        crystarium: rate_of(m, crystarium_key()),
        old_sharlayan: rate_of(m, old_sharlayan_key()),
    }
}

/// What `decode_tax_rates` gives for the hash reply elements `s`: they must
/// be at least seven field/value pairs, with nothing left over.
pub open spec fn tax_rates_of_hash(s: Seq<Reply>) -> Result<TaxRatesValue, DecodeError> {
    if s.len() % 2 != 0 || s.len() < 14 {
        Err(DecodeError::ShapeMismatch)
    } else {
        match hash_of(s) {
        Ok(m) => if has_every_city(m) {
            Ok(rates_of(m))
        } else {
            Err(DecodeError::ShapeMismatch)
        },
        Err(e) => Err(e),
        }
    }
}

/// What `decode_tax_rates` gives for the reply `v`.
pub open spec fn tax_rates_of(v: Reply) -> Result<TaxRatesValue, DecodeError> {
    match v {
        Reply::Bulk(items) => tax_rates_of_hash(items@),
        _ => Err(DecodeError::TypeMismatch),
    }
}

/// Decodes a hash reply into tax rates. The reply must be a sequence of at
/// least seven field/value pairs with nothing left over, a later pair overwriting an earlier one of the same
/// field, that holds the field of every city; other fields are ignored. Each
/// rate is the low eight bits of its value's integer, or zero when the value
/// does not coerce.
pub fn decode_tax_rates(v: &Reply) -> (r: Result<TaxRatesValue, DecodeError>)
    ensures
        r == tax_rates_of(*v),
{
    match v {
        Reply::Bulk(values) => {
            if values.len() % 2 != 0 || values.len() < 14 {
                return Err(DecodeError::ShapeMismatch);
            }
            let map = hash_to_map(values)?;
            let limsa_lominsa = "Limsa Lominsa".as_bytes();
            let gridania = "Gridania".as_bytes();
            let uldah = "Ul'dah".as_bytes();
            let ishgard = "Ishgard".as_bytes();
            let kugane = "Kugane".as_bytes();
            let crystarium = "Crystarium".as_bytes();
            let old_sharlayan = "Old Sharlayan".as_bytes();
            if !(map.contains_key(limsa_lominsa) && map.contains_key(gridania)
                && map.contains_key(uldah) && map.contains_key(ishgard)
                && map.contains_key(kugane) && map.contains_key(crystarium)
                && map.contains_key(old_sharlayan)) {
                return Err(DecodeError::ShapeMismatch);
            }
            Ok(
                TaxRatesValue {
                    limsa_lominsa: #[verifier::truncate] (redis_map_get_i64(&map, limsa_lominsa) as u8),
                    gridania: #[verifier::truncate] (redis_map_get_i64(&map, gridania) as u8),
                    uldah: #[verifier::truncate] (redis_map_get_i64(&map, uldah) as u8),
                    ishgard: #[verifier::truncate] (redis_map_get_i64(&map, ishgard) as u8),
                    kugane: #[verifier::truncate] (redis_map_get_i64(&map, kugane) as u8),
                    crystarium: #[verifier::truncate] (redis_map_get_i64(&map, crystarium) as u8),
                    old_sharlayan: #[verifier::truncate] (redis_map_get_i64(&map, old_sharlayan) as u8),
                },
            )
        },
        _ => Err(DecodeError::TypeMismatch),
    }
}

/// Whether `k` is the field of one of the cities.
pub open spec fn is_city_key(k: Seq<u8>) -> bool {
    ||| k == limsa_lominsa_key()
    ||| k == gridania_key()
    ||| k == uldah_key()
    ||| k == ishgard_key()
    ||| k == kugane_key()
    ||| k == crystarium_key()
    ||| k == old_sharlayan_key()
}

/// Whether every field of the pairs `p` is a byte string, and no field comes
/// twice.
pub open spec fn distinct_fields(p: Seq<(Reply, Reply)>) -> bool {
    &&& forall|i: int| 0 <= i < p.len() ==> (#[trigger] key_of(p[i].0)) is Some
    &&& forall|i: int, j: int|
        0 <= i < j < p.len() ==> #[trigger] key_of(p[i].0) != #[trigger] key_of(p[j].0)
}

proof fn lemma_hash_of_distinct_pairs(p: Seq<(Reply, Reply)>)
    requires
        distinct_fields(p),
    ensures
        hash_of_pairs(p) is Some,
        forall|k: Seq<u8>|
            #[trigger] hash_of_pairs(p).unwrap().contains_key(k) <==> exists|i: int|
                0 <= i < p.len() && key_of(p[i].0) == Some(k),
        forall|i: int|
            0 <= i < p.len() ==> hash_of_pairs(p).unwrap()[key_of(#[trigger] p[i].0).unwrap()]
                == p[i].1,
    decreases p.len(),
{
    if p.len() > 0 {
        let q = p.drop_last();
        assert(distinct_fields(q)) by {
            assert forall|i: int, j: int| 0 <= i < j < q.len() implies key_of(q[i].0) != key_of(
                q[j].0,
            ) by {
                assert(q[i] == p[i] && q[j] == p[j]);
            }
            assert forall|i: int| 0 <= i < q.len() implies (#[trigger] key_of(q[i].0)) is Some by {
                assert(q[i] == p[i]);
            }
        }
        lemma_hash_of_distinct_pairs(q);
        let m = hash_of_pairs(p).unwrap();
        assert(key_of(p[p.len() - 1].0) is Some);
        assert forall|k: Seq<u8>| #[trigger] m.contains_key(k) <==> exists|i: int|
            0 <= i < p.len() && key_of(p[i].0) == Some(k) by {
            if m.contains_key(k) && key_of(p.last().0) != Some(k) {
                let i = choose|i: int| 0 <= i < q.len() && key_of(q[i].0) == Some(k);
                assert(q[i] == p[i]);
            }
            if exists|i: int| 0 <= i < p.len() && key_of(p[i].0) == Some(k) {
                let i = choose|i: int| 0 <= i < p.len() && key_of(p[i].0) == Some(k);
                if i < q.len() {
                    assert(q[i] == p[i]);
                }
            }
        }
        assert forall|i: int| 0 <= i < p.len() implies m[key_of(#[trigger] p[i].0).unwrap()]
            == p[i].1 by {
            if i < q.len() {
                assert(q[i] == p[i]);
                assert(key_of(p[i].0) != key_of(p[p.len() - 1].0));
            }
        }
    }
}

/// The tax rates of a hash do not depend on the order of its fields: two hash
/// replies whose field/value pairs are the same, each field once, decode to
/// the same result.
pub proof fn lemma_tax_rates_order_independent(a: Seq<Reply>, b: Seq<Reply>)
    requires
        a.len() % 2 == 0,
        b.len() % 2 == 0,
        distinct_fields(pairs_of(a)),
        distinct_fields(pairs_of(b)),
        pairs_of(a).to_multiset() == pairs_of(b).to_multiset(),
    ensures
        tax_rates_of_hash(a) == tax_rates_of_hash(b),
{
    broadcast use vstd::seq_lib::group_to_multiset_ensures;

    let pa = pairs_of(a);
    let pb = pairs_of(b);
    assert(pa.len() == pa.to_multiset().len());
    assert(pb.len() == pb.to_multiset().len());
    assert(a.len() == b.len());
    lemma_hash_of_distinct_pairs(pa);
    lemma_hash_of_distinct_pairs(pb);
    let ma = hash_of_pairs(pa).unwrap();
    let mb = hash_of_pairs(pb).unwrap();
    assert forall|k: Seq<u8>| ma.contains_key(k) implies mb.contains_key(k) && mb[k] == ma[k] by {
        let i = choose|i: int| 0 <= i < pa.len() && key_of(pa[i].0) == Some(k);
        assert(pa.contains(pa[i]));
        assert(pb.to_multiset().count(pa[i]) > 0);
        let j = choose|j: int| 0 <= j < pb.len() && pb[j] == pa[i];
        assert(key_of(pb[j].0) == Some(k));
    }
    assert forall|k: Seq<u8>| mb.contains_key(k) implies ma.contains_key(k) by {
        let j = choose|j: int| 0 <= j < pb.len() && key_of(pb[j].0) == Some(k);
        assert(pb.contains(pb[j]));
        assert(pa.to_multiset().count(pb[j]) > 0);
        let i = choose|i: int| 0 <= i < pa.len() && pa[i] == pb[j];
        assert(key_of(pa[i].0) == Some(k));
    }
    assert(ma =~= mb);
}

/// A field that names no city changes nothing: a hash reply that decodes,
/// with one more such field/value pair at its end, decodes as the reply
/// without it.
pub proof fn lemma_tax_rates_ignore_other_field(s: Seq<Reply>, field: Reply, value: Reply)
    requires
        tax_rates_of_hash(s) is Ok,
        key_of(field) is Some,
        !is_city_key(key_of(field).unwrap()),
    ensures
        tax_rates_of_hash(s.push(field).push(value)) == tax_rates_of_hash(s),
{
    let t = s.push(field).push(value);
    if s.len() % 2 == 0 {
        assert(pairs_of(t) =~= pairs_of(s).push((field, value)));
        assert(pairs_of(t).drop_last() =~= pairs_of(s));
        match hash_of_pairs(pairs_of(s)) {
            Some(m) => {
                let k = key_of(field).unwrap();
                let n = m.insert(k, value);
                assert(has_every_city(n) == has_every_city(m));
                assert(rates_of(n) == rates_of(m));
            },
            None => {},
        }
    }
}

/// A hash reply without the field of some city fails with `ShapeMismatch`.
pub proof fn lemma_tax_rates_need_every_city(s: Seq<Reply>, m: Map<Seq<u8>, Reply>)
    requires
        hash_of(s) == Ok::<Map<Seq<u8>, Reply>, DecodeError>(m),
        !has_every_city(m),
    ensures
        tax_rates_of_hash(s) == Err::<TaxRatesValue, DecodeError>(DecodeError::ShapeMismatch),
{
}

/// The uploads of two runs of pairs one after the other are those of the
/// first run, then those of the second.
pub proof fn lemma_uploads_of_concat(p: Seq<(Reply, Reply)>, q: Seq<(Reply, Reply)>)
    ensures
        uploads_of_pairs(p + q) == uploads_of_pairs(p) + uploads_of_pairs(q),
    decreases q.len(),
{
    if q.len() == 0 {
        assert(p + q =~= p);
        assert(uploads_of_pairs(p) + uploads_of_pairs(q) =~= uploads_of_pairs(p));
    } else {
        lemma_uploads_of_concat(p, q.drop_last());
        assert((p + q).drop_last() =~= p + q.drop_last());
        assert((p + q).last() == q.last());
        match upload_of(q.last()) {
            Some(u) => {
                assert(uploads_of_pairs(p) + uploads_of_pairs(q.drop_last()).push(u)
                    =~= (uploads_of_pairs(p) + uploads_of_pairs(q.drop_last())).push(u));
            },
            None => {},
        }
    }
}

/// Reading the pairs in reverse order gives the uploads in reverse order.
pub proof fn lemma_uploads_of_reverse(p: Seq<(Reply, Reply)>)
    ensures
        uploads_of_pairs(p.reverse()) == uploads_of_pairs(p).reverse(),
    decreases p.len(),
{
    if p.len() == 0 {
        assert(uploads_of_pairs(p).reverse() =~= Seq::<WorldItemUpload>::empty());
    } else {
        let q = p.drop_last();
        lemma_uploads_of_reverse(q);
        let one = seq![p.last()];
        assert(p.reverse() =~= one + q.reverse());
        lemma_uploads_of_concat(one, q.reverse());
        assert(one.drop_last() =~= Seq::<(Reply, Reply)>::empty());
        assert(uploads_of_pairs(one.drop_last()) =~= Seq::<WorldItemUpload>::empty());
        assert(one.last() == p.last());
        match upload_of(p.last()) {
            Some(u) => {
                assert(uploads_of_pairs(one) =~= seq![u]);
                assert(uploads_of_pairs(p).reverse() =~= seq![u] + uploads_of_pairs(q).reverse());
            },
            None => {
                assert(uploads_of_pairs(one) =~= Seq::<WorldItemUpload>::empty());
                assert(uploads_of_pairs(one) + uploads_of_pairs(q.reverse()) =~= uploads_of_pairs(q.reverse()));
            },
        }
    }
}

/// Decoding yields at most one upload per pair, each with world zero.
pub proof fn lemma_uploads_of_pairs_bounded(p: Seq<(Reply, Reply)>)
    ensures
        uploads_of_pairs(p).len() <= p.len(),
        forall|i: int|
            0 <= i < uploads_of_pairs(p).len() ==> (#[trigger] uploads_of_pairs(p)[i]).world_id
                == 0,
    decreases p.len(),
{
    if p.len() > 0 {
        lemma_uploads_of_pairs_bounded(p.drop_last());
    }
}

/// A ranked reply of `n` elements decodes to at most `n / 2` uploads, each
/// with world zero.
pub proof fn lemma_ranked_uploads_bounded(s: Seq<Reply>)
    ensures
        uploads_of_pairs(pairs_of(s)).len() <= s.len() / 2,
        forall|i: int|
            0 <= i < uploads_of_pairs(pairs_of(s)).len() ==> (#[trigger] uploads_of_pairs(
                pairs_of(s),
            )[i]).world_id == 0,
{
    lemma_uploads_of_pairs_bounded(pairs_of(s));
}

/// A trailing unpaired element of a ranked reply is dropped: the reply
/// decodes as it would without it.
pub proof fn lemma_ranked_uploads_drop_unpaired(s: Seq<Reply>)
    requires
        s.len() % 2 == 1,
    ensures
        uploads_of_pairs(pairs_of(s)) == uploads_of_pairs(pairs_of(s.drop_last())),
{
    assert(pairs_of(s) =~= pairs_of(s.drop_last()));
}

} // verus!
