//! The decisions of the four market queries: which world is asked for,
//! which store command runs, and what the reply becomes.

use vstd::prelude::*;

use crate::decode::{
    decode_id_list, decode_ranked_uploads, decode_tax_rates, ids_of, lemma_uploads_of_reverse,
    pairs_of, tax_rates_of_hash, uploads_of_pairs,
};
use crate::reply::Reply;
use crate::types::{MostLeastRecentlyUpdated, RecentlyUpdated, TaxRatesValue, WorldItemUpload};
use crate::world::ReferenceError;

verus! {

/// The four queries over a world's market data.
#[derive(Clone, Copy, Debug, PartialEq, Eq, Structural)]
pub enum Query {
    /// Uploads, the oldest first.
    LeastRecentlyUpdated,
    /// Uploads, the newest first.
    MostRecentlyUpdated,
    /// Item ids, in the store's ascending order.
    RecentlyUpdated,
    /// The tax rates of the cities.
    TaxRates,
}

/// A read of the store, keyed by world id.
#[derive(Clone, Copy, Debug, PartialEq, Eq, Structural)]
pub enum StoreCommand {
    /// The whole sorted set with scores, lowest score first.
    RangeWithScores(u32),
    /// The whole sorted set with scores, highest score first.
    ReverseRangeWithScores(u32),
    /// The members of the whole sorted set, lowest score first.
    Range(u32),
    /// Every field and value of the hash.
    HashGetAll(u32),
}

/// Why a query gives no result.
#[derive(Clone, Copy, Debug, PartialEq, Eq, Structural)]
pub enum QueryError {
    /// No world was given.
    MissingParameter,
    /// The world cannot be queried, or the store holds nothing for it.
    NotFound,
    /// The reference data or the store failed, or the reply did not decode.
    Internal,
}

/// The HTTP status of a failed query: 404 for a missing or unknown world,
/// 500 for a failure of the server.
pub open spec fn status_of(e: QueryError) -> u16 {
    match e {
        QueryError::MissingParameter | QueryError::NotFound => 404,
        QueryError::Internal => 500,
    }
}

/// The HTTP status of a failed query.
pub fn status_code(e: QueryError) -> (r: u16)
    ensures
        r == status_of(e),
{
    match e {
        QueryError::MissingParameter | QueryError::NotFound => 404,
        QueryError::Internal => 500,
    }
}

/// The world a query is about, which it cannot go without.
pub open spec fn world_of(world: Option<u32>) -> Result<u32, QueryError> {
    match world {
        Some(w) => Ok(w),
        None => Err(QueryError::MissingParameter),
    }
}

/// The world a query is about; fails with `MissingParameter` when none was
/// given.
pub fn world_parameter(world: Option<u32>) -> (r: Result<u32, QueryError>)
    ensures
        r == world_of(world),
{
    match world {
        Some(w) => Ok(w),
        None => Err(QueryError::MissingParameter),
    }
}

/// The store read that answers query `q` for world `w`.
pub open spec fn command_of(q: Query, w: u32) -> StoreCommand {
    match q {
        Query::LeastRecentlyUpdated => StoreCommand::RangeWithScores(w),
        Query::MostRecentlyUpdated => StoreCommand::ReverseRangeWithScores(w),
        Query::RecentlyUpdated => StoreCommand::Range(w),
        Query::TaxRates => StoreCommand::HashGetAll(w),
    }
}

/// What follows the reference check of world `w` for query `q`: a failed
/// lookup is a server fault, a world that cannot be queried is not found,
/// and any other world is read from the store.
pub open spec fn command_after_check(
    q: Query,
    w: u32,
    check: Result<bool, ReferenceError>,
) -> Result<StoreCommand, QueryError> {
    match check {
        Ok(true) => Ok(command_of(q, w)),
        Ok(false) => Err(QueryError::NotFound),
        Err(_) => Err(QueryError::Internal),
    }
}

/// The store read for query `q` on world `w`, given the outcome of the
/// world's reference check.
pub fn store_command(q: Query, w: u32, check: Result<bool, ReferenceError>) -> (r: Result<
    StoreCommand,
    QueryError,
>)
    ensures
        r == command_after_check(q, w, check),
{
    match check {
        Ok(true) => Ok(
            match q {
                Query::LeastRecentlyUpdated => StoreCommand::RangeWithScores(w),
                Query::MostRecentlyUpdated => StoreCommand::ReverseRangeWithScores(w),
                Query::RecentlyUpdated => StoreCommand::Range(w),
                Query::TaxRates => StoreCommand::HashGetAll(w),
            },
        ),
        Ok(false) => Err(QueryError::NotFound),
        Err(_) => Err(QueryError::Internal),
    }
}

/// The uploads `items`, each moved to world `w`.
pub open spec fn in_world(items: Seq<WorldItemUpload>, w: u32) -> Seq<WorldItemUpload> {
    items.map_values(
        |u: WorldItemUpload|
            WorldItemUpload { world_id: w, item_id: u.item_id, last_upload_time: u.last_upload_time },
    )
}

/// Sets the world of every upload to `w`, keeping the rest and the order.
pub fn with_world_id(items: Vec<WorldItemUpload>, w: u32) -> (r: Vec<WorldItemUpload>)
    ensures
        r@ == in_world(items@, w),
{
    let mut out: Vec<WorldItemUpload> = Vec::new();
    let mut i: usize = 0;
    while i < items.len()
        invariant
            i <= items@.len(),
            out@ == in_world(items@.take(i as int), w),
        decreases items@.len() - i,
    {
        let u = items[i];
        out.push(WorldItemUpload { world_id: w, item_id: u.item_id, last_upload_time: u.last_upload_time });
        i = i + 1;
        assert(out@ =~= in_world(items@.take(i as int), w));
    }
    assert(items@.take(i as int) =~= items@);
    out
}

/// What a ranked-uploads query on world `w` answers with the reply `v`: an
/// empty reply means the store holds nothing for the world, a reply that
/// does not decode is a server fault, and otherwise the decoded uploads,
/// moved to world `w`.
pub open spec fn ranked_response_of(w: u32, v: Reply) -> Result<Seq<WorldItemUpload>, QueryError> {
    match v {
        Reply::Bulk(items) => if items@.len() == 0 {
            Err(QueryError::NotFound)
        } else {
            Ok(in_world(uploads_of_pairs(pairs_of(items@)), w))
        },
        _ => Err(QueryError::Internal),
    }
}

/// What a recently-updated query answers with the reply `v`.
pub open spec fn ids_response_of(v: Reply) -> Result<Seq<u32>, QueryError> {
    match v {
        Reply::Bulk(items) => if items@.len() == 0 {
            Err(QueryError::NotFound)
        } else {
            Ok(ids_of(items@))
        },
        _ => Err(QueryError::Internal),
    }
}

/// What a tax-rates query answers with the reply `v`.
pub open spec fn tax_response_of(v: Reply) -> Result<TaxRatesValue, QueryError> {
    match v {
        Reply::Bulk(items) => if items@.len() == 0 {
            Err(QueryError::NotFound)
        } else {
            match tax_rates_of_hash(items@) {
                Ok(t) => Ok(t),
                Err(_) => Err(QueryError::Internal),
            }
        },
        _ => Err(QueryError::Internal),
    }
}

/// The answer of a least- or most-recently-updated query on world `w` to the
/// store's reply `v`: the decoded uploads, each moved to world `w`.
pub fn ranked_uploads_response(w: u32, v: &Reply) -> (r: Result<MostLeastRecentlyUpdated, QueryError>)
    ensures
        match r {
            Ok(ru) => {
                &&& ranked_response_of(w, *v) == Ok::<Seq<WorldItemUpload>, QueryError>(ru.items@)
                &&& forall|i: int| 0 <= i < ru.items@.len() ==> (#[trigger] ru.items@[i]).world_id == w
            },
            Err(e) => ranked_response_of(w, *v) == Err::<Seq<WorldItemUpload>, QueryError>(e),
        },
{
    if let Reply::Bulk(values) = v {
        if values.len() == 0 {
            return Err(QueryError::NotFound);
        }
    }
    match decode_ranked_uploads(v) {
        Ok(ru) => Ok(MostLeastRecentlyUpdated { items: with_world_id(ru.items, w) }),
        Err(_) => Err(QueryError::Internal),
    }
}

/// The answer of a recently-updated query to the store's reply `v`.
pub fn recently_updated_response(v: &Reply) -> (r: Result<RecentlyUpdated, QueryError>)
    ensures
        match r {
            Ok(ru) => ids_response_of(*v) == Ok::<Seq<u32>, QueryError>(ru.items@),
            Err(e) => ids_response_of(*v) == Err::<Seq<u32>, QueryError>(e),
        },
{
    if let Reply::Bulk(values) = v {
        if values.len() == 0 {
            return Err(QueryError::NotFound);
        }
    }
    match decode_id_list(v) {
        Ok(ru) => Ok(ru),
        Err(_) => Err(QueryError::Internal),
    }
}

/// The answer of a tax-rates query to the store's reply `v`.
pub fn tax_rates_response(v: &Reply) -> (r: Result<TaxRatesValue, QueryError>)
    ensures
        r == tax_response_of(*v),
{
    if let Reply::Bulk(values) = v {
        if values.len() == 0 {
            return Err(QueryError::NotFound);
        }
    }
    match decode_tax_rates(v) {
        Ok(t) => Ok(t),
        Err(_) => Err(QueryError::Internal),
    }
}

/// The HTTP status of query `q` on the world parameter `world`, given the
/// outcome of the reference check and what the store answered (`None` when
/// the store could not be reached): 200 on success.
pub open spec fn query_status(
    q: Query,
    world: Option<u32>,
    check: Result<bool, ReferenceError>,
    stored: Option<Reply>,
) -> u16 {
    match world_of(world) {
        Err(e) => status_of(e),
        Ok(w) => match command_after_check(q, w, check) {
            Err(e) => status_of(e),
            Ok(_) => match stored {
                None => 500,
                Some(v) => match q {
                    Query::LeastRecentlyUpdated | Query::MostRecentlyUpdated => match ranked_response_of(w, v) {
                        Ok(_) => 200,
                        Err(e) => status_of(e),
                    },
                    Query::RecentlyUpdated => match ids_response_of(v) {
                        Ok(_) => 200,
                        Err(e) => status_of(e),
                    },
                    Query::TaxRates => match tax_response_of(v) {
                        Ok(_) => 200,
                        Err(e) => status_of(e),
                    },
                },
            },
        },
    }
}

/// A query without a world is not found, whatever the reference data and
/// the store hold.
pub proof fn lemma_missing_world_not_found(
    q: Query,
    check: Result<bool, ReferenceError>,
    stored: Option<Reply>,
)
    ensures
        query_status(q, None, check, stored) == 404,
{
}

/// A query on a world that fails the reference check is not found, whatever
/// the store holds for it.
pub proof fn lemma_unqueryable_world_not_found(q: Query, w: u32, stored: Option<Reply>)
    ensures
        query_status(q, Some(w), Ok::<bool, ReferenceError>(false), stored) == 404,
{
}

/// Uploads read from the store for world `w` all carry world `w`.
pub proof fn lemma_ranked_uploads_in_world(w: u32, v: Reply)
    requires
        ranked_response_of(w, v) is Ok,
    ensures
        forall|i: int|
            0 <= i < ranked_response_of(w, v)->Ok_0.len() ==> (#[trigger] ranked_response_of(
                w,
                v,
            )->Ok_0[i]).world_id == w,
{
}

/// The least- and most-recently-updated queries on one sorted set, whose
/// replies hold the same pairs in opposite orders, give the same uploads in
/// reverse order.
pub proof fn lemma_least_most_reversed(w: u32, ascending: Reply, descending: Reply)
    requires
        ascending is Bulk,
        descending is Bulk,
        ascending->Bulk_0@.len() == descending->Bulk_0@.len(),
        pairs_of(descending->Bulk_0@) == pairs_of(ascending->Bulk_0@).reverse(),
    ensures
        match (ranked_response_of(w, ascending), ranked_response_of(w, descending)) {
            (Ok(a), Ok(d)) => d == a.reverse() && d.to_multiset() == a.to_multiset(),
            (Err(ea), Err(ed)) => ea == ed,
            _ => false,
        },
{
    let a = ascending->Bulk_0@;
    let d = descending->Bulk_0@;
    if a.len() != 0 {
        lemma_uploads_of_reverse(pairs_of(a));
        let ua = uploads_of_pairs(pairs_of(a));
        assert(in_world(ua.reverse(), w) =~= in_world(ua, w).reverse());
        in_world(ua, w).lemma_reverse_to_multiset();
    }
}

} // verus!
