use market_stats::metrics::{method_to_str, HttpMethod};
use market_stats::query::{
    ranked_uploads_response, recently_updated_response, status_code, store_command,
    tax_rates_response, with_world_id, world_parameter, Query, QueryError, StoreCommand,
};
use market_stats::reply::Reply;
use market_stats::types::WorldItemUpload;
use market_stats::world::{world_check, world_from_lookup, world_is_queryable, ReferenceError};

fn text(s: &str) -> Reply {
    Reply::Data(s.as_bytes().to_vec())
}

const QUERIES: [Query; 4] = [
    Query::LeastRecentlyUpdated,
    Query::MostRecentlyUpdated,
    Query::RecentlyUpdated,
    Query::TaxRates,
];

#[test]
fn missing_world_is_not_found() {
    let e = world_parameter(None).unwrap_err();
    assert_eq!(e, QueryError::MissingParameter);
    assert_eq!(status_code(e), 404);
    assert_eq!(world_parameter(Some(5)), Ok(5));
}

#[test]
fn unqueryable_world_is_not_found() {
    for q in QUERIES {
        let e = store_command(q, 73, Ok(false)).unwrap_err();
        assert_eq!(e, QueryError::NotFound);
        assert_eq!(status_code(e), 404);
    }
}

#[test]
fn lookup_failure_is_internal() {
    for q in QUERIES {
        for err in [ReferenceError::Lookup, ReferenceError::UnexpectedField] {
            let e = store_command(q, 73, Err(err)).unwrap_err();
            assert_eq!(e, QueryError::Internal);
            assert_eq!(status_code(e), 500);
        }
    }
}

#[test]
fn store_commands_per_query() {
    assert_eq!(store_command(Query::LeastRecentlyUpdated, 5, Ok(true)), Ok(StoreCommand::RangeWithScores(5)));
    assert_eq!(
        store_command(Query::MostRecentlyUpdated, 5, Ok(true)),
        Ok(StoreCommand::ReverseRangeWithScores(5))
    );
    assert_eq!(store_command(Query::RecentlyUpdated, 6, Ok(true)), Ok(StoreCommand::Range(6)));
    assert_eq!(store_command(Query::TaxRates, 7, Ok(true)), Ok(StoreCommand::HashGetAll(7)));
}

#[test]
fn least_recently_updated_world_five() {
    let v = Reply::Bulk(vec![Reply::Int(101), Reply::Int(100), Reply::Int(102), Reply::Int(200)]);
    let r = ranked_uploads_response(5, &v).unwrap();
    assert_eq!(
        r.items,
        vec![
            WorldItemUpload { world_id: 5, item_id: 101, last_upload_time: 100 },
            WorldItemUpload { world_id: 5, item_id: 102, last_upload_time: 200 },
        ]
    );
    assert!(r.items.iter().all(|u| u.world_id == 5));
}

#[test]
fn least_and_most_are_reversed() {
    let asc = Reply::Bulk(vec![text("1"), text("10"), text("2"), text("20"), text("3"), text("30")]);
    let desc = Reply::Bulk(vec![text("3"), text("30"), text("2"), text("20"), text("1"), text("10")]);
    let a = ranked_uploads_response(8, &asc).unwrap().items;
    let mut d = ranked_uploads_response(8, &desc).unwrap().items;
    d.reverse();
    assert_eq!(a, d);
    assert_eq!(a.len(), 3);
}

#[test]
fn empty_reply_is_not_found() {
    let empty = Reply::Bulk(Vec::new());
    assert_eq!(ranked_uploads_response(5, &empty).unwrap_err(), QueryError::NotFound);
    assert_eq!(recently_updated_response(&empty).unwrap_err(), QueryError::NotFound);
    assert_eq!(tax_rates_response(&empty), Err(QueryError::NotFound));
}

#[test]
fn undecodable_reply_is_internal() {
    assert_eq!(ranked_uploads_response(5, &Reply::Nil).unwrap_err(), QueryError::Internal);
    assert_eq!(recently_updated_response(&Reply::Int(3)).unwrap_err(), QueryError::Internal);
    assert_eq!(tax_rates_response(&Reply::Bulk(vec![text("Gridania"), Reply::Int(3)])), Err(QueryError::Internal));
}

#[test]
fn recently_updated_ids() {
    let v = Reply::Bulk(vec![text("5"), Reply::Nil, Reply::Int(9)]);
    assert_eq!(recently_updated_response(&v).unwrap().items, vec![5, 9]);
}

#[test]
fn tax_rates_answer() {
    let names = ["Limsa Lominsa", "Gridania", "Ul'dah", "Ishgard", "Kugane", "Crystarium", "Old Sharlayan"];
    let mut v = Vec::new();
    for (i, n) in names.iter().enumerate() {
        v.push(text(n));
        v.push(Reply::Int(i as i64 + 1));
    }
    let r = tax_rates_response(&Reply::Bulk(v)).unwrap();
    assert_eq!((r.limsa_lominsa, r.kugane, r.old_sharlayan), (1, 5, 7));
}

#[test]
fn with_world_id_rewrites_only_world() {
    let items = vec![
        WorldItemUpload { world_id: 0, item_id: 1, last_upload_time: 10 },
        WorldItemUpload { world_id: 3, item_id: 2, last_upload_time: -4 },
    ];
    let r = with_world_id(items, 40);
    assert_eq!(
        r,
        vec![
            WorldItemUpload { world_id: 40, item_id: 1, last_upload_time: 10 },
            WorldItemUpload { world_id: 40, item_id: 2, last_upload_time: -4 },
        ]
    );
}

#[test]
fn chaos_and_private_worlds_are_not_queryable() {
    assert!(!world_is_queryable(true, &"Chaos".to_string()));
    assert!(!world_is_queryable(false, &"Lich".to_string()));
    assert!(world_is_queryable(true, &"Lich".to_string()));
    assert!(world_is_queryable(true, &"chaos".to_string()));
}

#[test]
fn world_check_cases() {
    assert_eq!(world_check(Some(true), Some("Lich".to_string())), Ok(true));
    assert_eq!(world_check(Some(true), Some("Chaos".to_string())), Ok(false));
    assert_eq!(world_check(Some(false), Some("Lich".to_string())), Ok(false));
    assert_eq!(world_check(None, Some("Lich".to_string())), Err(ReferenceError::UnexpectedField));
    assert_eq!(world_check(Some(true), None), Err(ReferenceError::UnexpectedField));
}

#[test]
fn method_labels() {
    assert_eq!(method_to_str(HttpMethod::Get), "Get");
    assert_eq!(method_to_str(HttpMethod::Options), "Options");
    assert_eq!(method_to_str(HttpMethod::Patch), "Patch");
    assert_eq!(method_to_str(HttpMethod::Connect), "Connect");
}

#[test]
fn unreadable_world_is_a_lookup_failure() {
    let lich = || Some(Some("Lich".to_string()));
    assert_eq!(world_from_lookup(None, None), Err(ReferenceError::Lookup));
    assert_eq!(world_from_lookup(None, lich()), Err(ReferenceError::Lookup));
    assert_eq!(world_from_lookup(Some(Some(true)), None), Err(ReferenceError::Lookup));
    assert_eq!(world_from_lookup(Some(None), lich()), Err(ReferenceError::UnexpectedField));
    assert_eq!(world_from_lookup(Some(Some(true)), Some(None)), Err(ReferenceError::UnexpectedField));
    assert_eq!(world_from_lookup(Some(Some(true)), lich()), Ok(true));
    assert_eq!(world_from_lookup(Some(Some(false)), lich()), Ok(false));
    assert_eq!(world_from_lookup(Some(Some(true)), Some(Some("Chaos".to_string()))), Ok(false));
}
