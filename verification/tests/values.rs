use axum_baby::database::enum_type::{BusinessStatus, MediaSoucre};
use axum_baby::database::model::{copy_labels, copy_optional_text, Business, Media};
use axum_baby::database::query_buider::QueryBuider;
use axum_baby::error::{ListError, ValidationError};
use axum_baby::listing::predicate::PredicateSet;
use axum_baby::listing::store::MemoryStore;
use axum_baby::routes::body::{Category, MokeBody, MokeBodyErrors};
use axum_baby::routes::query::{Pagination, PaginationErrors};
use axum_baby::schedulers::cmc::{
    crawl_page, decimal_text, joined_ids, page_window, CrawlStep, CHUNK_SIZE,
};
use axum_baby::services::business::{
    get_by_categories, get_rand_businesses, BusinessesCategoryQuery, RandomBusinessesQuery, Sort,
};

fn row(id: i32, category: &str, types: &[&str], tags: &[&str], chains: &[&str]) -> Business {
    let labels = |l: &[&str]| Some(l.iter().map(|s| s.to_string()).collect::<Vec<String>>());
    Business {
        id,
        name: format!("b{}", id),
        overview: String::new(),
        token: None,
        logo: Some("logo.png".to_string()),
        types: labels(types),
        main_category: category.to_string(),
        chains: labels(chains),
        cmc_id: None,
        status: BusinessStatus::Approved,
        tags: labels(tags),
    }
}

fn store() -> MemoryStore {
    let mut store = MemoryStore::new();
    store.insert_business(row(1, "defi", &["dex"], &[], &["eth"])).unwrap();
    store.insert_business(row(2, "nft", &[], &["dex"], &["eth", "bsc"])).unwrap();
    store.insert_business(row(3, "defi", &["lending"], &["yield"], &["bsc"])).unwrap();
    let mut pending = row(4, "defi", &["dex"], &["dex"], &["eth"]);
    pending.status = BusinessStatus::Pending;
    store.insert_business(pending).unwrap();
    for (id, owner, source) in [
        (1, 3, MediaSoucre::Photo),
        (2, 3, MediaSoucre::Twitter),
        (3, 3, MediaSoucre::Photo),
        (4, 4, MediaSoucre::Photo),
        (5, 3, MediaSoucre::Photo),
        (6, 3, MediaSoucre::Photo),
    ] {
        store.insert_media(Media { id, url: format!("u{}", id), business_id: owner, source }).unwrap();
    }
    store
}

#[test]
fn query_text_is_built_condition_by_condition() {
    let mut q = QueryBuider::new();
    assert_eq!(q.get_query(), "");
    q.and_where("a = 1");
    assert_eq!(q.get_query(), "WHERE a = 1");
    q.and_where("b = 2");
    assert_eq!(q.get_query(), "WHERE a = 1 AND b = 2");
    q.and_where("");
    assert_eq!(q.get_query(), "WHERE a = 1 AND b = 2 AND ");
    q.where_("c = 3");
    assert_eq!(q.get_query(), "WHERE c = 3");
    let mut q = QueryBuider::new();
    q.where_("x");
    q.where_("y");
    assert_eq!(q.get_query(), "WHERE y");
}

#[test]
fn copies_keep_what_they_copy() {
    assert_eq!(copy_optional_text(&None), None);
    assert_eq!(copy_optional_text(&Some("a".to_string())), Some("a".to_string()));
    let labels = vec!["b".to_string(), "a".to_string(), "b".to_string()];
    assert_eq!(copy_labels(&labels), labels);
    assert_eq!(copy_labels(&vec![]), Vec::<String>::new());
}

#[test]
fn random_businesses_by_their_parameters() {
    let store = store();
    let query = RandomBusinessesQuery {
        limit: 2,
        type_: Some("dex".to_string()),
        main_category: None,
        banner_only: None,
    };
    assert_eq!(query.validate(), Ok(()));
    assert_eq!(
        query.predicate_set(),
        PredicateSet { category: None, tag: Some("dex".to_string()), chain: None, has_photo: None }
    );
    let rows = get_rand_businesses(&store, &query, &vec![1, 0]).unwrap();
    assert_eq!(rows.iter().map(|r| r.business.id).collect::<Vec<i32>>(), vec![2, 1]);
    let query = RandomBusinessesQuery {
        limit: 5,
        type_: None,
        main_category: Some("defi".to_string()),
        banner_only: Some(true),
    };
    let rows = get_rand_businesses(&store, &query, &vec![9]).unwrap();
    assert_eq!(rows.len(), 1);
    assert_eq!(rows[0].business.id, 3);
    assert_eq!(rows[0].business.logo, Some("logo.png".to_string()));
    let urls: Vec<&str> = rows[0].medias.iter().map(|m| m.url.as_str()).collect();
    assert_eq!(urls, vec!["u1", "u3", "u5"]);
    let none = RandomBusinessesQuery { limit: 0, type_: None, main_category: None, banner_only: None };
    assert_eq!(none.validate(), Err(ValidationError::NonPositiveLimit));
    assert_eq!(
        get_rand_businesses(&store, &none, &vec![]),
        Err(ListError::Validation(ValidationError::NonPositiveLimit))
    );
}

#[test]
fn businesses_by_category() {
    let store = store();
    let ids = |q: &BusinessesCategoryQuery| {
        get_by_categories(&store, q).iter().map(|b| b.id).collect::<Vec<i32>>()
    };
    let all = BusinessesCategoryQuery { types: None, main_category: None, chain: None, sort: None };
    assert_eq!(ids(&all), vec![1, 2, 3]);
    let defi = BusinessesCategoryQuery { main_category: Some("defi".to_string()), ..all };
    assert_eq!(ids(&defi), vec![1, 3]);
    let dex = BusinessesCategoryQuery {
        types: Some("dex".to_string()),
        main_category: Some("defi".to_string()),
        chain: None,
        sort: Some(Sort::BestRating),
    };
    assert_eq!(
        dex.predicate_set(),
        PredicateSet { category: None, tag: Some("dex".to_string()), chain: None, has_photo: None }
    );
    assert_eq!(ids(&dex), vec![1, 2]);
    let bsc = BusinessesCategoryQuery {
        types: None,
        main_category: Some("defi".to_string()),
        chain: Some("bsc".to_string()),
        sort: None,
    };
    assert_eq!(ids(&bsc), vec![3]);
    assert_eq!(get_by_categories(&store, &bsc)[0].tags, Some(vec!["yield".to_string()]));
    assert_eq!(Sort::default(), Sort::Lastest);
}

#[test]
fn paging_parameters() {
    let ok = |page, per_page| Pagination { page, per_page }.validate();
    assert_eq!(ok(None, None), Ok(()));
    assert_eq!(ok(Some(1), Some(100)), Ok(()));
    assert_eq!(ok(Some(usize::MAX), Some(0)), Ok(()));
    assert_eq!(ok(Some(0), None), Err(PaginationErrors { page: true, per_page: false }));
    assert_eq!(ok(None, Some(101)), Err(PaginationErrors { page: false, per_page: true }));
    assert_eq!(ok(Some(0), Some(101)), Err(PaginationErrors { page: true, per_page: true }));
    assert_eq!(ok(Some(0), Some(100)), Err(PaginationErrors { page: true, per_page: false }));
}

#[test]
fn sample_body() {
    let body = |name: &str, age| MokeBody { name: name.to_string(), age, category: Category::Dex };
    assert_eq!(body("abc", 18).validate(), Ok(()));
    assert_eq!(body("\u{e9}\u{e9}\u{e9}", 99).validate(), Ok(()));
    assert_eq!(body("ab", 18).validate(), Err(MokeBodyErrors { name: true, age: false }));
    assert_eq!(body("\u{e9}\u{e9}", 18).validate(), Err(MokeBodyErrors { name: true, age: false }));
    assert_eq!(body("abc", 17).validate(), Err(MokeBodyErrors { name: false, age: true }));
    assert_eq!(body("", 0).validate(), Err(MokeBodyErrors { name: true, age: true }));
    assert_eq!(Category::All.as_str(), "all");
    assert_eq!(Category::Dex.as_str(), "dev");
    assert_eq!(Category::Cex.as_str(), "cex");
}

#[test]
fn numbers_in_decimal() {
    for n in [0, 7, 10, 99, 100, 1027, 2_147_483_647, -1, -10, -305, i32::MIN] {
        assert_eq!(decimal_text(n), n.to_string());
    }
    assert_eq!(decimal_text(i32::MIN), "-2147483648");
}

#[test]
fn one_page_of_the_crawl() {
    assert_eq!(CHUNK_SIZE, 50);
    assert_eq!(joined_ids(&vec![]), "");
    assert_eq!(joined_ids(&vec![1]), "1");
    assert_eq!(joined_ids(&vec![1, 1027, 5994, -3]), "1,1027,5994,-3");
    assert_eq!(crawl_page(&vec![]), CrawlStep::Stop);
    assert_eq!(crawl_page(&vec![825, 3408]), CrawlStep::Quote { id: "825,3408".to_string() });
    assert_eq!(page_window(1), Some((50, 0)));
    assert_eq!(page_window(2), Some((50, 50)));
    assert_eq!(page_window(41), Some((50, 2000)));
    assert_eq!(page_window(0), None);
    assert_eq!(page_window(-3), None);
    assert_eq!(page_window(i64::MAX), None);
    assert_eq!(page_window(i64::MAX / 50 + 1), Some((50, i64::MAX / 50 * 50)));
    assert_eq!(page_window(i64::MAX / 50 + 2), None);
}
