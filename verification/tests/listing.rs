use axum_baby::database::enum_type::{BusinessStatus, MediaSoucre};
use axum_baby::database::model::{Business, Media};
use axum_baby::error::{
    InternalConsistencyError, ListError, StoreError, StoreErrorKind, ValidationError,
};
use axum_baby::listing::engine::{
    advance, begin, list, list_named, ListState, NextStep, StoreAnswer, MEDIAS_PER_BUSINESS,
};
use axum_baby::listing::predicate::PredicateSet;
use axum_baby::listing::sampler::Order;
use axum_baby::listing::selection::{compose, Clause};
use axum_baby::listing::store::MemoryStore;

fn business(id: i32, name: &str, category: &str, status: BusinessStatus) -> Business {
    Business {
        id,
        name: name.to_string(),
        overview: format!("about {}", name),
        token: None,
        logo: None,
        types: None,
        main_category: category.to_string(),
        chains: None,
        cmc_id: None,
        status,
        tags: None,
    }
}

fn media(id: i32, business_id: i32, source: MediaSoucre) -> Media {
    Media { id, url: format!("https://media.example/{}", id), business_id, source }
}

fn example_store() -> MemoryStore {
    let mut store = MemoryStore::new();
    assert_eq!(store.insert_business(business(1, "A", "defi", BusinessStatus::Approved)), Ok(()));
    assert_eq!(store.insert_business(business(2, "B", "nft", BusinessStatus::Approved)), Ok(()));
    assert_eq!(store.insert_business(business(3, "C", "defi", BusinessStatus::Pending)), Ok(()));
    assert_eq!(store.insert_media(media(10, 1, MediaSoucre::Photo)), Ok(()));
    assert_eq!(store.insert_media(media(11, 1, MediaSoucre::Photo)), Ok(()));
    assert_eq!(store.insert_media(media(12, 3, MediaSoucre::Photo)), Ok(()));
    store
}

fn pool_of_twenty() -> MemoryStore {
    let mut store = MemoryStore::new();
    for id in 1..=20 {
        store.insert_business(business(id, "in", "defi", BusinessStatus::Approved)).unwrap();
    }
    for id in 21..=30 {
        store.insert_business(business(id, "out", "nft", BusinessStatus::Approved)).unwrap();
    }
    for id in 31..=35 {
        store.insert_business(business(id, "hidden", "defi", BusinessStatus::Rejected)).unwrap();
    }
    store
}

fn ids(rows: &[axum_baby::listing::assembler::RandBusiessWithMedias]) -> Vec<i32> {
    rows.iter().map(|r| r.business.id).collect()
}

#[test]
fn example_scenario_category_defi() {
    let store = example_store();
    let mut filters = PredicateSet::new();
    filters.category = Some("defi".to_string());
    let rows = list(&store, &filters, 10, false, &vec![]).unwrap();
    assert_eq!(rows.len(), 1);
    assert_eq!(rows[0].business.id, 1);
    assert_eq!(rows[0].business.name, "A");
    assert_eq!(rows[0].business.main_category, "defi");
    assert_eq!(rows[0].medias.len(), 2);
    assert_eq!(rows[0].medias[0].url, "https://media.example/10");
    assert_eq!(rows[0].medias[1].url, "https://media.example/11");
    assert_eq!(rows[0].medias[0].source, MediaSoucre::Photo);
    assert_eq!(rows[0].medias[1].source, MediaSoucre::Photo);
}

#[test]
fn example_scenario_has_photo() {
    let store = example_store();
    let mut filters = PredicateSet::new();
    filters.has_photo = Some(true);
    let rows = list(&store, &filters, 10, false, &vec![]).unwrap();
    assert_eq!(ids(&rows), vec![1]);
    assert_eq!(rows[0].medias.len(), 2);
}

#[test]
fn no_filter_lists_every_approved_business() {
    let store = example_store();
    let rows = list(&store, &PredicateSet::new(), 10, false, &vec![]).unwrap();
    assert_eq!(ids(&rows), vec![1, 2]);
    assert_eq!(rows[1].medias.len(), 0);
}

#[test]
fn limit_below_one_is_a_validation_error() {
    let store = example_store();
    let filters = PredicateSet::new();
    assert_eq!(
        list(&store, &filters, 0, false, &vec![]),
        Err(ListError::Validation(ValidationError::NonPositiveLimit))
    );
    assert_eq!(
        list(&store, &filters, 0, true, &vec![7, 8]),
        Err(ListError::Validation(ValidationError::NonPositiveLimit))
    );
}

#[test]
fn limit_caps_the_listing() {
    let store = pool_of_twenty();
    let rows = list(&store, &PredicateSet::new(), 4, false, &vec![]).unwrap();
    assert_eq!(ids(&rows), vec![1, 2, 3, 4]);
}

#[test]
fn a_business_with_five_photos_is_listed_once() {
    let mut store = MemoryStore::new();
    store.insert_business(business(7, "many", "defi", BusinessStatus::Approved)).unwrap();
    store.insert_business(business(8, "none", "defi", BusinessStatus::Approved)).unwrap();
    for id in 1..=5 {
        store.insert_media(media(id, 7, MediaSoucre::Photo)).unwrap();
    }
    let mut filters = PredicateSet::new();
    filters.has_photo = Some(true);
    let rows = list(&store, &filters, 10, false, &vec![]).unwrap();
    assert_eq!(ids(&rows), vec![7]);
    let sampled = list(&store, &filters, 10, true, &vec![3, 1, 4]).unwrap();
    assert_eq!(ids(&sampled), vec![7]);
}

#[test]
fn the_photo_filter_counts_photos_only() {
    let mut store = MemoryStore::new();
    store.insert_business(business(1, "tg", "defi", BusinessStatus::Approved)).unwrap();
    store.insert_media(media(1, 1, MediaSoucre::Telegram)).unwrap();
    store.insert_media(media(2, 1, MediaSoucre::Blog)).unwrap();
    let mut filters = PredicateSet::new();
    filters.has_photo = Some(true);
    assert_eq!(list(&store, &filters, 10, false, &vec![]).unwrap().len(), 0);
    let rows = list(&store, &PredicateSet::new(), 10, false, &vec![]).unwrap();
    assert_eq!(rows.len(), 1);
    assert_eq!(rows[0].medias.len(), 0);
}

#[test]
fn the_photo_filter_goes_by_presence() {
    let store = example_store();
    let mut filters = PredicateSet::new();
    filters.has_photo = Some(false);
    let rows = list(&store, &filters, 10, false, &vec![]).unwrap();
    assert_eq!(ids(&rows), vec![1]);
}

#[test]
fn cap_keeps_the_three_lowest_of_ten() {
    let mut store = MemoryStore::new();
    store.insert_business(business(1, "ten", "defi", BusinessStatus::Approved)).unwrap();
    store.insert_business(business(2, "two", "defi", BusinessStatus::Approved)).unwrap();
    for id in [109, 103, 107, 101, 105, 110, 102, 108, 104, 106] {
        store.insert_media(media(id, 1, MediaSoucre::Photo)).unwrap();
    }
    store.insert_media(media(50, 2, MediaSoucre::Photo)).unwrap();
    store.insert_media(media(150, 2, MediaSoucre::Photo)).unwrap();
    store.insert_media(media(1, 1, MediaSoucre::Twitter)).unwrap();
    let rows = list(&store, &PredicateSet::new(), 10, false, &vec![]).unwrap();
    assert_eq!(MEDIAS_PER_BUSINESS, 3);
    assert_eq!(rows.len(), 2);
    let urls: Vec<&str> = rows[0].medias.iter().map(|m| m.url.as_str()).collect();
    assert_eq!(
        urls,
        vec![
            "https://media.example/101",
            "https://media.example/102",
            "https://media.example/103"
        ]
    );
    let urls: Vec<&str> = rows[1].medias.iter().map(|m| m.url.as_str()).collect();
    assert_eq!(urls, vec!["https://media.example/50", "https://media.example/150"]);
}

#[test]
fn sampling_draws_five_of_the_twenty_that_pass() {
    let store = pool_of_twenty();
    let mut filters = PredicateSet::new();
    filters.category = Some("defi".to_string());
    let first = list(&store, &filters, 5, true, &vec![19, 3, 77, 1234567, 8]).unwrap();
    let second = list(&store, &filters, 5, true, &vec![0, 18, 5, 5, 41]).unwrap();
    for rows in [&first, &second] {
        assert_eq!(rows.len(), 5);
        let mut seen = ids(rows);
        assert!(seen.iter().all(|id| (1..=20).contains(id)));
        assert!(rows.iter().all(|r| r.business.main_category == "defi"));
        seen.sort();
        seen.dedup();
        assert_eq!(seen.len(), 5);
    }
    assert_eq!(ids(&first), vec![20, 4, 7, 13, 11]);
    assert_eq!(ids(&second), vec![1, 20, 7, 8, 13]);
    assert_ne!(ids(&first), ids(&second));
}

#[test]
fn sampling_a_small_pool_returns_all_of_it() {
    let store = example_store();
    let mut rows = ids(&list(&store, &PredicateSet::new(), 5, true, &vec![1, 0]).unwrap());
    assert_eq!(rows, vec![2, 1]);
    rows.sort();
    assert_eq!(rows, vec![1, 2]);
    let undrawn = ids(&list(&store, &PredicateSet::new(), 5, true, &vec![]).unwrap());
    assert_eq!(undrawn, vec![1, 2]);
}

#[test]
fn an_absent_filter_selects_a_superset() {
    let mut store = pool_of_twenty();
    let mut tagged = business(40, "tagged", "defi", BusinessStatus::Approved);
    tagged.tags = Some(vec!["dex".to_string()]);
    tagged.chains = Some(vec!["eth".to_string()]);
    store.insert_business(tagged).unwrap();
    store.insert_media(media(1, 40, MediaSoucre::Photo)).unwrap();

    let full = PredicateSet {
        category: Some("defi".to_string()),
        tag: Some("dex".to_string()),
        chain: Some("eth".to_string()),
        has_photo: Some(true),
    };
    let narrow = ids(&list(&store, &full, 100, false, &vec![]).unwrap());
    assert_eq!(narrow, vec![40]);
    let without = [
        PredicateSet { category: None, ..clone(&full) },
        PredicateSet { tag: None, ..clone(&full) },
        PredicateSet { chain: None, ..clone(&full) },
        PredicateSet { has_photo: None, ..clone(&full) },
    ];
    for wider in without.iter() {
        let wide = ids(&list(&store, wider, 100, false, &vec![]).unwrap());
        assert!(narrow.iter().all(|id| wide.contains(id)));
    }
    let only_category = PredicateSet { category: Some("defi".to_string()), ..PredicateSet::new() };
    let some = ids(&list(&store, &only_category, 100, false, &vec![]).unwrap());
    let all = ids(&list(&store, &PredicateSet::new(), 100, false, &vec![]).unwrap());
    assert_eq!(some.len(), 21);
    assert_eq!(all.len(), 31);
    assert!(some.iter().all(|id| all.contains(id)));
}

fn clone(set: &PredicateSet) -> PredicateSet {
    PredicateSet {
        category: set.category.clone(),
        tag: set.tag.clone(),
        chain: set.chain.clone(),
        has_photo: set.has_photo,
    }
}

#[test]
fn only_approved_businesses_are_listed() {
    let store = pool_of_twenty();
    for sample in [false, true] {
        let rows = list(&store, &PredicateSet::new(), 100, sample, &vec![5, 9, 2]).unwrap();
        assert_eq!(rows.len(), 30);
        assert!(rows.iter().all(|r| r.business.id <= 30));
    }
    let mut filters = PredicateSet::new();
    filters.category = Some("defi".to_string());
    let rows = list(&store, &filters, 100, false, &vec![]).unwrap();
    assert_eq!(ids(&rows), (1..=20).collect::<Vec<i32>>());
}

#[test]
fn tag_matches_types_and_tags() {
    let mut store = MemoryStore::new();
    let mut by_type = business(1, "by type", "defi", BusinessStatus::Approved);
    by_type.types = Some(vec!["wallet".to_string(), "dex".to_string()]);
    let mut by_tag = business(2, "by tag", "nft", BusinessStatus::Approved);
    by_tag.tags = Some(vec!["dex".to_string()]);
    let mut neither = business(3, "neither", "defi", BusinessStatus::Approved);
    neither.types = Some(vec![]);
    neither.tags = Some(vec!["dexx".to_string()]);
    neither.chains = Some(vec!["dex".to_string()]);
    store.insert_business(by_type).unwrap();
    store.insert_business(by_tag).unwrap();
    store.insert_business(neither).unwrap();
    let mut filters = PredicateSet::new();
    filters.tag = Some("dex".to_string());
    assert_eq!(ids(&list(&store, &filters, 10, false, &vec![]).unwrap()), vec![1, 2]);
    let mut filters = PredicateSet::new();
    filters.chain = Some("dex".to_string());
    assert_eq!(ids(&list(&store, &filters, 10, false, &vec![]).unwrap()), vec![3]);
}

#[test]
fn filters_by_name() {
    let store = example_store();
    let entries = vec![
        ("category".to_string(), Some("nft".to_string())),
        ("tag".to_string(), None),
        ("category".to_string(), Some("defi".to_string())),
    ];
    let rows = list_named(&store, &entries, 10, false, &vec![]).unwrap();
    assert_eq!(ids(&rows), vec![1]);
    let entries = vec![
        ("category".to_string(), Some("defi".to_string())),
        ("colour".to_string(), Some("red".to_string())),
        ("shape".to_string(), None),
    ];
    assert_eq!(
        list_named(&store, &entries, 10, false, &vec![]),
        Err(ListError::Validation(ValidationError::UnrecognizedFilter("colour".to_string())))
    );
    assert_eq!(
        list_named(&store, &entries, 0, false, &vec![]),
        Err(ListError::Validation(ValidationError::UnrecognizedFilter("colour".to_string())))
    );
    assert_eq!(
        list_named(&store, &vec![], 0, false, &vec![]),
        Err(ListError::Validation(ValidationError::NonPositiveLimit))
    );
}

#[test]
fn begin_asks_for_the_composed_selection() {
    let mut filters = PredicateSet::new();
    filters.chain = Some("eth".to_string());
    let (state, step) = begin(&filters, 7, true);
    assert_eq!(state, ListState::AwaitingParents);
    match step {
        NextStep::AskParents(query) => {
            assert_eq!(query.limit, 7);
            assert_eq!(query.order, Order::Random);
            assert_eq!(query.selection, compose(&filters));
            assert_eq!(
                query.selection.clauses,
                vec![
                    Clause::StatusIs(BusinessStatus::Approved),
                    Clause::OnChain("eth".to_string())
                ]
            );
        }
        other => panic!("unexpected step {:?}", other),
    }
    let (state, step) = begin(&filters, 1, false);
    assert_eq!(state, ListState::AwaitingParents);
    match step {
        NextStep::AskParents(query) => assert_eq!(query.order, Order::IdAscending),
        other => panic!("unexpected step {:?}", other),
    }
    let (state, step) = begin(&filters, 0, false);
    assert_eq!(state, ListState::Finished);
    assert_eq!(step, NextStep::Fail(ListError::Validation(ValidationError::NonPositiveLimit)));
}

#[test]
fn an_empty_batch_asks_for_no_media() {
    let (state, step) = advance(ListState::AwaitingParents, StoreAnswer::Parents(vec![]));
    assert_eq!(state, ListState::Finished);
    assert_eq!(step, NextStep::Deliver(vec![]));
}

#[test]
fn a_batch_asks_once_for_the_photos_of_all() {
    let parents = vec![
        business(9, "nine", "defi", BusinessStatus::Approved),
        business(4, "four", "defi", BusinessStatus::Approved),
    ];
    let (state, step) = advance(ListState::AwaitingParents, StoreAnswer::Parents(parents));
    match &step {
        NextStep::AskChildren(query) => {
            assert_eq!(query.business_ids, vec![9, 4]);
            assert_eq!(query.source, MediaSoucre::Photo);
        }
        other => panic!("unexpected step {:?}", other),
    }
    let children = vec![
        media(1, 4, MediaSoucre::Photo),
        media(2, 9, MediaSoucre::Photo),
        media(3, 4, MediaSoucre::Photo),
        media(4, 4, MediaSoucre::Photo),
        media(5, 4, MediaSoucre::Photo),
    ];
    let (state, step) = advance(state, StoreAnswer::Children(children));
    assert_eq!(state, ListState::Finished);
    match step {
        NextStep::Deliver(rows) => {
            assert_eq!(ids(&rows), vec![9, 4]);
            assert_eq!(rows[0].medias.len(), 1);
            assert_eq!(rows[0].medias[0].url, "https://media.example/2");
            let urls: Vec<&str> = rows[1].medias.iter().map(|m| m.url.as_str()).collect();
            assert_eq!(
                urls,
                vec![
                    "https://media.example/1",
                    "https://media.example/3",
                    "https://media.example/4"
                ]
            );
        }
        other => panic!("unexpected step {:?}", other),
    }
}

#[test]
fn a_store_failure_is_handed_on_unchanged() {
    for kind in [
        StoreErrorKind::ConnectionFailure,
        StoreErrorKind::ConstraintViolation,
        StoreErrorKind::Timeout,
        StoreErrorKind::Unknown,
    ] {
        let failure = StoreError { kind };
        let (state, step) = advance(ListState::AwaitingParents, StoreAnswer::Failed(failure));
        assert_eq!(state, ListState::Finished);
        assert_eq!(step, NextStep::Fail(ListError::Store(failure)));
        let waiting = ListState::AwaitingChildren {
            parents: vec![business(1, "a", "defi", BusinessStatus::Approved)],
        };
        let (state, step) = advance(waiting, StoreAnswer::Failed(failure));
        assert_eq!(state, ListState::Finished);
        assert_eq!(step, NextStep::Fail(ListError::Store(failure)));
    }
}

#[test]
fn a_stray_media_record_fails_the_request() {
    let waiting = ListState::AwaitingChildren {
        parents: vec![business(1, "a", "defi", BusinessStatus::Approved)],
    };
    let children = vec![
        media(1, 1, MediaSoucre::Photo),
        media(2, 6, MediaSoucre::Photo),
        media(3, 5, MediaSoucre::Photo),
    ];
    let (state, step) = advance(waiting, StoreAnswer::Children(children));
    assert_eq!(state, ListState::Finished);
    assert_eq!(
        step,
        NextStep::Fail(ListError::Internal(InternalConsistencyError::UnknownBusiness {
            business_id: 6
        }))
    );
}

#[test]
fn an_answer_out_of_turn_fails_the_request() {
    let unexpected = NextStep::Fail(ListError::Internal(InternalConsistencyError::UnexpectedAnswer));
    let (state, step) = advance(ListState::AwaitingParents, StoreAnswer::Children(vec![]));
    assert_eq!((state, step), (ListState::Finished, clone_step(&unexpected)));
    let waiting = ListState::AwaitingChildren { parents: vec![] };
    let (state, step) = advance(waiting, StoreAnswer::Parents(vec![]));
    assert_eq!((state, step), (ListState::Finished, clone_step(&unexpected)));
    let (state, step) = advance(ListState::Finished, StoreAnswer::Parents(vec![]));
    assert_eq!((state, step), (ListState::Finished, clone_step(&unexpected)));
    let failure = StoreError { kind: StoreErrorKind::Timeout };
    let (state, step) = advance(ListState::Finished, StoreAnswer::Failed(failure));
    assert_eq!((state, step), (ListState::Finished, unexpected));
}

fn clone_step(step: &NextStep) -> NextStep {
    match step {
        NextStep::Fail(ListError::Internal(e)) => NextStep::Fail(ListError::Internal(*e)),
        other => panic!("unexpected step {:?}", other),
    }
}
