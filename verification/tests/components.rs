use axum_baby::database::enum_type::{BusinessStatus, MediaSoucre};
use axum_baby::database::model::{Business, Media};
use axum_baby::error::{InternalConsistencyError, StoreError, StoreErrorKind, ValidationError};
use axum_baby::listing::assembler::{
    assemble, show_medias, MediasOnRandBusiness, RandBusiessWithMedias, RandBusiness,
};
use axum_baby::listing::loader::{copy_medias, group_and_cap, index_of, MediaGroup};
use axum_baby::listing::predicate::{same_text, FilterName, PredicateSet};
use axum_baby::listing::sampler::{arrange, cap, sample, Order};
use axum_baby::listing::selection::{compose, labels_hold, media_exists, Clause, Selection};
use axum_baby::listing::store::{MemoryStore, ParentQuery};

fn row(id: i32, category: &str, status: BusinessStatus) -> Business {
    Business {
        id,
        name: format!("b{}", id),
        overview: String::new(),
        token: Some("TKN".to_string()),
        logo: None,
        types: Some(vec!["dex".to_string()]),
        main_category: category.to_string(),
        chains: Some(vec!["eth".to_string(), "bsc".to_string()]),
        cmc_id: Some(id * 10),
        status,
        tags: None,
    }
}

fn photo(id: i32, business_id: i32) -> Media {
    Media { id, url: format!("u{}", id), business_id, source: MediaSoucre::Photo }
}

#[test]
fn filter_names() {
    assert_eq!(FilterName::parse("category"), Ok(FilterName::Category));
    assert_eq!(FilterName::parse("tag"), Ok(FilterName::Tag));
    assert_eq!(FilterName::parse("chain"), Ok(FilterName::Chain));
    assert_eq!(FilterName::parse("has_photo"), Ok(FilterName::HasPhoto));
    assert_eq!(
        FilterName::parse("Category"),
        Err(ValidationError::UnrecognizedFilter("Category".to_string()))
    );
    assert_eq!(FilterName::parse(""), Err(ValidationError::UnrecognizedFilter(String::new())));
    assert!(same_text("a", "a"));
    assert!(!same_text("a", "ab"));
}

#[test]
fn predicate_set_presence_and_values() {
    let empty = PredicateSet::new();
    assert!(!empty.has_category() && !empty.has_tag() && !empty.has_chain());
    assert!(!empty.has_has_photo());
    let mut set = PredicateSet::new();
    set.set(FilterName::Category, Some("defi"));
    set.set(FilterName::HasPhoto, Some("true"));
    assert!(set.has_category() && set.has_has_photo() && !set.has_tag() && !set.has_chain());
    assert_eq!(set.category(), Some(&"defi".to_string()));
    assert_eq!(set.has_photo(), Some(true));
    assert_eq!((set.tag(), set.chain()), (None, None));
    set.set(FilterName::HasPhoto, Some("yes"));
    assert_eq!(set.has_photo, Some(false));
    set.set(FilterName::Category, None);
    set.set(FilterName::Tag, Some("dex"));
    set.set(FilterName::Chain, Some("eth"));
    assert_eq!(
        set,
        PredicateSet {
            category: None,
            tag: Some("dex".to_string()),
            chain: Some("eth".to_string()),
            has_photo: Some(false)
        }
    );
}

#[test]
fn predicate_set_from_pairs() {
    let pairs = vec![
        ("chain".to_string(), Some("eth".to_string())),
        ("has_photo".to_string(), Some("true".to_string())),
        ("chain".to_string(), Some("bsc".to_string())),
        ("tag".to_string(), None),
    ];
    assert_eq!(
        PredicateSet::from_pairs(&pairs),
        Ok(PredicateSet {
            category: None,
            tag: None,
            chain: Some("bsc".to_string()),
            has_photo: Some(true)
        })
    );
    assert_eq!(PredicateSet::from_pairs(&vec![]), Ok(PredicateSet::new()));
    let pairs = vec![
        ("chain".to_string(), None),
        ("b".to_string(), None),
        ("a".to_string(), None),
    ];
    assert_eq!(
        PredicateSet::from_pairs(&pairs),
        Err(ValidationError::UnrecognizedFilter("b".to_string()))
    );
}

#[test]
fn every_set_of_filters_composes_its_own_selection() {
    let mut seen: Vec<Selection> = Vec::new();
    for mask in 0..16u32 {
        let set = PredicateSet {
            category: if mask & 1 != 0 { Some("c".to_string()) } else { None },
            tag: if mask & 2 != 0 { Some("t".to_string()) } else { None },
            chain: if mask & 4 != 0 { Some("h".to_string()) } else { None },
            has_photo: if mask & 8 != 0 { Some(true) } else { None },
        };
        let selection = compose(&set);
        assert_eq!(selection.clauses.len() as u32, 1 + mask.count_ones());
        assert_eq!(selection.clauses[0], Clause::StatusIs(BusinessStatus::Approved));
        assert!(!seen.contains(&selection));
        seen.push(selection);
    }
    assert_eq!(seen.len(), 16);
    let all = compose(&PredicateSet {
        category: Some("c".to_string()),
        tag: Some("t".to_string()),
        chain: Some("h".to_string()),
        has_photo: Some(false),
    });
    assert_eq!(
        all.clauses,
        vec![
            Clause::StatusIs(BusinessStatus::Approved),
            Clause::CategoryIs("c".to_string()),
            Clause::HasTag("t".to_string()),
            Clause::OnChain("h".to_string()),
            Clause::HasMedia(MediaSoucre::Photo),
        ]
    );
}

#[test]
fn clauses_one_by_one() {
    let b = row(1, "defi", BusinessStatus::Pending);
    let medias = vec![photo(1, 2), Media { source: MediaSoucre::Blog, ..photo(2, 1) }];
    assert!(Clause::StatusIs(BusinessStatus::Pending).admits(&b, &medias));
    assert!(!Clause::StatusIs(BusinessStatus::Approved).admits(&b, &medias));
    assert!(Clause::CategoryIs("defi".to_string()).admits(&b, &medias));
    assert!(!Clause::CategoryIs("def".to_string()).admits(&b, &medias));
    assert!(Clause::HasTag("dex".to_string()).admits(&b, &medias));
    assert!(!Clause::HasTag("eth".to_string()).admits(&b, &medias));
    assert!(Clause::OnChain("bsc".to_string()).admits(&b, &medias));
    assert!(!Clause::OnChain("dex".to_string()).admits(&b, &medias));
    assert!(Clause::HasMedia(MediaSoucre::Blog).admits(&b, &medias));
    assert!(!Clause::HasMedia(MediaSoucre::Photo).admits(&b, &medias));
    assert!(Selection { clauses: vec![] }.admits(&b, &medias));
    let both = Selection {
        clauses: vec![
            Clause::CategoryIs("defi".to_string()),
            Clause::HasMedia(MediaSoucre::Photo),
        ],
    };
    assert!(!both.admits(&b, &medias));
    assert!(both.admits(&b, &vec![photo(5, 1)]));
    assert!(!labels_hold(&None, &"x".to_string()));
    assert!(!labels_hold(&Some(vec![]), &"x".to_string()));
    assert!(labels_hold(&Some(vec!["y".to_string(), "x".to_string()]), &"x".to_string()));
    assert!(media_exists(&medias, 2, MediaSoucre::Photo));
    assert!(!media_exists(&medias, 1, MediaSoucre::Photo));
    assert!(!media_exists(&vec![], 1, MediaSoucre::Photo));
}

#[test]
fn cap_and_sample() {
    assert_eq!(cap(vec![1, 2, 3, 4], 2), vec![1, 2]);
    assert_eq!(cap(vec![1, 2, 3, 4], 9), vec![1, 2, 3, 4]);
    assert_eq!(cap(vec![1, 2, 3, 4], 0), Vec::<i32>::new());
    assert_eq!(sample(vec!['a', 'b', 'c', 'd'], 3, &vec![6, 0, 5]), vec!['c', 'a', 'd']);
    assert_eq!(sample(vec!['a', 'b', 'c', 'd'], 9, &vec![3, 3, 3, 3]), vec!['d', 'a', 'c', 'b']);
    assert_eq!(sample(vec!['a', 'b', 'c'], 2, &vec![]), vec!['a', 'b']);
    assert_eq!(sample(vec!['a', 'b', 'c'], 3, &vec![2]), vec!['c', 'a', 'b']);
    assert_eq!(sample(vec!['a', 'b', 'c'], 0, &vec![1]), Vec::<char>::new());
    assert_eq!(sample(Vec::<char>::new(), 4, &vec![1]), Vec::<char>::new());
    assert_eq!(sample(vec![7], 1, &vec![u64::MAX]), vec![7]);
    assert_eq!(arrange(vec![5, 6, 7], Order::IdAscending, 2, &vec![2]), vec![5, 6]);
    assert_eq!(arrange(vec![5, 6, 7], Order::Random, 2, &vec![2]), vec![7, 5]);
}

#[test]
fn index_leads_to_first_places() {
    let index = index_of(&vec![5, 3, 5, 9, 3]);
    assert_eq!(index.len(), 3);
    assert_eq!(index.get(&5), Some(&0));
    assert_eq!(index.get(&3), Some(&1));
    assert_eq!(index.get(&9), Some(&3));
    assert_eq!(index.get(&4), None);
    assert!(index_of(&vec![]).is_empty());
}

#[test]
fn groups_follow_the_batch() {
    let children = vec![photo(1, 20), photo(2, 10), photo(3, 20), photo(4, 20), photo(5, 20)];
    let groups = group_and_cap(&vec![10, 30, 20], &children, 3).unwrap();
    assert_eq!(
        groups,
        vec![
            MediaGroup { business_id: 10, medias: vec![photo(2, 10)] },
            MediaGroup { business_id: 30, medias: vec![] },
            MediaGroup { business_id: 20, medias: vec![photo(1, 20), photo(3, 20), photo(4, 20)] },
        ]
    );
    let uncapped = group_and_cap(&vec![20], &vec![photo(1, 20), photo(3, 20)], 5).unwrap();
    assert_eq!(uncapped[0].medias.len(), 2);
    let none = group_and_cap(&vec![20, 10], &children, 0).unwrap();
    assert!(none.iter().all(|g| g.medias.is_empty()));
    assert_eq!(group_and_cap(&vec![], &vec![], 3), Ok(vec![]));
    assert_eq!(copy_medias(&children), children);
}

#[test]
fn a_business_twice_in_a_batch_gets_its_group_twice() {
    let children = vec![photo(1, 7), photo(2, 8), photo(3, 7)];
    let groups = group_and_cap(&vec![7, 8, 7], &children, 1).unwrap();
    assert_eq!(
        groups,
        vec![
            MediaGroup { business_id: 7, medias: vec![photo(1, 7)] },
            MediaGroup { business_id: 8, medias: vec![photo(2, 8)] },
            MediaGroup { business_id: 7, medias: vec![photo(1, 7)] },
        ]
    );
}

#[test]
fn a_child_of_no_business_of_the_batch_fails_the_grouping() {
    let children = vec![photo(1, 7), photo(2, 99), photo(3, 98)];
    assert_eq!(
        group_and_cap(&vec![7, 8], &children, 3),
        Err(InternalConsistencyError::UnknownBusiness { business_id: 99 })
    );
    assert_eq!(
        group_and_cap(&vec![], &children, 3),
        Err(InternalConsistencyError::UnknownBusiness { business_id: 7 })
    );
}

#[test]
fn batched_load_equals_load_per_business() {
    let mut store = MemoryStore::new();
    for id in [3, 1, 2, 4] {
        store.insert_business(row(id, "defi", BusinessStatus::Approved)).unwrap();
    }
    for (id, owner) in [(1, 1), (2, 2), (3, 1), (4, 1), (5, 4), (6, 1), (7, 2), (8, 1)] {
        store.insert_media(photo(id, owner)).unwrap();
    }
    store.insert_media(Media { source: MediaSoucre::Discord, ..photo(0, 2) }).unwrap();
    let batch = vec![2, 3, 1];
    let together = store.query_children(&batch, MediaSoucre::Photo);
    assert_eq!(together.iter().map(|m| m.id).collect::<Vec<i32>>(), vec![1, 2, 3, 4, 6, 7, 8]);
    let groups = group_and_cap(&batch, &together, 3).unwrap();
    for (place, id) in batch.iter().enumerate() {
        let alone = store.query_children(&vec![*id], MediaSoucre::Photo);
        let single = group_and_cap(&vec![*id], &alone, 3).unwrap();
        assert_eq!(single.len(), 1);
        assert_eq!(groups[place], single[0]);
    }
    assert_eq!(groups[2].medias.iter().map(|m| m.id).collect::<Vec<i32>>(), vec![1, 3, 4]);
    assert!(store.query_children(&vec![], MediaSoucre::Photo).is_empty());
}

#[test]
fn rows_are_matched_by_identity() {
    let parents = vec![row(2, "nft", BusinessStatus::Approved), row(1, "defi", BusinessStatus::Approved)];
    let groups = vec![
        MediaGroup { business_id: 1, medias: vec![photo(5, 1)] },
        MediaGroup { business_id: 1, medias: vec![photo(6, 1)] },
    ];
    let rows = assemble(&parents, &groups).unwrap();
    assert_eq!(
        rows,
        vec![
            RandBusiessWithMedias { business: RandBusiness::of(&parents[0]), medias: vec![] },
            RandBusiessWithMedias {
                business: RandBusiness::of(&parents[1]),
                medias: vec![MediasOnRandBusiness { url: "u5".to_string(), source: MediaSoucre::Photo }],
            },
        ]
    );
    assert_eq!(assemble(&vec![], &vec![]), Ok(vec![]));
    assert_eq!(show_medias(&vec![photo(5, 1)]), vec![MediasOnRandBusiness::of(&photo(5, 1))]);
}

#[test]
fn a_group_of_no_business_of_the_batch_fails_the_assembly() {
    let parents = vec![row(2, "nft", BusinessStatus::Approved)];
    let groups = vec![
        MediaGroup { business_id: 2, medias: vec![] },
        MediaGroup { business_id: 4, medias: vec![] },
        MediaGroup { business_id: 3, medias: vec![photo(1, 3)] },
    ];
    assert_eq!(
        assemble(&parents, &groups),
        Err(InternalConsistencyError::UnknownBusiness { business_id: 4 })
    );
}

#[test]
fn what_a_listing_shows_of_a_business() {
    let b = row(3, "defi", BusinessStatus::Approved);
    let shown = RandBusiness::from(b.clone());
    assert_eq!(shown, RandBusiness::of(&b));
    assert_eq!(
        shown,
        RandBusiness {
            id: 3,
            name: "b3".to_string(),
            overview: String::new(),
            token: Some("TKN".to_string()),
            logo: None,
            types: Some(vec!["dex".to_string()]),
            main_category: "defi".to_string(),
            cmc_id: Some(30),
        }
    );
    let m = photo(9, 3);
    assert_eq!(
        MediasOnRandBusiness::from(m.clone()),
        MediasOnRandBusiness { url: "u9".to_string(), source: MediaSoucre::Photo }
    );
    assert_eq!(m.clone(), m);
    assert_eq!(b.clone(), b);
}

#[test]
fn the_store_keeps_rows_by_identity() {
    let mut store = MemoryStore::new();
    assert_eq!((store.business_count(), store.media_count()), (0, 0));
    for id in [5, 2, 9, 1] {
        assert_eq!(store.insert_business(row(id, "defi", BusinessStatus::Approved)), Ok(()));
    }
    let violation = Err(StoreError { kind: StoreErrorKind::ConstraintViolation });
    assert_eq!(store.insert_business(row(9, "nft", BusinessStatus::Approved)), violation);
    assert_eq!(store.business_count(), 4);
    assert_eq!(store.insert_media(photo(3, 9)), Ok(()));
    assert_eq!(store.insert_media(photo(1, 2)), Ok(()));
    assert_eq!(store.insert_media(photo(3, 2)), violation);
    assert_eq!(store.insert_media(photo(4, 7)), violation);
    assert_eq!(store.media_count(), 2);
    let all = store.select(&Selection { clauses: vec![] });
    assert_eq!(all.iter().map(|b| b.id).collect::<Vec<i32>>(), vec![1, 2, 5, 9]);
    assert_eq!(all[3].main_category, "defi");
    let medias = store.query_children(&vec![9, 2], MediaSoucre::Photo);
    assert_eq!(medias, vec![photo(1, 2), photo(3, 9)]);
    let query = ParentQuery {
        selection: Selection { clauses: vec![Clause::HasMedia(MediaSoucre::Photo)] },
        order: Order::Random,
        limit: 1,
    };
    assert_eq!(store.query_parents(&query, &vec![1])[0].id, 9);
    assert_eq!(store.query_parents(&query, &vec![0])[0].id, 2);
    assert_eq!(store.query_parents(&query, &vec![0]).len(), 1);
}
