use url_mapper::db::{Store, StoreError, UrlMap};
use url_mapper::manager::{error_status, process, run, Command, Reply};

#[test]
fn every_command_gets_exactly_one_reply() {
    let mut store = Store::new();
    let cmds = vec![
        Command::CreateUrlMap {
            url_map: UrlMap::new("a".to_string(), "http://a".to_string()),
        },
        Command::CreateUrlMap {
            url_map: UrlMap::new("b".to_string(), "http://b".to_string()),
        },
        Command::CreateUrlMap {
            url_map: UrlMap::new("c".to_string(), "http://c".to_string()),
        },
        Command::GetUrlMaps,
        Command::DeleteUrlMap { key: "b".to_string() },
    ];
    let n = cmds.len();
    let replies = run(&mut store, cmds);
    assert_eq!(replies.len(), n);
    for reply in &replies[..3] {
        match reply {
            Reply::UrlMap(_) => {},
            _ => panic!("an insert of a fresh key must succeed"),
        }
    }
    match &replies[3] {
        Reply::UrlMaps(all) => assert_eq!(all.len(), 3),
        _ => panic!("the listing must succeed"),
    }
    match &replies[4] {
        Reply::UrlMap(m) => assert_eq!(m.key, "b"),
        _ => panic!("the delete of a present key must succeed"),
    }
    assert_eq!(store.list().len(), 2);
}

#[test]
fn racing_insert_and_delete_follow_dequeue_order() {
    // Insert dequeued first, delete second: the key ends absent.
    let mut store = Store::new();
    let replies = run(
        &mut store,
        vec![
            Command::CreateUrlMap {
                url_map: UrlMap::new("a".to_string(), "http://x".to_string()),
            },
            Command::DeleteUrlMap { key: "a".to_string() },
        ],
    );
    assert_eq!(replies.len(), 2);
    assert!(matches!(&replies[0], Reply::UrlMap(_)));
    assert!(matches!(&replies[1], Reply::UrlMap(_)));
    assert!(store.get(&"a".to_string()).is_err());

    // Delete dequeued first, insert second: the key ends present.
    let mut store = Store::new();
    let replies = run(
        &mut store,
        vec![
            Command::DeleteUrlMap { key: "a".to_string() },
            Command::CreateUrlMap {
                url_map: UrlMap::new("a".to_string(), "http://x".to_string()),
            },
        ],
    );
    assert_eq!(replies.len(), 2);
    assert!(matches!(&replies[0], Reply::Failed(StoreError::NotFound)));
    assert!(matches!(&replies[1], Reply::UrlMap(_)));
    let m = store.get(&"a".to_string()).expect("the inserted key must be present");
    assert_eq!(m.url, "http://x");
}

#[test]
fn store_errors_come_back_as_replies() {
    let mut store = Store::new();
    let r = process(&mut store, Command::GetUrlMap { key: "nope".to_string() });
    assert!(matches!(r, Reply::Failed(StoreError::NotFound)));
    process(
        &mut store,
        Command::CreateUrlMap {
            url_map: UrlMap::new("a".to_string(), "http://x".to_string()),
        },
    );
    let r = process(
        &mut store,
        Command::CreateUrlMap {
            url_map: UrlMap::new("a".to_string(), "http://y".to_string()),
        },
    );
    assert!(matches!(r, Reply::Failed(StoreError::DuplicateKey)));
}

#[test]
fn redirect_lookup_through_the_actor() {
    let mut store = Store::new();
    process(
        &mut store,
        Command::CreateUrlMap {
            url_map: UrlMap::new("docs".to_string(), "http://example.test/docs".to_string()),
        },
    );
    let r = process(&mut store, Command::GetUrlMap { key: "docs".to_string() });
    match r {
        Reply::UrlMap(m) => assert_eq!(m.url, "http://example.test/docs"),
        _ => panic!("a present key must resolve"),
    }
}

#[test]
fn failed_commands_map_to_their_handler_status() {
    assert_eq!(error_status(&Command::GetUrlMaps), 500);
    assert_eq!(error_status(&Command::GetUrlMap { key: "k".to_string() }), 404);
    assert_eq!(
        error_status(&Command::CreateUrlMap {
            url_map: UrlMap::new("k".to_string(), "u".to_string()),
        }),
        422
    );
    assert_eq!(
        error_status(&Command::UpdateUrlMap {
            url_map: UrlMap::new("k".to_string(), "u".to_string()),
        }),
        422
    );
    assert_eq!(error_status(&Command::DeleteUrlMap { key: "k".to_string() }), 404);
}
