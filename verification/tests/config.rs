use url_mapper::config::{Config, Database};
use url_mapper::db::UrlMap;

#[test]
fn url_map_new_keeps_its_fields() {
    let m = UrlMap::new("key".to_string(), "http://url".to_string());
    assert_eq!(m.key, "key");
    assert_eq!(m.url, "http://url");
}

#[test]
fn config_new_keeps_its_fields() {
    let db = Database::new("postgres://localhost/url_maps".to_string(), 5);
    assert_eq!(db.url, "postgres://localhost/url_maps");
    assert_eq!(db.max_connections, 5);
    let c = Config::new(
        "127.0.0.1".to_string(),
        8080,
        db,
        "development".to_string(),
        "SECRET-REDACTED".to_string(),
    );
    assert_eq!(c.host, "127.0.0.1");
    assert_eq!(c.port, 8080);
    assert_eq!(c.database.max_connections, 5);
    assert_eq!(c.env, "development");
    assert_eq!(c.auth_token, "SECRET-REDACTED");
}
