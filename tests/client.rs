use jail_dashboard::client::{
    api_url_base, basic_auth_value, check_status, endpoint_url, entities_from_answer,
    plugins_from_answer, CycleError, FetchError, JAIL_ENDPOINT, PLUGIN_ENDPOINT,
};
use jail_dashboard::document::{
    decode_entities, decode_entity, decode_plugin, parse_entities, parse_plugins, Json, ParseError,
};

#[test]
fn auth_header_is_basic_base64() {
    assert_eq!(basic_auth_value("root", "pw"), "Basic cm9vdDpwdw==");
    assert_eq!(basic_auth_value("admin", "s3cret"), "Basic YWRtaW46czNjcmV0");
}

#[test]
fn urls_are_built_from_configuration() {
    let base = api_url_base(false, "localhost", "80");
    assert_eq!(base, "http://localhost:80/api/v2.0/");
    assert_eq!(api_url_base(true, "nas", "443"), "https://nas:443/api/v2.0/");
    assert_eq!(endpoint_url(&base, JAIL_ENDPOINT), "http://localhost:80/api/v2.0/jail");
    assert_eq!(endpoint_url(&base, PLUGIN_ENDPOINT), "http://localhost:80/api/v2.0/plugin");
}

#[test]
fn status_outside_2xx_is_an_error() {
    assert_eq!(check_status(200), Ok(()));
    assert_eq!(check_status(299), Ok(()));
    assert_eq!(check_status(199), Err(FetchError::Status(199)));
    assert_eq!(check_status(401), Err(FetchError::Status(401)));
    let r = entities_from_answer(500, "[]");
    assert!(matches!(r, Err(CycleError::Fetch(FetchError::Status(500)))));
    let r = plugins_from_answer(404, "[]");
    assert!(matches!(r, Err(CycleError::Fetch(FetchError::Status(404)))));
}

#[test]
fn jails_are_read_from_json() {
    let es = parse_entities(r#"[{"id":"plex","ip4_addr":"10.0.0.5","state":"up"},{"id":"web","ip4_addr":""}]"#)
        .unwrap();
    assert_eq!(es.len(), 2);
    assert_eq!(es[0].id, "plex");
    assert_eq!(es[0].address, "10.0.0.5");
    assert_eq!(es[1].id, "web");
    assert_eq!(es[1].address, "");
    let es = entities_from_answer(200, "[]").unwrap();
    assert!(es.is_empty());
}

#[test]
fn malformed_and_misshapen_answers_are_errors() {
    assert!(matches!(parse_entities("not json"), Err(ParseError::Malformed)));
    assert!(matches!(parse_entities("{\"id\":\"a\"}"), Err(ParseError::Shape)));
    assert!(matches!(parse_entities("[{\"id\":5,\"ip4_addr\":\"1\"}]"), Err(ParseError::Shape)));
    assert!(matches!(parse_entities("[{\"id\":\"a\"}]"), Err(ParseError::Shape)));
    assert!(matches!(parse_plugins("[1]"), Err(ParseError::Shape)));
    assert!(matches!(
        entities_from_answer(200, "[{"),
        Err(CycleError::Parse(ParseError::Malformed))
    ));
    assert!(matches!(
        plugins_from_answer(200, "[{\"name\":\"a\"}]"),
        Err(CycleError::Parse(ParseError::Shape))
    ));
}

#[test]
fn plugins_are_read_from_json() {
    let ps = parse_plugins(
        r#"[{"name":"plexmediaserver","admin_portals":["http://10.0.0.5:32400","http://b"],"plugin_repository":"https://github.com/org/plex.git"},
            {"name":"a","plugin_repository":"r"},
            {"name":"b","plugin_repository":"r","admin_portals":null}]"#,
    )
    .unwrap();
    assert_eq!(ps.len(), 3);
    assert_eq!(ps[0].name, "plexmediaserver");
    assert_eq!(ps[0].repository_url, "https://github.com/org/plex.git");
    assert_eq!(ps[0].admin_portal_urls, vec!["http://10.0.0.5:32400", "http://b"]);
    assert!(ps[1].admin_portal_urls.is_empty());
    assert!(ps[2].admin_portal_urls.is_empty());
    assert!(matches!(
        parse_plugins(r#"[{"name":"a","plugin_repository":"r","admin_portals":[1]}]"#),
        Err(ParseError::Shape)
    ));
    assert!(matches!(
        parse_plugins(r#"[{"name":"a","plugin_repository":"r","admin_portals":"x"}]"#),
        Err(ParseError::Shape)
    ));
}

#[test]
fn documents_are_decoded_field_by_field() {
    let jail = Json::Object(vec![
        ("id".to_string(), Json::Str("a".to_string())),
        ("ip4_addr".to_string(), Json::Str("1.2.3.4".to_string())),
    ]);
    let e = decode_entity(&jail).unwrap();
    assert_eq!(e.id, "a");
    assert_eq!(e.address, "1.2.3.4");
    assert!(decode_entity(&Json::Null).is_none());
    let es = decode_entities(&Json::Array(vec![jail])).unwrap();
    assert_eq!(es.len(), 1);
    assert!(matches!(decode_entities(&Json::Bool(true)), Err(ParseError::Shape)));
    let p = Json::Object(vec![
        ("name".to_string(), Json::Str("n".to_string())),
        ("plugin_repository".to_string(), Json::Str("r".to_string())),
        ("admin_portals".to_string(), Json::Array(vec![Json::Str("u".to_string())])),
    ]);
    let p = decode_plugin(&p).unwrap();
    assert_eq!(p.admin_portal_urls, vec!["u"]);
    let bad = Json::Object(vec![("name".to_string(), Json::Number)]);
    assert!(decode_plugin(&bad).is_none());
}
