use jail_dashboard::icon::{icon_alias, icon_url, DEFAULT_ICON};
use jail_dashboard::jail_map::JailMap;
use jail_dashboard::merge::merge;
use jail_dashboard::model::{Entity, Plugin, ViewRecord};

fn entity(id: &str, address: &str) -> Entity {
    Entity::new(id.to_string(), address.to_string())
}

fn plugin(name: &str, repository: &str, portals: &[&str]) -> Plugin {
    Plugin::new(
        name.to_string(),
        repository.to_string(),
        portals.iter().map(|s| s.to_string()).collect(),
    )
}

fn record<'a>(m: &'a JailMap, id: &str) -> &'a ViewRecord {
    m.get(id).expect("record present")
}

#[test]
fn plex_plugin_scenario() {
    let es = vec![entity("plex", "10.0.0.5")];
    let ps = vec![plugin(
        "plexmediaserver",
        "https://github.com/org/plex.git",
        &["http://10.0.0.5:32400"],
    )];
    let m = merge(&es, &ps);
    assert_eq!(m.len(), 1);
    let r = record(&m, "plex");
    assert_eq!(r.address, "10.0.0.5");
    assert_eq!(r.admin_url.as_deref(), Some("http://10.0.0.5:32400"));
    assert_eq!(
        r.icon_url.as_deref(),
        Some("https://raw.githubusercontent.com/org/plex/master/icons/plex.png")
    );
}

#[test]
fn jail_without_plugin_gets_default_icon() {
    let es = vec![entity("web", "10.0.0.9")];
    let m = merge(&es, &vec![]);
    let r = record(&m, "web");
    assert_eq!(r.address, "10.0.0.9");
    assert_eq!(r.admin_url, None);
    assert_eq!(r.icon_url.as_deref(), Some(DEFAULT_ICON));
    assert_eq!(DEFAULT_ICON, "/static/icons/beastie.png");
}

#[test]
fn one_record_per_distinct_id_last_jail_wins() {
    let es = vec![entity("a", "1"), entity("b", "2"), entity("a", "3")];
    let ps = vec![plugin("c", "https://github.com/org/c.git", &["http://c"])];
    let m = merge(&es, &ps);
    assert_eq!(m.len(), 2);
    assert_eq!(record(&m, "a").address, "3");
    assert_eq!(record(&m, "b").address, "2");
    assert!(m.get("c").is_none());
}

#[test]
fn admin_url_is_first_portal_whatever_the_plugin_order() {
    let es = vec![entity("x", "1"), entity("y", "2")];
    let px = plugin("x", "https://github.com/org/x", &["http://x:1", "http://x:2"]);
    let py = plugin("y", "https://github.com/org/y", &["http://y:1"]);
    let px2 = plugin("x", "https://github.com/org/x", &["http://x:1", "http://x:2"]);
    let py2 = plugin("y", "https://github.com/org/y", &["http://y:1"]);
    let m1 = merge(&es, &vec![px, py]);
    let m2 = merge(&es, &vec![py2, px2]);
    for m in [&m1, &m2] {
        assert_eq!(record(m, "x").admin_url.as_deref(), Some("http://x:1"));
        assert_eq!(record(m, "y").admin_url.as_deref(), Some("http://y:1"));
        assert_eq!(
            record(m, "x").icon_url.as_deref(),
            Some("https://raw.githubusercontent.com/org/x/master/icons/x.png")
        );
    }
}

#[test]
fn every_record_has_an_icon() {
    let es = vec![entity("a", "1"), entity("b", "2"), entity("c", "")];
    let ps = vec![plugin("b", "https://github.com/org/b.git", &["http://b"])];
    let m = merge(&es, &ps);
    for i in 0..m.len() {
        let (_, r) = m.entry(i);
        assert!(r.icon_url.is_some());
    }
    assert_eq!(record(&m, "a").icon_url.as_deref(), Some(DEFAULT_ICON));
    assert_eq!(record(&m, "c").address, "");
}

#[test]
fn plugin_without_portals_or_jail_is_ignored() {
    let es = vec![entity("a", "1")];
    let ps = vec![
        plugin("a", "https://github.com/org/a.git", &[]),
        plugin("z", "https://github.com/org/z.git", &["http://z"]),
    ];
    let m = merge(&es, &ps);
    assert_eq!(m.len(), 1);
    assert_eq!(record(&m, "a").admin_url, None);
    assert_eq!(record(&m, "a").icon_url.as_deref(), Some(DEFAULT_ICON));
    assert!(m.get("z").is_none());
}

#[test]
fn plugin_matches_jail_named_like_it_before_its_alias() {
    let es = vec![entity("plexmediaserver", "1"), entity("plex", "2")];
    let ps = vec![plugin("plexmediaserver", "https://github.com/org/p.git", &["http://p"])];
    let m = merge(&es, &ps);
    assert_eq!(record(&m, "plexmediaserver").admin_url.as_deref(), Some("http://p"));
    assert_eq!(record(&m, "plex").admin_url, None);
}

#[test]
fn later_plugin_for_same_jail_wins() {
    let es = vec![entity("a", "1")];
    let ps = vec![
        plugin("a", "https://github.com/org/a.git", &["http://first"]),
        plugin("a", "https://github.com/org/a.git", &["http://second"]),
    ];
    let m = merge(&es, &ps);
    assert_eq!(record(&m, "a").admin_url.as_deref(), Some("http://second"));
}

#[test]
fn empty_lists_give_empty_map() {
    let m = merge(&vec![], &vec![plugin("a", "r", &["u"])]);
    assert_eq!(m.len(), 0);
}

#[test]
fn icon_url_rewrites_repository() {
    assert_eq!(
        icon_url("https://github.com/freenas/iocage-plugin-nextcloud.git", "nextcloud"),
        "https://raw.githubusercontent.com/freenas/iocage-plugin-nextcloud/master/icons/nextcloud.png"
    );
    assert_eq!(
        icon_url("https://github.com/org/p.git.git", "p"),
        "https://raw.githubusercontent.com/org/p/master/icons/p.png"
    );
    assert_eq!(
        icon_url("https://gitlab.com/org/p", "plexmediaserver-beta"),
        "https://gitlab.com/org/p/master/icons/plex-beta.png"
    );
    assert_eq!(icon_alias("plexmediaserver"), "plex");
    assert_eq!(icon_alias("sonarr"), "sonarr");
}
