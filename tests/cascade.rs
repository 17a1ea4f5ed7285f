use methd_config::document::{Config, DaemonConfig, PeerConfig, PeerTable};
use methd_config::resolve::{fold_fragments, fragment_pattern, resolve_root};

fn s(v: &str) -> String {
    v.to_string()
}

fn daemon(endpoint: Option<&str>, key_path: Option<&str>, config_dir: Option<&str>) -> DaemonConfig {
    DaemonConfig {
        endpoint: endpoint.map(s),
        key_path: key_path.map(s),
        config_dir: config_dir.map(s),
    }
}

fn peer(public_key: &str, endpoint: Option<&str>) -> PeerConfig {
    PeerConfig { public_key: s(public_key), endpoint: endpoint.map(s) }
}

fn table(entries: Vec<(&str, PeerConfig)>) -> PeerTable {
    let mut t = PeerTable::new();
    for (name, p) in entries {
        t.insert(s(name), p);
    }
    t
}

fn doc(d: Option<DaemonConfig>, peers: Option<PeerTable>) -> Config {
    Config { daemon: d, peers }
}

fn peer_key(c: &Config, name: &str) -> Option<String> {
    c.peers.as_ref().and_then(|t| t.get(&s(name))).map(|p| p.public_key.clone())
}

fn peer_count(c: &Config) -> usize {
    c.peers.as_ref().map(|t| t.entries().len()).unwrap_or(0)
}

#[test]
fn default_names_fragment_directory() {
    let d = Config::default();
    let dm = d.daemon.as_ref().unwrap();
    assert_eq!(dm.config_dir.as_deref(), Some("conf.d"));
    assert_eq!(dm.endpoint, None);
    assert_eq!(dm.key_path, None);
    assert!(d.peers.is_none());
}

#[test]
fn merge_default_onto_default_is_default() {
    let m = Config::default().merge(&Config::default());
    let d = Config::default();
    let md = m.daemon.as_ref().unwrap();
    let dd = d.daemon.as_ref().unwrap();
    assert_eq!(md.endpoint, dd.endpoint);
    assert_eq!(md.key_path, dd.key_path);
    assert_eq!(md.config_dir, dd.config_dir);
    assert_eq!(peer_count(&m), 0);
    assert!(m.peers.is_some());
}

#[test]
fn daemon_merge_field_by_field() {
    let base = daemon(Some("a:1"), Some("/k/base"), None);
    let over = daemon(None, Some("/k/over"), Some("frag"));
    let m = base.merge(&over);
    assert_eq!(m.endpoint.as_deref(), Some("a:1"));
    assert_eq!(m.key_path.as_deref(), Some("/k/over"));
    assert_eq!(m.config_dir.as_deref(), Some("frag"));
}

#[test]
fn merge_override_wins_where_present() {
    let base = doc(Some(daemon(Some("a:1"), Some("/k1"), Some("d1"))), None);
    let over = doc(Some(daemon(Some("b:2"), None, Some("d2"))), None);
    let m = base.merge(&over);
    let md = m.daemon.unwrap();
    assert_eq!(md.endpoint.as_deref(), Some("b:2"));
    assert_eq!(md.key_path.as_deref(), Some("/k1"));
    assert_eq!(md.config_dir.as_deref(), Some("d2"));
}

#[test]
fn merge_inherits_absent_daemon() {
    let base = doc(Some(daemon(Some("a:1"), None, Some("d1"))), None);
    let over = doc(None, None);
    let m = base.merge(&over);
    let md = m.daemon.unwrap();
    assert_eq!(md.endpoint.as_deref(), Some("a:1"));
    assert_eq!(md.config_dir.as_deref(), Some("d1"));
}

#[test]
fn merge_takes_override_daemon_when_base_has_none() {
    let base = doc(None, None);
    let over = doc(Some(daemon(None, Some("/k"), None)), None);
    let m = base.merge(&over);
    let md = m.daemon.unwrap();
    assert_eq!(md.endpoint, None);
    assert_eq!(md.key_path.as_deref(), Some("/k"));
    assert_eq!(md.config_dir, None);
}

#[test]
fn merge_both_without_daemon() {
    let m = doc(None, None).merge(&doc(None, None));
    assert!(m.daemon.is_none());
    assert_eq!(peer_count(&m), 0);
}

#[test]
fn peers_union_second_wins() {
    let a = doc(None, Some(table(vec![("p1", peer("A1", Some("h:1"))), ("p2", peer("A2", None))])));
    let b = doc(None, Some(table(vec![("p2", peer("B2", None)), ("p3", peer("B3", Some("h:3")))])));
    let m = a.merge(&b);
    assert_eq!(peer_count(&m), 3);
    assert_eq!(peer_key(&m, "p1").as_deref(), Some("A1"));
    assert_eq!(peer_key(&m, "p2").as_deref(), Some("B2"));
    assert_eq!(peer_key(&m, "p3").as_deref(), Some("B3"));
    let p1 = m.peers.as_ref().unwrap().get(&s("p1")).unwrap();
    assert_eq!(p1.endpoint.as_deref(), Some("h:1"));
}

#[test]
fn peer_entry_replaced_whole() {
    let a = doc(None, Some(table(vec![("p1", peer("X", Some("h:1")))])));
    let b = doc(None, Some(table(vec![("p1", peer("Y", None))])));
    let m = a.merge(&b);
    let p1 = m.peers.as_ref().unwrap().get(&s("p1")).unwrap();
    assert_eq!(p1.public_key, "Y");
    assert_eq!(p1.endpoint, None);
}

#[test]
fn peer_table_insert_get() {
    let mut t = PeerTable::new();
    assert!(t.get(&s("p1")).is_none());
    assert_eq!(t.entries().len(), 0);
    t.insert(s("p1"), peer("K1", None));
    t.insert(s("p2"), peer("K2", Some("e:2")));
    t.insert(s("p1"), peer("K1b", Some("e:1")));
    assert_eq!(t.entries().len(), 2);
    assert_eq!(t.get(&s("p1")).unwrap().public_key, "K1b");
    assert_eq!(t.get(&s("p1")).unwrap().endpoint.as_deref(), Some("e:1"));
    assert_eq!(t.get(&s("p2")).unwrap().public_key, "K2");
    assert!(t.get(&s("p3")).is_none());
}

#[test]
fn resolver_fallback_without_root() {
    let r = resolve_root(None);
    let d = r.daemon.as_ref().unwrap();
    assert_eq!(d.config_dir.as_deref(), Some("conf.d"));
    assert_eq!(d.endpoint, None);
    assert_eq!(d.key_path, None);
    assert!(r.peers.is_none());
}

#[test]
fn resolver_root_over_default() {
    let root = doc(Some(daemon(Some("a:1"), None, None)), Some(table(vec![("p1", peer("X", None))])));
    let r = resolve_root(Some(root));
    let d = r.daemon.as_ref().unwrap();
    assert_eq!(d.endpoint.as_deref(), Some("a:1"));
    assert_eq!(d.config_dir.as_deref(), Some("conf.d"));
    assert_eq!(peer_key(&r, "p1").as_deref(), Some("X"));
}

#[test]
fn resolver_root_names_own_fragment_directory() {
    let root = doc(Some(daemon(None, None, Some("fragments"))), None);
    let r = resolve_root(Some(root));
    assert_eq!(r.daemon.unwrap().config_dir.as_deref(), Some("fragments"));
}

#[test]
fn fragment_folding() {
    let root = doc(Some(daemon(Some("a:1"), None, None)), Some(table(vec![("p1", peer("K1", None))])));
    let effective = resolve_root(Some(root));
    let fragment = doc(Some(daemon(Some("b:2"), None, None)), Some(table(vec![("p2", peer("K2", None))])));
    let r = fold_fragments(effective, &vec![Some(fragment)]);
    assert_eq!(r.daemon.as_ref().unwrap().endpoint.as_deref(), Some("b:2"));
    assert_eq!(peer_key(&r, "p1").as_deref(), Some("K1"));
    assert_eq!(peer_key(&r, "p2").as_deref(), Some("K2"));
}

#[test]
fn fragment_override() {
    let root = doc(None, Some(table(vec![("p1", peer("X", None))])));
    let effective = resolve_root(Some(root));
    let fragment = doc(None, Some(table(vec![("p1", peer("Y", None))])));
    let r = fold_fragments(effective, &vec![Some(fragment)]);
    assert_eq!(peer_key(&r, "p1").as_deref(), Some("Y"));
}

#[test]
fn unreadable_fragment_skipped() {
    let effective = resolve_root(Some(doc(Some(daemon(Some("a:1"), None, None)), None)));
    let valid = doc(Some(daemon(None, Some("/k/frag"), None)), Some(table(vec![("p9", peer("K9", None))])));
    let r = fold_fragments(effective, &vec![None, Some(valid)]);
    let d = r.daemon.as_ref().unwrap();
    assert_eq!(d.endpoint.as_deref(), Some("a:1"));
    assert_eq!(d.key_path.as_deref(), Some("/k/frag"));
    assert_eq!(d.config_dir.as_deref(), Some("conf.d"));
    assert_eq!(peer_count(&r), 1);
    assert_eq!(peer_key(&r, "p9").as_deref(), Some("K9"));
}

#[test]
fn later_fragment_wins() {
    let effective = resolve_root(None);
    let f1 = doc(Some(daemon(Some("x:1"), None, None)), None);
    let f2 = doc(Some(daemon(Some("y:2"), None, None)), None);
    let r = fold_fragments(effective, &vec![Some(f1), None, Some(f2)]);
    assert_eq!(r.daemon.unwrap().endpoint.as_deref(), Some("y:2"));
}

#[test]
fn no_fragments_keeps_effective() {
    let effective = resolve_root(Some(doc(Some(daemon(Some("a:1"), None, None)), None)));
    let r = fold_fragments(effective, &vec![]);
    assert_eq!(r.daemon.unwrap().endpoint.as_deref(), Some("a:1"));
}

#[test]
fn pattern_beside_root_file() {
    let effective = resolve_root(None);
    let p = fragment_pattern("/etc/methd/methd.toml", &effective);
    assert_eq!(p.as_deref(), Some("/etc/methd/conf.d/*.toml"));
}

#[test]
fn pattern_for_bare_file_name() {
    let effective = resolve_root(None);
    let p = fragment_pattern("methd.toml", &effective);
    assert_eq!(p.as_deref(), Some("conf.d/*.toml"));
}

#[test]
fn pattern_for_root_without_parent() {
    let effective = resolve_root(None);
    let p = fragment_pattern("/", &effective);
    assert_eq!(p.as_deref(), Some("/conf.d/*.toml"));
}

#[test]
fn pattern_with_absolute_directory() {
    let effective = resolve_root(Some(doc(Some(daemon(None, None, Some("/srv/frag"))), None)));
    let p = fragment_pattern("/etc/methd/methd.toml", &effective);
    assert_eq!(p.as_deref(), Some("/srv/frag/*.toml"));
}

#[test]
fn pattern_needs_a_directory() {
    let c = doc(Some(daemon(Some("a:1"), None, None)), None);
    assert!(fragment_pattern("/etc/methd/methd.toml", &c).is_none());
    assert!(fragment_pattern("/etc/methd/methd.toml", &doc(None, None)).is_none());
}
