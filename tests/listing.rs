use xmirrord::config::{Config, MultiFileSource};
use xmirrord::legacy::{legacy_from_records, legacy_mirrors, LegacyMirror};
use xmirrord::mirror::{Mirror, Record};
use xmirrord::store::{mirror_with_id, mirrors_from_records};
use xmirrord::types::{DecodeError, Protocol, RawValue, Region, Tier};

fn rec(fields: &[(&str, &str)]) -> Record {
    let mut r = Record::new();
    for (k, v) in fields {
        r.insert(k.to_string(), RawValue::from_text(v.to_string()));
    }
    r
}

fn mirror(base: &str, enabled: bool, protocols: Vec<Protocol>) -> Mirror {
    Mirror {
        id: 1,
        baseurl: base.to_string(),
        region: Region::NA,
        location: "Chicago".to_string(),
        tier: Tier::Numeric(2),
        enabled,
        protocols,
    }
}

#[test]
fn key_id_replaces_record_id() {
    let rec = rec(&[("baseurl", "example.org"), ("id", "99")]);
    let m = mirror_with_id(7, &rec).unwrap();
    assert_eq!(m.id, 7);
    assert_eq!(m.baseurl, "example.org");
}

#[test]
fn one_bad_record_fails_the_batch() {
    let good = rec(&[("baseurl", "a.example.org"), ("enabled", "1")]);
    let bad = rec(&[("region", "eu")]);
    let records = vec![(1, good), (3, bad)];
    assert_eq!(mirrors_from_records(&records).unwrap_err(), DecodeError::BaseUrl);
    assert_eq!(legacy_from_records(&records).unwrap_err(), DecodeError::BaseUrl);
}

#[test]
fn batch_keeps_order_and_ids() {
    let records = vec![
        (1, rec(&[("baseurl", "a.example.org")])),
        (3, rec(&[("baseurl", "b.example.org"), ("tier", "tor")])),
    ];
    let ms = mirrors_from_records(&records).unwrap();
    assert_eq!(ms.len(), 2);
    assert_eq!((ms[0].id, ms[0].baseurl.as_str()), (1, "a.example.org"));
    assert_eq!((ms[1].id, ms[1].tier), (3, Tier::Tor));
    assert!(mirrors_from_records(&Vec::new()).unwrap().is_empty());
}

#[test]
fn legacy_drops_disabled_and_defaults_to_http() {
    let ms = vec![
        mirror("off.example.org", false, vec![Protocol::Https]),
        mirror("example.org", true, vec![]),
        mirror("ftp.example.org", true, vec![Protocol::Ftp, Protocol::Http]),
    ];
    let ls = legacy_mirrors(&ms);
    assert_eq!(ls.len(), 2);
    assert_eq!(ls[0].baseurl, "http://example.org/");
    assert_eq!(ls[1].baseurl, "ftp://ftp.example.org/");
    assert_eq!(ls[1].region, Region::NA);
    assert_eq!(ls[1].location, "Chicago");
    assert_eq!(ls[1].tier, Tier::Numeric(2));
    assert!(ls[1].enabled);
}

#[test]
fn legacy_projection_of_one_mirror() {
    let l = LegacyMirror::from(&mirror("example.org", true, vec![Protocol::Rsync]));
    assert_eq!(l.baseurl, "rsync://example.org/");
    let records = vec![(5, rec(&[("baseurl", "x.org"), ("enabled", "0")]))];
    assert!(legacy_from_records(&records).unwrap().is_empty());
}

#[test]
fn config_defaults() {
    let c = Config::default();
    assert_eq!(c.bind_addr, "localhost:8080");
    assert_eq!(c.database_url, "redis://localhost:6379");
    assert_eq!(c.database_pool_size, 8);
    assert_eq!(c.files_dir, ".");
}

#[test]
fn multi_file_source_secrets() {
    let s = MultiFileSource::new(vec!["/a.toml".to_string(), "/b.json".to_string()]);
    assert!(!s.allows_secrets());
    let s = s.allow_secrets();
    assert!(s.allows_secrets());
    assert_eq!(s.paths, vec!["/a.toml".to_string(), "/b.json".to_string()]);
}
