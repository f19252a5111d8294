use xmirrord::mirror::{protocols_from_text, Mirror, Record};
use xmirrord::types::{DecodeError, Protocol, RawValue, Region, Tier};

fn text(s: &str) -> RawValue {
    RawValue::from_text(s.to_string())
}

fn record(fields: &[(&str, RawValue)]) -> Record {
    let mut rec = Record::new();
    for (k, v) in fields {
        let v = RawValue { text: v.text.clone(), number: v.number, integer: v.integer };
        rec.insert(k.to_string(), v);
    }
    rec
}

#[test]
fn baseurl_is_kept_exactly() {
    let rec = record(&[
        ("baseurl", text("mirror.example.org/void")),
        ("region", text("EU")),
        ("location", text("Frankfurt, DE")),
        ("tier", text("1")),
        ("enabled", text("1")),
        ("proto", text("https,rsync")),
    ]);
    let m = Mirror::from_value(&rec).unwrap();
    assert_eq!(m.id, 0);
    assert_eq!(m.baseurl, "mirror.example.org/void");
    assert_eq!(m.region, Region::EU);
    assert_eq!(m.location, "Frankfurt, DE");
    assert_eq!(m.tier, Tier::Numeric(1));
    assert!(m.enabled);
    assert_eq!(m.protocols, vec![Protocol::Https, Protocol::Rsync]);
}

#[test]
fn missing_fields_take_defaults() {
    let rec = record(&[("baseurl", text("example.org"))]);
    let m = Mirror::from_value(&rec).unwrap();
    assert_eq!(m.baseurl, "example.org");
    assert_eq!(m.region, Region::Unknown);
    assert_eq!(m.location, "unkonwn");
    assert_eq!(m.tier, Tier::Unknown);
    assert!(!m.enabled);
    assert!(m.protocols.is_empty());
}

#[test]
fn missing_baseurl_fails() {
    let rec = record(&[
        ("region", text("eu")),
        ("tier", text("2")),
        ("enabled", text("1")),
        ("proto", text("http")),
    ]);
    assert_eq!(Mirror::from_value(&rec).unwrap_err(), DecodeError::BaseUrl);
    assert_eq!(Mirror::from_value(&Record::new()).unwrap_err(), DecodeError::BaseUrl);
}

#[test]
fn baseurl_without_string_form_fails() {
    let rec = record(&[("baseurl", RawValue::empty())]);
    assert_eq!(Mirror::from_value(&rec).unwrap_err(), DecodeError::BaseUrl);
}

#[test]
fn empty_baseurl_fails() {
    let rec = record(&[("baseurl", text("")), ("enabled", text("1"))]);
    assert_eq!(Mirror::from_value(&rec).unwrap_err(), DecodeError::BaseUrl);
}

#[test]
fn later_field_value_replaces_earlier() {
    let rec = record(&[("baseurl", text("old.example.org")), ("baseurl", text("new.example.org"))]);
    assert_eq!(Mirror::from_value(&rec).unwrap().baseurl, "new.example.org");
}

#[test]
fn each_field_error_is_named() {
    let region = record(&[("baseurl", text("a")), ("region", RawValue::empty())]);
    assert_eq!(Mirror::from_value(&region).unwrap_err(), DecodeError::Region);
    let location = record(&[("baseurl", text("a")), ("location", RawValue::empty())]);
    assert_eq!(Mirror::from_value(&location).unwrap_err(), DecodeError::Location);
    let tier = record(&[("baseurl", text("a")), ("tier", text("gold"))]);
    assert_eq!(Mirror::from_value(&tier).unwrap_err(), DecodeError::Tier);
    let proto = record(&[("baseurl", text("a")), ("proto", RawValue::empty())]);
    assert_eq!(Mirror::from_value(&proto).unwrap_err(), DecodeError::Protocol);
}

#[test]
fn region_codes_in_any_case() {
    let codes = [
        ("af", Region::AF),
        ("An", Region::AN),
        ("AS", Region::AS),
        ("eU", Region::EU),
        ("NA", Region::NA),
        ("oc", Region::OC),
        ("Sa", Region::SA),
        ("DEFAULT", Region::Default),
        ("World", Region::World),
    ];
    for (c, r) in codes {
        assert_eq!(Region::from_value(&text(c)).unwrap(), r);
    }
    assert_eq!(Region::from_value(&text("mars")).unwrap(), Region::Unknown);
    assert_eq!(Region::from_value(&text("")).unwrap(), Region::Unknown);
    assert_eq!(Region::from_value(&RawValue::empty()).unwrap_err(), DecodeError::Region);
}

#[test]
fn tier_decoding() {
    assert_eq!(Tier::from_value(&text("3")).unwrap(), Tier::Numeric(3));
    let n = RawValue { text: Some("42".to_string()), number: Some(42), integer: Some(42) };
    assert_eq!(Tier::from_value(&n).unwrap(), Tier::Numeric(42));
    assert_eq!(Tier::from_value(&text("tor")).unwrap(), Tier::Tor);
    assert_eq!(Tier::from_value(&text("ToR")).unwrap(), Tier::Tor);
    assert_eq!(Tier::from_value(&text("onion")).unwrap_err(), DecodeError::Tier);
    assert_eq!(Tier::from_value(&text("-1")).unwrap_err(), DecodeError::Tier);
    assert_eq!(Tier::from_value(&text("")).unwrap_err(), DecodeError::Tier);
}

#[test]
fn protocol_list_drops_unknown_tokens() {
    assert_eq!(protocols_from_text("http,bogus,rsync"), vec![Protocol::Http, Protocol::Rsync]);
    assert_eq!(protocols_from_text("FTP,Https"), vec![Protocol::Ftp, Protocol::Https]);
    assert_eq!(protocols_from_text(""), vec![]);
    assert_eq!(protocols_from_text("http, rsync"), vec![Protocol::Http]);
    assert_eq!(protocols_from_text(",,http,"), vec![Protocol::Http]);
}

#[test]
fn protocol_lookup() {
    assert_eq!(Protocol::try_from("HTTPS").unwrap(), Protocol::Https);
    assert_eq!(Protocol::try_from("gopher").unwrap_err(), DecodeError::Protocol);
    assert_eq!(Protocol::from_value(&text("rsync")).unwrap(), Protocol::Rsync);
    assert_eq!(Protocol::from_value(&RawValue::empty()).unwrap_err(), DecodeError::Protocol);
    assert_eq!(Protocol::Ftp.name(), "ftp");
    assert_eq!(Protocol::Rsync.to_string(), "rsync");
}

#[test]
fn enabled_flag() {
    let absent = record(&[("baseurl", text("a"))]);
    assert!(!Mirror::from_value(&absent).unwrap().enabled);
    let zero = record(&[("baseurl", text("a")), ("enabled", text("0"))]);
    assert!(!Mirror::from_value(&zero).unwrap().enabled);
    let seven = record(&[("baseurl", text("a")), ("enabled", text("7"))]);
    assert!(Mirror::from_value(&seven).unwrap().enabled);
    let negative = record(&[("baseurl", text("a")), ("enabled", text("-1"))]);
    assert!(Mirror::from_value(&negative).unwrap().enabled);
    let signed = RawValue { text: None, number: None, integer: Some(-5) };
    let signed = record(&[("baseurl", text("a")), ("enabled", signed)]);
    assert!(Mirror::from_value(&signed).unwrap().enabled);
    let word = record(&[("baseurl", text("a")), ("enabled", text("yes"))]);
    assert!(!Mirror::from_value(&word).unwrap().enabled);
}

#[test]
fn round_trip_of_written_forms() {
    for p in [Protocol::Ftp, Protocol::Http, Protocol::Https, Protocol::Rsync] {
        assert_eq!(Protocol::try_from(p.name()).unwrap(), p);
    }
    for r in [
        Region::AF,
        Region::AN,
        Region::AS,
        Region::EU,
        Region::NA,
        Region::OC,
        Region::SA,
        Region::Default,
        Region::World,
        Region::Unknown,
    ] {
        assert_eq!(Region::from_value(&text(r.code())).unwrap(), r);
    }
    for t in [Tier::Numeric(0), Tier::Numeric(18446744073709551615), Tier::Tor] {
        assert_eq!(Tier::from_value(&t.to_raw()).unwrap(), t);
    }
    assert_eq!(Tier::Unknown.to_raw().text.as_deref(), Some("unknown"));
}
