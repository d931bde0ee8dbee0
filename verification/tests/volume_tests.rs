use nsexec::Volume;

#[test]
fn parse_three_fields_ro() {
    let v = Volume::from_str("a:b:ro").unwrap();
    assert_eq!(v.source().as_str(), "a");
    assert_eq!(v.destination().as_str(), "b");
    assert!(v.read_only());
}

#[test]
fn parse_three_fields_rw() {
    let v = Volume::from_str("a:b:rw").unwrap();
    assert_eq!(v.source().as_str(), "a");
    assert_eq!(v.destination().as_str(), "b");
    assert!(!v.read_only());
}

#[test]
fn parse_two_fields() {
    let v = Volume::from_str("a:b").unwrap();
    assert_eq!(v.source().as_str(), "a");
    assert_eq!(v.destination().as_str(), "b");
    assert!(!v.read_only());
}

#[test]
fn parse_one_field_defaults_destination() {
    let v = Volume::from_str("a").unwrap();
    assert_eq!(v.source().as_str(), "a");
    assert_eq!(v.destination().as_str(), "a");
    assert!(!v.read_only());
}

#[test]
fn parse_bad_mode_fails() {
    let e = Volume::from_str("a:b:xx").unwrap_err();
    assert_eq!(e.value().as_str(), "a:b:xx");
}

#[test]
fn parse_extra_field_fails() {
    let e = Volume::from_str("a:b:ro:extra").unwrap_err();
    assert_eq!(e.value().as_str(), "a:b:ro:extra");
}

#[test]
fn parse_empty_fails() {
    let e = Volume::from_str("").unwrap_err();
    assert_eq!(e.value().as_str(), "");
}

#[test]
fn error_message_names_the_string() {
    let e = Volume::from_str("a:b:xx").unwrap_err();
    assert_eq!(
        e.message().as_str(),
        "invalid volume spec ([src:]dest[:rw|:ro]): a:b:xx"
    );
}

#[test]
fn render_makes_defaults_explicit() {
    let v = Volume::from_str("a").unwrap();
    assert_eq!(v.render().as_str(), "a:a:rw");
    let v = Volume::from_str("a:b").unwrap();
    assert_eq!(v.render().as_str(), "a:b:rw");
    let v = Volume::from_str("a:b:ro").unwrap();
    assert_eq!(v.render().as_str(), "a:b:ro");
}

#[test]
fn render_parse_roundtrip_is_stable() {
    for s in ["a", "a:b", "a:b:ro", "a:b:rw", "/data:/mnt/data"] {
        let v = Volume::from_str(s).unwrap();
        let w = Volume::from_str(v.render().as_str()).unwrap();
        assert_eq!(v.source(), w.source());
        assert_eq!(v.destination(), w.destination());
        assert_eq!(v.read_only(), w.read_only());
        assert_eq!(v.render(), w.render());
    }
}

#[test]
fn volume_new_keeps_parts() {
    let v = Volume::new("s".to_string(), "d".to_string(), true);
    assert_eq!(v.source().as_str(), "s");
    assert_eq!(v.destination().as_str(), "d");
    assert!(v.read_only());
}
