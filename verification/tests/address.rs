use aether_gui::profile::{validated_endpoint, validated_range};

fn canon(s: &str) -> Option<String> {
    validated_endpoint(s)
}

#[test]
fn ipv4_endpoints() {
    assert_eq!(canon("1.2.3.4:80").as_deref(), Some("1.2.3.4:80"));
    assert_eq!(canon(" 1.2.3.4:0080\t").as_deref(), Some("1.2.3.4:80"));
    assert_eq!(canon("255.255.255.255:65535").as_deref(), Some("255.255.255.255:65535"));
    for bad in [
        "256.1.1.1:80",
        "01.2.3.4:80",
        "1.2.3:80",
        "1.2.3.4.5:80",
        "1.2.3.4:65536",
        "1.2.3.4:",
        "1.2.3.4",
        "1.2.3.4:80:1",
        "a.b.c.d:1",
        "1.2.3.4 :80",
        "",
        "   ",
    ] {
        assert_eq!(canon(bad), None, "{bad:?}");
    }
}

#[test]
fn ipv6_endpoints_are_compressed() {
    assert_eq!(canon("[::1]:443").as_deref(), Some("[::1]:443"));
    assert_eq!(canon("[0:0:0:0:0:0:0:0]:1").as_deref(), Some("[::]:1"));
    assert_eq!(canon("[2001:DB8:0:0:1:0:0:1]:8").as_deref(), Some("[2001:db8::1:0:0:1]:8"));
    assert_eq!(canon("[2001:db8:0:1:1:1:1:1]:8").as_deref(), Some("[2001:db8:0:1:1:1:1:1]:8"));
    assert_eq!(canon("[1:0:0:2:0:0:0:3]:8").as_deref(), Some("[1:0:0:2::3]:8"));
    assert_eq!(canon("[0001:0002::]:8").as_deref(), Some("[1:2::]:8"));
    assert_eq!(canon("[::ffff:1.2.3.4]:8").as_deref(), Some("[::ffff:1.2.3.4]:8"));
    assert_eq!(canon("[::1.2.3.4]:8").as_deref(), Some("[::102:304]:8"));
    assert_eq!(canon("[1:2:3:4:5:6:1.2.3.4]:8").as_deref(), Some("[1:2:3:4:5:6:102:304]:8"));
    assert_eq!(canon("[fe80::1%7]:9").as_deref(), Some("[fe80::1%7]:9"));
    assert_eq!(canon("[fe80::1%0]:9").as_deref(), Some("[fe80::1]:9"));
}

#[test]
fn malformed_ipv6_endpoints_are_dropped() {
    for bad in [
        "[::1]",
        "::1:80",
        "[1::2::3]:8",
        "[:::]:8",
        "[1:2:3:4:5:6:7]:8",
        "[1:2:3:4:5:6:7:8:9]:8",
        "[1:2:3:4:5:6:7:8::]:8",
        "[12345::]:8",
        "[1.2.3.4::]:8",
        "[::1.2.3.4:5]:8",
        "[1::2:]:8",
        "[::1%]:8",
        "[::1%1%2]:8",
        "[::1]:8]",
        "[g::]:8",
        "[]:8",
    ] {
        assert_eq!(canon(bad), None, "{bad:?}");
    }
}

#[test]
fn canonical_endpoints_are_fixed_points() {
    for s in ["1.2.3.4:0080", "[0:0:0:0:0:0:0:1]:443", "[::FFFF:10.0.0.1]:1", "[A::B%12]:3"] {
        let once = canon(s).expect("valid");
        assert_eq!(canon(&once), Some(once.clone()));
    }
}

#[test]
fn ranges() {
    assert_eq!(validated_range("8-16").as_deref(), Some("8-16"));
    assert_eq!(validated_range(" 5 ").as_deref(), Some("5"));
    assert_eq!(validated_range("abc"), None);
    assert_eq!(validated_range("1-2-3"), None);
    assert_eq!(validated_range("-5"), None);
    assert_eq!(validated_range("5-"), None);
    assert_eq!(validated_range(""), None);
    assert_eq!(validated_range("1 - 2"), None);
    assert_eq!(validated_range("0"), None);
    assert_eq!(validated_range("0-4"), None);
    assert_eq!(validated_range("4-00"), None);
    assert_eq!(validated_range("007").as_deref(), Some("007"));
    assert_eq!(validated_range("10-20").as_deref(), Some("10-20"));
}
