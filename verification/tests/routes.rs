use aether_gui::routes::{build_routes_content, routes_file_content, IR_DOMAINS_PRESET, IR_V4, IR_V6};

#[test]
fn known_iranian_ranges_present() {
    for known in ["5.160.0.0/16", "94.182.0.0/16", "78.38.0.0/15"] {
        assert!(IR_V4.lines().any(|l| l.trim() == known), "missing {known}");
    }
}

#[test]
fn routes_content_has_sections_and_user_entries() {
    let c = build_routes_content("banking.example, 10.9.0.0/16");
    assert!(c.starts_with("[direct]\n"));
    assert!(c.contains("banking.example"));
    assert!(c.contains("10.9.0.0/16"));
    assert!(c.contains("digikala.com"));
    assert!(c.contains("5.160.0.0/16"));
    assert!(!c.contains(','));
}

#[test]
fn routes_content_exact_layout() {
    let c = build_routes_content("  a.ir,b.ir ");
    let mut expected = String::from("[direct]\na.ir\nb.ir\n");
    expected.push_str(&IR_DOMAINS_PRESET.replace(',', "\n"));
    expected.push('\n');
    expected.push_str(IR_V4);
    if !IR_V4.ends_with('\n') {
        expected.push('\n');
    }
    expected.push_str(IR_V6);
    if !IR_V6.ends_with('\n') {
        expected.push('\n');
    }
    assert_eq!(c, expected);
}

#[test]
fn routes_content_without_user_entries() {
    let c = build_routes_content("   ");
    assert!(c.starts_with("[direct]\nprivate\ndigikala.com\n"), "{c}");
    assert!(!c.contains(','));
    assert!(c.ends_with('\n'));
}

#[test]
fn routes_file_takes_the_prefix_lists_it_is_given() {
    let c = routes_file_content(" a.ir,b.ir ", "1.0.0.0/8\n2.0.0.0/8", "2001:db8::/32\n");
    let lines: Vec<&str> = c.split('\n').collect();
    let mut expected = vec!["[direct]", "a.ir", "b.ir"];
    expected.extend(IR_DOMAINS_PRESET.split(','));
    expected.extend(["1.0.0.0/8", "2.0.0.0/8", "2001:db8::/32", ""]);
    assert_eq!(lines, expected);
    assert_eq!(build_routes_content("x"), routes_file_content("x", IR_V4, IR_V6));
}

#[test]
fn user_entries_are_prepended_to_the_file_built_without_them() {
    let base = build_routes_content("");
    assert_eq!(build_routes_content("   "), base);
    assert_eq!(build_routes_content("  a.ir,b.ir \t"), build_routes_content("a.ir,b.ir"));
    assert_eq!(
        build_routes_content("a.ir,b.ir"),
        format!("[direct]\na.ir\nb.ir\n{}", &base[9..])
    );
}
