use kapir::auth::{get_auth_id, identify, is_cab, names_cab, read_role, Role};

#[test]
fn a_user_name_tells_the_id() {
    assert_eq!(get_auth_id("cab2"), 2);
    assert_eq!(get_auth_id("cab1916"), 1916);
    assert_eq!(get_auth_id("adm0"), 0);
    assert_eq!(get_auth_id("adm17"), 17);
    assert_eq!(get_auth_id("cust28"), 28);
    assert_eq!(get_auth_id("cust9223372036854775807"), i64::MAX);
    assert_eq!(get_auth_id("cab-3"), -3);
    assert_eq!(get_auth_id("cab+3"), 3);
    assert_eq!(get_auth_id("cab007"), 7);
}

#[test]
fn a_user_name_that_tells_no_id_gives_minus_one() {
    for name in [
        "", "c", "cab", "adm", "cus", "cust", "cabx", "cab 1", "cab1 ", "cab1.5", "bob12", "CAB12",
        "Cust3", "cus12", "xcab1", "cab9223372036854775808", "cust12x", "adm", "admé", "ü12", "адм1",
    ] {
        assert_eq!(get_auth_id(name), -1, "{:?}", name);
    }
}

#[test]
fn a_user_name_tells_the_role() {
    assert_eq!(read_role("cab12"), Some(Role::Cab));
    assert_eq!(read_role("cabs"), Some(Role::Cab));
    assert_eq!(read_role("adm1"), Some(Role::Admin));
    assert_eq!(read_role("cust1"), Some(Role::Customer));
    assert_eq!(read_role("cust"), Some(Role::Customer));
    assert_eq!(read_role("cus"), None);
    assert_eq!(read_role("cab"), None);
    assert_eq!(read_role("cusp1"), None);
    assert_eq!(read_role("taxi1"), None);
}

#[test]
fn a_role_and_a_number_give_the_id() {
    assert_eq!(identify(Some(Role::Cab), Some(5)), 5);
    assert_eq!(identify(Some(Role::Customer), Some(-9)), -9);
    assert_eq!(identify(Some(Role::Admin), None), -1);
    assert_eq!(identify(None, Some(5)), -1);
    assert_eq!(identify(None, None), -1);
}

#[test]
fn only_names_that_begin_with_cab_are_cabs() {
    assert!(is_cab("cab1"));
    assert!(is_cab("cab"));
    assert!(is_cab("cabbage"));
    assert!(!is_cab("ca"));
    assert!(!is_cab(""));
    assert!(!is_cab("cust1"));
    assert!(!is_cab("adm1"));
    assert!(!is_cab("Cab1"));
    assert!(!is_cab(" cab1"));
}

#[test]
fn a_cab_is_named_by_its_id() {
    for id in [0i64, 1, 2, 10, 1916, -1, i64::MAX, i64::MIN] {
        assert!(names_cab(&format!("cab{}", id), id));
        assert!(!names_cab(&format!("cab{}", id), id.wrapping_add(1)));
        assert!(!names_cab(&format!("cust{}", id), id));
    }
    assert!(!names_cab("cab02", 2));
    assert!(!names_cab("cab+2", 2));
    assert!(!names_cab("cab2 ", 2));
    assert!(!names_cab("cab", 0));
    assert!(!names_cab("", 0));
}
