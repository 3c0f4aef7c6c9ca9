//! Tests of the entry model, the whitelist and the directory lookups.
use ruthenium_ldap::dbm::DynamicObject;
use ruthenium_ldap::dbm::ExtendedLdapSearchResultEntry;
use ruthenium_ldap::dbm::ObjectManager;
use ruthenium_ldap::dbm::User;
use ruthenium_ldap::dbm::Whitelist;
use ruthenium_ldap::entry::filter_attrs;
use ruthenium_ldap::entry::LdapPartialAttribute;
use ruthenium_ldap::entry::LdapSearchResultEntry;
use ruthenium_ldap::strutil::dn_is_under;
use ruthenium_ldap::strutil::first_rdn_value;
use ruthenium_ldap::strutil::u64_to_string;

fn manager() -> ObjectManager {
    ObjectManager::initialise("alice\nbob\n", "dc=aarys,dc=fr".to_string(), "users".to_string())
}

#[test]
fn whitelist_from_content_assigns_line_indexes() {
    let w = Whitelist::from_content("alice\nbob\n", "dc=aarys,dc=fr".to_string());
    assert_eq!(w.whitelisted.len(), 2);
    assert_eq!(w.whitelisted[0].username, "alice");
    assert_eq!(w.whitelisted[0].uid, 0);
    assert_eq!(w.whitelisted[1].username, "bob");
    assert_eq!(w.whitelisted[1].uid, 1);
}

#[test]
fn whitelist_without_final_newline_keeps_last_line() {
    let w = Whitelist::from_content("alice\nbob", "dc=aarys,dc=fr".to_string());
    assert_eq!(w.whitelisted.len(), 2);
    assert_eq!(w.whitelisted[1].username, "bob");
}

#[test]
fn whitelist_blank_line_becomes_empty_username() {
    let w = Whitelist::from_content("alice\n\nbob\n", "dc=aarys,dc=fr".to_string());
    assert_eq!(w.whitelisted.len(), 3);
    assert_eq!(w.whitelisted[1].username, "");
    assert_eq!(w.whitelisted[2].username, "bob");
    assert_eq!(w.whitelisted[2].uid, 2);
}

#[test]
fn whitelist_of_empty_content_is_empty() {
    let w = Whitelist::from_content("", "dc=aarys,dc=fr".to_string());
    assert_eq!(w.whitelisted.len(), 0);
    let w2 = Whitelist::new();
    assert_eq!(w2.whitelisted.len(), 0);
}

#[test]
fn user_entry_synthesis_matches_spec() {
    let u = User { username: "bob".to_string(), uid: 1 };
    let e = u.get_ldap_entry("users", "dc=aarys,dc=fr");
    assert_eq!(e.dn, "cn=bob,ou=users,dc=aarys,dc=fr");
    assert_eq!(e.get_attribute("cn"), vec!["bob".to_string()]);
    assert_eq!(e.get_attribute("uid"), vec!["bob".to_string()]);
    assert_eq!(e.get_attribute("uidNumber"), vec!["1".to_string()]);
    assert_eq!(e.get_attribute("gidNumber"), vec!["1".to_string()]);
    assert_eq!(
        e.get_attribute("objectClass"),
        vec!["inetOrgPerson".to_string(), "posixAccount".to_string()]
    );
}

#[test]
fn attribute_lookup_is_case_insensitive_on_names() {
    let u = User { username: "alice".to_string(), uid: 0 };
    let e = u.get_ldap_entry("users", "dc=aarys,dc=fr");
    assert!(e.has_attribute("objectClass"));
    assert!(e.has_attribute("OBJECTCLASS"));
    assert!(e.has_attribute("objectclass"));
    assert_eq!(e.get_attribute("UIDNUMBER"), vec!["0".to_string()]);
    assert!(!e.has_attribute("mail"));
}

#[test]
fn attribute_values_merge_across_duplicate_types() {
    let e = LdapSearchResultEntry {
        dn: "cn=x".to_string(),
        attributes: vec![
            LdapPartialAttribute {
                atype: "mail".to_string(),
                vals: vec!["a@x".to_string()],
            },
            LdapPartialAttribute {
                atype: "MAIL".to_string(),
                vals: vec!["b@x".to_string()],
            },
        ],
    };
    assert_eq!(e.get_attribute("mail"), vec!["a@x".to_string(), "b@x".to_string()]);
}

#[test]
fn dn_membership_needs_rdn_boundary() {
    assert!(dn_is_under("cn=alice,ou=users,dc=aarys,dc=fr", "ou=users,dc=aarys,dc=fr"));
    assert!(dn_is_under("ou=users,dc=aarys,dc=fr", "ou=users,dc=aarys,dc=fr"));
    assert!(!dn_is_under("cn=alice,ou=users", "users"));
    assert!(!dn_is_under("cn=xusers", "users"));
    assert!(!dn_is_under("ou=users", "dc=aarys,dc=fr"));
}

#[test]
fn entry_has_base_uses_boundary_test() {
    let u = User { username: "alice".to_string(), uid: 0 };
    let e = u.get_ldap_entry("users", "dc=aarys,dc=fr");
    assert!(e.has_base("dc=aarys,dc=fr"));
    assert!(e.has_base("ou=users,dc=aarys,dc=fr"));
    assert!(!e.has_base("aarys,dc=fr"));
}

#[test]
fn fetch_user_from_dn_finds_exact_match_only() {
    let m = manager();
    let u = m.fetch_user_from_dn("cn=bob,ou=users,dc=aarys,dc=fr").unwrap();
    assert_eq!(u.username, "bob");
    assert_eq!(u.uid, 1);
    assert!(m.fetch_user_from_dn("cn=nobody,ou=users,dc=aarys,dc=fr").is_none());
    assert!(m.fetch_user_from_dn("bob,ou=users,dc=aarys,dc=fr").is_none());
}

#[test]
fn find_by_dn_is_injective_on_generated_dns() {
    let m = manager();
    let e1 = m.find_by_dn("cn=alice,ou=users,dc=aarys,dc=fr").unwrap();
    let e2 = m.find_by_dn("cn=bob,ou=users,dc=aarys,dc=fr").unwrap();
    assert_ne!(e1.dn, e2.dn);
    assert_ne!(e1.get_attribute("uidNumber"), e2.get_attribute("uidNumber"));
}

#[test]
fn find_by_dn_serves_static_entries() {
    let m = manager();
    assert_eq!(m.find_by_dn("").unwrap().dn, "");
    assert_eq!(m.find_by_dn("dc=aarys,dc=fr").unwrap().dn, "dc=aarys,dc=fr");
    assert_eq!(
        m.find_by_dn("ou=users,dc=aarys,dc=fr").unwrap().dn,
        "ou=users,dc=aarys,dc=fr"
    );
    assert!(m.find_by_dn("dc=elsewhere").is_none());
}

#[test]
fn static_entries_are_root_domain_and_unit() {
    let m = manager();
    let es = m.static_entries();
    assert_eq!(es.len(), 3);
    assert_eq!(es[0].dn, "");
    assert_eq!(es[1].dn, "dc=aarys,dc=fr");
    assert_eq!(es[2].dn, "ou=users,dc=aarys,dc=fr");
    assert_eq!(es[0].get_attribute("namingContexts"), vec!["dc=aarys,dc=fr".to_string()]);
    assert_eq!(es[0].get_attribute("supportedLDAPVersion"), vec!["3".to_string()]);
    assert_eq!(es[1].get_attribute("dc"), vec!["aarys".to_string()]);
    assert_eq!(es[2].get_attribute("ou"), vec!["users".to_string()]);
}

#[test]
fn user_entries_follow_table_order() {
    let m = manager();
    let es = m.user_entries();
    assert_eq!(es.len(), 2);
    assert_eq!(es[0].dn, "cn=alice,ou=users,dc=aarys,dc=fr");
    assert_eq!(es[1].dn, "cn=bob,ou=users,dc=aarys,dc=fr");
}

#[test]
fn projection_selects_by_name_case_insensitively() {
    let m = manager();
    let ou = m.ou_entry();
    let picked = filter_attrs(&vec!["OU".to_string()], &ou.attributes);
    assert_eq!(picked.len(), 1);
    assert_eq!(picked[0].atype, "ou");
    assert_eq!(picked[0].vals, vec!["users".to_string()]);
    let all = filter_attrs(&vec!["*".to_string()], &ou.attributes);
    assert_eq!(all.len(), 2);
    let all_again = filter_attrs(&Vec::new(), &ou.attributes);
    assert_eq!(all_again.len(), 2);
}

#[test]
fn numbers_render_in_decimal() {
    assert_eq!(u64_to_string(0), "0");
    assert_eq!(u64_to_string(7), "7");
    assert_eq!(u64_to_string(10), "10");
    assert_eq!(u64_to_string(431), "431");
    assert_eq!(u64_to_string(18446744073709551615), "18446744073709551615");
}

#[test]
fn first_rdn_value_takes_text_between_equals_and_comma() {
    assert_eq!(first_rdn_value("dc=aarys,dc=fr"), "aarys");
    assert_eq!(first_rdn_value("dc=solo"), "solo");
    assert_eq!(first_rdn_value("nothing"), "");
}
