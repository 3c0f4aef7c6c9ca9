//! End-to-end search scenarios over the dispatcher.
use ruthenium_ldap::dbm::ExtendedLdapSearchResultEntry;
use ruthenium_ldap::dbm::ObjectManager;
use ruthenium_ldap::entry::LdapSearchResultEntry;
use ruthenium_ldap::filter::LdapFilter;
use ruthenium_ldap::filter::LdapSubstringFilter;
use ruthenium_ldap::msg::LdapMsg;
use ruthenium_ldap::msg::LdapOp;
use ruthenium_ldap::msg::LdapResultCode;
use ruthenium_ldap::msg::LdapSearchScope;
use ruthenium_ldap::msg::SearchRequest;
use ruthenium_ldap::session::unsupported_response;
use ruthenium_ldap::session::LdapSession;

fn session() -> LdapSession {
    let manager = ObjectManager::initialise(
        "alice\nbob\n",
        "dc=aarys,dc=fr".to_string(),
        "users".to_string(),
    );
    LdapSession::new(manager, "password".to_string())
}

fn present(name: &str) -> LdapFilter {
    LdapFilter::Present(name.to_string())
}

fn request(base: &str, scope: LdapSearchScope, filter: LdapFilter, attrs: &[&str]) -> SearchRequest {
    SearchRequest {
        msgid: 7,
        base: base.to_string(),
        scope,
        filter,
        attrs: attrs.iter().map(|a| a.to_string()).collect(),
    }
}

fn entries(msgs: &[LdapMsg]) -> Vec<&LdapSearchResultEntry> {
    msgs.iter()
        .filter_map(|m| match &m.op {
            LdapOp::SearchResultEntry(e) => Some(e),
            _ => None,
        })
        .collect()
}

fn done_code(msgs: &[LdapMsg]) -> LdapResultCode {
    match &msgs.last().expect("response must not be empty").op {
        LdapOp::SearchResultDone(rc, _) => *rc,
        _ => panic!("response must end with a result-done message"),
    }
}

/// Every response is a non-empty run of entries closed by exactly one done.
fn check_framing(msgs: &[LdapMsg]) {
    assert!(!msgs.is_empty());
    for m in &msgs[..msgs.len() - 1] {
        assert!(matches!(m.op, LdapOp::SearchResultEntry(_)));
    }
    assert!(matches!(msgs.last().unwrap().op, LdapOp::SearchResultDone(_, _)));
}

#[test]
fn base_search_at_root_serves_the_root_dse() {
    let s = session();
    let out = s.do_search(&request("", LdapSearchScope::Base, present("objectClass"), &["*"]));
    check_framing(&out);
    let es = entries(&out);
    assert_eq!(es.len(), 1);
    assert_eq!(es[0].dn, "");
    assert_eq!(es[0].get_attribute("namingContexts"), vec!["dc=aarys,dc=fr".to_string()]);
    assert_eq!(es[0].get_attribute("supportedLDAPVersion"), vec!["3".to_string()]);
    assert_eq!(done_code(&out), LdapResultCode::Success);
    assert_eq!(out[0].msgid, 7);
}

#[test]
fn one_level_search_at_domain_serves_the_unit() {
    let s = session();
    let out = s.do_search(&request(
        "dc=aarys,dc=fr",
        LdapSearchScope::OneLevel,
        present("objectClass"),
        &["ou"],
    ));
    check_framing(&out);
    let es = entries(&out);
    assert_eq!(es.len(), 1);
    assert_eq!(es[0].dn, "ou=users,dc=aarys,dc=fr");
    assert_eq!(es[0].attributes.len(), 1);
    assert_eq!(es[0].attributes[0].atype, "ou");
    assert_eq!(es[0].attributes[0].vals, vec!["users".to_string()]);
    assert_eq!(done_code(&out), LdapResultCode::Success);
}

#[test]
fn one_level_search_at_unit_with_equality_filter_finds_bob() {
    let s = session();
    let out = s.do_search(&request(
        "ou=users,dc=aarys,dc=fr",
        LdapSearchScope::OneLevel,
        LdapFilter::Equality("uid".to_string(), "bob".to_string()),
        &["*"],
    ));
    check_framing(&out);
    let es = entries(&out);
    assert_eq!(es.len(), 1);
    assert_eq!(es[0].dn, "cn=bob,ou=users,dc=aarys,dc=fr");
    assert_eq!(es[0].get_attribute("uidNumber"), vec!["1".to_string()]);
    assert_eq!(done_code(&out), LdapResultCode::Success);
}

#[test]
fn subtree_search_at_domain_serves_the_whole_tree() {
    let s = session();
    let out = s.do_search(&request(
        "dc=aarys,dc=fr",
        LdapSearchScope::Subtree,
        present("objectClass"),
        &["dn"],
    ));
    check_framing(&out);
    let mut dns: Vec<String> = entries(&out).iter().map(|e| e.dn.clone()).collect();
    dns.sort();
    assert_eq!(
        dns,
        vec![
            "cn=alice,ou=users,dc=aarys,dc=fr".to_string(),
            "cn=bob,ou=users,dc=aarys,dc=fr".to_string(),
            "dc=aarys,dc=fr".to_string(),
            "ou=users,dc=aarys,dc=fr".to_string(),
        ]
    );
    assert_eq!(done_code(&out), LdapResultCode::Success);
}

#[test]
fn base_search_at_missing_user_answers_no_such_object() {
    let s = session();
    let out = s.do_search(&request(
        "cn=nobody,ou=users,dc=aarys,dc=fr",
        LdapSearchScope::Base,
        present("objectClass"),
        &[],
    ));
    check_framing(&out);
    assert_eq!(entries(&out).len(), 0);
    assert_eq!(done_code(&out), LdapResultCode::NoSuchObject);
}

#[test]
fn base_search_outside_the_naming_context_answers_no_such_object() {
    let s = session();
    let out = s.do_search(&request(
        "dc=elsewhere",
        LdapSearchScope::Base,
        present("objectClass"),
        &["*"],
    ));
    assert_eq!(entries(&out).len(), 0);
    assert_eq!(done_code(&out), LdapResultCode::NoSuchObject);
}

#[test]
fn base_search_at_subschema_is_a_stub_success() {
    let s = session();
    let out = s.do_search(&request(
        "cn=Subschema",
        LdapSearchScope::Base,
        present("objectClass"),
        &["*"],
    ));
    assert_eq!(entries(&out).len(), 0);
    assert_eq!(done_code(&out), LdapResultCode::Success);
}

#[test]
fn one_level_search_at_user_has_no_children_but_succeeds() {
    let s = session();
    let out = s.do_search(&request(
        "cn=alice,ou=users,dc=aarys,dc=fr",
        LdapSearchScope::OneLevel,
        present("objectClass"),
        &["*"],
    ));
    assert_eq!(entries(&out).len(), 0);
    assert_eq!(done_code(&out), LdapResultCode::Success);
}

#[test]
fn one_level_search_from_root_descends_into_the_naming_context() {
    let s = session();
    let out = s.do_search(&request("", LdapSearchScope::OneLevel, present("objectClass"), &["*"]));
    let es = entries(&out);
    assert_eq!(es.len(), 1);
    assert_eq!(es[0].dn, "dc=aarys,dc=fr");
    assert_eq!(done_code(&out), LdapResultCode::Success);
}

#[test]
fn filter_runs_before_projection() {
    let s = session();
    let out = s.do_search(&request("", LdapSearchScope::Base, present("objectClass"), &["vendorName"]));
    let es = entries(&out);
    assert_eq!(es.len(), 1);
    assert_eq!(es[0].attributes.len(), 1);
    assert_eq!(es[0].attributes[0].atype, "vendorName");
}

#[test]
fn filter_rejection_keeps_a_successful_done() {
    let s = session();
    let out = s.do_search(&request(
        "dc=aarys,dc=fr",
        LdapSearchScope::Base,
        present("mail"),
        &["*"],
    ));
    assert_eq!(entries(&out).len(), 0);
    assert_eq!(done_code(&out), LdapResultCode::Success);
}

#[test]
fn and_or_not_filters_combine() {
    let s = session();
    let f = LdapFilter::And(vec![
        present("objectClass"),
        LdapFilter::Not(Box::new(LdapFilter::Equality("uid".to_string(), "alice".to_string()))),
    ]);
    let out = s.do_search(&request("ou=users,dc=aarys,dc=fr", LdapSearchScope::OneLevel, f, &["*"]));
    let es = entries(&out);
    assert_eq!(es.len(), 1);
    assert_eq!(es[0].dn, "cn=bob,ou=users,dc=aarys,dc=fr");

    let f = LdapFilter::Or(vec![
        LdapFilter::Equality("uid".to_string(), "alice".to_string()),
        LdapFilter::Equality("uid".to_string(), "bob".to_string()),
    ]);
    let out = s.do_search(&request("ou=users,dc=aarys,dc=fr", LdapSearchScope::OneLevel, f, &["*"]));
    assert_eq!(entries(&out).len(), 2);

    let out = s.do_search(&request(
        "ou=users,dc=aarys,dc=fr",
        LdapSearchScope::OneLevel,
        LdapFilter::And(vec![]),
        &["*"],
    ));
    assert_eq!(entries(&out).len(), 2);

    let out = s.do_search(&request(
        "ou=users,dc=aarys,dc=fr",
        LdapSearchScope::OneLevel,
        LdapFilter::Or(vec![]),
        &["*"],
    ));
    assert_eq!(entries(&out).len(), 0);
}

#[test]
fn substring_filter_checks_fragments_against_values() {
    let s = session();
    let f = LdapFilter::Substring(
        "uid".to_string(),
        LdapSubstringFilter {
            initial: Some("al".to_string()),
            any: vec!["li".to_string()],
            final_: Some("ce".to_string()),
        },
    );
    let out = s.do_search(&request("ou=users,dc=aarys,dc=fr", LdapSearchScope::OneLevel, f, &["*"]));
    let es = entries(&out);
    assert_eq!(es.len(), 1);
    assert_eq!(es[0].dn, "cn=alice,ou=users,dc=aarys,dc=fr");

    let all_empty = LdapFilter::Substring(
        "uid".to_string(),
        LdapSubstringFilter { initial: None, any: vec![], final_: None },
    );
    let out = s.do_search(&request(
        "ou=users,dc=aarys,dc=fr",
        LdapSearchScope::OneLevel,
        all_empty,
        &["*"],
    ));
    assert_eq!(entries(&out).len(), 2);

    let miss = LdapFilter::Substring(
        "uid".to_string(),
        LdapSubstringFilter { initial: Some("bo".to_string()), any: vec![], final_: Some("ce".to_string()) },
    );
    let out = s.do_search(&request("ou=users,dc=aarys,dc=fr", LdapSearchScope::OneLevel, miss, &["*"]));
    assert_eq!(entries(&out).len(), 0);
}

#[test]
fn subtree_results_contain_the_base_result() {
    let s = session();
    for base in ["", "dc=aarys,dc=fr", "ou=users,dc=aarys,dc=fr", "cn=bob,ou=users,dc=aarys,dc=fr"]
    {
        let base_out = s.do_search(&request(base, LdapSearchScope::Base, present("objectClass"), &["*"]));
        let sub_out = s.do_search(&request(base, LdapSearchScope::Subtree, present("objectClass"), &["*"]));
        let sub_dns: Vec<&str> = entries(&sub_out).iter().map(|e| e.dn.as_str()).collect();
        for e in entries(&base_out) {
            assert!(sub_dns.contains(&e.dn.as_str()));
        }
    }
}

#[test]
fn one_level_equals_union_of_base_over_children() {
    let s = session();
    let one = s.do_search(&request(
        "ou=users,dc=aarys,dc=fr",
        LdapSearchScope::OneLevel,
        present("objectClass"),
        &["*"],
    ));
    let mut union_dns: Vec<String> = Vec::new();
    for child in ["cn=alice,ou=users,dc=aarys,dc=fr", "cn=bob,ou=users,dc=aarys,dc=fr"] {
        let b = s.do_search(&request(child, LdapSearchScope::Base, present("objectClass"), &["*"]));
        union_dns.extend(entries(&b).iter().map(|e| e.dn.clone()));
    }
    let one_dns: Vec<String> = entries(&one).iter().map(|e| e.dn.clone()).collect();
    assert_eq!(one_dns, union_dns);
}

#[test]
fn subtree_search_at_unknown_base_answers_no_such_object() {
    let s = session();
    let out = s.do_search(&request(
        "dc=elsewhere",
        LdapSearchScope::Subtree,
        present("objectClass"),
        &["*"],
    ));
    assert_eq!(entries(&out).len(), 0);
    assert_eq!(done_code(&out), LdapResultCode::NoSuchObject);
}

#[test]
fn unsupported_requests_get_a_single_unwilling_done() {
    let req = request("dc=aarys,dc=fr", LdapSearchScope::Base, present("objectClass"), &["*"]);
    let out = unsupported_response(&req);
    assert_eq!(out.len(), 1);
    match &out[0].op {
        LdapOp::SearchResultDone(rc, _) => assert_eq!(*rc, LdapResultCode::UnwillingToPerform),
        _ => panic!("expected a result-done message"),
    }
}

#[test]
fn get_all_ldap_entries_wraps_every_user() {
    let s = session();
    let req = request("ou=users,dc=aarys,dc=fr", LdapSearchScope::OneLevel, present("objectClass"), &["*"]);
    let msgs = s.manager.get_all_ldap_entries(&req);
    assert_eq!(msgs.len(), 2);
    for m in &msgs {
        assert_eq!(m.msgid, 7);
        assert!(matches!(m.op, LdapOp::SearchResultEntry(_)));
    }
}
