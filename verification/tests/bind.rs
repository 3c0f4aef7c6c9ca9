//! Bind and Whoami scenarios, including the delegated credential check.
use ruthenium_ldap::dbm::ObjectManager;
use ruthenium_ldap::msg::LdapOp;
use ruthenium_ldap::msg::LdapResultCode;
use ruthenium_ldap::msg::SimpleBindRequest;
use ruthenium_ldap::msg::WhoamiRequest;
use ruthenium_ldap::session::AuthOutcome;
use ruthenium_ldap::session::BindDecision;
use ruthenium_ldap::session::LdapSession;

fn session() -> LdapSession {
    let manager = ObjectManager::initialise(
        "alice\nbob\n",
        "dc=aarys,dc=fr".to_string(),
        "users".to_string(),
    );
    LdapSession::new(manager, "password".to_string())
}

fn bind(dn: &str, pw: &str) -> SimpleBindRequest {
    SimpleBindRequest { msgid: 3, dn: dn.to_string(), pw: pw.to_string() }
}

fn code(msg: &ruthenium_ldap::msg::LdapMsg) -> LdapResultCode {
    match &msg.op {
        LdapOp::BindResponse(rc, _) => *rc,
        _ => panic!("expected a bind response"),
    }
}

#[test]
fn admin_bind_succeeds_with_the_configured_password() {
    let mut s = session();
    let r = s.do_bind(&bind("cn=Directory Manager", "password"), None);
    assert_eq!(code(&r), LdapResultCode::Success);
    assert_eq!(r.msgid, 3);
}

#[test]
fn admin_bind_with_wrong_password_is_rejected() {
    let mut s = session();
    let r = s.do_bind(&bind("cn=Directory Manager", "nope"), None);
    assert_eq!(code(&r), LdapResultCode::InvalidCredentials);
}

#[test]
fn user_bind_follows_the_credential_oracle() {
    let mut s = session();
    let r = s.do_bind(&bind("cn=alice,ou=users,dc=aarys,dc=fr", "wrong"), Some(AuthOutcome::Denied));
    assert_eq!(code(&r), LdapResultCode::InvalidCredentials);
    let r = s.do_bind(&bind("cn=alice,ou=users,dc=aarys,dc=fr", "right"), Some(AuthOutcome::Granted));
    assert_eq!(code(&r), LdapResultCode::Success);
    let r = s.do_bind(
        &bind("cn=alice,ou=users,dc=aarys,dc=fr", "right"),
        Some(AuthOutcome::TransportError),
    );
    assert_eq!(code(&r), LdapResultCode::InvalidCredentials);
}

#[test]
fn bind_decision_delegates_known_users_only() {
    let s = session();
    match s.bind_decision(&bind("cn=bob,ou=users,dc=aarys,dc=fr", "pw")) {
        BindDecision::Delegate(username) => assert_eq!(username, "bob"),
        _ => panic!("expected delegation to the credential oracle"),
    }
    assert!(matches!(
        s.bind_decision(&bind("cn=nobody,ou=users,dc=aarys,dc=fr", "pw")),
        BindDecision::Reject
    ));
    assert!(matches!(
        s.bind_decision(&bind("cn=Directory Manager", "password")),
        BindDecision::Accept
    ));
    assert!(matches!(s.bind_decision(&bind("cn=bob,dc=other", "pw")), BindDecision::Reject));
}

#[test]
fn unknown_dn_bind_is_rejected() {
    let mut s = session();
    let r = s.do_bind(&bind("cn=nobody,ou=users,dc=aarys,dc=fr", "pw"), None);
    assert_eq!(code(&r), LdapResultCode::InvalidCredentials);
}

#[test]
fn anonymous_bind_succeeds_and_names_the_anonymous_principal() {
    let mut s = session();
    let r = s.do_bind(&bind("", ""), None);
    assert_eq!(code(&r), LdapResultCode::Success);
    let w = s.do_whoami(&WhoamiRequest { msgid: 9 });
    match &w.op {
        LdapOp::WhoamiResponse(id) => assert_eq!(id, "dn: Anonymous"),
        _ => panic!("expected a whoami response"),
    }
}

#[test]
fn whoami_reports_the_naming_context_when_unbound() {
    let s = session();
    let w = s.do_whoami(&WhoamiRequest { msgid: 9 });
    match &w.op {
        LdapOp::WhoamiResponse(id) => assert_eq!(id, "dn: dc=aarys,dc=fr"),
        _ => panic!("expected a whoami response"),
    }
}

#[test]
fn whoami_reports_the_bound_dn_after_a_successful_bind() {
    let mut s = session();
    s.do_bind(&bind("cn=bob,ou=users,dc=aarys,dc=fr", "pw"), Some(AuthOutcome::Granted));
    let w = s.do_whoami(&WhoamiRequest { msgid: 9 });
    match &w.op {
        LdapOp::WhoamiResponse(id) => assert_eq!(id, "dn: cn=bob,ou=users,dc=aarys,dc=fr"),
        _ => panic!("expected a whoami response"),
    }
}

#[test]
fn failed_rebind_keeps_the_current_principal() {
    let mut s = session();
    s.do_bind(&bind("cn=bob,ou=users,dc=aarys,dc=fr", "pw"), Some(AuthOutcome::Granted));
    let r = s.do_bind(&bind("cn=alice,ou=users,dc=aarys,dc=fr", "bad"), Some(AuthOutcome::Denied));
    assert_eq!(code(&r), LdapResultCode::InvalidCredentials);
    let w = s.do_whoami(&WhoamiRequest { msgid: 9 });
    match &w.op {
        LdapOp::WhoamiResponse(id) => assert_eq!(id, "dn: cn=bob,ou=users,dc=aarys,dc=fr"),
        _ => panic!("expected a whoami response"),
    }
}
