//! The per-connection dispatcher: base classification, the three search
//! scopes, filtering and projection, the bind rules, and Whoami.
use vstd::prelude::*;

use crate::dbm::spec_domain_entry;
use crate::dbm::spec_dn_of_user;
use crate::dbm::spec_find_user;
use crate::dbm::spec_manager_wf;
use crate::dbm::spec_ou_entry;
use crate::dbm::spec_root_dse;
use crate::dbm::spec_user_entry_in;
use crate::dbm::ObjectManager;
use crate::dbm::SpecManager;
use crate::dbm::SpecUser;
use crate::entry::spec_project_entry;
use crate::entry::LdapSearchResultEntry;
use crate::entry::SpecEntry;
use crate::entry::project_entry;
use crate::filter::eval_filter;
use crate::filter::spec_matches_filter;
use crate::filter::LdapFilter;
use crate::msg::spec_done_msg;
use crate::msg::spec_entry_msg;
use crate::msg::LdapMsg;
use crate::msg::LdapResultCode;
use crate::msg::LdapSearchScope;
use crate::msg::SearchRequest;
use crate::msg::SimpleBindRequest;
use crate::msg::SpecMsg;
use crate::msg::SpecSearchRequest;
use crate::msg::SpecOp;
use crate::msg::WhoamiRequest;
use crate::strutil::dn_is_under;
use crate::strutil::dn_line_of;
use crate::strutil::spec_dn_line;
use crate::strutil::spec_dn_under;
use crate::strutil::spec_user_dn;
use crate::strutil::str_eq;

verus! {

/// Where a request base sits in the naming tree.
#[derive(Clone, Copy, Debug, PartialEq, Eq, Structural)]
pub enum BaseClass {
    /// The empty DN: the root DSE.
    Root,
    /// The literal `cn=Subschema` (served as a stub).
    Subschema,
    /// Exactly the naming context.
    Domain,
    /// Exactly the users DN.
    Ou,
    /// Exactly the DN of some user of the table.
    UserLeaf,
    /// Properly under the naming context, but none of the above.
    UnderDomain,
    /// Anywhere else.
    Unknown,
}

/// Classification of a request base, in the precedence order the
/// dispatcher applies.
pub open spec fn spec_classify(m: SpecManager, base: Seq<char>) -> BaseClass {
    if base.len() == 0 {
        BaseClass::Root
    } else if base == "cn=Subschema"@ {
        BaseClass::Subschema
    } else if base == m.dn {
        BaseClass::Domain
    } else if base == m.users_dn {
        BaseClass::Ou
    } else if spec_find_user(m, base) is Some {
        BaseClass::UserLeaf
    } else if spec_dn_under(base, m.dn) {
        BaseClass::UnderDomain
    } else {
        BaseClass::Unknown
    }
}

/// The entries a `Base` search at `base` yields, before filtering.
pub open spec fn spec_base_candidates(m: SpecManager, base: Seq<char>) -> Seq<SpecEntry> {
    match spec_classify(m, base) {
        BaseClass::Root => seq![spec_root_dse(m)],
        BaseClass::Subschema => Seq::empty(),
        BaseClass::Domain => seq![spec_domain_entry(m)],
        BaseClass::Ou => seq![spec_ou_entry(m)],
        BaseClass::UserLeaf => match spec_find_user(m, base) {
            Some(u) => seq![spec_user_entry_in(m, u)],
            None => Seq::empty(),
        },
        BaseClass::UnderDomain => Seq::empty(),
        BaseClass::Unknown => Seq::empty(),
    }
}

/// The result code of a `Base` search at `base`.
pub open spec fn spec_base_code(m: SpecManager, base: Seq<char>) -> LdapResultCode {
    match spec_classify(m, base) {
        BaseClass::UnderDomain => LdapResultCode::NoSuchObject,
        BaseClass::Unknown => LdapResultCode::NoSuchObject,
        _ => LdapResultCode::Success,
    }
}

/// The entries of every user of the table, in table order.
pub open spec fn spec_all_user_entries(m: SpecManager) -> Seq<SpecEntry> {
    Seq::new(m.users.len(), |i: int| spec_user_entry_in(m, m.users[i]))
}

/// The entries a `OneLevel` search at `base` yields, before filtering: the
/// immediate children of `base` in the naming tree. From the root the
/// request descends one level into the naming context.
pub open spec fn spec_one_level_candidates(m: SpecManager, base: Seq<char>) -> Seq<SpecEntry> {
    match spec_classify(m, base) {
        BaseClass::Root => spec_base_candidates(m, m.dn),
        BaseClass::Domain => seq![spec_ou_entry(m)],
        BaseClass::Ou => spec_all_user_entries(m),
        _ => Seq::empty(),
    }
}

/// The result code of a `OneLevel` search at `base`: a user leaf has no
/// children but exists, so it answers `Success`; a base that names nothing
/// answers `NoSuchObject`.
pub open spec fn spec_one_level_code(m: SpecManager, base: Seq<char>) -> LdapResultCode {
    match spec_classify(m, base) {
        BaseClass::Root => spec_base_code(m, m.dn),
        BaseClass::Domain => LdapResultCode::Success,
        BaseClass::Ou => LdapResultCode::Success,
        BaseClass::UserLeaf => LdapResultCode::Success,
        _ => LdapResultCode::NoSuchObject,
    }
}

/// The entries a `Subtree` search at `base` yields with `fuel` levels of
/// recursion left: the entry at `base` itself, then recursively the
/// subtrees of its immediate children.
pub open spec fn spec_subtree_candidates(m: SpecManager, base: Seq<char>, fuel: nat) -> Seq<
    SpecEntry,
>
    decreases fuel, 0int,
{
    if fuel == 0 {
        Seq::empty()
    } else {
        spec_base_candidates(m, base) + spec_subtree_of_children(
            m,
            spec_one_level_candidates(m, base),
            (fuel - 1) as nat,
        )
    }
}

/// The concatenated subtrees of a list of child entries.
pub open spec fn spec_subtree_of_children(
    m: SpecManager,
    children: Seq<SpecEntry>,
    fuel: nat,
) -> Seq<SpecEntry>
    decreases fuel, children.len(),
{
    if children.len() == 0 {
        Seq::empty()
    } else {
        spec_subtree_of_children(m, children.drop_last(), fuel) + spec_subtree_candidates(
            m,
            children.last().dn,
            fuel,
        )
    }
}

/// The recursion budget of a subtree search: the base level plus the depth
/// limit of ten.
pub open spec fn spec_subtree_fuel() -> nat {
    11
}

impl ObjectManager {
    /// Classification of `base` against this manager's naming tree.
    pub fn classify(&self, base: &str) -> (r: BaseClass)
        ensures
            r == spec_classify(self@, base@),
    {
        if base.is_empty() {
            BaseClass::Root
        } else if str_eq(base, "cn=Subschema") {
            BaseClass::Subschema
        } else if str_eq(base, self.dn.as_str()) {
            BaseClass::Domain
        } else if str_eq(base, self.users_dn.as_str()) {
            BaseClass::Ou
        } else if self.fetch_user_from_dn(base).is_some() {
            BaseClass::UserLeaf
        } else if dn_is_under(base, self.dn.as_str()) {
            BaseClass::UnderDomain
        } else {
            BaseClass::Unknown
        }
    }

    /// A `Base` search: the entry at `base`, if it names one.
    pub fn base_search(&self, base: &str) -> (r: (Vec<LdapSearchResultEntry>, LdapResultCode))
        ensures
            r.0.deep_view() == spec_base_candidates(self@, base@),
            r.1 == spec_base_code(self@, base@),
    {
        match self.classify(base) {
            BaseClass::Root => {
                let es = vec![self.root_dse_entry()];
                proof {
                    assert(es.deep_view() =~= spec_base_candidates(self@, base@));
                }
                (es, LdapResultCode::Success)
            },
            BaseClass::Subschema => {
                proof {
                    assert(Seq::<SpecEntry>::empty() =~= spec_base_candidates(self@, base@));
                }
                (Vec::new(), LdapResultCode::Success)
            },
            BaseClass::Domain => {
                let es = vec![self.domain_entry()];
                proof {
                    assert(es.deep_view() =~= spec_base_candidates(self@, base@));
                }
                (es, LdapResultCode::Success)
            },
            BaseClass::Ou => {
                let es = vec![self.ou_entry()];
                proof {
                    assert(es.deep_view() =~= spec_base_candidates(self@, base@));
                }
                (es, LdapResultCode::Success)
            },
            BaseClass::UserLeaf => {
                match self.fetch_user_from_dn(base) {
                    Some(u) => {
                        let es = vec![self.user_entry(&u)];
                        proof {
                            assert(es.deep_view() =~= spec_base_candidates(self@, base@));
                        }
                        (es, LdapResultCode::Success)
                    },
                    None => {
                        // The classification found a user under this DN, so
                        // the lookup cannot miss.
                        proof {
                            assert(false);
                        }
                        (Vec::new(), LdapResultCode::Success)
                    },
                }
            },
            BaseClass::UnderDomain => {
                proof {
                    assert(Seq::<SpecEntry>::empty() =~= spec_base_candidates(self@, base@));
                }
                (Vec::new(), LdapResultCode::NoSuchObject)
            },
            BaseClass::Unknown => {
                proof {
                    assert(Seq::<SpecEntry>::empty() =~= spec_base_candidates(self@, base@));
                }
                (Vec::new(), LdapResultCode::NoSuchObject)
            },
        }
    }

    /// A `OneLevel` search: the immediate children of `base`.
    pub fn one_level_search(&self, base: &str) -> (r: (Vec<LdapSearchResultEntry>, LdapResultCode))
        ensures
            r.0.deep_view() == spec_one_level_candidates(self@, base@),
            r.1 == spec_one_level_code(self@, base@),
    {
        match self.classify(base) {
            BaseClass::Root => {
                let d = self.dn.clone();
                let r = self.base_search(d.as_str());
                r
            },
            BaseClass::Domain => {
                let es = vec![self.ou_entry()];
                proof {
                    assert(es.deep_view() =~= spec_one_level_candidates(self@, base@));
                }
                (es, LdapResultCode::Success)
            },
            BaseClass::Ou => {
                let es = self.user_entries();
                proof {
                    assert(es.deep_view() =~= spec_one_level_candidates(self@, base@));
                }
                (es, LdapResultCode::Success)
            },
            BaseClass::UserLeaf => {
                proof {
                    assert(Seq::<SpecEntry>::empty() =~= spec_one_level_candidates(self@, base@));
                }
                (Vec::new(), LdapResultCode::Success)
            },
            _ => {
                proof {
                    assert(Seq::<SpecEntry>::empty() =~= spec_one_level_candidates(self@, base@));
                }
                (Vec::new(), LdapResultCode::NoSuchObject)
            },
        }
    }

    /// A `Subtree` search from `base`, `depth` levels below the original
    /// request base. The recursion stops at the fixed depth limit of ten.
    pub fn do_recursive_search(&self, base: &str, depth: u32) -> (r: Vec<LdapSearchResultEntry>)
        requires
            depth <= 11,
        ensures
            r.deep_view() == spec_subtree_candidates(self@, base@, (11 - depth) as nat),
        decreases 11 - depth,
    {
        if depth > 10 {
            proof {
                assert(Seq::<SpecEntry>::empty() =~= spec_subtree_candidates(
                    self@,
                    base@,
                    (11 - depth) as nat,
                ));
            }
            return Vec::new();
        }
        let ghost fuel = (11 - depth) as nat;
        let (mut out, _code) = self.base_search(base);
        let (children, _child_code) = self.one_level_search(base);
        let ghost children_view = children.deep_view();
        let n = children.len();
        let mut i: usize = 0;
        proof {
            assert(children_view.take(0) =~= Seq::<SpecEntry>::empty());
            assert(out.deep_view() =~= spec_base_candidates(self@, base@)
                + spec_subtree_of_children(self@, children_view.take(0), (fuel - 1) as nat));
        }
        while i < n
            invariant
                i <= n,
                depth <= 10,
                fuel == (11 - depth) as nat,
                n == children.len(),
                children.deep_view() == children_view,
                children_view == spec_one_level_candidates(self@, base@),
                out.deep_view() =~= spec_base_candidates(self@, base@) + spec_subtree_of_children(
                    self@,
                    children_view.take(i as int),
                    (fuel - 1) as nat,
                ),
            decreases n - i,
        {
            proof {
                assert(children_view.take(i + 1).drop_last() =~= children_view.take(i as int));
                assert(children_view.take(i + 1).last() == children_view[i as int]);
            }
            let mut sub = self.do_recursive_search(children[i].dn.as_str(), depth + 1);
            let ghost old_out = out.deep_view();
            let ghost sub_view = sub.deep_view();
            proof {
                assert((11 - (depth + 1)) as nat == (fuel - 1) as nat);
                assert(sub_view == spec_subtree_candidates(
                    self@,
                    children_view[i as int].dn,
                    (fuel - 1) as nat,
                ));
            }
            out.append(&mut sub);
            i += 1;
            proof {
                assert(out.deep_view() =~= old_out + sub_view);
                assert(spec_subtree_of_children(
                    self@,
                    children_view.take(i as int),
                    (fuel - 1) as nat,
                ) == spec_subtree_of_children(
                    self@,
                    children_view.take(i - 1),
                    (fuel - 1) as nat,
                ) + spec_subtree_candidates(
                    self@,
                    children_view[i - 1].dn,
                    (fuel - 1) as nat,
                ));
                assert(out.deep_view() =~= spec_base_candidates(self@, base@)
                    + spec_subtree_of_children(
                    self@,
                    children_view.take(i as int),
                    (fuel - 1) as nat,
                ));
            }
        }
        proof {
            assert(children_view.take(n as int) =~= children_view);
            assert(out.deep_view() =~= spec_subtree_candidates(self@, base@, fuel));
        }
        out
    }
}

/// The entries of `es` that satisfy the filter, in order.
pub open spec fn spec_filter_entries(f: LdapFilter, es: Seq<SpecEntry>) -> Seq<SpecEntry>
    decreases es.len(),
{
    if es.len() == 0 {
        Seq::empty()
    } else {
        spec_filter_entries(f, es.drop_last()) + (if spec_matches_filter(f, es.last()) {
            seq![es.last()]
        } else {
            Seq::empty()
        })
    }
}

/// Each entry of `es` with its attributes projected through the request's
/// attribute selection.
pub open spec fn spec_project_entries(req: Seq<Seq<char>>, es: Seq<SpecEntry>) -> Seq<SpecEntry> {
    Seq::new(es.len(), |i: int| spec_project_entry(req, es[i]))
}

/// The candidate entries of a search, by scope, before filtering.
pub open spec fn spec_search_candidates(
    m: SpecManager,
    base: Seq<char>,
    scope: LdapSearchScope,
) -> Seq<SpecEntry> {
    match scope {
        LdapSearchScope::Base => spec_base_candidates(m, base),
        LdapSearchScope::OneLevel => spec_one_level_candidates(m, base),
        LdapSearchScope::Subtree => spec_subtree_candidates(m, base, spec_subtree_fuel()),
    }
}

/// The result code of a search, by scope. A subtree search that reaches no
/// entry at all answers `NoSuchObject`; filtering never changes the code.
pub open spec fn spec_search_code(
    m: SpecManager,
    base: Seq<char>,
    scope: LdapSearchScope,
) -> LdapResultCode {
    match scope {
        LdapSearchScope::Base => spec_base_code(m, base),
        LdapSearchScope::OneLevel => spec_one_level_code(m, base),
        LdapSearchScope::Subtree => {
            if spec_subtree_candidates(m, base, spec_subtree_fuel()).len() == 0 {
                LdapResultCode::NoSuchObject
            } else {
                LdapResultCode::Success
            }
        },
    }
}

/// The entries of a search response: the candidates of the scope, filtered
/// by the request filter, then projected through the requested attributes.
pub open spec fn spec_search_results(m: SpecManager, req: SpecSearchRequest) -> Seq<SpecEntry> {
    spec_project_entries(
        req.attrs,
        spec_filter_entries(req.filter, spec_search_candidates(m, req.base, req.scope)),
    )
}

/// The diagnostic message attached to a closing search result.
pub open spec fn spec_done_message(rc: LdapResultCode) -> Seq<char> {
    match rc {
        LdapResultCode::Success => ""@,
        LdapResultCode::NoSuchObject => "No such object"@,
        _ => "Unsupported operation"@,
    }
}

fn done_message(rc: LdapResultCode) -> (r: String)
    ensures
        r@ == spec_done_message(rc),
{
    match rc {
        LdapResultCode::Success => "".to_owned(),
        LdapResultCode::NoSuchObject => "No such object".to_owned(),
        _ => "Unsupported operation".to_owned(),
    }
}

/// What a simple bind decides before any outside credential check: accept
/// locally, reject locally, or delegate the named user to the credential
/// oracle.
pub enum BindDecision {
    Accept,
    Reject,
    Delegate(String),
}

/// The mathematical shape of a bind decision.
#[verifier::ext_equal]
pub ghost enum SpecBindDecision {
    Accept,
    Reject,
    Delegate(Seq<char>),
}

impl View for BindDecision {
    type V = SpecBindDecision;

    open spec fn view(&self) -> SpecBindDecision {
        match self {
            BindDecision::Accept => SpecBindDecision::Accept,
            BindDecision::Reject => SpecBindDecision::Reject,
            BindDecision::Delegate(u) => SpecBindDecision::Delegate(u@),
        }
    }
}

/// What the outside credential oracle answered for a delegated bind.
#[derive(Clone, Copy, Debug, PartialEq, Eq, Structural)]
pub enum AuthOutcome {
    /// The identity provider accepted the credentials.
    Granted,
    /// The identity provider rejected the credentials.
    Denied,
    /// The identity provider could not be reached.
    TransportError,
}

/// A per-connection session: the directory, the administrator password,
/// and the DN bound by the last successful bind.
pub struct LdapSession {
    pub manager: ObjectManager,
    pub admin_pw: String,
    pub bound_dn: Option<String>,
}

/// The mathematical shape of a session.
#[verifier::ext_equal]
pub ghost struct SpecSession {
    pub manager: SpecManager,
    pub admin_pw: Seq<char>,
    pub bound_dn: Option<Seq<char>>,
}

impl View for LdapSession {
    type V = SpecSession;

    open spec fn view(&self) -> SpecSession {
        SpecSession {
            manager: self.manager@,
            admin_pw: self.admin_pw@,
            bound_dn: self.bound_dn.deep_view(),
        }
    }
}

/// The bind rules, in order: the administrator short-circuit, the
/// anonymous bind, then delegation for a user under the users DN; anything
/// else is rejected locally.
pub open spec fn spec_bind_decision(s: SpecSession, dn: Seq<char>, pw: Seq<char>) -> SpecBindDecision {
    if dn == "cn=Directory Manager"@ && pw == s.admin_pw {
        SpecBindDecision::Accept
    } else if dn.len() == 0 && pw.len() == 0 {
        SpecBindDecision::Accept
    } else if spec_dn_under(dn, s.manager.users_dn) {
        match spec_find_user(s.manager, dn) {
            Some(u) => SpecBindDecision::Delegate(u.username),
            None => SpecBindDecision::Reject,
        }
    } else {
        SpecBindDecision::Reject
    }
}

/// The result code of a bind, given what the credential oracle answered
/// (if it was consulted at all): a delegated bind succeeds exactly when the
/// oracle granted it; everything else the local rules decide.
pub open spec fn spec_bind_code(
    s: SpecSession,
    dn: Seq<char>,
    pw: Seq<char>,
    auth: Option<AuthOutcome>,
) -> LdapResultCode {
    match spec_bind_decision(s, dn, pw) {
        SpecBindDecision::Accept => LdapResultCode::Success,
        SpecBindDecision::Reject => LdapResultCode::InvalidCredentials,
        SpecBindDecision::Delegate(_) => match auth {
            Some(AuthOutcome::Granted) => LdapResultCode::Success,
            _ => LdapResultCode::InvalidCredentials,
        },
    }
}

/// The principal a successful bind records: the bound DN, or the fixed
/// anonymous principal for the anonymous bind.
pub open spec fn spec_bind_principal(dn: Seq<char>) -> Seq<char> {
    if dn.len() == 0 {
        "Anonymous"@
    } else {
        dn
    }
}

/// The identity Whoami reports: the bound DN of the session, or the naming
/// context as a stable placeholder for an unbound session.
pub open spec fn spec_whoami_id(s: SpecSession) -> Seq<char> {
    match s.bound_dn {
        Some(d) => d,
        None => s.manager.dn,
    }
}

impl LdapSession {
    /// A fresh, unbound session over a directory.
    pub fn new(manager: ObjectManager, admin_pw: String) -> (r: LdapSession)
        ensures
            r@.manager == manager@,
            r@.admin_pw == admin_pw@,
            r@.bound_dn is None,
    {
        LdapSession { manager, admin_pw, bound_dn: None }
    }

    /// The request filter holds of `entry`.
    pub fn does_result_matches_filter(
        &self,
        entry: &LdapSearchResultEntry,
        root_filter: &LdapFilter,
    ) -> (r: bool)
        ensures
            r == spec_matches_filter(*root_filter, entry@),
    {
        eval_filter(entry, root_filter)
    }

    /// The entries of `entries` that satisfy the filter, in order.
    pub fn apply_filter(&self, entries: Vec<LdapSearchResultEntry>, filter: &LdapFilter) -> (r:
        Vec<LdapSearchResultEntry>)
        ensures
            r.deep_view() == spec_filter_entries(*filter, entries.deep_view()),
    {
        let ghost orig = entries.deep_view();
        let mut rest = entries;
        let total = rest.len();
        let mut out: Vec<LdapSearchResultEntry> = Vec::new();
        let mut i: usize = 0;
        proof {
            assert(orig.take(0) =~= Seq::<SpecEntry>::empty());
            assert(out.deep_view() =~= spec_filter_entries(*filter, orig.take(0)));
        }
        while 0 < rest.len()
            invariant
                i + rest.len() == total,
                total == orig.len(),
                forall|j: int| 0 <= j < rest.deep_view().len()
                    ==> rest.deep_view()[j] == orig[i + j],
                out.deep_view() =~= spec_filter_entries(*filter, orig.take(i as int)),
            decreases rest.len(),
        {
            let ghost old_rest = rest.deep_view();
            let ghost old_out = out.deep_view();
            proof {
                assert(old_rest[0] == orig[i + 0]);
            }
            let e = rest.remove(0);
            proof {
                assert(e@ == orig[i as int]);
                assert(forall|j: int| 0 <= j < rest.deep_view().len()
                    ==> rest.deep_view()[j] == old_rest[j + 1]);
                assert(orig.take(i + 1).drop_last() =~= orig.take(i as int));
                assert(orig.take(i + 1).last() == orig[i as int]);
            }
            if self.does_result_matches_filter(&e, filter) {
                out.push(e);
                proof {
                    assert(out.deep_view() =~= old_out.push(orig[i as int]));
                }
            }
            i += 1;
            proof {
                assert(out.deep_view() =~= spec_filter_entries(*filter, orig.take(i as int)));
            }
        }
        proof {
            assert(orig.take(i as int) =~= orig);
        }
        out
    }

    /// The full search dispatch: classify the base, resolve the scope,
    /// filter and project the candidate entries, and close the response
    /// with exactly one result-done message. The response is never empty,
    /// every entry precedes the closing result, and the closing code is
    /// the one the scope rules give.
    pub fn do_search(&self, lsr: &SearchRequest) -> (r: Vec<LdapMsg>)
        ensures
            r.deep_view().len() == spec_search_results(self@.manager, lsr@).len() + 1,
            forall|i: int|
                0 <= i < spec_search_results(self@.manager, lsr@).len() ==> r.deep_view()[i]
                    == spec_entry_msg(lsr@.msgid, spec_search_results(self@.manager, lsr@)[i]),
            r.deep_view().last() == spec_done_msg(
                lsr@.msgid,
                spec_search_code(self@.manager, lsr@.base, lsr@.scope),
                spec_done_message(spec_search_code(self@.manager, lsr@.base, lsr@.scope)),
            ),
            r.deep_view().len() >= 1,
            forall|i: int|
                0 <= i < r.deep_view().len() - 1 ==> r.deep_view()[i].op is SearchResultEntry,
    {
        let (candidates, code) = match lsr.scope {
            LdapSearchScope::Base => self.manager.base_search(lsr.base.as_str()),
            LdapSearchScope::OneLevel => self.manager.one_level_search(lsr.base.as_str()),
            LdapSearchScope::Subtree => {
                let es = self.manager.do_recursive_search(lsr.base.as_str(), 0);
                let rc = if es.len() == 0 {
                    LdapResultCode::NoSuchObject
                } else {
                    LdapResultCode::Success
                };
                (es, rc)
            },
        };
        let kept = self.apply_filter(candidates, &lsr.filter);
        let ghost results = spec_search_results(self@.manager, lsr@);
        proof {
            assert(results == spec_project_entries(lsr@.attrs, kept.deep_view()));
        }
        let mut out: Vec<LdapMsg> = Vec::new();
        let n = kept.len();
        let mut i: usize = 0;
        while i < n
            invariant
                i <= n,
                n == kept.len(),
                kept.deep_view().len() == results.len(),
                results == spec_project_entries(lsr@.attrs, kept.deep_view()),
                out.deep_view().len() == i,
                forall|j: int|
                    0 <= j < i ==> out.deep_view()[j] == spec_entry_msg(lsr@.msgid, results[j]),
            decreases n - i,
        {
            let ghost old_out = out.deep_view();
            out.push(lsr.gen_result_entry(project_entry(&lsr.attrs, &kept[i])));
            proof {
                assert(out.deep_view() =~= old_out.push(
                    spec_entry_msg(lsr@.msgid, results[i as int]),
                ));
            }
            i += 1;
        }
        let ghost before_done = out.deep_view();
        let msg = done_message(code);
        out.push(lsr.gen_error(code, msg));
        proof {
            assert(out.deep_view() =~= before_done.push(
                spec_done_msg(lsr@.msgid, code, spec_done_message(code)),
            ));
        }
        out
    }

    /// The local part of the bind rules: what this request decides before
    /// any outside credential check.
    pub fn bind_decision(&self, sbr: &SimpleBindRequest) -> (r: BindDecision)
        ensures
            r@ == spec_bind_decision(self@, sbr@.dn, sbr@.pw),
    {
        if str_eq(sbr.dn.as_str(), "cn=Directory Manager") && str_eq(
            sbr.pw.as_str(),
            self.admin_pw.as_str(),
        ) {
            BindDecision::Accept
        } else if sbr.dn.as_str().is_empty() && sbr.pw.as_str().is_empty() {
            BindDecision::Accept
        } else if dn_is_under(sbr.dn.as_str(), self.manager.users_dn.as_str()) {
            match self.manager.fetch_user_from_dn(sbr.dn.as_str()) {
                Some(u) => BindDecision::Delegate(u.username),
                None => BindDecision::Reject,
            }
        } else {
            BindDecision::Reject
        }
    }

    /// The simple bind dispatch. `auth` is what the outside credential
    /// oracle answered for this request, or `None` where it was not
    /// consulted; a delegated bind succeeds exactly when the oracle
    /// granted it. A successful bind records the bound principal; a failed
    /// bind leaves the session exactly as it was.
    pub fn do_bind(&mut self, sbr: &SimpleBindRequest, auth: Option<AuthOutcome>) -> (r: LdapMsg)
        ensures
            r@ == (SpecMsg {
                msgid: sbr.msgid,
                op: SpecOp::BindResponse(
                    spec_bind_code(old(self)@, sbr@.dn, sbr@.pw, auth),
                    ""@,
                ),
            }),
            spec_bind_code(old(self)@, sbr@.dn, sbr@.pw, auth) == LdapResultCode::Success
                ==> final(self)@ == (SpecSession {
                bound_dn: Some(spec_bind_principal(sbr@.dn)),
                ..old(self)@
            }),
            spec_bind_code(old(self)@, sbr@.dn, sbr@.pw, auth) != LdapResultCode::Success
                ==> final(self)@ == old(self)@,
    {
        let decision = self.bind_decision(sbr);
        match decision {
            BindDecision::Accept => {
                if sbr.dn.as_str().is_empty() {
                    self.bound_dn = Some("Anonymous".to_owned());
                } else {
                    self.bound_dn = Some(sbr.dn.clone());
                }
                sbr.gen_success()
            },
            BindDecision::Reject => sbr.gen_invalid_cred(),
            BindDecision::Delegate(_) => match auth {
                Some(AuthOutcome::Granted) => {
                    proof {
                        reveal_strlit("cn=");
                        crate::dbm::lemma_find_user_from_ok(
                            self@.manager.users,
                            self@.manager.users_dn,
                            sbr@.dn,
                        );
                        assert(sbr@.dn.len() > 0);
                    }
                    self.bound_dn = Some(sbr.dn.clone());
                    sbr.gen_success()
                },
                _ => sbr.gen_invalid_cred(),
            },
        }
    }

    /// The Whoami dispatch: report the session's current identity.
    pub fn do_whoami(&self, wr: &WhoamiRequest) -> (r: LdapMsg)
        ensures
            r@ == (SpecMsg {
                msgid: wr.msgid,
                op: SpecOp::WhoamiResponse(spec_dn_line(spec_whoami_id(self@))),
            }),
    {
        match &self.bound_dn {
            Some(d) => wr.gen_success(dn_line_of(d.as_str())),
            None => wr.gen_success(dn_line_of(self.manager.dn.as_str())),
        }
    }
}

/// The single-message response for a request the dispatcher does not
/// serve: an unsupported scope, filter or operation.
pub fn unsupported_response(lsr: &SearchRequest) -> (r: Vec<LdapMsg>)
    ensures
        r.deep_view().len() == 1,
        r.deep_view()[0] == spec_done_msg(
            lsr@.msgid,
            LdapResultCode::UnwillingToPerform,
            "Unsupported operation"@,
        ),
{
    let r = vec![lsr.gen_error(LdapResultCode::UnwillingToPerform, "Unsupported operation".to_owned())];
    proof {
        assert(r.deep_view() =~= seq![
            spec_done_msg(lsr@.msgid, LdapResultCode::UnwillingToPerform, "Unsupported operation"@),
        ]);
    }
    r
}


/// Filtering preserves prefixes: the matches of a prefix are a prefix of
/// the matches of the whole.
pub proof fn lemma_filter_entries_prefix(f: LdapFilter, s1: Seq<SpecEntry>, s2: Seq<SpecEntry>)
    requires
        s1.is_prefix_of(s2),
    ensures
        spec_filter_entries(f, s1).is_prefix_of(spec_filter_entries(f, s2)),
    decreases s2.len(),
{
    if s1.len() == s2.len() {
        assert(s1 =~= s2);
    } else {
        assert(s1.is_prefix_of(s2.drop_last()));
        lemma_filter_entries_prefix(f, s1, s2.drop_last());
        assert(spec_filter_entries(f, s2.drop_last()).is_prefix_of(spec_filter_entries(f, s2)));
    }
}

/// A subtree search yields the base search's entries first: the `Base`
/// candidates at `base` are a prefix of the `Subtree` candidates there.
pub proof fn lemma_subtree_includes_base(m: SpecManager, base: Seq<char>)
    ensures
        spec_base_candidates(m, base).is_prefix_of(
            spec_subtree_candidates(m, base, spec_subtree_fuel()),
        ),
{
    assert(spec_subtree_candidates(m, base, spec_subtree_fuel()) == spec_base_candidates(m, base)
        + spec_subtree_of_children(
        m,
        spec_one_level_candidates(m, base),
        (spec_subtree_fuel() - 1) as nat,
    ));
}

/// Every filtered, projected result of a `Base` search at `base` is among
/// the results of the `Subtree` search at `base` under the same filter and
/// attribute selection.
pub proof fn lemma_subtree_results_include_base(
    m: SpecManager,
    base: Seq<char>,
    f: LdapFilter,
    attrs: Seq<Seq<char>>,
    e: SpecEntry,
)
    requires
        spec_project_entries(attrs, spec_filter_entries(f, spec_base_candidates(m, base))).contains(
            e,
        ),
    ensures
        spec_project_entries(
            attrs,
            spec_filter_entries(f, spec_subtree_candidates(m, base, spec_subtree_fuel())),
        ).contains(e),
{
    lemma_subtree_includes_base(m, base);
    lemma_filter_entries_prefix(
        f,
        spec_base_candidates(m, base),
        spec_subtree_candidates(m, base, spec_subtree_fuel()),
    );
    let fb = spec_filter_entries(f, spec_base_candidates(m, base));
    let fs = spec_filter_entries(f, spec_subtree_candidates(m, base, spec_subtree_fuel()));
    let rb = spec_project_entries(attrs, fb);
    let rs = spec_project_entries(attrs, fs);
    let i = choose|i: int| 0 <= i < rb.len() && rb[i] == e;
    assert(fb[i] == fs[i]);
    assert(rs[i] == e);
}

/// The DNs of the immediate children of `base` in the naming tree.
pub open spec fn spec_children_dns(m: SpecManager, base: Seq<char>) -> Seq<Seq<char>> {
    match spec_classify(m, base) {
        BaseClass::Root => seq![m.dn],
        BaseClass::Domain => seq![m.users_dn],
        BaseClass::Ou => Seq::new(m.users.len(), |i: int| spec_dn_of_user(m, m.users[i])),
        _ => Seq::empty(),
    }
}

/// The concatenated `Base` search results over a list of DNs.
pub open spec fn spec_base_union(m: SpecManager, dns: Seq<Seq<char>>) -> Seq<SpecEntry>
    decreases dns.len(),
{
    if dns.len() == 0 {
        Seq::empty()
    } else {
        spec_base_union(m, dns.drop_last()) + spec_base_candidates(m, dns.last())
    }
}

/// The usernames of the table are pairwise distinct.
pub open spec fn spec_distinct_usernames(m: SpecManager) -> bool {
    forall|i: int, j: int|
        0 <= i < j < m.users.len() ==> #[trigger] m.users[i].username
            != #[trigger] m.users[j].username
}

/// With pairwise distinct usernames, looking up the DN of the `j`-th user
/// finds exactly that user.
pub proof fn lemma_find_user_first(users: Seq<SpecUser>, udn: Seq<char>, j: int)
    requires
        0 <= j < users.len(),
        forall|i1: int, i2: int|
            0 <= i1 < i2 < users.len() ==> #[trigger] users[i1].username
                != #[trigger] users[i2].username,
    ensures
        crate::dbm::spec_find_user_from(users, udn, spec_user_dn(users[j].username, udn))
            == Some(users[j]),
    decreases j,
{
    crate::strutil::lemma_user_dn_injective(users[0].username, users[j].username, udn);
    if j > 0 {
        assert(users[0].username != users[j].username);
        assert forall|i1: int, i2: int|
            0 <= i1 < i2 < users.skip(1).len() implies #[trigger] users.skip(1)[i1].username
            != #[trigger] users.skip(1)[i2].username by {
            assert(users.skip(1)[i1] == users[i1 + 1]);
            assert(users.skip(1)[i2] == users[i2 + 1]);
        }
        lemma_find_user_first(users.skip(1), udn, j - 1);
        assert(users.skip(1)[j - 1] == users[j]);
    }
}

/// A `OneLevel` search equals the concatenation, child by child, of the
/// `Base` searches at the children of the base. This holds of directories
/// whose usernames are pairwise distinct and name no user `cn=Subschema`:
/// a duplicated username would be listed once per line by `OneLevel` but
/// resolve to its first line by `Base`, and a user DN equal to the literal
/// `cn=Subschema` would be served by the subschema stub instead.
pub proof fn lemma_one_level_is_union_of_base(m: SpecManager, base: Seq<char>)
    requires
        spec_manager_wf(m),
        spec_distinct_usernames(m),
        forall|j: int|
            0 <= j < m.users.len() ==> spec_dn_of_user(m, #[trigger] m.users[j])
                != "cn=Subschema"@,
    ensures
        spec_one_level_candidates(m, base) =~= spec_base_union(m, spec_children_dns(m, base)),
{
    reveal_with_fuel(spec_base_union, 3);
    reveal_strlit("cn=Subschema");
    crate::strutil::lemma_users_dn_len(m.ou, m.dn);
    match spec_classify(m, base) {
        BaseClass::Root => {
            let dns = spec_children_dns(m, base);
            assert(dns.drop_last() =~= Seq::<Seq<char>>::empty());
            assert(spec_base_union(m, dns) =~= spec_base_candidates(m, m.dn));
        },
        BaseClass::Domain => {
            let dns = spec_children_dns(m, base);
            assert(dns.drop_last() =~= Seq::<Seq<char>>::empty());
            assert(spec_base_union(m, dns) =~= spec_base_candidates(m, m.users_dn));
            assert(m.users_dn[0] == 'o');
            assert(m.users_dn != "cn=Subschema"@);
            assert(spec_classify(m, m.users_dn) == BaseClass::Ou);
            assert(spec_base_candidates(m, m.users_dn) =~= seq![spec_ou_entry(m)]);
        },
        BaseClass::Ou => {
            let dns = spec_children_dns(m, base);
            lemma_union_over_user_dns(m, m.users.len() as int);
            assert(dns =~= dns.take(m.users.len() as int));
            assert(spec_all_user_entries(m) =~= spec_all_user_entries(m).take(
                m.users.len() as int,
            ));
        },
        _ => {
            assert(spec_children_dns(m, base) =~= Seq::<Seq<char>>::empty());
        },
    }
}

/// The union of the `Base` searches at the first `k` user DNs is the list
/// of the first `k` user entries.
proof fn lemma_union_over_user_dns(m: SpecManager, k: int)
    requires
        spec_manager_wf(m),
        spec_distinct_usernames(m),
        forall|j: int|
            0 <= j < m.users.len() ==> spec_dn_of_user(m, #[trigger] m.users[j])
                != "cn=Subschema"@,
        0 <= k <= m.users.len(),
    ensures
        spec_base_union(
            m,
            Seq::new(m.users.len(), |i: int| spec_dn_of_user(m, m.users[i])).take(k),
        ) =~= spec_all_user_entries(m).take(k),
    decreases k,
{
    let dns = Seq::new(m.users.len(), |i: int| spec_dn_of_user(m, m.users[i]));
    if k == 0 {
        assert(dns.take(0) =~= Seq::<Seq<char>>::empty());
        assert(spec_all_user_entries(m).take(0) =~= Seq::<SpecEntry>::empty());
    } else {
        lemma_union_over_user_dns(m, k - 1);
        assert(dns.take(k).drop_last() =~= dns.take(k - 1));
        assert(dns.take(k).last() == dns[k - 1]);
        let d = spec_dn_of_user(m, m.users[k - 1]);
        crate::strutil::lemma_user_dn_len(m.users[k - 1].username, m.users_dn);
        crate::strutil::lemma_users_dn_len(m.ou, m.dn);
        lemma_find_user_first(m.users, m.users_dn, k - 1);
        assert(spec_find_user(m, d) == Some(m.users[k - 1]));
        assert(d.len() > 0);
        assert(d != m.dn);
        assert(d != m.users_dn);
        assert(spec_classify(m, d) == BaseClass::UserLeaf);
        assert(spec_base_candidates(m, d) =~= seq![spec_user_entry_in(m, m.users[k - 1])]);
        assert(spec_all_user_entries(m).take(k).drop_last() =~= spec_all_user_entries(m).take(
            k - 1,
        ));
    }
}

} // verus!
