//! The directory: the whitelist of users, the manager that owns the naming
//! context and the static attribute templates, entry synthesis, and
//! lookup by distinguished name.
use vstd::prelude::*;
use vstd::string::StrSliceExecFns;

use crate::entry::attr_matches;
use crate::entry::copy_attrs;
use crate::entry::spec_get_attr;
use crate::entry::spec_get_attr_from;
use crate::entry::spec_has_attr;
use crate::entry::LdapPartialAttribute;
use crate::entry::LdapSearchResultEntry;
use crate::entry::SpecAttr;
use crate::entry::SpecEntry;
use crate::entry::entry_get_attribute;
use crate::entry::entry_has_attribute;
use crate::filter::eval_filter;
use crate::filter::spec_matches_filter;
use crate::filter::LdapFilter;
use crate::msg::spec_entry_msg;
use crate::msg::LdapMsg;
use crate::msg::SearchRequest;
use crate::strutil::dn_is_under;
use crate::strutil::first_rdn_value;
use crate::strutil::spec_dn_under;
use crate::strutil::spec_first_rdn_value;
use crate::strutil::lower_char;
use crate::strutil::seq_lower;
use crate::strutil::spec_u64_digits;
use crate::strutil::spec_user_dn;
use crate::strutil::spec_users_dn;
use crate::strutil::str_eq;
use crate::strutil::u64_to_string;
use crate::strutil::user_dn_of;
use crate::strutil::users_dn_of;

verus! {

/// One whitelisted user: a name and the numeric id derived from its line
/// index in the whitelist.
pub struct User {
    pub username: String,
    pub uid: u64,
}

/// The mathematical shape of a user.
#[verifier::ext_equal]
pub ghost struct SpecUser {
    pub username: Seq<char>,
    pub uid: u64,
}

impl View for User {
    type V = SpecUser;

    open spec fn view(&self) -> SpecUser {
        SpecUser { username: self.username@, uid: self.uid }
    }
}

impl DeepView for User {
    type V = SpecUser;

    open spec fn deep_view(&self) -> SpecUser {
        self.view()
    }
}

/// The attributes of a synthesized user entry: object classes, the name as
/// `cn` and `uid`, and the line index as `gidNumber` and `uidNumber`.
pub open spec fn spec_user_attrs(u: SpecUser) -> Seq<SpecAttr> {
    seq![
        SpecAttr { atype: "objectClass"@, vals: seq!["inetOrgPerson"@, "posixAccount"@] },
        SpecAttr { atype: "cn"@, vals: seq![u.username] },
        SpecAttr { atype: "gidNumber"@, vals: seq![spec_u64_digits(u.uid as int)] },
        SpecAttr { atype: "uid"@, vals: seq![u.username] },
        SpecAttr { atype: "uidNumber"@, vals: seq![spec_u64_digits(u.uid as int)] },
    ]
}

/// The entry synthesized for a user under the organizational unit `ou` of
/// naming context `dn`.
pub open spec fn spec_user_entry(u: SpecUser, ou: Seq<char>, dn: Seq<char>) -> SpecEntry {
    SpecEntry {
        dn: spec_user_dn(u.username, spec_users_dn(ou, dn)),
        attributes: spec_user_attrs(u),
    }
}

/// A type whose values synthesize a directory entry on demand.
pub trait DynamicObject {
    /// The entry this value synthesizes.
    spec fn spec_entry(&self, ou: Seq<char>, dn: Seq<char>) -> SpecEntry;

    fn get_ldap_entry(&self, ou: &str, dn: &str) -> (r: LdapSearchResultEntry)
        ensures
            r@ == self.spec_entry(ou@, dn@),
    ;
}

fn attr_of(name: &str, vals: Vec<String>) -> (r: LdapPartialAttribute)
    ensures
        r@ == (SpecAttr { atype: name@, vals: vals.deep_view() }),
{
    LdapPartialAttribute { atype: name.to_owned(), vals }
}

/// The executable attribute list of a user entry.
fn user_attrs(u: &User) -> (r: Vec<LdapPartialAttribute>)
    ensures
        r.deep_view() == spec_user_attrs(u@),
{
    let number = u64_to_string(u.uid);
    let r = vec![
        attr_of("objectClass", vec!["inetOrgPerson".to_owned(), "posixAccount".to_owned()]),
        attr_of("cn", vec![u.username.clone()]),
        attr_of("gidNumber", vec![number.clone()]),
        attr_of("uid", vec![u.username.clone()]),
        attr_of("uidNumber", vec![number]),
    ];
    proof {
        assert(r.deep_view() =~~= spec_user_attrs(u@));
    }
    r
}

impl DynamicObject for User {
    open spec fn spec_entry(&self, ou: Seq<char>, dn: Seq<char>) -> SpecEntry {
        spec_user_entry(self@, ou, dn)
    }

    fn get_ldap_entry(&self, ou: &str, dn: &str) -> (r: LdapSearchResultEntry)
        ensures
            r@ == spec_user_entry(self@, ou@, dn@),
    {
        let udn = users_dn_of(ou, dn);
        let r = LdapSearchResultEntry {
            dn: user_dn_of(self.username.as_str(), udn.as_str()),
            attributes: user_attrs(self),
        };
        proof {
            assert(r@ =~= spec_user_entry(self@, ou@, dn@));
        }
        r
    }
}

/// An entry together with the membership, filter and attribute tests the
/// dispatcher runs on it.
pub trait ExtendedLdapSearchResultEntry {
    /// The mathematical shape of this entry.
    spec fn entry_view(&self) -> SpecEntry;

    /// The entry sits at or below `base` (RDN-boundary suffix test).
    fn has_base(&self, base: &str) -> (r: bool)
        ensures
            r == spec_dn_under(self.entry_view().dn, base@),
    ;

    /// The entry satisfies the filter.
    fn matches_filter(&self, filter: &LdapFilter) -> (r: bool)
        ensures
            r == spec_matches_filter(*filter, self.entry_view()),
    ;

    /// The entry has an attribute of this name (case-insensitive).
    fn has_attribute(&self, attribute_name: &str) -> (r: bool)
        ensures
            r == spec_has_attr(self.entry_view(), attribute_name@),
    ;

    /// All values of attributes of this name (case-insensitive).
    fn get_attribute(&self, attribute_name: &str) -> (r: Vec<String>)
        ensures
            r.deep_view() == spec_get_attr(self.entry_view(), attribute_name@),
    ;
}

impl ExtendedLdapSearchResultEntry for LdapSearchResultEntry {
    open spec fn entry_view(&self) -> SpecEntry {
        self@
    }

    fn has_base(&self, base: &str) -> (r: bool)
        ensures
            r == spec_dn_under(self@.dn, base@),
    {
        dn_is_under(self.dn.as_str(), base)
    }

    fn matches_filter(&self, filter: &LdapFilter) -> (r: bool)
        ensures
            r == spec_matches_filter(*filter, self@),
    {
        eval_filter(self, filter)
    }

    fn has_attribute(&self, attribute_name: &str) -> (r: bool)
        ensures
            r == spec_has_attr(self@, attribute_name@),
    {
        entry_has_attribute(self, attribute_name)
    }

    fn get_attribute(&self, attribute_name: &str) -> (r: Vec<String>)
        ensures
            r.deep_view() == spec_get_attr(self@, attribute_name@),
    {
        entry_get_attribute(self, attribute_name)
    }
}

/// The lines of a text split on `'\n'`. Splitting always yields one more
/// line than there are newline characters; an empty text yields one empty
/// line.
pub open spec fn spec_lines(s: Seq<char>) -> Seq<Seq<char>>
    decreases s.len(),
{
    if s.len() == 0 {
        seq![Seq::<char>::empty()]
    } else if s[0] == '\n' {
        seq![Seq::<char>::empty()] + spec_lines(s.skip(1))
    } else {
        let rest = spec_lines(s.skip(1));
        seq![seq![s[0]] + rest[0]] + rest.skip(1)
    }
}

pub proof fn lemma_spec_lines_nonempty(s: Seq<char>)
    ensures
        spec_lines(s).len() >= 1,
    decreases s.len(),
{
    if s.len() != 0 {
        lemma_spec_lines_nonempty(s.skip(1))
    }
}

/// The whitelist lines: the text split on newlines, with a trailing empty
/// line (from a final `'\n'`, or an empty file) dropped.
pub open spec fn spec_whitelist_lines(s: Seq<char>) -> Seq<Seq<char>> {
    let ls = spec_lines(s);
    if ls.len() > 0 && ls.last().len() == 0 {
        ls.drop_last()
    } else {
        ls
    }
}

/// The users of a whitelist text: one per line, the 0-based line index as
/// the numeric id.
pub open spec fn spec_users_of(s: Seq<char>) -> Seq<SpecUser> {
    Seq::new(
        spec_whitelist_lines(s).len(),
        |i: int| SpecUser { username: spec_whitelist_lines(s)[i], uid: i as u64 },
    )
}

/// The lines of the whitelist text, as `spec_whitelist_lines` says.
fn split_whitelist_lines(content: &str) -> (r: Vec<String>)
    ensures
        r.deep_view() == spec_whitelist_lines(content@),
{
    let n = content.unicode_len();
    let mut segs: Vec<String> = Vec::new();
    let mut start: usize = 0;
    let mut i: usize = 0;
    proof {
        lemma_spec_lines_nonempty(content@);
        assert(content@.skip(0) =~= content@);
        assert(segs.deep_view() + seq![
            content@.subrange(0, 0) + spec_lines(content@)[0],
        ] + spec_lines(content@).skip(1) =~~= spec_lines(content@));
    }
    while i < n
        invariant
            start <= i <= n,
            n == content@.len(),
            spec_lines(content@.skip(i as int)).len() >= 1,
            spec_lines(content@) =~~= segs.deep_view() + seq![
                content@.subrange(start as int, i as int) + spec_lines(
                    content@.skip(i as int),
                )[0],
            ] + spec_lines(content@.skip(i as int)).skip(1),
        decreases n - i,
    {
        proof {
            assert(content@.skip(i as int)[0] == content@[i as int]);
            assert(content@.skip(i as int).skip(1) =~= content@.skip(i + 1));
            lemma_spec_lines_nonempty(content@.skip(i + 1));
        }
        let ghost prev_lines = segs.deep_view() + seq![
            content@.subrange(start as int, i as int) + spec_lines(content@.skip(i as int))[0],
        ] + spec_lines(content@.skip(i as int)).skip(1);
        let c = content.get_char(i);
        if c == '\n' {
            proof {
                assert(spec_lines(content@.skip(i as int)) =~~= seq![Seq::<char>::empty()]
                    + spec_lines(content@.skip(i + 1)));
            }
            let seg = content.substring_char(start, i).to_owned();
            let ghost old_segs = segs.deep_view();
            segs.push(seg);
            proof {
                assert(segs.deep_view() =~= old_segs + seq![
                    content@.subrange(start as int, i as int),
                ]);
            }
            start = i + 1;
            i = i + 1;
            proof {
                let suf = spec_lines(content@.skip(i as int));
                assert(content@.subrange(start as int, i as int) =~= Seq::<char>::empty());
                assert(segs.deep_view() + seq![
                    content@.subrange(start as int, i as int) + suf[0],
                ] + suf.skip(1) =~~= prev_lines);
            }
        } else {
            proof {
                let rest = spec_lines(content@.skip(i + 1));
                assert(spec_lines(content@.skip(i as int)) =~~= seq![
                    seq![content@[i as int]] + rest[0],
                ] + rest.skip(1));
                assert((seq![seq![content@[i as int]] + rest[0]] + rest.skip(1)).skip(1) =~~=
                    rest.skip(1));
            }
            i = i + 1;
            proof {
                let rest = spec_lines(content@.skip(i as int));
                assert(content@.subrange(start as int, i as int) =~= content@.subrange(
                    start as int,
                    i - 1,
                ) + seq![content@[i - 1]]);
                assert(segs.deep_view() + seq![
                    content@.subrange(start as int, i as int) + rest[0],
                ] + rest.skip(1) =~~= prev_lines);
            }
        }
    }
    proof {
        assert(content@.skip(n as int) =~= Seq::<char>::empty());
        assert(spec_lines(content@) =~~= segs.deep_view() + seq![
            content@.subrange(start as int, n as int),
        ]);
        assert(spec_lines(content@).last() == content@.subrange(start as int, n as int));
        assert(spec_lines(content@).drop_last() =~~= segs.deep_view());
    }
    if start < n {
        let seg = content.substring_char(start, n).to_owned();
        segs.push(seg);
        proof {
            assert(segs.deep_view() =~~= spec_whitelist_lines(content@));
        }
    } else {
        proof {
            assert(spec_lines(content@).last().len() == 0);
            assert(segs.deep_view() =~~= spec_whitelist_lines(content@));
        }
    }
    proof {
        assert(segs.deep_view() == spec_whitelist_lines(content@));
    }
    segs
}

/// The whitelist: the users read from the whitelist text, in file order,
/// and the naming context they belong to.
pub struct Whitelist {
    pub whitelisted: Vec<User>,
    pub dn: String,
}

/// The mathematical shape of a whitelist.
#[verifier::ext_equal]
pub ghost struct SpecWhitelist {
    pub whitelisted: Seq<SpecUser>,
    pub dn: Seq<char>,
}

impl View for Whitelist {
    type V = SpecWhitelist;

    open spec fn view(&self) -> SpecWhitelist {
        SpecWhitelist { whitelisted: self.whitelisted.deep_view(), dn: self.dn@ }
    }
}

impl Whitelist {
    /// An empty whitelist.
    pub fn new() -> (r: Whitelist)
        ensures
            r@.whitelisted.len() == 0,
            r@.dn.len() == 0,
    {
        Whitelist { whitelisted: Vec::new(), dn: String::new() }
    }

    /// The whitelist read from the text of a whitelist file: one username
    /// per line, the 0-based line index as the numeric id.
    pub fn from_content(content: &str, dn: String) -> (r: Whitelist)
        ensures
            r@.whitelisted == spec_users_of(content@),
            r@.dn == dn@,
    {
        let lines = split_whitelist_lines(content);
        let mut users: Vec<User> = Vec::new();
        let n = lines.len();
        let mut i: usize = 0;
        while i < n
            invariant
                i <= n,
                n == lines.len(),
                lines.deep_view() == spec_whitelist_lines(content@),
                users.deep_view() =~= spec_users_of(content@).take(i as int),
            decreases n - i,
        {
            users.push(User { username: lines[i].clone(), uid: i as u64 });
            i += 1;
            proof {
                assert(users.deep_view() =~= spec_users_of(content@).take(i as int));
            }
        }
        proof {
            assert(spec_users_of(content@).take(n as int) =~= spec_users_of(content@));
        }
        Whitelist { whitelisted: users, dn }
    }
}

/// The directory manager: the naming context, the organizational unit, the
/// derived users DN, the user table, and the three static attribute
/// templates.
pub struct ObjectManager {
    pub dn: String,
    pub ou: String,
    pub users_dn: String,
    pub dynamic_objects: Vec<User>,
    pub base_attrs: Vec<LdapPartialAttribute>,
    pub dn_attrs: Vec<LdapPartialAttribute>,
    pub ou_attrs: Vec<LdapPartialAttribute>,
}

/// The mathematical shape of the directory manager.
#[verifier::ext_equal]
pub ghost struct SpecManager {
    pub dn: Seq<char>,
    pub ou: Seq<char>,
    pub users_dn: Seq<char>,
    pub users: Seq<SpecUser>,
    pub base_attrs: Seq<SpecAttr>,
    pub dn_attrs: Seq<SpecAttr>,
    pub ou_attrs: Seq<SpecAttr>,
}

impl View for ObjectManager {
    type V = SpecManager;

    open spec fn view(&self) -> SpecManager {
        SpecManager {
            dn: self.dn@,
            ou: self.ou@,
            users_dn: self.users_dn@,
            users: self.dynamic_objects.deep_view(),
            base_attrs: self.base_attrs.deep_view(),
            dn_attrs: self.dn_attrs.deep_view(),
            ou_attrs: self.ou_attrs.deep_view(),
        }
    }
}

/// The root DSE attribute template: object classes, the naming context, the
/// subschema pointer, the protocol version and the vendor data.
pub open spec fn spec_base_attrs(dn: Seq<char>) -> Seq<SpecAttr> {
    seq![
        SpecAttr { atype: "objectClass"@, vals: seq!["RutheniumLDAPRootDSE"@, "top"@] },
        SpecAttr { atype: "namingContexts"@, vals: seq![dn] },
        SpecAttr { atype: "subschemaSubentry"@, vals: seq!["cn=Subschema"@] },
        SpecAttr { atype: "supportedLDAPVersion"@, vals: seq!["3"@] },
        SpecAttr { atype: "vendorName"@, vals: seq!["github.com/aaryswastaken"@] },
        SpecAttr { atype: "vendorVersion"@, vals: seq!["1"@] },
    ]
}

/// The domain entry attribute template: object classes and the first RDN
/// value of the naming context as `dc`.
pub open spec fn spec_dn_attrs(dn: Seq<char>) -> Seq<SpecAttr> {
    seq![
        SpecAttr { atype: "objectClass"@, vals: seq!["dcObject"@, "top"@, "organization"@] },
        SpecAttr { atype: "dc"@, vals: seq![spec_first_rdn_value(dn)] },
    ]
}

/// The organizational-unit entry attribute template.
pub open spec fn spec_ou_attrs(ou: Seq<char>) -> Seq<SpecAttr> {
    seq![
        SpecAttr { atype: "objectClass"@, vals: seq!["organizationalUnit"@] },
        SpecAttr { atype: "ou"@, vals: seq![ou] },
    ]
}

/// Well-formedness of the manager: the users DN is derived from the
/// organizational unit and the naming context, the naming context is a
/// non-empty DN, and the templates are the canonical ones.
pub open spec fn spec_manager_wf(m: SpecManager) -> bool {
    &&& m.users_dn == spec_users_dn(m.ou, m.dn)
    &&& m.dn.len() > 0
    &&& m.base_attrs == spec_base_attrs(m.dn)
    &&& m.dn_attrs == spec_dn_attrs(m.dn)
    &&& m.ou_attrs == spec_ou_attrs(m.ou)
}

/// The DN under which the manager serves a user.
pub open spec fn spec_dn_of_user(m: SpecManager, u: SpecUser) -> Seq<char> {
    spec_user_dn(u.username, m.users_dn)
}

/// The entry the manager serves for a user: its DN under the users DN and
/// the synthesized user attributes.
pub open spec fn spec_user_entry_in(m: SpecManager, u: SpecUser) -> SpecEntry {
    SpecEntry { dn: spec_dn_of_user(m, u), attributes: spec_user_attrs(u) }
}

/// The root DSE entry: the empty DN and the root template.
pub open spec fn spec_root_dse(m: SpecManager) -> SpecEntry {
    SpecEntry { dn: Seq::empty(), attributes: m.base_attrs }
}

/// The domain entry: the naming context and the domain template.
pub open spec fn spec_domain_entry(m: SpecManager) -> SpecEntry {
    SpecEntry { dn: m.dn, attributes: m.dn_attrs }
}

/// The organizational-unit entry: the users DN and the unit template.
pub open spec fn spec_ou_entry(m: SpecManager) -> SpecEntry {
    SpecEntry { dn: m.users_dn, attributes: m.ou_attrs }
}

/// The first user in `users` whose DN under `users_dn` is exactly `d`.
pub open spec fn spec_find_user_from(
    users: Seq<SpecUser>,
    users_dn: Seq<char>,
    d: Seq<char>,
) -> Option<SpecUser>
    decreases users.len(),
{
    if users.len() == 0 {
        None
    } else if spec_user_dn(users[0].username, users_dn) == d {
        Some(users[0])
    } else {
        spec_find_user_from(users.skip(1), users_dn, d)
    }
}

/// The first user the manager serves under DN `d`, if any.
pub open spec fn spec_find_user(m: SpecManager, d: Seq<char>) -> Option<SpecUser> {
    spec_find_user_from(m.users, m.users_dn, d)
}

/// When found, the user is one of the table and its DN is the one asked
/// for; when not, no user of the table has that DN.
pub proof fn lemma_find_user_from_ok(users: Seq<SpecUser>, users_dn: Seq<char>, d: Seq<char>)
    ensures
        match spec_find_user_from(users, users_dn, d) {
            Some(u) => users.contains(u) && spec_user_dn(u.username, users_dn) == d,
            None => forall|i: int|
                0 <= i < users.len() ==> spec_user_dn(#[trigger] users[i].username, users_dn) != d,
        },
    decreases users.len(),
{
    if users.len() > 0 && spec_user_dn(users[0].username, users_dn) != d {
        lemma_find_user_from_ok(users.skip(1), users_dn, d);
        match spec_find_user_from(users.skip(1), users_dn, d) {
            Some(u) => {
                assert(users.skip(1).contains(u));
                let i = choose|i: int| 0 <= i < users.skip(1).len() && users.skip(1)[i] == u;
                assert(users[i + 1] == u);
            },
            None => {
                assert forall|i: int| 0 <= i < users.len() implies spec_user_dn(
                    #[trigger] users[i].username,
                    users_dn,
                ) != d by {
                    if i > 0 {
                        assert(users.skip(1)[i - 1] == users[i]);
                    }
                }
            },
        }
    }
}

impl ObjectManager {
    /// The manager is well formed.
    pub open spec fn wf(&self) -> bool {
        spec_manager_wf(self@)
    }

    /// A manager for naming context `dn` and organizational unit `ou`,
    /// with an empty user table.
    pub fn new(dn: String, ou: String) -> (r: ObjectManager)
        requires
            dn@.len() > 0,
        ensures
            r.wf(),
            r@.dn == dn@,
            r@.ou == ou@,
            r@.users.len() == 0,
    {
        let users_dn = users_dn_of(ou.as_str(), dn.as_str());
        let dc = first_rdn_value(dn.as_str());
        let base_attrs = vec![
            attr_of("objectClass", vec!["RutheniumLDAPRootDSE".to_owned(), "top".to_owned()]),
            attr_of("namingContexts", vec![dn.clone()]),
            attr_of("subschemaSubentry", vec!["cn=Subschema".to_owned()]),
            attr_of("supportedLDAPVersion", vec!["3".to_owned()]),
            attr_of("vendorName", vec!["github.com/aaryswastaken".to_owned()]),
            attr_of("vendorVersion", vec!["1".to_owned()]),
        ];
        let dn_attrs = vec![
            attr_of(
                "objectClass",
                vec!["dcObject".to_owned(), "top".to_owned(), "organization".to_owned()],
            ),
            attr_of("dc", vec![dc]),
        ];
        let ou_attrs = vec![
            attr_of("objectClass", vec!["organizationalUnit".to_owned()]),
            attr_of("ou", vec![ou.clone()]),
        ];
        let r = ObjectManager {
            dn,
            ou,
            users_dn,
            dynamic_objects: Vec::new(),
            base_attrs,
            dn_attrs,
            ou_attrs,
        };
        proof {
            assert(r@.base_attrs =~~= spec_base_attrs(r@.dn));
            assert(r@.dn_attrs =~~= spec_dn_attrs(r@.dn));
            assert(r@.ou_attrs =~~= spec_ou_attrs(r@.ou));
        }
        r
    }

    /// A manager whose user table is read from the text of a whitelist
    /// file: one username per line, the line index as the numeric id.
    pub fn initialise(content: &str, dc: String, ou: String) -> (r: ObjectManager)
        requires
            dc@.len() > 0,
        ensures
            r.wf(),
            r@.dn == dc@,
            r@.ou == ou@,
            r@.users == spec_users_of(content@),
    {
        let mut instance = ObjectManager::new(dc.clone(), ou);
        instance.dynamic_objects = Whitelist::from_content(content, dc).whitelisted;
        instance
    }

    /// The entry served for user `u`.
    pub fn user_entry(&self, u: &User) -> (r: LdapSearchResultEntry)
        ensures
            r@ == spec_user_entry_in(self@, u@),
    {
        let r = LdapSearchResultEntry {
            dn: user_dn_of(u.username.as_str(), self.users_dn.as_str()),
            attributes: user_attrs(u),
        };
        proof {
            assert(r@ =~= spec_user_entry_in(self@, u@));
        }
        r
    }

    /// The root DSE entry.
    pub fn root_dse_entry(&self) -> (r: LdapSearchResultEntry)
        ensures
            r@ == spec_root_dse(self@),
    {
        let r = LdapSearchResultEntry {
            dn: String::new(),
            attributes: copy_attrs(&self.base_attrs),
        };
        proof {
            assert(r@ =~= spec_root_dse(self@));
        }
        r
    }

    /// The domain entry at the naming context.
    pub fn domain_entry(&self) -> (r: LdapSearchResultEntry)
        ensures
            r@ == spec_domain_entry(self@),
    {
        let r = LdapSearchResultEntry {
            dn: self.dn.clone(),
            attributes: copy_attrs(&self.dn_attrs),
        };
        proof {
            assert(r@ =~= spec_domain_entry(self@));
        }
        r
    }

    /// The organizational-unit entry.
    pub fn ou_entry(&self) -> (r: LdapSearchResultEntry)
        ensures
            r@ == spec_ou_entry(self@),
    {
        let r = LdapSearchResultEntry {
            dn: self.users_dn.clone(),
            attributes: copy_attrs(&self.ou_attrs),
        };
        proof {
            assert(r@ =~= spec_ou_entry(self@));
        }
        r
    }

    /// The three static entries, root DSE first, then the domain entry,
    /// then the organizational unit.
    pub fn static_entries(&self) -> (r: Vec<LdapSearchResultEntry>)
        ensures
            r.deep_view() =~= seq![
                spec_root_dse(self@),
                spec_domain_entry(self@),
                spec_ou_entry(self@),
            ],
    {
        let r = vec![self.root_dse_entry(), self.domain_entry(), self.ou_entry()];
        proof {
            assert(r.deep_view() =~= seq![
                spec_root_dse(self@),
                spec_domain_entry(self@),
                spec_ou_entry(self@),
            ]);
        }
        r
    }

    /// The entries of every user of the table, in table order.
    pub fn user_entries(&self) -> (r: Vec<LdapSearchResultEntry>)
        ensures
            r.deep_view() =~= Seq::new(
                self@.users.len(),
                |i: int| spec_user_entry_in(self@, self@.users[i]),
            ),
    {
        let mut out: Vec<LdapSearchResultEntry> = Vec::new();
        let n = self.dynamic_objects.len();
        let mut i: usize = 0;
        while i < n
            invariant
                i <= n,
                n == self.dynamic_objects.len(),
                out.deep_view().len() == i,
                forall|j: int|
                    0 <= j < i ==> out.deep_view()[j] == spec_user_entry_in(
                        self@,
                        self@.users[j],
                    ),
            decreases n - i,
        {
            let ghost old_deep = out.deep_view();
            out.push(self.user_entry(&self.dynamic_objects[i]));
            proof {
                assert(out.deep_view() =~= old_deep.push(
                    spec_user_entry_in(self@, self@.users[i as int]),
                ));
            }
            i += 1;
        }
        out
    }

    /// Every user entry wrapped as a search result message for `lsr`.
    pub fn get_all_ldap_entries(&self, lsr: &SearchRequest) -> (r: Vec<LdapMsg>)
        ensures
            r.deep_view() =~= Seq::new(
                self@.users.len(),
                |i: int| spec_entry_msg(lsr.msgid, spec_user_entry_in(self@, self@.users[i])),
            ),
    {
        let mut out: Vec<LdapMsg> = Vec::new();
        let n = self.dynamic_objects.len();
        let mut i: usize = 0;
        while i < n
            invariant
                i <= n,
                n == self.dynamic_objects.len(),
                out.deep_view().len() == i,
                forall|j: int|
                    0 <= j < i ==> out.deep_view()[j] == spec_entry_msg(
                        lsr.msgid,
                        spec_user_entry_in(self@, self@.users[j]),
                    ),
            decreases n - i,
        {
            let ghost old_deep = out.deep_view();
            out.push(lsr.gen_result_entry(self.user_entry(&self.dynamic_objects[i])));
            proof {
                assert(out.deep_view() =~= old_deep.push(
                    spec_entry_msg(lsr.msgid, spec_user_entry_in(self@, self@.users[i as int])),
                ));
            }
            i += 1;
        }
        out
    }

    /// The first user of the table whose DN is exactly `dn`, if any.
    pub fn fetch_user_from_dn(&self, dn: &str) -> (r: Option<User>)
        ensures
            r.deep_view() == spec_find_user(self@, dn@),
    {
        let n = self.dynamic_objects.len();
        let mut i: usize = 0;
        proof {
            assert(self@.users.skip(0) =~= self@.users);
        }
        while i < n
            invariant
                i <= n,
                n == self@.users.len(),
                spec_find_user(self@, dn@) == spec_find_user_from(
                    self@.users.skip(i as int),
                    self@.users_dn,
                    dn@,
                ),
            decreases n - i,
        {
            proof {
                assert(self@.users.skip(i as int)[0] == self@.users[i as int]);
                assert(self@.users.skip(i as int).skip(1) =~= self@.users.skip(i + 1));
            }
            let u = &self.dynamic_objects[i];
            let d = user_dn_of(u.username.as_str(), self.users_dn.as_str());
            if str_eq(d.as_str(), dn) {
                let r = Some(User { username: u.username.clone(), uid: u.uid });
                proof {
                    assert(spec_find_user(self@, dn@) == Some(self@.users[i as int]));
                    assert(r.deep_view() == Some(self@.users[i as int]));
                }
                return r;
            }
            i += 1;
        }
        proof {
            assert(self@.users.skip(n as int) =~= Seq::<SpecUser>::empty());
        }
        None
    }

    /// The entry at exactly `dn`: one of the three static entries or a
    /// user entry, if any carries that DN.
    pub fn find_by_dn(&self, dn: &str) -> (r: Option<LdapSearchResultEntry>)
        ensures
            match r {
                Some(e) => spec_find_by_dn(self@, dn@) == Some(e@),
                None => spec_find_by_dn(self@, dn@) is None,
            },
    {
        if dn.is_empty() {
            Some(self.root_dse_entry())
        } else if str_eq(dn, self.dn.as_str()) {
            Some(self.domain_entry())
        } else if str_eq(dn, self.users_dn.as_str()) {
            Some(self.ou_entry())
        } else {
            match self.fetch_user_from_dn(dn) {
                Some(u) => Some(self.user_entry(&u)),
                None => None,
            }
        }
    }
}

/// The entry served at exactly `d`: the root DSE for the empty DN, the
/// domain entry at the naming context, the unit entry at the users DN, and
/// otherwise the entry of the first user with that DN.
pub open spec fn spec_find_by_dn(m: SpecManager, d: Seq<char>) -> Option<SpecEntry> {
    if d.len() == 0 {
        Some(spec_root_dse(m))
    } else if d == m.dn {
        Some(spec_domain_entry(m))
    } else if d == m.users_dn {
        Some(spec_ou_entry(m))
    } else {
        match spec_find_user(m, d) {
            Some(u) => Some(spec_user_entry_in(m, u)),
            None => None,
        }
    }
}


/// Which attribute records of a user entry carry each well-known name.
proof fn lemma_user_attr_names(u: SpecUser, name: Seq<char>)
    requires
        name == "cn"@ || name == "uid"@ || name == "uidNumber"@ || name == "gidNumber"@,
    ensures
        forall|i: int|
            0 <= i < spec_user_attrs(u).len() ==> (attr_matches(
                #[trigger] spec_user_attrs(u)[i],
                name,
            ) <==> spec_user_attrs(u)[i].atype == name),
{
    reveal_strlit("objectClass");
    reveal_strlit("cn");
    reveal_strlit("gidNumber");
    reveal_strlit("uid");
    reveal_strlit("uidNumber");
    let names = seq!["objectClass"@, "cn"@, "gidNumber"@, "uid"@, "uidNumber"@];
    assert forall|i: int, j: int|
        0 <= i < 5 && 0 <= j < 5 && names[i].len() == names[j].len() && i != j implies seq_lower(
        names[i],
    ) != seq_lower(names[j]) by {
        assert(seq_lower(names[i])[0] == lower_char(names[i][0]));
        assert(seq_lower(names[j])[0] == lower_char(names[j][0]));
    }
    assert forall|i: int|
        0 <= i < spec_user_attrs(u).len() implies (attr_matches(
        #[trigger] spec_user_attrs(u)[i],
        name,
    ) <==> spec_user_attrs(u)[i].atype == name) by {
        let a = spec_user_attrs(u)[i].atype;
        assert(seq_lower(a).len() == a.len());
        assert(seq_lower(name).len() == name.len());
        if a.len() == name.len() && a != name {
            assert(seq_lower(a)[0] == lower_char(a[0]));
            assert(seq_lower(name)[0] == lower_char(name[0]));
        }
    }
}

/// The values a user entry carries under each well-known attribute name:
/// `cn` and `uid` both hold exactly the username, and `uidNumber` and
/// `gidNumber` both hold exactly the decimal line index.
pub proof fn lemma_user_entry_fields(u: SpecUser, ou: Seq<char>, dn: Seq<char>)
    ensures
        spec_get_attr(spec_user_entry(u, ou, dn), "cn"@) =~= seq![u.username],
        spec_get_attr(spec_user_entry(u, ou, dn), "uid"@) =~= seq![u.username],
        spec_get_attr(spec_user_entry(u, ou, dn), "uidNumber"@) =~= seq![
            crate::strutil::spec_u64_digits(u.uid as int),
        ],
        spec_get_attr(spec_user_entry(u, ou, dn), "gidNumber"@) =~= seq![
            crate::strutil::spec_u64_digits(u.uid as int),
        ],
{
    reveal_with_fuel(spec_get_attr_from, 7);
    let attrs = spec_user_attrs(u);
    assert(attrs.len() == 5);
    assert(attrs.drop_last() =~= seq![attrs[0], attrs[1], attrs[2], attrs[3]]);
    assert(attrs.drop_last().drop_last() =~= seq![attrs[0], attrs[1], attrs[2]]);
    assert(attrs.drop_last().drop_last().drop_last() =~= seq![attrs[0], attrs[1]]);
    assert(attrs.drop_last().drop_last().drop_last().drop_last() =~= seq![attrs[0]]);
    assert(seq![attrs[0]].drop_last() =~= Seq::<SpecAttr>::empty());
    reveal_strlit("objectClass");
    reveal_strlit("cn");
    reveal_strlit("gidNumber");
    reveal_strlit("uid");
    reveal_strlit("uidNumber");
    lemma_user_attr_names(u, "cn"@);
    lemma_user_attr_names(u, "uid"@);
    lemma_user_attr_names(u, "uidNumber"@);
    lemma_user_attr_names(u, "gidNumber"@);
    assert(attrs[0].atype != "cn"@ && attrs[0].atype != "uid"@ && attrs[0].atype != "uidNumber"@
        && attrs[0].atype != "gidNumber"@) by {
        assert(attrs[0].atype.len() == 11);
    }
    assert("gidNumber"@[0] == 'g' && "uidNumber"@[0] == 'u');
    assert("gidNumber"@ != "uidNumber"@);
    assert("cn"@.len() == 2 && "uid"@.len() == 3 && "uidNumber"@.len() == 9
        && "gidNumber"@.len() == 9);
    assert(spec_get_attr(spec_user_entry(u, ou, dn), "cn"@) =~= seq![u.username]);
    assert(spec_get_attr(spec_user_entry(u, ou, dn), "uid"@) =~= seq![u.username]);
    assert(spec_get_attr(spec_user_entry(u, ou, dn), "uidNumber"@) =~= seq![
        crate::strutil::spec_u64_digits(u.uid as int),
    ]);
    assert(spec_get_attr(spec_user_entry(u, ou, dn), "gidNumber"@) =~= seq![
        crate::strutil::spec_u64_digits(u.uid as int),
    ]);
}

/// The numeric id of each user of a whitelist text is its 0-based line
/// index.
pub proof fn lemma_users_of_uid(s: Seq<char>, i: int)
    requires
        0 <= i < spec_users_of(s).len(),
    ensures
        spec_users_of(s)[i].uid == i as u64,
{
}

/// User lookup by DN is injective on the generated DNs: two different DNs
/// that both resolve resolve to different users.
pub proof fn lemma_find_user_injective(m: SpecManager, d1: Seq<char>, d2: Seq<char>)
    requires
        spec_find_user(m, d1) is Some,
        spec_find_user(m, d2) is Some,
        d1 != d2,
    ensures
        spec_find_user(m, d1) != spec_find_user(m, d2),
{
    lemma_find_user_from_ok(m.users, m.users_dn, d1);
    lemma_find_user_from_ok(m.users, m.users_dn, d2);
}

/// Entry lookup by DN is injective on the generated user DNs: in a
/// well-formed directory, two different user DNs resolve to different
/// entries.
pub proof fn lemma_find_by_dn_injective(m: SpecManager, d1: Seq<char>, d2: Seq<char>)
    requires
        spec_manager_wf(m),
        spec_find_user(m, d1) is Some,
        spec_find_user(m, d2) is Some,
        d1 != d2,
    ensures
        spec_find_by_dn(m, d1) is Some,
        spec_find_by_dn(m, d2) is Some,
        spec_find_by_dn(m, d1) != spec_find_by_dn(m, d2),
{
    lemma_find_user_from_ok(m.users, m.users_dn, d1);
    lemma_find_user_from_ok(m.users, m.users_dn, d2);
    lemma_user_dn_not_static(m, d1);
    lemma_user_dn_not_static(m, d2);
}

/// In a well-formed directory a generated user DN is neither the root DSE,
/// nor the naming context, nor the users DN.
pub proof fn lemma_user_dn_not_static(m: SpecManager, d: Seq<char>)
    requires
        spec_manager_wf(m),
        spec_find_user(m, d) is Some,
    ensures
        d.len() > 0,
        d != m.dn,
        d != m.users_dn,
{
    lemma_find_user_from_ok(m.users, m.users_dn, d);
    let u = spec_find_user(m, d)->Some_0;
    crate::strutil::lemma_user_dn_len(u.username, m.users_dn);
    crate::strutil::lemma_users_dn_len(m.ou, m.dn);
}

} // verus!
