//! The entry model: typed multi-valued attributes, directory entries, the
//! case-insensitive attribute lookup they expose, and attribute projection.
use vstd::prelude::*;

use crate::strutil::seq_lower;
use crate::strutil::str_eq;
use crate::strutil::str_eq_ci;

verus! {

/// One typed, multi-valued attribute of an entry. The type is compared
/// case-insensitively; the values are compared byte-exactly.
pub struct LdapPartialAttribute {
    pub atype: String,
    pub vals: Vec<String>,
}

/// The mathematical shape of an attribute.
#[verifier::ext_equal]
pub ghost struct SpecAttr {
    pub atype: Seq<char>,
    pub vals: Seq<Seq<char>>,
}

impl View for LdapPartialAttribute {
    type V = SpecAttr;

    open spec fn view(&self) -> SpecAttr {
        SpecAttr { atype: self.atype@, vals: self.vals.deep_view() }
    }
}

impl DeepView for LdapPartialAttribute {
    type V = SpecAttr;

    open spec fn deep_view(&self) -> SpecAttr {
        self.view()
    }
}

/// A directory entry: a distinguished name and its attributes.
pub struct LdapSearchResultEntry {
    pub dn: String,
    pub attributes: Vec<LdapPartialAttribute>,
}

/// The mathematical shape of an entry.
#[verifier::ext_equal]
pub ghost struct SpecEntry {
    pub dn: Seq<char>,
    pub attributes: Seq<SpecAttr>,
}

impl View for LdapSearchResultEntry {
    type V = SpecEntry;

    open spec fn view(&self) -> SpecEntry {
        SpecEntry { dn: self.dn@, attributes: self.attributes.deep_view() }
    }
}

impl DeepView for LdapSearchResultEntry {
    type V = SpecEntry;

    open spec fn deep_view(&self) -> SpecEntry {
        self.view()
    }
}

/// The attribute record `a` is of type `name`, compared case-insensitively.
pub open spec fn attr_matches(a: SpecAttr, name: Seq<char>) -> bool {
    seq_lower(a.atype) == seq_lower(name)
}

/// The entry has some attribute record of type `name` (case-insensitive).
pub open spec fn spec_has_attr(e: SpecEntry, name: Seq<char>) -> bool {
    exists|i: int| 0 <= i < e.attributes.len() && attr_matches(e.attributes[i], name)
}

/// All values of type `name` across the attribute records, concatenated in
/// record order.
pub open spec fn spec_get_attr_from(attrs: Seq<SpecAttr>, name: Seq<char>) -> Seq<Seq<char>>
    decreases attrs.len(),
{
    if attrs.len() == 0 {
        Seq::empty()
    } else {
        spec_get_attr_from(attrs.drop_last(), name) + (if attr_matches(attrs.last(), name) {
            attrs.last().vals
        } else {
            Seq::empty()
        })
    }
}

pub open spec fn spec_get_attr(e: SpecEntry, name: Seq<char>) -> Seq<Seq<char>> {
    spec_get_attr_from(e.attributes, name)
}

/// Case-insensitive presence test on an entry's attributes.
pub fn entry_has_attribute(e: &LdapSearchResultEntry, name: &str) -> (r: bool)
    ensures
        r == spec_has_attr(e@, name@),
{
    let n = e.attributes.len();
    let mut i: usize = 0;
    while i < n
        invariant
            i <= n,
            n == e.attributes.len(),
            forall|j: int| 0 <= j < i ==> !attr_matches(e@.attributes[j], name@),
        decreases n - i,
    {
        if str_eq_ci(e.attributes[i].atype.as_str(), name) {
            proof {
                assert(attr_matches(e@.attributes[i as int], name@));
            }
            return true;
        }
        i += 1;
    }
    false
}

/// Copy of a vector of strings, value for value.
pub fn copy_strings(v: &Vec<String>) -> (r: Vec<String>)
    ensures
        r@ == v@,
{
    let mut out: Vec<String> = Vec::new();
    let n = v.len();
    let mut i: usize = 0;
    while i < n
        invariant
            i <= n,
            n == v.len(),
            out@ =~= v@.take(i as int),
        decreases n - i,
    {
        out.push(v[i].clone());
        i += 1;
    }
    proof {
        assert(out@ =~= v@);
    }
    out
}

/// Copy of one attribute record.
pub fn copy_attr(a: &LdapPartialAttribute) -> (r: LdapPartialAttribute)
    ensures
        r@ == a@,
{
    LdapPartialAttribute { atype: a.atype.clone(), vals: copy_strings(&a.vals) }
}

/// Copy of an attribute list, record for record.
pub fn copy_attrs(v: &Vec<LdapPartialAttribute>) -> (r: Vec<LdapPartialAttribute>)
    ensures
        r.deep_view() == v.deep_view(),
{
    let mut out: Vec<LdapPartialAttribute> = Vec::new();
    let n = v.len();
    let mut i: usize = 0;
    while i < n
        invariant
            i <= n,
            n == v.len(),
            out@.len() == i,
            forall|j: int| 0 <= j < i ==> out@[j]@ == v@[j]@,
        decreases n - i,
    {
        out.push(copy_attr(&v[i]));
        i += 1;
    }
    proof {
        assert(out.deep_view() =~= v.deep_view());
    }
    out
}

/// Concatenated values of every record of type `name`, freshly copied.
pub fn entry_get_attribute(e: &LdapSearchResultEntry, name: &str) -> (r: Vec<String>)
    ensures
        r.deep_view() == spec_get_attr(e@, name@),
{
    let mut out: Vec<String> = Vec::new();
    let n = e.attributes.len();
    let mut i: usize = 0;
    while i < n
        invariant
            i <= n,
            n == e.attributes.len(),
            out.deep_view() =~= spec_get_attr_from(e@.attributes.take(i as int), name@),
        decreases n - i,
    {
        proof {
            assert(e@.attributes.take(i + 1).drop_last() =~= e@.attributes.take(i as int));
            assert(e@.attributes.take(i + 1).last() == e@.attributes[i as int]);
        }
        if str_eq_ci(e.attributes[i].atype.as_str(), name) {
            let mut more = copy_strings(&e.attributes[i].vals);
            let ghost prev = out.deep_view();
            out.append(&mut more);
            proof {
                assert(out.deep_view() =~= prev + e@.attributes[i as int].vals);
            }
        }
        i += 1;
        proof {
            assert(out.deep_view() =~= spec_get_attr_from(e@.attributes.take(i as int), name@));
        }
    }
    proof {
        assert(e@.attributes.take(n as int) =~= e@.attributes);
    }
    out
}

/// The request selects every attribute: it is empty or holds `"*"`.
pub open spec fn spec_select_all(req: Seq<Seq<char>>) -> bool {
    req.len() == 0 || req.contains("*"@)
}

/// The attribute type is named by the request (case-insensitive).
pub open spec fn spec_requested(req: Seq<Seq<char>>, a: SpecAttr) -> bool {
    exists|i: int| 0 <= i < req.len() && seq_lower(req[i]) == seq_lower(a.atype)
}

/// The records whose type the request names, in order.
pub open spec fn spec_select_attrs(req: Seq<Seq<char>>, attrs: Seq<SpecAttr>) -> Seq<SpecAttr>
    decreases attrs.len(),
{
    if attrs.len() == 0 {
        Seq::empty()
    } else {
        spec_select_attrs(req, attrs.drop_last()) + (if spec_requested(req, attrs.last()) {
            seq![attrs.last()]
        } else {
            Seq::empty()
        })
    }
}

/// Attribute projection: the requested attributes of a record list, where an
/// empty request or the special token `"*"` selects all of them.
pub open spec fn spec_project_attrs(req: Seq<Seq<char>>, attrs: Seq<SpecAttr>) -> Seq<SpecAttr> {
    if spec_select_all(req) {
        attrs
    } else {
        spec_select_attrs(req, attrs)
    }
}

fn contains_star(attrs: &Vec<String>) -> (r: bool)
    ensures
        r == attrs.deep_view().contains("*"@),
{
    let n = attrs.len();
    let mut i: usize = 0;
    while i < n
        invariant
            i <= n,
            n == attrs.len(),
            forall|j: int| 0 <= j < i ==> attrs.deep_view()[j] != "*"@,
        decreases n - i,
    {
        if str_eq(attrs[i].as_str(), "*") {
            proof {
                assert(attrs.deep_view()[i as int] == "*"@);
            }
            return true;
        }
        i += 1;
    }
    false
}

fn is_requested(attrs: &Vec<String>, a: &LdapPartialAttribute) -> (r: bool)
    ensures
        r == spec_requested(attrs.deep_view(), a@),
{
    let n = attrs.len();
    let mut i: usize = 0;
    while i < n
        invariant
            i <= n,
            n == attrs.len(),
            forall|j: int| 0 <= j < i
                ==> seq_lower(attrs.deep_view()[j]) != seq_lower(a@.atype),
        decreases n - i,
    {
        if str_eq_ci(attrs[i].as_str(), a.atype.as_str()) {
            proof {
                assert(seq_lower(attrs.deep_view()[i as int]) == seq_lower(a@.atype));
            }
            return true;
        }
        i += 1;
    }
    false
}

/// Projection of an attribute list through a request's attribute selection.
pub fn filter_attrs(attrs: &Vec<String>, scope: &Vec<LdapPartialAttribute>) -> (r: Vec<
    LdapPartialAttribute,
>)
    ensures
        r.deep_view() == spec_project_attrs(attrs.deep_view(), scope.deep_view()),
{
    if attrs.len() == 0 || contains_star(attrs) {
        return copy_attrs(scope);
    }
    let mut out: Vec<LdapPartialAttribute> = Vec::new();
    let n = scope.len();
    let mut i: usize = 0;
    while i < n
        invariant
            i <= n,
            n == scope.len(),
            out.deep_view() =~= spec_select_attrs(
                attrs.deep_view(),
                scope.deep_view().take(i as int),
            ),
        decreases n - i,
    {
        proof {
            assert(scope.deep_view().take(i + 1).drop_last() =~= scope.deep_view().take(i as int));
            assert(scope.deep_view().take(i + 1).last() == scope.deep_view()[i as int]);
        }
        if is_requested(attrs, &scope[i]) {
            out.push(copy_attr(&scope[i]));
        }
        i += 1;
        proof {
            assert(out.deep_view() =~= spec_select_attrs(
                attrs.deep_view(),
                scope.deep_view().take(i as int),
            ));
        }
    }
    proof {
        assert(scope.deep_view().take(n as int) =~= scope.deep_view());
    }
    out
}

/// Projection of a whole entry: the DN is kept, the attributes are projected.
pub open spec fn spec_project_entry(req: Seq<Seq<char>>, e: SpecEntry) -> SpecEntry {
    SpecEntry { dn: e.dn, attributes: spec_project_attrs(req, e.attributes) }
}

pub fn project_entry(attrs: &Vec<String>, e: &LdapSearchResultEntry) -> (r: LdapSearchResultEntry)
    ensures
        r@ == spec_project_entry(attrs.deep_view(), e@),
{
    let r = LdapSearchResultEntry {
        dn: e.dn.clone(),
        attributes: filter_attrs(attrs, &e.attributes),
    };
    proof {
        assert(r@ =~= spec_project_entry(attrs.deep_view(), e@));
    }
    r
}

/// Attribute lookup is case-insensitive on attribute names: an entry has an
/// attribute of name `n` exactly when it has one of the upper-cased and of
/// the lower-cased form of `n`.
pub proof fn lemma_has_attr_case_insensitive(e: SpecEntry, n: Seq<char>)
    ensures
        spec_has_attr(e, n) == spec_has_attr(e, crate::strutil::seq_upper(n)),
        spec_has_attr(e, n) == spec_has_attr(e, crate::strutil::seq_lower(n)),
{
    crate::strutil::lemma_seq_lower_case(n);
    assert forall|i: int| 0 <= i < e.attributes.len() implies (attr_matches(e.attributes[i], n)
        == attr_matches(e.attributes[i], crate::strutil::seq_upper(n))
        && attr_matches(e.attributes[i], n)
        == attr_matches(e.attributes[i], crate::strutil::seq_lower(n))) by {
    }
}

} // verus!
