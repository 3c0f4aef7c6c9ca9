//! The request and response values the dispatcher consumes and produces:
//! search and bind requests, result codes, and response messages.
use vstd::prelude::*;

use crate::entry::LdapSearchResultEntry;
use crate::entry::SpecEntry;
use crate::filter::LdapFilter;

verus! {

/// The LDAP result codes the dispatcher uses.
#[derive(Clone, Copy, Debug, PartialEq, Eq, Structural)]
pub enum LdapResultCode {
    Success,
    OperationsError,
    NoSuchObject,
    InvalidCredentials,
    UnwillingToPerform,
    Other,
}

/// The three search scopes.
#[derive(Clone, Copy, Debug, PartialEq, Eq, Structural)]
pub enum LdapSearchScope {
    Base,
    OneLevel,
    Subtree,
}

/// A decoded search request.
pub struct SearchRequest {
    pub msgid: i32,
    pub base: String,
    pub scope: LdapSearchScope,
    pub filter: LdapFilter,
    pub attrs: Vec<String>,
}

/// The mathematical shape of a search request.
#[verifier::ext_equal]
pub ghost struct SpecSearchRequest {
    pub msgid: i32,
    pub base: Seq<char>,
    pub scope: LdapSearchScope,
    pub filter: LdapFilter,
    pub attrs: Seq<Seq<char>>,
}

impl View for SearchRequest {
    type V = SpecSearchRequest;

    open spec fn view(&self) -> SpecSearchRequest {
        SpecSearchRequest {
            msgid: self.msgid,
            base: self.base@,
            scope: self.scope,
            filter: self.filter,
            attrs: self.attrs.deep_view(),
        }
    }
}

/// A decoded simple bind request.
pub struct SimpleBindRequest {
    pub msgid: i32,
    pub dn: String,
    pub pw: String,
}

/// The mathematical shape of a simple bind request.
#[verifier::ext_equal]
pub ghost struct SpecBindRequest {
    pub msgid: i32,
    pub dn: Seq<char>,
    pub pw: Seq<char>,
}

impl View for SimpleBindRequest {
    type V = SpecBindRequest;

    open spec fn view(&self) -> SpecBindRequest {
        SpecBindRequest { msgid: self.msgid, dn: self.dn@, pw: self.pw@ }
    }
}

/// A Whoami extended request.
pub struct WhoamiRequest {
    pub msgid: i32,
}

/// A response operation: a search result entry, the closing result of a
/// search, a bind response, or a Whoami response.
pub enum LdapOp {
    SearchResultEntry(LdapSearchResultEntry),
    SearchResultDone(LdapResultCode, String),
    BindResponse(LdapResultCode, String),
    WhoamiResponse(String),
}

/// The mathematical shape of a response operation.
#[verifier::ext_equal]
pub ghost enum SpecOp {
    SearchResultEntry(SpecEntry),
    SearchResultDone(LdapResultCode, Seq<char>),
    BindResponse(LdapResultCode, Seq<char>),
    WhoamiResponse(Seq<char>),
}

/// A response message: the id of the request it answers and the operation.
pub struct LdapMsg {
    pub msgid: i32,
    pub op: LdapOp,
}

/// The mathematical shape of a response message.
#[verifier::ext_equal]
pub ghost struct SpecMsg {
    pub msgid: i32,
    pub op: SpecOp,
}

impl View for LdapOp {
    type V = SpecOp;

    open spec fn view(&self) -> SpecOp {
        match self {
            LdapOp::SearchResultEntry(e) => SpecOp::SearchResultEntry(e@),
            LdapOp::SearchResultDone(rc, m) => SpecOp::SearchResultDone(*rc, m@),
            LdapOp::BindResponse(rc, m) => SpecOp::BindResponse(*rc, m@),
            LdapOp::WhoamiResponse(s) => SpecOp::WhoamiResponse(s@),
        }
    }
}

impl View for LdapMsg {
    type V = SpecMsg;

    open spec fn view(&self) -> SpecMsg {
        SpecMsg { msgid: self.msgid, op: self.op@ }
    }
}

impl DeepView for LdapMsg {
    type V = SpecMsg;

    open spec fn deep_view(&self) -> SpecMsg {
        self.view()
    }
}

/// The message that wraps `e` as a search result entry for request id
/// `msgid`.
pub open spec fn spec_entry_msg(msgid: i32, e: SpecEntry) -> SpecMsg {
    SpecMsg { msgid, op: SpecOp::SearchResultEntry(e) }
}

/// The message that closes the search for request id `msgid`.
pub open spec fn spec_done_msg(msgid: i32, rc: LdapResultCode, m: Seq<char>) -> SpecMsg {
    SpecMsg { msgid, op: SpecOp::SearchResultDone(rc, m) }
}

impl SearchRequest {
    /// A search result entry message answering this request.
    pub fn gen_result_entry(&self, entry: LdapSearchResultEntry) -> (r: LdapMsg)
        ensures
            r@ == spec_entry_msg(self.msgid, entry@),
    {
        LdapMsg { msgid: self.msgid, op: LdapOp::SearchResultEntry(entry) }
    }

    /// The successful closing message of a search response.
    pub fn gen_success(&self) -> (r: LdapMsg)
        ensures
            r@ == spec_done_msg(self.msgid, LdapResultCode::Success, ""@),
    {
        LdapMsg { msgid: self.msgid, op: LdapOp::SearchResultDone(LdapResultCode::Success, "".to_owned()) }
    }

    /// A failing closing message of a search response.
    pub fn gen_error(&self, rc: LdapResultCode, msg: String) -> (r: LdapMsg)
        ensures
            r@ == spec_done_msg(self.msgid, rc, msg@),
    {
        LdapMsg { msgid: self.msgid, op: LdapOp::SearchResultDone(rc, msg) }
    }
}

impl SimpleBindRequest {
    /// A successful bind response.
    pub fn gen_success(&self) -> (r: LdapMsg)
        ensures
            r@ == (SpecMsg {
                msgid: self.msgid,
                op: SpecOp::BindResponse(LdapResultCode::Success, ""@),
            }),
    {
        LdapMsg {
            msgid: self.msgid,
            op: LdapOp::BindResponse(LdapResultCode::Success, "".to_owned()),
        }
    }

    /// A bind response rejecting the credentials.
    pub fn gen_invalid_cred(&self) -> (r: LdapMsg)
        ensures
            r@ == (SpecMsg {
                msgid: self.msgid,
                op: SpecOp::BindResponse(LdapResultCode::InvalidCredentials, ""@),
            }),
    {
        LdapMsg {
            msgid: self.msgid,
            op: LdapOp::BindResponse(LdapResultCode::InvalidCredentials, "".to_owned()),
        }
    }
}

impl WhoamiRequest {
    /// A Whoami response carrying the authorization identity.
    pub fn gen_success(&self, authzid: String) -> (r: LdapMsg)
        ensures
            r@ == (SpecMsg { msgid: self.msgid, op: SpecOp::WhoamiResponse(authzid@) }),
    {
        LdapMsg { msgid: self.msgid, op: LdapOp::WhoamiResponse(authzid) }
    }
}

} // verus!
