//! Request methods and response statuses.
use vstd::prelude::*;

verus! {

/// A request method.
#[derive(Clone, Copy, Debug, PartialEq, Eq, Structural, Hash)]
pub enum Method {
    Acl,
    BaselineControl,
    Bind,
    Checkin,
    Checkout,
    Connect,
    Copy,
    Delete,
    Get,
    Head,
    Label,
    Link,
    Lock,
    Merge,
    MkActivity,
    MkCalendar,
    MkCol,
    MkRedirectRef,
    MkWorkspace,
    Move,
    Options,
    OrderPatch,
    Patch,
    Post,
    Pri,
    PropFind,
    PropPatch,
    Put,
    Query,
    Rebind,
    Report,
    Search,
    Trace,
    Unbind,
    Uncheckout,
    Unlink,
    Unlock,
    Update,
    UpdateRedirectRef,
    VersionControl,
}

impl Method {
    /// The methods whose defined semantics are read-only.
    pub open spec fn safe(self) -> bool {
        ||| self == Method::Get
        ||| self == Method::Head
        ||| self == Method::Options
        ||| self == Method::Pri
        ||| self == Method::PropFind
        ||| self == Method::Query
        ||| self == Method::Report
        ||| self == Method::Search
        ||| self == Method::Trace
    }

    /// The method as it stands in a request line.
    pub open spec fn token(self) -> Seq<char> {
        match self {
            Method::Acl => "ACL"@,
            Method::BaselineControl => "BASELINE-CONTROL"@,
            Method::Bind => "BIND"@,
            Method::Checkin => "CHECKIN"@,
            Method::Checkout => "CHECKOUT"@,
            Method::Connect => "CONNECT"@,
            Method::Copy => "COPY"@,
            Method::Delete => "DELETE"@,
            Method::Get => "GET"@,
            Method::Head => "HEAD"@,
            Method::Label => "LABEL"@,
            Method::Link => "LINK"@,
            Method::Lock => "LOCK"@,
            Method::Merge => "MERGE"@,
            Method::MkActivity => "MKACTIVITY"@,
            Method::MkCalendar => "MKCALENDAR"@,
            Method::MkCol => "MKCOL"@,
            Method::MkRedirectRef => "MKREDIRECTREF"@,
            Method::MkWorkspace => "MKWORKSPACE"@,
            Method::Move => "MOVE"@,
            Method::Options => "OPTIONS"@,
            Method::OrderPatch => "ORDERPATCH"@,
            Method::Patch => "PATCH"@,
            Method::Post => "POST"@,
            Method::Pri => "PRI"@,
            Method::PropFind => "PROPFIND"@,
            Method::PropPatch => "PROPPATCH"@,
            Method::Put => "PUT"@,
            Method::Query => "QUERY"@,
            Method::Rebind => "REBIND"@,
            Method::Report => "REPORT"@,
            Method::Search => "SEARCH"@,
            Method::Trace => "TRACE"@,
            Method::Unbind => "UNBIND"@,
            Method::Uncheckout => "UNCHECKOUT"@,
            Method::Unlink => "UNLINK"@,
            Method::Unlock => "UNLOCK"@,
            Method::Update => "UPDATE"@,
            Method::UpdateRedirectRef => "UPDATEREDIRECTREF"@,
            Method::VersionControl => "VERSION-CONTROL"@,
        }
    }

    /// Whether the method's defined semantics are read-only.
    pub fn is_safe(&self) -> (r: bool)
        ensures
            r == self.safe(),
    {
        matches!(
            self,
            Method::Get | Method::Head | Method::Options | Method::Pri | Method::PropFind
                | Method::Query | Method::Report | Method::Search | Method::Trace
        )
    }

    /// The method as it stands in a request line.
    pub fn as_str(&self) -> (r: &'static str)
        ensures
            r@ == self.token(),
    {
        match self {
            Method::Acl => "ACL",
            Method::BaselineControl => "BASELINE-CONTROL",
            Method::Bind => "BIND",
            Method::Checkin => "CHECKIN",
            Method::Checkout => "CHECKOUT",
            Method::Connect => "CONNECT",
            Method::Copy => "COPY",
            Method::Delete => "DELETE",
            Method::Get => "GET",
            Method::Head => "HEAD",
            Method::Label => "LABEL",
            Method::Link => "LINK",
            Method::Lock => "LOCK",
            Method::Merge => "MERGE",
            Method::MkActivity => "MKACTIVITY",
            Method::MkCalendar => "MKCALENDAR",
            Method::MkCol => "MKCOL",
            Method::MkRedirectRef => "MKREDIRECTREF",
            Method::MkWorkspace => "MKWORKSPACE",
            Method::Move => "MOVE",
            Method::Options => "OPTIONS",
            Method::OrderPatch => "ORDERPATCH",
            Method::Patch => "PATCH",
            Method::Post => "POST",
            Method::Pri => "PRI",
            Method::PropFind => "PROPFIND",
            Method::PropPatch => "PROPPATCH",
            Method::Put => "PUT",
            Method::Query => "QUERY",
            Method::Rebind => "REBIND",
            Method::Report => "REPORT",
            Method::Search => "SEARCH",
            Method::Trace => "TRACE",
            Method::Unbind => "UNBIND",
            Method::Uncheckout => "UNCHECKOUT",
            Method::Unlink => "UNLINK",
            Method::Unlock => "UNLOCK",
            Method::Update => "UPDATE",
            Method::UpdateRedirectRef => "UPDATEREDIRECTREF",
            Method::VersionControl => "VERSION-CONTROL",
        }
    }
}

/// A response status, by its code.
#[derive(Clone, Copy, Debug, PartialEq, Eq, Structural, Hash)]
pub struct Status {
    pub code: u16,
}

/// The status that says a representation has not changed.
pub const NOT_MODIFIED: u16 = 304;

impl Status {
    pub open spec fn success(self) -> bool {
        200 <= self.code < 300
    }

    pub open spec fn redirection(self) -> bool {
        300 <= self.code < 400
    }

    pub open spec fn server_error(self) -> bool {
        500 <= self.code < 600
    }

    pub fn new(code: u16) -> (r: Status)
        ensures
            r.code == code,
    {
        Status { code }
    }

    pub fn is_success(&self) -> (r: bool)
        ensures
            r == self.success(),
    {
        200 <= self.code && self.code < 300
    }

    pub fn is_redirection(&self) -> (r: bool)
        ensures
            r == self.redirection(),
    {
        300 <= self.code && self.code < 400
    }

    pub fn is_server_error(&self) -> (r: bool)
        ensures
            r == self.server_error(),
    {
        500 <= self.code && self.code < 600
    }
}

} // verus!
