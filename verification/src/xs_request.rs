//! Xenstore operations that a publisher asks for.
use vstd::prelude::*;

verus! {

/// One xenstore operation.
#[derive(Debug)]
pub enum XsRequest {
    /// Write `value` at `key`.
    Write { key: String, value: String },
    /// Remove `key` and what is below it.
    Remove { key: String },
    /// Wait until `key` is changed once.
    WatchOnce { key: String },
    /// Write `1` at `control/feature-balloon`; the outcome must be handed back to the
    /// publisher, as some toolstacks forbid this write.
    WriteBalloon,
}

/// Abstract value of an `XsRequest`.
pub enum RequestView {
    Write(Seq<char>, Seq<char>),
    Remove(Seq<char>),
    WatchOnce(Seq<char>),
    WriteBalloon,
}

impl View for XsRequest {
    type V = RequestView;

    open spec fn view(&self) -> RequestView {
        match self {
            XsRequest::Write { key, value } => RequestView::Write(key@, value@),
            XsRequest::Remove { key } => RequestView::Remove(key@),
            XsRequest::WatchOnce { key } => RequestView::WatchOnce(key@),
            XsRequest::WriteBalloon => RequestView::WriteBalloon,
        }
    }
}

/// The abstract values of a sequence of requests.
pub open spec fn requests_view(s: Seq<XsRequest>) -> Seq<RequestView> {
    s.map_values(|r: XsRequest| r@)
}

/// What to do in xenstore for one metric: the operations, in order.  When
/// `best_effort` holds, a failing operation ends the plan without being an error;
/// otherwise it is an error of the publisher.
pub struct XsPlan {
    pub requests: Vec<XsRequest>,
    pub best_effort: bool,
}

/// Why a publisher refuses a metric.
#[derive(Debug, Clone, Copy, PartialEq, Eq, Structural)]
pub enum PublishError {
    /// The event names an interface that was never announced.
    UnknownInterface,
    /// An interface already holds as many addresses of that family as can be published.
    NoFreeSlot,
}

/// How a xenstore write failed.
#[derive(Debug, Clone, Copy, PartialEq, Eq, Structural)]
pub enum XsFailure {
    PermissionDenied,
    Other,
}

/// Appends a request.
pub fn push_request(out: &mut Vec<XsRequest>, r: XsRequest)
    ensures
        requests_view(final(out)@) == requests_view(old(out)@).push(r@),
{
    let ghost rv = r@;
    out.push(r);
    assert(requests_view(out@) =~= requests_view(old(out)@).push(rv));
}

/// Appends a write of `value` at `key`.
pub fn push_write(out: &mut Vec<XsRequest>, key: String, value: String)
    ensures
        requests_view(final(out)@) == requests_view(old(out)@).push(RequestView::Write(key@, value@)),
{
    push_request(out, XsRequest::Write { key, value });
}

/// Appends a removal of `key`.
pub fn push_remove(out: &mut Vec<XsRequest>, key: String)
    ensures
        requests_view(final(out)@) == requests_view(old(out)@).push(RequestView::Remove(key@)),
{
    push_request(out, XsRequest::Remove { key });
}

} // verus!
