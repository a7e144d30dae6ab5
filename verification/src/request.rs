//! Outbound notification requests.
//!
//! A request is an in-memory description — method, path, optional group-list
//! body — of one call against the mailing service.  The transport that
//! actually sends it lives outside the library.

use vstd::prelude::*;

verus! {

/// The HTTP method of a notification request.
#[derive(Clone, Copy, PartialEq, Eq, Structural, Debug)]
pub enum Method {
    Get,
    Post,
    Put,
}

/// One outbound request against the mailing service.
pub struct NotificationRequest {
    pub method: Method,
    pub path: String,
    /// The group list carried as the request body, for requests that
    /// re-submit a subscriber's groups.
    pub body: Option<Vec<String>>,
}

/// The mathematical shape of a notification request.
pub struct ReqView {
    pub method: Method,
    pub path: Seq<char>,
    pub body: Option<Seq<String>>,
}

impl View for NotificationRequest {
    type V = ReqView;

    open spec fn view(&self) -> ReqView {
        ReqView {
            method: self.method,
            path: self.path@,
            body: match self.body {
                Some(gs) => Some(gs@),
                None => None,
            },
        }
    }
}

/// The requests of a sequence, as mathematical shapes.
pub open spec fn reqs_view(s: Seq<NotificationRequest>) -> Seq<ReqView> {
    s.map_values(|q: NotificationRequest| q@)
}

/// The batches of a vector of request vectors, as mathematical shapes.
pub open spec fn batch_views(s: Seq<Vec<NotificationRequest>>) -> Seq<Seq<ReqView>> {
    s.map_values(|b: Vec<NotificationRequest>| reqs_view(b@))
}

/// The `groups[]=a&groups[]=b` query text of a label list, in order,
/// nothing for an empty list.
pub open spec fn groups_query(gs: Seq<String>) -> Seq<char>
    decreases gs.len(),
{
    if gs.len() == 0 {
        Seq::empty()
    } else if gs.len() == 1 {
        "groups[]="@ + gs[0]@
    } else {
        groups_query(gs.drop_last()) + "&groups[]="@ + gs.last()@
    }
}

/// Appends the repeated `groups[]` query parameters for a label list.
pub fn append_groups_query(path: &mut String, gs: &Vec<String>)
    ensures
        final(path)@ == old(path)@ + groups_query(gs@),
{
    let n = gs.len();
    let mut i: usize = 0;
    while i < n
        invariant
            i <= n,
            n == gs@.len(),
            path@ == old(path)@ + groups_query(gs@.take(i as int)),
        decreases n - i,
    {
        if i == 0 {
            path.append("groups[]=");
        } else {
            path.append("&groups[]=");
        }
        path.append(gs[i].as_str());
        proof {
            let pre = gs@.take(i as int);
            let post = gs@.take(i + 1 as int);
            assert(post.drop_last() =~= pre);
            assert(post.last() == gs@[i as int]);
            assert(path@ =~= old(path)@ + groups_query(post));
        }
        i = i + 1;
    }
    proof {
        assert(gs@.take(n as int) =~= gs@);
    }
}

} // verus!
