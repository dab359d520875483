use vstd::prelude::*;
use crate::errors::{ApiError, GatewayError, surfaces_as};
use crate::handlers::{Redirect, redirect_from_lookup, link_from_reply, cache_control_text};
use crate::model::{Link, LinkView, LinkTarget, ClickEvent, ClickView, CountedLinkStatistic, opt_text};
use crate::store::{LinkStore, StoreView, CLICK_CAPACITY, statistics_of};
use crate::urls::{validate_target, parsed_url};

verus! {

/// The store after a redirect on link `id` appended its click, if there was room.
pub open spec fn after_click(s: StoreView, c: ClickView) -> StoreView {
    if s.clicks.len() < CLICK_CAPACITY {
        StoreView { clicks: s.clicks.push(c), ..s }
    } else {
        s
    }
}

/// The store with link `id` pointing at `target_url`.
pub open spec fn with_link(s: StoreView, id: Seq<char>, target_url: Seq<char>) -> StoreView {
    StoreView { links: s.links.insert(id, target_url), ..s }
}

/// Where a redirect for `id` leads in the store `s`, if anywhere.
pub open spec fn redirect_target(s: StoreView, id: Seq<char>) -> Option<Seq<char>> {
    if s.links.contains_key(id) {
        Some(s.links[id])
    } else {
        None
    }
}

impl LinkStore {
    /// Creates the link `new_id` to the normalized `target`. A malformed URL is
    /// refused before the store is touched; a taken identifier fails as a store
    /// error, with no retry under another identifier.
    pub fn create_link(&mut self, target: &LinkTarget, new_id: String) -> (r: Result<Link, ApiError>)
        requires
            old(self).wf(),
        ensures
            final(self).wf(),
            parsed_url(target.target_url@) is None ==> r is Err && r->Err_0 is MalformedUrl
                && *final(self) == *old(self),
            parsed_url(target.target_url@) is Some && old(self)@.links.contains_key(new_id@) ==> r is Err
                && r->Err_0 is Store && *final(self) == *old(self),
            parsed_url(target.target_url@) is Some && !old(self)@.links.contains_key(new_id@) ==> {
                let u = parsed_url(target.target_url@)->Some_0;
                &&& r is Ok
                &&& r->Ok_0@ == (LinkView { id: new_id@, target_url: u })
                &&& final(self)@ == with_link(old(self)@, new_id@, u)
            },
    {
        let url = match validate_target(target) {
            Ok(u) => u,
            Err(e) => return Err(e),
        };
        let reply = self.insert_link(new_id, url);
        link_from_reply(reply)
    }

    /// Points link `link_id` at the normalized `target`. A malformed URL is
    /// refused before the store is touched; a missing link fails as a server
    /// error, not as not found.
    pub fn update_link(&mut self, link_id: &String, target: &LinkTarget) -> (r: Result<Link, ApiError>)
        requires
            old(self).wf(),
        ensures
            final(self).wf(),
            parsed_url(target.target_url@) is None ==> r is Err && r->Err_0 is MalformedUrl
                && *final(self) == *old(self),
            parsed_url(target.target_url@) is Some && !old(self)@.links.contains_key(link_id@) ==> r is Err
                && surfaces_as(GatewayError::NoRows, r->Err_0) && *final(self) == *old(self),
            parsed_url(target.target_url@) is Some && old(self)@.links.contains_key(link_id@) ==> {
                let u = parsed_url(target.target_url@)->Some_0;
                &&& r is Ok
                &&& r->Ok_0@ == (LinkView { id: link_id@, target_url: u })
                &&& final(self)@ == with_link(old(self)@, link_id@, u)
            },
    {
        let url = match validate_target(target) {
            Ok(u) => u,
            Err(e) => return Err(e),
        };
        let reply = self.update_target(link_id, url);
        link_from_reply(reply)
    }

    /// Answers a request for link `id`: a redirect to its target, or not found.
    /// A found link gets a click with the request's referer and user agent,
    /// recorded on a best-effort basis: a failed record leaves the answer as it is.
    pub fn redirect(&mut self, id: &String, referer: Option<String>, user_agent: Option<String>) -> (r:
        Result<Redirect, ApiError>)
        requires
            old(self).wf(),
        ensures
            final(self).wf(),
            r is Ok <==> redirect_target(old(self)@, id@) is Some,
            r is Ok ==> Some(r->Ok_0.location@) == redirect_target(old(self)@, id@)
                && r->Ok_0.cache_control@ == cache_control_text(),
            r is Ok ==> final(self)@ == after_click(
                old(self)@,
                ClickView { link_id: id@, referer: opt_text(referer), user_agent: opt_text(user_agent) },
            ),
            r is Err ==> r->Err_0 is NotFound && *final(self) == *old(self),
    {
        let found = self.find_link(id);
        let answer = redirect_from_lookup(Ok(found));
        if answer.is_ok() {
            let event = ClickEvent { link_id: id.clone(), referer, user_agent };
            let _ = self.record_click(event);
        }
        answer
    }

    /// The statistics of link `link_id`; a link without clicks has none, which
    /// is no failure.
    pub fn get_link_statistic(&self, link_id: &String) -> (r: Vec<CountedLinkStatistic>)
        requires
            self.wf(),
        ensures
            statistics_of(r@, self@.clicks, link_id@),
            r@.len() == 0 <==> forall|i: int|
                0 <= i < self@.clicks.len() ==> (#[trigger] self@.clicks[i]).link_id != link_id@,
    {
        self.count_clicks(link_id)
    }
}

} // verus!
