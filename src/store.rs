use vstd::prelude::*;
use crate::errors::GatewayError;
use crate::model::{Link, LinkView, ClickEvent, ClickView, CountedLinkStatistic, copy_text, same_text};

verus! {

/// The most click events the store holds: a count of them must fit in an `i64`.
pub const CLICK_CAPACITY: u64 = 0x7fff_ffff_ffff_ffff;

/// The targets of a sequence of links, by identifier; a later link wins.
pub open spec fn link_map(links: Seq<LinkView>) -> Map<Seq<char>, Seq<char>>
    decreases links.len(),
{
    if links.len() == 0 {
        Map::empty()
    } else {
        link_map(links.drop_last()).insert(links.last().id, links.last().target_url)
    }
}

pub open spec fn ids_unique(links: Seq<LinkView>) -> bool {
    forall|i: int, j: int|
        0 <= i < j < links.len() ==> #[trigger] links[i].id != #[trigger] links[j].id
}

/// Whether a click was on link `link_id` with the given referer and user agent.
pub open spec fn click_matches(
    c: ClickView,
    link_id: Seq<char>,
    referer: Option<Seq<char>>,
    user_agent: Option<Seq<char>>,
) -> bool {
    c.link_id == link_id && c.referer == referer && c.user_agent == user_agent
}

/// How many of `clicks` were on `link_id` with the given referer and user agent.
pub open spec fn clicks_for(
    clicks: Seq<ClickView>,
    link_id: Seq<char>,
    referer: Option<Seq<char>>,
    user_agent: Option<Seq<char>>,
) -> nat
    decreases clicks.len(),
{
    if clicks.len() == 0 {
        0
    } else {
        clicks_for(clicks.drop_last(), link_id, referer, user_agent) + if click_matches(
            clicks.last(),
            link_id,
            referer,
            user_agent,
        ) {
            1nat
        } else {
            0nat
        }
    }
}

/// Each row counts the clicks on `link_id` with its (referer, user agent) pair,
/// and that count is positive.
pub open spec fn rows_count(
    rows: Seq<CountedLinkStatistic>,
    clicks: Seq<ClickView>,
    link_id: Seq<char>,
) -> bool {
    forall|k: int|
        0 <= k < rows.len() ==> {
            let n = clicks_for(clicks, link_id, (#[trigger] rows[k])@.referer, rows[k]@.user_agent);
            rows[k]@.amount == Some(n as int) && n > 0
        }
}

/// No two rows share a (referer, user agent) pair.
pub open spec fn rows_distinct(rows: Seq<CountedLinkStatistic>) -> bool {
    forall|k1: int, k2: int|
        0 <= k1 < k2 < rows.len() ==> !((#[trigger] rows[k1])@.referer == (#[trigger] rows[k2])@.referer
            && rows[k1]@.user_agent == rows[k2]@.user_agent)
}

/// Every click on `link_id` has a row with its (referer, user agent) pair.
pub open spec fn rows_cover(
    rows: Seq<CountedLinkStatistic>,
    clicks: Seq<ClickView>,
    link_id: Seq<char>,
) -> bool {
    forall|i: int|
        0 <= i < clicks.len() && (#[trigger] clicks[i]).link_id == link_id ==> exists|k: int|
            0 <= k < rows.len() && (#[trigger] rows[k])@.referer == clicks[i].referer
                && rows[k]@.user_agent == clicks[i].user_agent
}

/// The rows are the statistics of `link_id` over `clicks`: one per distinct
/// (referer, user agent) pair, each with the number of its clicks.
pub open spec fn statistics_of(
    rows: Seq<CountedLinkStatistic>,
    clicks: Seq<ClickView>,
    link_id: Seq<char>,
) -> bool {
    rows_count(rows, clicks, link_id) && rows_distinct(rows) && rows_cover(rows, clicks, link_id)
}

/// A list of statistics rows.
pub type CountedStatistics = Seq<CountedLinkStatistic>;

/// The store as a map from link identifiers to targets, and the clicks in
/// the order they were recorded.
pub struct StoreView {
    pub links: Map<Seq<char>, Seq<char>>,
    pub clicks: Seq<ClickView>,
}

/// An in-memory relational store of links and click events, with the
/// semantics of the statements the handlers issue.
pub struct LinkStore {
    links: Vec<Link>,
    clicks: Vec<ClickEvent>,
}

impl View for LinkStore {
    type V = StoreView;

    open spec fn view(&self) -> StoreView {
        StoreView { links: link_map(self.link_views()), clicks: self.click_views() }
    }
}

proof fn lemma_map_has(links: Seq<LinkView>, i: int)
    requires
        ids_unique(links),
        0 <= i < links.len(),
    ensures
        link_map(links).contains_key(links[i].id),
        link_map(links)[links[i].id] == links[i].target_url,
    decreases links.len(),
{
    if i < links.len() - 1 {
        let d = links.drop_last();
        assert(ids_unique(d));
        assert(links.last().id != links[i].id);
        lemma_map_has(d, i);
    }
}

proof fn lemma_map_lacks(links: Seq<LinkView>, id: Seq<char>)
    requires
        forall|i: int| 0 <= i < links.len() ==> (#[trigger] links[i]).id != id,
    ensures
        !link_map(links).contains_key(id),
    decreases links.len(),
{
    if links.len() > 0 {
        let d = links.drop_last();
        assert forall|i: int| 0 <= i < d.len() implies (#[trigger] d[i]).id != id by {
            assert(d[i] == links[i]);
        }
        lemma_map_lacks(d, id);
    }
}

proof fn lemma_map_retarget(links: Seq<LinkView>, i: int, t: Seq<char>)
    requires
        ids_unique(links),
        0 <= i < links.len(),
    ensures
        link_map(links.update(i, LinkView { id: links[i].id, target_url: t })) == link_map(
            links,
        ).insert(links[i].id, t),
    decreases links.len(),
{
    let u = links.update(i, LinkView { id: links[i].id, target_url: t });
    if i == links.len() - 1 {
        assert(u.drop_last() =~= links.drop_last());
        assert(link_map(u) =~= link_map(links).insert(links[i].id, t));
    } else {
        let d = links.drop_last();
        assert(ids_unique(d));
        assert(u.drop_last() =~= d.update(i, LinkView { id: links[i].id, target_url: t }));
        lemma_map_retarget(d, i, t);
        assert(links.last().id != links[i].id);
        assert(link_map(u) =~= link_map(links).insert(links[i].id, t));
    }
}

proof fn lemma_clicks_bounded(clicks: Seq<ClickView>, l: Seq<char>, r: Option<Seq<char>>, u: Option<Seq<char>>)
    ensures
        clicks_for(clicks, l, r, u) <= clicks.len(),
    decreases clicks.len(),
{
    if clicks.len() > 0 {
        lemma_clicks_bounded(clicks.drop_last(), l, r, u);
    }
}

pub(crate) proof fn lemma_clicks_witness(clicks: Seq<ClickView>, l: Seq<char>, r: Option<Seq<char>>, u: Option<Seq<char>>)
    requires
        clicks_for(clicks, l, r, u) > 0,
    ensures
        exists|i: int| 0 <= i < clicks.len() && click_matches(#[trigger] clicks[i], l, r, u),
    decreases clicks.len(),
{
    if !click_matches(clicks.last(), l, r, u) {
        let d = clicks.drop_last();
        lemma_clicks_witness(d, l, r, u);
        let i = choose|i: int| 0 <= i < d.len() && click_matches(#[trigger] d[i], l, r, u);
        assert(clicks[i] == d[i]);
    } else {
        assert(click_matches(clicks[clicks.len() - 1], l, r, u));
    }
}

impl LinkStore {
    pub closed spec fn link_views(&self) -> Seq<LinkView> {
        self.links@.map_values(|l: Link| l@)
    }

    pub closed spec fn click_views(&self) -> Seq<ClickView> {
        self.clicks@.map_values(|c: ClickEvent| c@)
    }

    /// Identifiers are unique, and the click count fits in an `i64`.
    pub closed spec fn wf(&self) -> bool {
        ids_unique(self.link_views()) && self.clicks@.len() <= CLICK_CAPACITY
    }

    /// A store with no links and no clicks.
    pub fn new() -> (r: LinkStore)
        ensures
            r.wf(),
            r@.links == Map::<Seq<char>, Seq<char>>::empty(),
            r@.clicks == Seq::<ClickView>::empty(),
    {
        let r = LinkStore { links: Vec::new(), clicks: Vec::new() };
        assert(r.link_views() =~= Seq::<LinkView>::empty());
        assert(r.click_views() =~= Seq::<ClickView>::empty());
        r
    }

    /// Where `id` stands among the links, if it does.
    fn position(&self, id: &String) -> (r: Option<usize>)
        requires
            self.wf(),
        ensures
            r is Some ==> r->Some_0 < self.links@.len() && self.links@[r->Some_0 as int].id@ == id@,
            r is None ==> forall|i: int|
                0 <= i < self.links@.len() ==> (#[trigger] self.link_views()[i]).id != id@,
    {
        let mut i: usize = 0;
        while i < self.links.len()
            invariant
                0 <= i <= self.links@.len(),
                forall|j: int| 0 <= j < i ==> (#[trigger] self.link_views()[j]).id != id@,
            decreases self.links@.len() - i,
        {
            if self.links[i].id == *id {
                return Some(i);
            }
            i += 1;
        }
        None
    }

    /// The link with identifier `id`, if there is one.
    pub fn find_link(&self, id: &String) -> (r: Option<Link>)
        requires
            self.wf(),
        ensures
            r is Some <==> self@.links.contains_key(id@),
            r is Some ==> r->Some_0@ == (LinkView { id: id@, target_url: self@.links[id@] }),
    {
        match self.position(id) {
            Some(i) => {
                proof {
                    lemma_map_has(self.link_views(), i as int);
                }
                Some(self.links[i].duplicate())
            },
            None => {
                proof {
                    lemma_map_lacks(self.link_views(), id@);
                }
                None
            },
        }
    }

    /// Adds the link `(id, target_url)`; an identifier that is taken violates
    /// the uniqueness of identifiers and leaves the store as it was.
    pub fn insert_link(&mut self, id: String, target_url: String) -> (r: Result<Link, GatewayError>)
        requires
            old(self).wf(),
        ensures
            final(self).wf(),
            r is Ok <==> !old(self)@.links.contains_key(id@),
            r is Ok ==> r->Ok_0@ == (LinkView { id: id@, target_url: target_url@ }) && final(self)@
                == (StoreView { links: old(self)@.links.insert(id@, target_url@), ..old(self)@ }),
            r is Err ==> r->Err_0 is Store && *final(self) == *old(self),
    {
        match self.position(&id) {
            Some(i) => {
                proof {
                    lemma_map_has(self.link_views(), i as int);
                }
                Err(
                    GatewayError::Store(
                        String::from_str("duplicate key value violates unique constraint on links.id"),
                    ),
                )
            },
            None => {
                proof {
                    lemma_map_lacks(self.link_views(), id@);
                }
                let link = Link { id, target_url };
                let out = link.duplicate();
                let ghost before = self.link_views();
                self.links.push(link);
                proof {
                    assert(self.link_views() =~= before.push(out@));
                    assert(self.link_views().drop_last() =~= before);
                }
                Ok(out)
            },
        }
    }

    /// Points the link `id` at `target_url`; a missing link is reported as no row.
    pub fn update_target(&mut self, id: &String, target_url: String) -> (r: Result<Link, GatewayError>)
        requires
            old(self).wf(),
        ensures
            final(self).wf(),
            r is Ok <==> old(self)@.links.contains_key(id@),
            r is Ok ==> r->Ok_0@ == (LinkView { id: id@, target_url: target_url@ }) && final(self)@
                == (StoreView { links: old(self)@.links.insert(id@, target_url@), ..old(self)@ }),
            r is Err ==> r->Err_0 is NoRows && *final(self) == *old(self),
    {
        match self.position(id) {
            Some(i) => {
                proof {
                    lemma_map_has(self.link_views(), i as int);
                    lemma_map_retarget(self.link_views(), i as int, target_url@);
                }
                let link = Link { id: id.clone(), target_url };
                let out = link.duplicate();
                let ghost before = self.link_views();
                self.links.set(i, link);
                proof {
                    assert(self.link_views() =~= before.update(
                        i as int,
                        LinkView { id: before[i as int].id, target_url: out@.target_url },
                    ));
                    assert forall|a: int, b: int|
                        0 <= a < b < self.link_views().len() implies #[trigger] self.link_views()[a].id
                        != #[trigger] self.link_views()[b].id by {
                        assert(before[a].id != before[b].id);
                    }
                }
                Ok(out)
            },
            None => {
                proof {
                    lemma_map_lacks(self.link_views(), id@);
                }
                Err(GatewayError::NoRows)
            },
        }
    }

    /// Appends a click event; a full store refuses it and stays as it was.
    pub fn record_click(&mut self, event: ClickEvent) -> (r: Result<(), GatewayError>)
        requires
            old(self).wf(),
        ensures
            final(self).wf(),
            r is Ok <==> old(self)@.clicks.len() < CLICK_CAPACITY,
            r is Ok ==> final(self)@ == (StoreView { clicks: old(self)@.clicks.push(event@), ..old(self)@ }),
            r is Err ==> r->Err_0 is Store && *final(self) == *old(self),
    {
        if (self.clicks.len() as u64) < CLICK_CAPACITY {
            let ghost before = self.click_views();
            self.clicks.push(event);
            proof {
                assert(self.click_views() =~= before.push(event@));
            }
            Ok(())
        } else {
            Err(GatewayError::Store(String::from_str("click statistics are full")))
        }
    }

    /// The statistics of link `link_id`: one row per distinct (referer, user
    /// agent) pair among its clicks, with the number of those clicks, in the
    /// order of each pair's first click. A link without clicks gets no rows.
    pub(crate) fn count_clicks(&self, link_id: &String) -> (r: Vec<CountedLinkStatistic>)
        requires
            self.wf(),
        ensures
            statistics_of(r@, self@.clicks, link_id@),
            r@.len() == 0 <==> forall|i: int|
                0 <= i < self@.clicks.len() ==> (#[trigger] self@.clicks[i]).link_id != link_id@,
    {
        let ghost cv = self.click_views();
        let ghost l = link_id@;
        let mut rows: Vec<CountedLinkStatistic> = Vec::new();
        let mut i: usize = 0;
        while i < self.clicks.len()
            invariant
                self.wf(),
                cv == self.click_views(),
                l == link_id@,
                0 <= i <= cv.len(),
                statistics_of(rows@, cv.take(i as int), l),
                rows@.len() == 0 <==> forall|j: int| 0 <= j < i ==> (#[trigger] cv[j]).link_id != l,
            decreases cv.len() - i,
        {
            let ghost prev = cv.take(i as int);
            let ghost next = cv.take(i as int + 1);
            let ghost old_rows = rows@;
            let ghost e = cv[i as int];
            proof {
                assert(next.drop_last() =~= prev);
                assert(next.last() == e);
                assert forall|j: int| 0 <= j < i implies #[trigger] next[j] == prev[j] by {}
            }
            let event = &self.clicks[i];
            assert(e == event@);
            if event.link_id == *link_id {
                let mut k: usize = 0;
                let mut found = false;
                while k < rows.len() && !found
                    invariant
                        rows@ == old_rows,
                        e == event@,
                        0 <= k <= rows@.len(),
                        found ==> k < rows@.len() && rows@[k as int]@.referer == e.referer
                            && rows@[k as int]@.user_agent == e.user_agent,
                        forall|m: int|
                            0 <= m < k ==> !((#[trigger] rows@[m])@.referer == e.referer
                                && rows@[m]@.user_agent == e.user_agent),
                    decreases rows@.len() - k + if found { 0int } else { 1int },
                {
                    if same_text(&rows[k].referer, &event.referer) && same_text(
                        &rows[k].user_agent,
                        &event.user_agent,
                    ) {
                        found = true;
                    } else {
                        k += 1;
                    }
                }
                if found {
                    let n: i64 = match rows[k].amount {
                        Some(n) => n,
                        None => 0,
                    };
                    proof {
                        lemma_clicks_bounded(prev, l, e.referer, e.user_agent);
                        assert(n as int == clicks_for(prev, l, e.referer, e.user_agent));
                    }
                    let row = CountedLinkStatistic {
                        amount: Some(n + 1),
                        referer: copy_text(&rows[k].referer),
                        user_agent: copy_text(&rows[k].user_agent),
                    };
                    rows.set(k, row);
                    proof {
                        assert forall|m: int| 0 <= m < rows@.len() implies {
                            let c = clicks_for(next, l, (#[trigger] rows@[m])@.referer, rows@[m]@.user_agent);
                            rows@[m]@.amount == Some(c as int) && c > 0
                        } by {
                            if m != k {
                                assert(old_rows[m] == rows@[m]);
                            }
                        }
                        assert forall|m1: int, m2: int|
                            0 <= m1 < m2 < rows@.len() implies !((#[trigger] rows@[m1])@.referer
                            == (#[trigger] rows@[m2])@.referer && rows@[m1]@.user_agent
                            == rows@[m2]@.user_agent) by {
                            assert(!(old_rows[m1]@.referer == old_rows[m2]@.referer
                                && old_rows[m1]@.user_agent == old_rows[m2]@.user_agent));
                        }
                        assert forall|j: int|
                            0 <= j < next.len() && (#[trigger] next[j]).link_id == l implies exists|m: int|
                                0 <= m < rows@.len() && (#[trigger] rows@[m])@.referer == next[j].referer
                                    && rows@[m]@.user_agent == next[j].user_agent by {
                            if j < i {
                                assert(prev[j] == next[j]);
                                let m = choose|m: int|
                                    0 <= m < old_rows.len() && (#[trigger] old_rows[m])@.referer
                                        == prev[j].referer && old_rows[m]@.user_agent
                                        == prev[j].user_agent;
                                assert(rows@[m]@.referer == old_rows[m]@.referer);
                            } else {
                                assert(rows@[k as int]@.referer == next[j].referer);
                            }
                        }
                    }
                } else {
                    proof {
                        if clicks_for(prev, l, e.referer, e.user_agent) > 0 {
                            lemma_clicks_witness(prev, l, e.referer, e.user_agent);
                            let j = choose|j: int|
                                0 <= j < prev.len() && click_matches(#[trigger] prev[j], l, e.referer, e.user_agent);
                            assert(prev[j].link_id == l);
                        }
                    }
                    let row = CountedLinkStatistic {
                        amount: Some(1),
                        referer: copy_text(&event.referer),
                        user_agent: copy_text(&event.user_agent),
                    };
                    rows.push(row);
                    proof {
                        assert forall|m: int| 0 <= m < rows@.len() implies {
                            let c = clicks_for(next, l, (#[trigger] rows@[m])@.referer, rows@[m]@.user_agent);
                            rows@[m]@.amount == Some(c as int) && c > 0
                        } by {
                            if m < old_rows.len() {
                                assert(old_rows[m] == rows@[m]);
                            }
                        }
                        assert forall|m1: int, m2: int|
                            0 <= m1 < m2 < rows@.len() implies !((#[trigger] rows@[m1])@.referer
                            == (#[trigger] rows@[m2])@.referer && rows@[m1]@.user_agent
                            == rows@[m2]@.user_agent) by {
                            assert(rows@[m1] == old_rows[m1]);
                            if m2 < old_rows.len() {
                                assert(!(old_rows[m1]@.referer == old_rows[m2]@.referer
                                    && old_rows[m1]@.user_agent == old_rows[m2]@.user_agent));
                            }
                        }
                        assert forall|j: int|
                            0 <= j < next.len() && (#[trigger] next[j]).link_id == l implies exists|m: int|
                                0 <= m < rows@.len() && (#[trigger] rows@[m])@.referer == next[j].referer
                                    && rows@[m]@.user_agent == next[j].user_agent by {
                            if j < i {
                                assert(prev[j] == next[j]);
                                let m = choose|m: int|
                                    0 <= m < old_rows.len() && (#[trigger] old_rows[m])@.referer
                                        == prev[j].referer && old_rows[m]@.user_agent
                                        == prev[j].user_agent;
                                assert(rows@[m] == old_rows[m]);
                            } else {
                                assert(rows@[old_rows.len() as int]@.referer == next[j].referer);
                            }
                        }
                    }
                }
            } else {
                proof {
                    assert forall|m: int| 0 <= m < rows@.len() implies {
                        let c = clicks_for(next, l, (#[trigger] rows@[m])@.referer, rows@[m]@.user_agent);
                        rows@[m]@.amount == Some(c as int) && c > 0
                    } by {}
                    assert forall|j: int|
                        0 <= j < next.len() && (#[trigger] next[j]).link_id == l implies exists|m: int|
                            0 <= m < rows@.len() && (#[trigger] rows@[m])@.referer == next[j].referer
                                && rows@[m]@.user_agent == next[j].user_agent by {
                        assert(prev[j] == next[j]);
                    }
                }
            }
            i += 1;
        }
        proof {
            assert(cv.take(cv.len() as int) =~= cv);
        }
        rows
    }
}

} // verus!
