use vstd::prelude::*;
use crate::model::ClickView;
use crate::service::{with_link, redirect_target};
use crate::store::{StoreView, CountedStatistics, clicks_for, click_matches, statistics_of, lemma_clicks_witness};
use crate::model::CountedLinkStatistic;

verus! {

/// A link that was just created redirects to the target it was created with.
pub proof fn law_redirect_follows_creation(s: StoreView, id: Seq<char>, target_url: Seq<char>)
    requires
        !s.links.contains_key(id),
    ensures
        redirect_target(with_link(s, id, target_url), id) == Some(target_url),
{
}

/// After an update, a redirect leads to the new target and no longer to the old one.
pub proof fn law_redirect_follows_update(s: StoreView, id: Seq<char>, new_target: Seq<char>)
    requires
        s.links.contains_key(id),
    ensures
        redirect_target(with_link(s, id, new_target), id) == Some(new_target),
        s.links[id] != new_target ==> redirect_target(with_link(s, id, new_target), id) != Some(
            s.links[id],
        ),
{
}

/// The links made by a sequence of creations, each `(id, target)`, from an empty store.
pub open spec fn created_links(made: Seq<(Seq<char>, Seq<char>)>) -> Map<Seq<char>, Seq<char>>
    decreases made.len(),
{
    if made.len() == 0 {
        Map::empty()
    } else {
        created_links(made.drop_last()).insert(made.last().0, made.last().1)
    }
}

/// An identifier that no creation returned leads nowhere: its redirect is not found.
pub proof fn law_unknown_id_not_found(made: Seq<(Seq<char>, Seq<char>)>, clicks: Seq<ClickView>, id: Seq<char>)
    requires
        forall|i: int| 0 <= i < made.len() ==> (#[trigger] made[i]).0 != id,
    ensures
        redirect_target(StoreView { links: created_links(made), clicks }, id) is None,
    decreases made.len(),
{
    if made.len() > 0 {
        let d = made.drop_last();
        assert forall|i: int| 0 <= i < d.len() implies (#[trigger] d[i]).0 != id by {
            assert(d[i] == made[i]);
        }
        law_unknown_id_not_found(d, clicks, id);
    }
}

/// When every click on a link has its own (referer, user agent) pair, each pair
/// is counted once.
pub proof fn law_distinct_clicks_counted_once(clicks: Seq<ClickView>, link_id: Seq<char>)
    requires
        forall|i: int, j: int|
            0 <= i < j < clicks.len() && (#[trigger] clicks[i]).link_id == link_id
                && (#[trigger] clicks[j]).link_id == link_id ==> !(clicks[i].referer == clicks[j].referer
                && clicks[i].user_agent == clicks[j].user_agent),
    ensures
        forall|i: int|
            0 <= i < clicks.len() && (#[trigger] clicks[i]).link_id == link_id ==> clicks_for(
                clicks,
                link_id,
                clicks[i].referer,
                clicks[i].user_agent,
            ) == 1,
    decreases clicks.len(),
{
    if clicks.len() > 0 {
        let d = clicks.drop_last();
        let last = clicks.last();
        assert forall|i: int, j: int|
            0 <= i < j < d.len() && (#[trigger] d[i]).link_id == link_id && (#[trigger] d[j]).link_id
                == link_id implies !(d[i].referer == d[j].referer && d[i].user_agent == d[j].user_agent) by {
            assert(d[i] == clicks[i] && d[j] == clicks[j]);
        }
        law_distinct_clicks_counted_once(d, link_id);
        assert forall|i: int|
            0 <= i < clicks.len() && (#[trigger] clicks[i]).link_id == link_id implies clicks_for(
                clicks,
                link_id,
                clicks[i].referer,
                clicks[i].user_agent,
            ) == 1 by {
            let c = clicks[i];
            if i < d.len() {
                assert(d[i] == c);
                assert(!click_matches(last, link_id, c.referer, c.user_agent));
            } else {
                lemma_no_match_no_count(d, link_id, c.referer, c.user_agent);
            }
        }
    }
}

/// A pair that no click has is counted zero times.
proof fn lemma_no_match_no_count(
    clicks: Seq<ClickView>,
    link_id: Seq<char>,
    referer: Option<Seq<char>>,
    user_agent: Option<Seq<char>>,
)
    requires
        forall|i: int| 0 <= i < clicks.len() ==> !click_matches(#[trigger] clicks[i], link_id, referer, user_agent),
    ensures
        clicks_for(clicks, link_id, referer, user_agent) == 0,
    decreases clicks.len(),
{
    if clicks.len() > 0 {
        let d = clicks.drop_last();
        assert forall|i: int| 0 <= i < d.len() implies !click_matches(#[trigger] d[i], link_id, referer, user_agent) by {
            assert(d[i] == clicks[i]);
        }
        lemma_no_match_no_count(d, link_id, referer, user_agent);
    }
}

/// Recording the same click `m` more times raises its pair's count by `m`.
pub proof fn law_repeated_click_counted(clicks: Seq<ClickView>, c: ClickView, m: nat)
    ensures
        clicks_for(clicks + Seq::new(m, |k: int| c), c.link_id, c.referer, c.user_agent) == clicks_for(
            clicks,
            c.link_id,
            c.referer,
            c.user_agent,
        ) + m,
    decreases m,
{
    let more = clicks + Seq::new(m, |k: int| c);
    if m > 0 {
        let fewer = clicks + Seq::new((m - 1) as nat, |k: int| c);
        assert(more.drop_last() =~= fewer);
        law_repeated_click_counted(clicks, c, (m - 1) as nat);
    } else {
        assert(more =~= clicks);
    }
}

/// A link with no clicks has no statistics rows: the answer is an empty list.
pub proof fn law_no_clicks_no_rows(rows: CountedStatistics, clicks: Seq<ClickView>, link_id: Seq<char>)
    requires
        forall|i: int| 0 <= i < clicks.len() ==> (#[trigger] clicks[i]).link_id != link_id,
        statistics_of(rows, clicks, link_id),
    ensures
        rows.len() == 0,
{
    if rows.len() > 0 {
        let r = rows[0]@;
        assert forall|i: int| 0 <= i < clicks.len() implies !click_matches(
            #[trigger] clicks[i],
            link_id,
            r.referer,
            r.user_agent,
        ) by {}
        lemma_no_match_no_count(clicks, link_id, r.referer, r.user_agent);
    }
}

/// A (referer, user agent) pair.
pub type Pair = (Option<Seq<char>>, Option<Seq<char>>);

/// The distinct (referer, user agent) pairs among the clicks on `link_id`.
pub open spec fn click_pairs(clicks: Seq<ClickView>, link_id: Seq<char>) -> Set<Pair> {
    Set::new(
        |p: Pair|
            exists|i: int|
                0 <= i < clicks.len() && (#[trigger] clicks[i]).link_id == link_id && clicks[i].referer
                    == p.0 && clicks[i].user_agent == p.1,
    )
}

/// The statistics of a link have exactly one row per distinct (referer, user
/// agent) pair among its clicks: N clicks with N distinct pairs give N rows.
pub proof fn law_one_row_per_pair(rows: CountedStatistics, clicks: Seq<ClickView>, link_id: Seq<char>)
    requires
        statistics_of(rows, clicks, link_id),
    ensures
        click_pairs(clicks, link_id).finite(),
        rows.len() == click_pairs(clicks, link_id).len(),
{
    let ps = rows.map_values(|r: CountedLinkStatistic| (r@.referer, r@.user_agent));
    assert(ps.no_duplicates()) by {
        assert forall|a: int, b: int| 0 <= a < ps.len() && 0 <= b < ps.len() && a != b implies ps[a]
            != ps[b] by {
            if a < b {
                assert(!(rows[a]@.referer == rows[b]@.referer && rows[a]@.user_agent == rows[b]@.user_agent));
            } else {
                assert(!(rows[b]@.referer == rows[a]@.referer && rows[b]@.user_agent == rows[a]@.user_agent));
            }
        }
    }
    ps.unique_seq_to_set();
    assert forall|p: Pair| ps.to_set().contains(p) <==> click_pairs(clicks, link_id).contains(p) by {
        if ps.to_set().contains(p) {
            let k = choose|k: int| 0 <= k < ps.len() && ps[k] == p;
            let r = rows[k]@;
            assert(clicks_for(clicks, link_id, r.referer, r.user_agent) > 0);
            lemma_clicks_witness(clicks, link_id, r.referer, r.user_agent);
            let i = choose|i: int| 0 <= i < clicks.len() && click_matches(#[trigger] clicks[i], link_id, r.referer, r.user_agent);
            assert(clicks[i].link_id == link_id);
        }
        if click_pairs(clicks, link_id).contains(p) {
            let i = choose|i: int|
                0 <= i < clicks.len() && (#[trigger] clicks[i]).link_id == link_id && clicks[i].referer
                    == p.0 && clicks[i].user_agent == p.1;
            let k = choose|k: int|
                0 <= k < rows.len() && (#[trigger] rows[k])@.referer == clicks[i].referer
                    && rows[k]@.user_agent == clicks[i].user_agent;
            assert(ps[k] == p);
        }
    }
    assert(ps.to_set() =~= click_pairs(clicks, link_id));
}

} // verus!
