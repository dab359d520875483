use vstd::prelude::*;

verus! {

/// The text of an optional string, as a sequence of characters.
pub open spec fn opt_text(o: Option<String>) -> Option<Seq<char>> {
    match o {
        Some(s) => Some(s@),
        None => None,
    }
}

/// A short identifier mapped to the URL it redirects to.
#[derive(Debug)]
pub struct Link {
    pub id: String,
    pub target_url: String,
}

/// A link as the identifier and target texts.
pub struct LinkView {
    pub id: Seq<char>,
    pub target_url: Seq<char>,
}

impl View for Link {
    type V = LinkView;

    open spec fn view(&self) -> LinkView {
        LinkView { id: self.id@, target_url: self.target_url@ }
    }
}

impl Link {
    /// A copy of this link with the same identifier and target.
    pub fn duplicate(&self) -> (r: Link)
        ensures
            r@ == self@,
    {
        Link { id: self.id.clone(), target_url: self.target_url.clone() }
    }
}

/// The body of a request that creates or retargets a link.
#[derive(Debug)]
pub struct LinkTarget {
    pub target_url: String,
}

/// How often one (referer, user agent) pair was recorded for a link.
#[derive(Debug)]
pub struct CountedLinkStatistic {
    pub amount: Option<i64>,
    pub referer: Option<String>,
    pub user_agent: Option<String>,
}

/// A statistics row with its count as an integer and its texts.
pub struct StatisticView {
    pub amount: Option<int>,
    pub referer: Option<Seq<char>>,
    pub user_agent: Option<Seq<char>>,
}

impl View for CountedLinkStatistic {
    type V = StatisticView;

    open spec fn view(&self) -> StatisticView {
        StatisticView {
            amount: match self.amount {
                Some(n) => Some(n as int),
                None => None,
            },
            referer: opt_text(self.referer),
            user_agent: opt_text(self.user_agent),
        }
    }
}

/// One followed redirect, with the request's optional `referer` and `user-agent`.
#[derive(Debug)]
pub struct ClickEvent {
    pub link_id: String,
    pub referer: Option<String>,
    pub user_agent: Option<String>,
}

/// A click event as texts.
pub struct ClickView {
    pub link_id: Seq<char>,
    pub referer: Option<Seq<char>>,
    pub user_agent: Option<Seq<char>>,
}

impl View for ClickEvent {
    type V = ClickView;

    open spec fn view(&self) -> ClickView {
        ClickView {
            link_id: self.link_id@,
            referer: opt_text(self.referer),
            user_agent: opt_text(self.user_agent),
        }
    }
}

/// A copy of an optional string.
pub fn copy_text(o: &Option<String>) -> (r: Option<String>)
    ensures
        opt_text(r) == opt_text(*o),
{
    match o {
        Some(s) => Some(s.clone()),
        None => None,
    }
}

/// Whether two optional strings hold the same text (both absent counts as equal).
pub fn same_text(a: &Option<String>, b: &Option<String>) -> (r: bool)
    ensures
        r == (opt_text(*a) == opt_text(*b)),
{
    match (a, b) {
        (Some(x), Some(y)) => *x == *y,
        (None, None) => true,
        _ => false,
    }
}

} // verus!
