//! Subscriptions to cbag.
//!
//! All subscriptions made to cbag are held in the connection state so that they
//! are not duplicated: a subscription is identified by all of its parameters,
//! which also serve to transform the upstream messages before they are sent on.
use vstd::prelude::*;
use crate::routes_config::MarketDataType;
use crate::text::{decimal, u32_to_decimal};

verus! {

/// The plain values of strings.
pub open spec fn views_of(v: Seq<String>) -> Seq<Seq<char>> {
    v.map_values(|s: String| s@)
}

/// Each string of `ms` followed by a comma, all concatenated.
pub open spec fn comma_terminated(ms: Seq<Seq<char>>) -> Seq<char>
    decreases ms.len(),
{
    if ms.len() == 0 {
        Seq::empty()
    } else {
        comma_terminated(ms.drop_last()) + ms.last() + ","@
    }
}

/// Each string of `ms` followed by a comma, all concatenated.
pub fn comma_terminated_string(ms: &Vec<String>) -> (r: String)
    ensures
        r@ == comma_terminated(views_of(ms@)),
{
    let mut s = String::new();
    let mut i: usize = 0;
    while i < ms.len()
        invariant
            i <= ms.len(),
            s@ == comma_terminated(views_of(ms@.take(i as int))),
        decreases ms.len() - i,
    {
        s.append(ms[i].as_str());
        s.append(",");
        assert(views_of(ms@.take(i + 1)).drop_last() =~= views_of(ms@.take(i as int)));
        i = i + 1;
    }
    assert(ms@.take(ms.len() as int) =~= ms@);
    s
}

/// Whether two vectors of strings hold the same strings in the same order.
pub fn same_strings(a: &Vec<String>, b: &Vec<String>) -> (r: bool)
    ensures
        r == (views_of(a@) == views_of(b@)),
{
    if a.len() != b.len() {
        assert(views_of(a@).len() != views_of(b@).len());
        return false;
    }
    let mut i: usize = 0;
    while i < a.len()
        invariant
            a.len() == b.len(),
            i <= a.len(),
            forall|j: int| 0 <= j < i ==> a@[j]@ == b@[j]@,
        decreases a.len() - i,
    {
        if a[i] != b[i] {
            assert(views_of(a@)[i as int] != views_of(b@)[i as int]);
            return false;
        }
        i = i + 1;
    }
    assert(views_of(a@) =~= views_of(b@));
    true
}

/// The plain value of a snapshot subscription.
pub struct SnapshotView {
    pub market_data_type: MarketDataType,
    pub currency_pair: Seq<char>,
    pub cbag_markets: Seq<Seq<char>>,
    pub depth_limit: u32,
    pub interval_ms: u32,
}

/// The plain value of a legacy cbbo subscription.
pub struct LegacyCbboView {
    pub market_data_type: MarketDataType,
    pub currency_pair: Seq<char>,
    pub size_filter: Seq<char>,
    pub interval_ms: u32,
    pub client_id: Seq<char>,
}

/// The plain value of a direct subscription.
pub struct DirectView {
    pub market_data_type: MarketDataType,
    pub endpoint: Seq<char>,
}

/// The plain value of a subscription.
pub enum SubscriptionView {
    Snapshot(SnapshotView),
    LegacyCbbo(LegacyCbboView),
    Direct(DirectView),
}

/// The upstream path of a snapshot subscription.
pub open spec fn snapshot_url(s: SnapshotView) -> Seq<char> {
    "/ws/snapshot/"@ + s.currency_pair + "?markets="@ + comma_terminated(s.cbag_markets)
        + "&depth_limit="@ + decimal(s.depth_limit as nat) + "&interval_ms="@ + decimal(
        s.interval_ms as nat,
    )
}

/// The upstream path of a legacy cbbo subscription.
pub open spec fn legacy_cbbo_url(s: LegacyCbboView) -> Seq<char> {
    "/ws/legacy-cbbo/"@ + s.currency_pair + "?quantity_filter="@ + s.size_filter
        + "&interval_ms="@ + decimal(s.interval_ms as nat) + "&client="@ + s.client_id
        + "&user=merx"@
}

impl SubscriptionView {
    /// The upstream path of a subscription.
    pub open spec fn url(self) -> Seq<char> {
        match self {
            SubscriptionView::Snapshot(s) => snapshot_url(s),
            SubscriptionView::LegacyCbbo(s) => legacy_cbbo_url(s),
            SubscriptionView::Direct(s) => s.endpoint,
        }
    }

    /// The market data type of a subscription.
    pub open spec fn market_data_type(self) -> MarketDataType {
        match self {
            SubscriptionView::Snapshot(s) => s.market_data_type,
            SubscriptionView::LegacyCbbo(s) => s.market_data_type,
            SubscriptionView::Direct(s) => s.market_data_type,
        }
    }
}

/// What every subscription offers: its upstream path and its market data type.
pub trait SubTraits {
    fn get_url(&self) -> String;

    fn get_market_data_type(&self) -> MarketDataType;
}

/// A snapshot (market depth) subscription.
#[derive(Clone, PartialEq, Eq, Hash)]
pub struct SnapshotStruct {
    market_data_type: MarketDataType,
    pub currency_pair: String,
    pub cbag_markets: Vec<String>,
    pub depth_limit: u32,
    interval_ms: u32,
}

impl View for SnapshotStruct {
    type V = SnapshotView;

    closed spec fn view(&self) -> SnapshotView {
        SnapshotView {
            market_data_type: self.market_data_type,
            currency_pair: self.currency_pair@,
            cbag_markets: views_of(self.cbag_markets@),
            depth_limit: self.depth_limit,
            interval_ms: self.interval_ms,
        }
    }
}

impl SnapshotStruct {
    pub fn new(
        market_data_type: MarketDataType,
        currency_pair: String,
        cbag_markets: Vec<String>,
        depth_limit: u32,
        interval_ms: u32,
    ) -> (r: Self)
        ensures
            r@ == (SnapshotView {
                market_data_type,
                currency_pair: currency_pair@,
                cbag_markets: views_of(cbag_markets@),
                depth_limit,
                interval_ms,
            }),
    {
        Self { market_data_type, currency_pair, cbag_markets, depth_limit, interval_ms }
    }

    /// Whether two snapshot subscriptions have the same parameters.
    pub fn same_as(&self, other: &SnapshotStruct) -> (r: bool)
        ensures
            r == (self@ == other@),
    {
        self.market_data_type == other.market_data_type && self.currency_pair
            == other.currency_pair && same_strings(&self.cbag_markets, &other.cbag_markets)
            && self.depth_limit == other.depth_limit && self.interval_ms == other.interval_ms
    }

    /// A copy with the same parameters.
    pub fn duplicate(&self) -> (r: Self)
        ensures
            r@ == self@,
    {
        let mut markets: Vec<String> = Vec::new();
        let mut i: usize = 0;
        while i < self.cbag_markets.len()
            invariant
                i <= self.cbag_markets.len(),
                markets@ == self.cbag_markets@.take(i as int),
            decreases self.cbag_markets.len() - i,
        {
            markets.push(self.cbag_markets[i].clone());
            assert(markets@ =~= self.cbag_markets@.take(i + 1));
            i = i + 1;
        }
        assert(self.cbag_markets@.take(self.cbag_markets.len() as int) =~= self.cbag_markets@);
        SnapshotStruct {
            market_data_type: self.market_data_type,
            currency_pair: self.currency_pair.clone(),
            cbag_markets: markets,
            depth_limit: self.depth_limit,
            interval_ms: self.interval_ms,
        }
    }
}

impl SubTraits for SnapshotStruct {
    fn get_url(&self) -> (r: String)
        ensures
            r@ == snapshot_url(self@),
    {
        let markets_string = comma_terminated_string(&self.cbag_markets);
        let mut s = String::from_str("/ws/snapshot/");
        s.append(self.currency_pair.as_str());
        s.append("?markets=");
        s.append(markets_string.as_str());
        s.append("&depth_limit=");
        s.append(u32_to_decimal(self.depth_limit).as_str());
        s.append("&interval_ms=");
        s.append(u32_to_decimal(self.interval_ms).as_str());
        s
    }

    fn get_market_data_type(&self) -> (r: MarketDataType)
        ensures
            r == self@.market_data_type,
    {
        self.market_data_type
    }
}

/// A legacy cbbo subscription.
#[derive(Clone, PartialEq, Eq, Hash)]
pub struct LegacyCbboStruct {
    market_data_type: MarketDataType,
    currency_pair: String,
    size_filter: String,
    interval_ms: u32,
    client_id: String,
}

impl View for LegacyCbboStruct {
    type V = LegacyCbboView;

    closed spec fn view(&self) -> LegacyCbboView {
        LegacyCbboView {
            market_data_type: self.market_data_type,
            currency_pair: self.currency_pair@,
            size_filter: self.size_filter@,
            interval_ms: self.interval_ms,
            client_id: self.client_id@,
        }
    }
}

impl SubTraits for LegacyCbboStruct {
    fn get_url(&self) -> (r: String)
        ensures
            r@ == legacy_cbbo_url(self@),
    {
        let mut s = String::from_str("/ws/legacy-cbbo/");
        s.append(self.currency_pair.as_str());
        s.append("?quantity_filter=");
        s.append(self.size_filter.as_str());
        s.append("&interval_ms=");
        s.append(u32_to_decimal(self.interval_ms).as_str());
        s.append("&client=");
        s.append(self.client_id.as_str());
        s.append("&user=merx");
        s
    }

    fn get_market_data_type(&self) -> (r: MarketDataType)
        ensures
            r == self@.market_data_type,
    {
        self.market_data_type
    }
}

impl LegacyCbboStruct {
    pub fn new(
        market_data_type: MarketDataType,
        currency_pair: String,
        size_filter: String,
        interval_ms: u32,
        client_id: String,
    ) -> (r: Self)
        ensures
            r@ == (LegacyCbboView {
                market_data_type,
                currency_pair: currency_pair@,
                size_filter: size_filter@,
                interval_ms,
                client_id: client_id@,
            }),
    {
        Self { market_data_type, currency_pair, size_filter, interval_ms, client_id }
    }

    /// Whether two legacy cbbo subscriptions have the same parameters.
    pub fn same_as(&self, other: &LegacyCbboStruct) -> (r: bool)
        ensures
            r == (self@ == other@),
    {
        self.market_data_type == other.market_data_type && self.currency_pair
            == other.currency_pair && self.size_filter == other.size_filter && self.interval_ms
            == other.interval_ms && self.client_id == other.client_id
    }

    /// A copy with the same parameters.
    pub fn duplicate(&self) -> (r: Self)
        ensures
            r@ == self@,
    {
        LegacyCbboStruct {
            market_data_type: self.market_data_type,
            currency_pair: self.currency_pair.clone(),
            size_filter: self.size_filter.clone(),
            interval_ms: self.interval_ms,
            client_id: self.client_id.clone(),
        }
    }
}

/// A subscription passed through to cbag unchanged.
#[derive(Clone, PartialEq, Eq, Hash)]
pub struct DirectStruct {
    market_data_type: MarketDataType,
    endpoint: String,
}

impl View for DirectStruct {
    type V = DirectView;

    closed spec fn view(&self) -> DirectView {
        DirectView { market_data_type: self.market_data_type, endpoint: self.endpoint@ }
    }
}

impl DirectStruct {
    pub fn new(market_data_type: MarketDataType, endpoint: String) -> (r: Self)
        ensures
            r@ == (DirectView { market_data_type, endpoint: endpoint@ }),
    {
        Self { market_data_type, endpoint }
    }

    /// Whether two direct subscriptions have the same parameters.
    pub fn same_as(&self, other: &DirectStruct) -> (r: bool)
        ensures
            r == (self@ == other@),
    {
        self.market_data_type == other.market_data_type && self.endpoint == other.endpoint
    }

    /// A copy with the same parameters.
    pub fn duplicate(&self) -> (r: Self)
        ensures
            r@ == self@,
    {
        DirectStruct { market_data_type: self.market_data_type, endpoint: self.endpoint.clone() }
    }
}

impl SubTraits for DirectStruct {
    fn get_url(&self) -> (r: String)
        ensures
            r@ == self@.endpoint,
    {
        self.endpoint.clone()
    }

    fn get_market_data_type(&self) -> (r: MarketDataType)
        ensures
            r == self@.market_data_type,
    {
        self.market_data_type
    }
}

/// A subscription to cbag.
#[derive(Clone, PartialEq, Eq, Hash)]
pub enum Subscription {
    Snapshot(SnapshotStruct),
    LegacyCbbo(LegacyCbboStruct),
    Direct(DirectStruct),
}

impl View for Subscription {
    type V = SubscriptionView;

    open spec fn view(&self) -> SubscriptionView {
        match self {
            Subscription::Snapshot(s) => SubscriptionView::Snapshot(s@),
            Subscription::LegacyCbbo(s) => SubscriptionView::LegacyCbbo(s@),
            Subscription::Direct(s) => SubscriptionView::Direct(s@),
        }
    }
}

impl Subscription {
    /// Whether two subscriptions have the same kind and parameters.
    pub fn same_as(&self, other: &Subscription) -> (r: bool)
        ensures
            r == (self@ == other@),
    {
        match (self, other) {
            (Subscription::Snapshot(a), Subscription::Snapshot(b)) => a.same_as(b),
            (Subscription::LegacyCbbo(a), Subscription::LegacyCbbo(b)) => a.same_as(b),
            (Subscription::Direct(a), Subscription::Direct(b)) => a.same_as(b),
            _ => false,
        }
    }

    /// A copy with the same parameters.
    pub fn duplicate(&self) -> (r: Self)
        ensures
            r@ == self@,
    {
        match self {
            Subscription::Snapshot(s) => Subscription::Snapshot(s.duplicate()),
            Subscription::LegacyCbbo(s) => Subscription::LegacyCbbo(s.duplicate()),
            Subscription::Direct(s) => Subscription::Direct(s.duplicate()),
        }
    }
}

impl SubTraits for Subscription {
    fn get_url(&self) -> (r: String)
        ensures
            r@ == self@.url(),
    {
        match self {
            Subscription::Snapshot(sub) => sub.get_url(),
            Subscription::LegacyCbbo(sub) => sub.get_url(),
            Subscription::Direct(sub) => sub.get_url(),
        }
    }

    fn get_market_data_type(&self) -> (r: MarketDataType)
        ensures
            r == self@.market_data_type(),
    {
        match self {
            Subscription::Snapshot(sub) => sub.get_market_data_type(),
            Subscription::LegacyCbbo(sub) => sub.get_market_data_type(),
            Subscription::Direct(sub) => sub.get_market_data_type(),
        }
    }
}

} // verus!
