//! The entities of the dispatch service and their status values.

use crate::time::Timestamp;
use vstd::prelude::*;

verus! {

/// The id of an entity that does not exist or is not known.
pub const NO_ID: i64 = -1;

/// The stop of a cab or an order that has none.
pub const NO_STOP: i32 = -1;

/// The seat count of a cab of which it is not known.
pub const NO_SEATS: i8 = -1;

/// Why a request was not served.
#[derive(Debug, Copy, Clone, PartialEq, Eq, Structural)]
pub enum ServiceError {
    /// The entity asked for does not exist.
    NotFound,
    /// The caller does not own the entity it tried to change.
    Unauthorized,
    /// The request contradicts a rule of the service.
    InvalidRequest,
    /// The store could not be reached; the caller may try again.
    StoreUnavailable,
    /// The store holds data that the service cannot interpret.
    DataFault,
}

/// What a cab is doing right now.
#[derive(Debug, Copy, Clone, PartialEq, Eq, Structural)]
pub enum CabStatus {
    ASSIGNED,
    FREE,
    /// Out of order, charging, off duty.
    CHARGING,
}

/// The life of a customer's order.
#[derive(Debug, Copy, Clone, PartialEq, Eq, Structural)]
pub enum OrderStatus {
    RECEIVED,
    ASSIGNED,
    ACCEPTED,
    CANCELLED,
    REJECTED,
    ABANDONED,
    REFUSED,
    PICKEDUP,
    COMPLETED,
}

/// The life of a route; its legs use the same values.
#[derive(Debug, Copy, Clone, PartialEq, Eq, Structural)]
pub enum RouteStatus {
    /// Proposed by the pool.
    PLANNED,
    /// Not confirmed yet; the initial status.
    ASSIGNED,
    /// Plan accepted by the customer, waiting for the cab.
    ACCEPTED,
    /// Proposal rejected by the customer.
    REJECTED,
    /// Cancelled after assignment but before pick-up.
    ABANDONED,
    /// Under way; the status a leg has while it is driven.
    STARTED,
    COMPLETED,
}

impl CabStatus {
    /// The number under which the status is stored.
    pub open spec fn spec_code(self) -> int {
        match self {
            CabStatus::ASSIGNED => 0,
            CabStatus::FREE => 1,
            CabStatus::CHARGING => 2,
        }
    }

    /// The name under which the status crosses the service boundary.
    pub open spec fn spec_name(self) -> Seq<char> {
        match self {
            CabStatus::ASSIGNED => "ASSIGNED"@,
            CabStatus::FREE => "FREE"@,
            CabStatus::CHARGING => "CHARGING"@,
        }
    }

    /// The number under which the status is stored.
    pub fn code(&self) -> (c: i32)
        ensures
            c == self.spec_code(),
    {
        match self {
            CabStatus::ASSIGNED => 0,
            CabStatus::FREE => 1,
            CabStatus::CHARGING => 2,
        }
    }

    /// The name of the status.
    pub fn name(&self) -> (s: String)
        ensures
            s@ == self.spec_name(),
    {
        match self {
            CabStatus::ASSIGNED => "ASSIGNED".to_string(),
            CabStatus::FREE => "FREE".to_string(),
            CabStatus::CHARGING => "CHARGING".to_string(),
        }
    }
}

/// The status that a stored number names, if it names a cab status.
pub open spec fn cab_status_of(code: i32) -> Option<CabStatus> {
    if code == 0 {
        Some(CabStatus::ASSIGNED)
    } else if code == 1 {
        Some(CabStatus::FREE)
    } else if code == 2 {
        Some(CabStatus::CHARGING)
    } else {
        None
    }
}

/// Reads a stored cab status; a number that names no status gives `None`.
pub fn get_cab_status(idx: i32) -> (s: Option<CabStatus>)
    ensures
        s == cab_status_of(idx),
        s is Some <==> 0 <= idx <= 2,
        s matches Some(v) ==> v.spec_code() == idx,
{
    match idx {
        0 => Some(CabStatus::ASSIGNED),
        1 => Some(CabStatus::FREE),
        2 => Some(CabStatus::CHARGING),
        _ => None,
    }
}

impl OrderStatus {
    /// The number under which the status is stored.
    pub open spec fn spec_code(self) -> int {
        match self {
            OrderStatus::RECEIVED => 0,
            OrderStatus::ASSIGNED => 1,
            OrderStatus::ACCEPTED => 2,
            OrderStatus::CANCELLED => 3,
            OrderStatus::REJECTED => 4,
            OrderStatus::ABANDONED => 5,
            OrderStatus::REFUSED => 6,
            OrderStatus::PICKEDUP => 7,
            OrderStatus::COMPLETED => 8,
        }
    }

    /// The name under which the status crosses the service boundary.
    pub open spec fn spec_name(self) -> Seq<char> {
        match self {
            OrderStatus::RECEIVED => "RECEIVED"@,
            OrderStatus::ASSIGNED => "ASSIGNED"@,
            OrderStatus::ACCEPTED => "ACCEPTED"@,
            OrderStatus::CANCELLED => "CANCELLED"@,
            OrderStatus::REJECTED => "REJECTED"@,
            OrderStatus::ABANDONED => "ABANDONED"@,
            OrderStatus::REFUSED => "REFUSED"@,
            OrderStatus::PICKEDUP => "PICKEDUP"@,
            OrderStatus::COMPLETED => "COMPLETED"@,
        }
    }

    /// An order is open unless it was cancelled, rejected, abandoned or
    /// refused.
    pub open spec fn spec_is_open(self) -> bool {
        !(self == OrderStatus::CANCELLED || self == OrderStatus::REJECTED || self
            == OrderStatus::ABANDONED || self == OrderStatus::REFUSED)
    }

    /// Whether the status ends an order before its pick-up: cancelled by the
    /// customer, rejected for want of a cab, or abandoned by the cab.
    pub open spec fn spec_is_abort(self) -> bool {
        self == OrderStatus::CANCELLED || self == OrderStatus::REJECTED || self
            == OrderStatus::ABANDONED
    }

    /// Whether an order in this status may pass to `next`. An order goes from
    /// received to assigned, accepted, picked up and completed, one step at a
    /// time; while assigned or accepted it may be aborted. Nothing leads out
    /// of a final status, and nothing leads to refused.
    pub open spec fn spec_can_become(self, next: OrderStatus) -> bool {
        match self {
            OrderStatus::RECEIVED => next == OrderStatus::ASSIGNED,
            OrderStatus::ASSIGNED => next == OrderStatus::ACCEPTED || next.spec_is_abort(),
            OrderStatus::ACCEPTED => next == OrderStatus::PICKEDUP || next.spec_is_abort(),
            OrderStatus::PICKEDUP => next == OrderStatus::COMPLETED,
            _ => false,
        }
    }

    /// Whether an order in this status may pass to `next`.
    pub fn can_become(&self, next: OrderStatus) -> (allowed: bool)
        ensures
            allowed == self.spec_can_become(next),
    {
        let abort = next == OrderStatus::CANCELLED || next == OrderStatus::REJECTED || next
            == OrderStatus::ABANDONED;
        match self {
            OrderStatus::RECEIVED => next == OrderStatus::ASSIGNED,
            OrderStatus::ASSIGNED => next == OrderStatus::ACCEPTED || abort,
            OrderStatus::ACCEPTED => next == OrderStatus::PICKEDUP || abort,
            OrderStatus::PICKEDUP => next == OrderStatus::COMPLETED,
            _ => false,
        }
    }

    /// The number under which the status is stored.
    pub fn code(&self) -> (c: i32)
        ensures
            c == self.spec_code(),
    {
        match self {
            OrderStatus::RECEIVED => 0,
            OrderStatus::ASSIGNED => 1,
            OrderStatus::ACCEPTED => 2,
            OrderStatus::CANCELLED => 3,
            OrderStatus::REJECTED => 4,
            OrderStatus::ABANDONED => 5,
            OrderStatus::REFUSED => 6,
            OrderStatus::PICKEDUP => 7,
            OrderStatus::COMPLETED => 8,
        }
    }

    /// The name of the status.
    pub fn name(&self) -> (s: String)
        ensures
            s@ == self.spec_name(),
    {
        match self {
            OrderStatus::RECEIVED => "RECEIVED".to_string(),
            OrderStatus::ASSIGNED => "ASSIGNED".to_string(),
            OrderStatus::ACCEPTED => "ACCEPTED".to_string(),
            OrderStatus::CANCELLED => "CANCELLED".to_string(),
            OrderStatus::REJECTED => "REJECTED".to_string(),
            OrderStatus::ABANDONED => "ABANDONED".to_string(),
            OrderStatus::REFUSED => "REFUSED".to_string(),
            OrderStatus::PICKEDUP => "PICKEDUP".to_string(),
            OrderStatus::COMPLETED => "COMPLETED".to_string(),
        }
    }

    /// Whether an order in this status still counts against its customer.
    pub fn is_open(&self) -> (open: bool)
        ensures
            open == self.spec_is_open(),
    {
        match self {
            OrderStatus::CANCELLED => false,
            OrderStatus::REJECTED => false,
            OrderStatus::ABANDONED => false,
            OrderStatus::REFUSED => false,
            _ => true,
        }
    }
}

/// Nothing leads to refused or back to received; an order is aborted from
/// assigned or accepted and from nowhere else; and an order that moves was
/// open and moves to another status.
pub proof fn lemma_order_life(from: OrderStatus, to: OrderStatus)
    ensures
        !from.spec_can_become(OrderStatus::REFUSED),
        !from.spec_can_become(OrderStatus::RECEIVED),
        to.spec_is_abort() ==> (from.spec_can_become(to) <==> from == OrderStatus::ASSIGNED || from
            == OrderStatus::ACCEPTED),
        from.spec_can_become(to) ==> from.spec_is_open() && from != OrderStatus::COMPLETED && from
            != to,
{
}

impl Default for OrderStatus {
    fn default() -> (s: OrderStatus)
        ensures
            s == OrderStatus::REFUSED,
    {
        OrderStatus::REFUSED
    }
}

/// The status that a stored number names, if it names an order status.
pub open spec fn order_status_of(code: i32) -> Option<OrderStatus> {
    if code == 0 {
        Some(OrderStatus::RECEIVED)
    } else if code == 1 {
        Some(OrderStatus::ASSIGNED)
    } else if code == 2 {
        Some(OrderStatus::ACCEPTED)
    } else if code == 3 {
        Some(OrderStatus::CANCELLED)
    } else if code == 4 {
        Some(OrderStatus::REJECTED)
    } else if code == 5 {
        Some(OrderStatus::ABANDONED)
    } else if code == 6 {
        Some(OrderStatus::REFUSED)
    } else if code == 7 {
        Some(OrderStatus::PICKEDUP)
    } else if code == 8 {
        Some(OrderStatus::COMPLETED)
    } else {
        None
    }
}

/// Reads a stored order status; a number that names no status gives `None`.
pub fn get_order_status(idx: i32) -> (s: Option<OrderStatus>)
    ensures
        s == order_status_of(idx),
        s is Some <==> 0 <= idx <= 8,
        s matches Some(v) ==> v.spec_code() == idx,
{
    match idx {
        0 => Some(OrderStatus::RECEIVED),
        1 => Some(OrderStatus::ASSIGNED),
        2 => Some(OrderStatus::ACCEPTED),
        3 => Some(OrderStatus::CANCELLED),
        4 => Some(OrderStatus::REJECTED),
        5 => Some(OrderStatus::ABANDONED),
        6 => Some(OrderStatus::REFUSED),
        7 => Some(OrderStatus::PICKEDUP),
        8 => Some(OrderStatus::COMPLETED),
        _ => None,
    }
}

impl RouteStatus {
    /// The number under which the status is stored.
    pub open spec fn spec_code(self) -> int {
        match self {
            RouteStatus::PLANNED => 0,
            RouteStatus::ASSIGNED => 1,
            RouteStatus::ACCEPTED => 2,
            RouteStatus::REJECTED => 3,
            RouteStatus::ABANDONED => 4,
            RouteStatus::STARTED => 5,
            RouteStatus::COMPLETED => 6,
        }
    }

    /// The name under which the status crosses the service boundary.
    pub open spec fn spec_name(self) -> Seq<char> {
        match self {
            RouteStatus::PLANNED => "PLANNED"@,
            RouteStatus::ASSIGNED => "ASSIGNED"@,
            RouteStatus::ACCEPTED => "ACCEPTED"@,
            RouteStatus::REJECTED => "REJECTED"@,
            RouteStatus::ABANDONED => "ABANDONED"@,
            RouteStatus::STARTED => "STARTED"@,
            RouteStatus::COMPLETED => "COMPLETED"@,
        }
    }

    /// Whether the status ends a route before it starts: rejected by the
    /// customer or abandoned.
    pub open spec fn spec_is_abort(self) -> bool {
        self == RouteStatus::REJECTED || self == RouteStatus::ABANDONED
    }

    /// Whether a route in this status may pass to `next`. A route goes from
    /// planned to assigned, accepted, started and completed, one step at a
    /// time; while assigned or accepted it may be aborted.
    pub open spec fn spec_can_become(self, next: RouteStatus) -> bool {
        match self {
            RouteStatus::PLANNED => next == RouteStatus::ASSIGNED,
            RouteStatus::ASSIGNED => next == RouteStatus::ACCEPTED || next.spec_is_abort(),
            RouteStatus::ACCEPTED => next == RouteStatus::STARTED || next.spec_is_abort(),
            RouteStatus::STARTED => next == RouteStatus::COMPLETED,
            _ => false,
        }
    }

    /// Whether a leg in this status may pass to `next`. A leg goes from
    /// assigned to started and from started to completed.
    pub open spec fn spec_leg_can_become(self, next: RouteStatus) -> bool {
        match self {
            RouteStatus::ASSIGNED => next == RouteStatus::STARTED,
            RouteStatus::STARTED => next == RouteStatus::COMPLETED,
            _ => false,
        }
    }

    /// Whether a route in this status may pass to `next`.
    pub fn can_become(&self, next: RouteStatus) -> (allowed: bool)
        ensures
            allowed == self.spec_can_become(next),
    {
        let abort = next == RouteStatus::REJECTED || next == RouteStatus::ABANDONED;
        match self {
            RouteStatus::PLANNED => next == RouteStatus::ASSIGNED,
            RouteStatus::ASSIGNED => next == RouteStatus::ACCEPTED || abort,
            RouteStatus::ACCEPTED => next == RouteStatus::STARTED || abort,
            RouteStatus::STARTED => next == RouteStatus::COMPLETED,
            _ => false,
        }
    }

    /// Whether a leg in this status may pass to `next`.
    pub fn leg_can_become(&self, next: RouteStatus) -> (allowed: bool)
        ensures
            allowed == self.spec_leg_can_become(next),
    {
        match self {
            RouteStatus::ASSIGNED => next == RouteStatus::STARTED,
            RouteStatus::STARTED => next == RouteStatus::COMPLETED,
            _ => false,
        }
    }

    /// The number under which the status is stored.
    pub fn code(&self) -> (c: i32)
        ensures
            c == self.spec_code(),
    {
        match self {
            RouteStatus::PLANNED => 0,
            RouteStatus::ASSIGNED => 1,
            RouteStatus::ACCEPTED => 2,
            RouteStatus::REJECTED => 3,
            RouteStatus::ABANDONED => 4,
            RouteStatus::STARTED => 5,
            RouteStatus::COMPLETED => 6,
        }
    }

    /// The name of the status.
    pub fn name(&self) -> (s: String)
        ensures
            s@ == self.spec_name(),
    {
        match self {
            RouteStatus::PLANNED => "PLANNED".to_string(),
            RouteStatus::ASSIGNED => "ASSIGNED".to_string(),
            RouteStatus::ACCEPTED => "ACCEPTED".to_string(),
            RouteStatus::REJECTED => "REJECTED".to_string(),
            RouteStatus::ABANDONED => "ABANDONED".to_string(),
            RouteStatus::STARTED => "STARTED".to_string(),
            RouteStatus::COMPLETED => "COMPLETED".to_string(),
        }
    }
}

/// Nothing leads back to planned; a route is aborted from assigned or
/// accepted and from nowhere else; nothing leads on from a route that was
/// completed, rejected or abandoned; and a leg moves only where a route can
/// be, started or completed.
pub proof fn lemma_route_life(from: RouteStatus, to: RouteStatus)
    ensures
        !from.spec_can_become(RouteStatus::PLANNED),
        to.spec_is_abort() ==> (from.spec_can_become(to) <==> from == RouteStatus::ASSIGNED || from
            == RouteStatus::ACCEPTED),
        from.spec_can_become(to) ==> from != RouteStatus::COMPLETED && !from.spec_is_abort() && from
            != to,
        from.spec_leg_can_become(to) ==> to == RouteStatus::STARTED || to == RouteStatus::COMPLETED,
{
}

impl Default for RouteStatus {
    fn default() -> (s: RouteStatus)
        ensures
            s == RouteStatus::REJECTED,
    {
        RouteStatus::REJECTED
    }
}

/// The status that a stored number names, if it names a route status.
pub open spec fn route_status_of(code: i32) -> Option<RouteStatus> {
    if code == 0 {
        Some(RouteStatus::PLANNED)
    } else if code == 1 {
        Some(RouteStatus::ASSIGNED)
    } else if code == 2 {
        Some(RouteStatus::ACCEPTED)
    } else if code == 3 {
        Some(RouteStatus::REJECTED)
    } else if code == 4 {
        Some(RouteStatus::ABANDONED)
    } else if code == 5 {
        Some(RouteStatus::STARTED)
    } else if code == 6 {
        Some(RouteStatus::COMPLETED)
    } else {
        None
    }
}

/// Reads a stored route or leg status; a number that names no status gives
/// `None`.
pub fn get_route_status(idx: i32) -> (s: Option<RouteStatus>)
    ensures
        s == route_status_of(idx),
        s is Some <==> 0 <= idx <= 6,
        s matches Some(v) ==> v.spec_code() == idx,
{
    match idx {
        0 => Some(RouteStatus::PLANNED),
        1 => Some(RouteStatus::ASSIGNED),
        2 => Some(RouteStatus::ACCEPTED),
        3 => Some(RouteStatus::REJECTED),
        4 => Some(RouteStatus::ABANDONED),
        5 => Some(RouteStatus::STARTED),
        6 => Some(RouteStatus::COMPLETED),
        _ => None,
    }
}

/// A cab: where it stands and what it is doing.
#[derive(Debug, Copy, Clone, PartialEq, Eq)]
pub struct Cab {
    pub id: i64,
    /// The stop at which the cab stands.
    pub location: i32,
    pub status: CabStatus,
    pub seats: i8,
}

impl Cab {
    /// The cab that stands for "no cab": every number is -1.
    pub open spec fn spec_default() -> Cab {
        Cab { id: NO_ID, location: NO_STOP, status: CabStatus::CHARGING, seats: NO_SEATS }
    }
}

impl Default for Cab {
    fn default() -> (c: Cab)
        ensures
            c == Cab::spec_default(),
    {
        Cab { id: NO_ID, location: NO_STOP, status: CabStatus::CHARGING, seats: NO_SEATS }
    }
}

/// A request to assign a cab to a customer's trip.
#[derive(Debug, Copy, Clone, PartialEq, Eq)]
pub struct CabAssign {
    pub cust_id: i64,
    pub from: i32,
    pub to: i32,
    pub loss: i32,
    pub shared: bool,
}

/// A customer's request for a ride between two stops.
#[derive(Debug, Copy, Clone, PartialEq, Eq)]
pub struct Order {
    pub id: i64,
    pub from: i32,
    pub to: i32,
    /// The longest wait the customer accepts, in minutes.
    pub wait: i32,
    /// The longest detour the customer accepts, in percent.
    pub loss: i32,
    /// Travel minutes between the two stops, frozen when the order is made.
    pub distance: i32,
    pub shared: bool,
    pub in_pool: bool,
    pub status: OrderStatus,
    pub received: Option<Timestamp>,
    pub started: Option<Timestamp>,
    pub completed: Option<Timestamp>,
    pub at_time: Option<Timestamp>,
    pub eta: i32,
    /// The cab assigned to the order, as it was when the order was read.
    pub cab: Cab,
    pub cust_id: i64,
    pub route_id: i64,
    pub leg_id: i64,
}

impl Order {
    /// The order that stands for "no order": refused, with no stops.
    pub open spec fn spec_default() -> Order {
        Order {
            id: NO_ID,
            from: NO_STOP,
            to: NO_STOP,
            wait: 0,
            loss: 0,
            distance: 0,
            shared: false,
            in_pool: false,
            status: OrderStatus::REFUSED,
            received: None,
            started: None,
            completed: None,
            at_time: None,
            eta: 0,
            cab: Cab::spec_default(),
            cust_id: NO_ID,
            route_id: NO_ID,
            leg_id: NO_ID,
        }
    }
}

impl Default for Order {
    fn default() -> (o: Order)
        ensures
            o == Order::spec_default(),
    {
        Order {
            id: NO_ID,
            from: NO_STOP,
            to: NO_STOP,
            wait: 0,
            loss: 0,
            distance: 0,
            shared: false,
            in_pool: false,
            status: OrderStatus::REFUSED,
            received: None,
            started: None,
            completed: None,
            at_time: None,
            eta: 0,
            cab: Cab::default(),
            cust_id: NO_ID,
            route_id: NO_ID,
            leg_id: NO_ID,
        }
    }
}

/// A pick-up and drop-off point. The coordinates are held as the bit patterns
/// of IEEE 754 double-precision numbers of degrees: the core reads them only
/// to tell a number from what is not one.
#[derive(Debug, Clone, PartialEq, Eq)]
pub struct Stop {
    pub id: i64,
    pub bearing: i32,
    pub latitude: u64,
    pub longitude: u64,
    pub name: Option<String>,
}

/// A stop as contracts see it.
pub struct StopView {
    pub id: i64,
    pub bearing: i32,
    pub latitude: u64,
    pub longitude: u64,
    pub name: Option<Seq<char>>,
}

impl View for Stop {
    type V = StopView;

    open spec fn view(&self) -> StopView {
        StopView {
            id: self.id,
            bearing: self.bearing,
            latitude: self.latitude,
            longitude: self.longitude,
            name: match self.name {
                Some(n) => Some(n@),
                None => None,
            },
        }
    }
}

impl Stop {
    /// A copy of the stop.
    pub fn duplicate(&self) -> (s: Stop)
        ensures
            s@ == self@,
    {
        let name = match &self.name {
            Some(n) => Some(n.clone()),
            None => None,
        };
        Stop {
            id: self.id,
            bearing: self.bearing,
            latitude: self.latitude,
            longitude: self.longitude,
            name,
        }
    }
}

/// One segment of a route, between two consecutive stops.
#[derive(Debug, Copy, Clone, PartialEq, Eq)]
pub struct Leg {
    pub id: i64,
    pub route_id: i64,
    pub from: i32,
    pub to: i32,
    /// The position of the leg within its route.
    pub place: i32,
    /// Planned travel time in minutes.
    pub dist: i32,
    pub started: Option<Timestamp>,
    pub completed: Option<Timestamp>,
    pub status: RouteStatus,
    pub passengers: i32,
}

/// An ordered sequence of legs driven by one cab.
#[derive(Debug, Clone, PartialEq, Eq)]
pub struct Route {
    pub id: i64,
    pub status: RouteStatus,
    pub legs: Vec<Leg>,
    /// The cab that drives the route, as it was when the route was read.
    pub cab: Cab,
}

/// A route as contracts see it.
pub struct RouteView {
    pub id: i64,
    pub status: RouteStatus,
    pub legs: Seq<Leg>,
    pub cab: Cab,
}

impl View for Route {
    type V = RouteView;

    open spec fn view(&self) -> RouteView {
        RouteView { id: self.id, status: self.status, legs: self.legs@, cab: self.cab }
    }
}

impl Route {
    /// The route that stands for "no route": rejected, without legs.
    pub open spec fn spec_default() -> RouteView {
        RouteView {
            id: NO_ID,
            status: RouteStatus::REJECTED,
            legs: Seq::empty(),
            cab: Cab::spec_default(),
        }
    }
}

impl Default for Route {
    fn default() -> (r: Route)
        ensures
            r@ == Route::spec_default(),
    {
        Route {
            id: NO_ID,
            status: RouteStatus::REJECTED,
            legs: Vec::new(),
            cab: Cab::default(),
        }
    }
}

/// A route with the orders that ride on it.
#[derive(Debug, Clone, PartialEq, Eq)]
pub struct RouteWithOrders {
    pub route: Route,
    pub orders: Vec<Order>,
    pub cab: Cab,
}

/// What is on its way to a stop, and which cabs wait there.
#[derive(Debug, Clone, PartialEq, Eq)]
pub struct StopTraffic {
    pub stop: Option<Stop>,
    /// The routes that will call at the stop, soonest first.
    pub routes: Vec<RouteWithEta>,
    /// Free cabs standing at the stop.
    pub cabs: Vec<Cab>,
}

/// A route and the minutes until it reaches the stop asked about.
#[derive(Debug, Clone, PartialEq, Eq)]
pub struct RouteWithEta {
    pub eta: i16,
    pub route: Route,
}

/// A route with its estimate as contracts see it.
pub struct RouteWithEtaView {
    pub eta: i16,
    pub route: RouteView,
}

impl View for RouteWithEta {
    type V = RouteWithEtaView;

    open spec fn view(&self) -> RouteWithEtaView {
        RouteWithEtaView { eta: self.eta, route: self.route@ }
    }
}

/// The traffic at a stop as contracts see it.
pub struct StopTrafficView {
    pub stop: Option<StopView>,
    pub routes: Seq<RouteWithEtaView>,
    pub cabs: Seq<Cab>,
}

/// The views of a list of routes with their estimates.
pub open spec fn views_of_routes(routes: Seq<RouteWithEta>) -> Seq<RouteWithEtaView> {
    routes.map_values(|r: RouteWithEta| r@)
}

impl View for StopTraffic {
    type V = StopTrafficView;

    open spec fn view(&self) -> StopTrafficView {
        StopTrafficView {
            stop: match self.stop {
                Some(s) => Some(s@),
                None => None,
            },
            routes: views_of_routes(self.routes@),
            cabs: self.cabs@,
        }
    }
}

/// The figures of the service: latency averages, orders by status, cabs by
/// status.
#[derive(Debug, Clone, PartialEq, Eq)]
pub struct Stats {
    pub kpis: Vec<Stat>,
    pub orders: Vec<Stat>,
    pub cabs: Vec<Stat>,
}

/// One named figure.
#[derive(Debug, Clone, PartialEq, Eq)]
pub struct Stat {
    pub name: String,
    pub int_val: i32,
}

/// A named figure as contracts see it.
pub struct StatView {
    pub name: Seq<char>,
    pub int_val: i32,
}

impl View for Stat {
    type V = StatView;

    open spec fn view(&self) -> StatView {
        StatView { name: self.name@, int_val: self.int_val }
    }
}

/// The views of a list of figures.
pub open spec fn views_of_stats(stats: Seq<Stat>) -> Seq<StatView> {
    stats.map_values(|s: Stat| s@)
}

/// The figures of the service as contracts see them.
pub struct StatsView {
    pub kpis: Seq<StatView>,
    pub orders: Seq<StatView>,
    pub cabs: Seq<StatView>,
}

impl View for Stats {
    type V = StatsView;

    open spec fn view(&self) -> StatsView {
        StatsView {
            kpis: views_of_stats(self.kpis@),
            orders: views_of_stats(self.orders@),
            cabs: views_of_stats(self.cabs@),
        }
    }
}

/// The views of a list of stops.
pub open spec fn views_of_stops(stops: Seq<Stop>) -> Seq<StopView> {
    stops.map_values(|s: Stop| s@)
}

/// A route with its orders as contracts see it.
pub struct RouteWithOrdersView {
    pub route: RouteView,
    pub orders: Seq<Order>,
    pub cab: Cab,
}

impl View for RouteWithOrders {
    type V = RouteWithOrdersView;

    open spec fn view(&self) -> RouteWithOrdersView {
        RouteWithOrdersView { route: self.route@, orders: self.orders@, cab: self.cab }
    }
}

} // verus!
