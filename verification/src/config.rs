//! Run-time options: the listing order, the amount of detail, and the filters.
use vstd::prelude::*;

verus! {

/// Order of the listing by total compilation time.
#[derive(Debug, Clone, Copy, PartialEq, Eq, Structural)]
pub enum Order {
    Ascending,
    Descending,
}

/// How much of the report is shown.
#[derive(Debug, Clone, Copy, PartialEq, Eq, Structural)]
pub enum Detail {
    Default,
    Extended,
    Full,
}

/// The other order.
pub open spec fn flipped(o: Order) -> Order {
    match o {
        Order::Ascending => Order::Descending,
        Order::Descending => Order::Ascending,
    }
}

impl Order {
    /// The next order in the cycle of orders.
    pub fn next(self) -> (r: Self)
        ensures
            r == flipped(self),
    {
        match self {
            Self::Ascending => Self::Descending,
            Self::Descending => Self::Ascending,
        }
    }

    /// Moves to the next order.
    pub fn toggle_next(&mut self)
        ensures
            *final(self) == flipped(*old(self)),
    {
        *self = self.next();
    }

    /// The previous order in the cycle of orders.
    pub fn prev(self) -> (r: Self)
        ensures
            r == flipped(self),
    {
        match self {
            Self::Ascending => Self::Descending,
            Self::Descending => Self::Ascending,
        }
    }

    /// Moves to the previous order.
    pub fn toggle_prev(&mut self)
        ensures
            *final(self) == flipped(*old(self)),
    {
        *self = self.prev();
    }

    /// The name of the order.
    pub fn to_str(&self) -> (r: &str)
        ensures
            r@ == order_name(*self),
    {
        match self {
            Self::Ascending => "Ascending",
            Self::Descending => "Descending",
        }
    }
}

/// The name shown for an order.
pub open spec fn order_name(o: Order) -> Seq<char> {
    match o {
        Order::Ascending => "Ascending"@,
        Order::Descending => "Descending"@,
    }
}

/// Stepping forward and then back through the orders returns to the start,
/// and so does stepping back and then forward.
pub proof fn lemma_next_prev_inverse(o: Order)
    ensures
        flipped(flipped(o)) == o,
{
}

/// Options of a run.
pub struct Config {
    /// Path of the timing report.
    pub path: String,
    /// Show at most this many units.
    pub top: Option<usize>,
    /// How much detail the summary shows.
    pub detail_level: Detail,
    /// Listing order by total time.
    pub order: Order,
    /// Only units whose name contains this text are shown.
    pub search: String,
    /// Only units that took at least this long are kept, in nanoseconds.
    pub min_time: u128,
    /// Whether the interactive view is wanted.
    pub interactive: bool,
}

/// The options as mathematical values.
pub struct ConfigView {
    pub path: Seq<char>,
    pub top: Option<usize>,
    pub detail_level: Detail,
    pub order: Order,
    pub search: Seq<char>,
    pub min_time: u128,
    pub interactive: bool,
}

impl View for Config {
    type V = ConfigView;

    open spec fn view(&self) -> ConfigView {
        ConfigView {
            path: self.path@,
            top: self.top,
            detail_level: self.detail_level,
            order: self.order,
            search: self.search@,
            min_time: self.min_time,
            interactive: self.interactive,
        }
    }
}

} // verus!
