//! The weekly schedule model: days, open/close windows, and the
//! viability predicate that decides whether a restaurant is worth
//! suggesting at a given day and time.

use vstd::prelude::*;

use crate::time::{add_spec, cmp_spec, display_spec, Time};

verus! {

/// Minutes added to the query time before comparing against business
/// hours, to account for travel and decision lag before arrival.
pub const TRAVEL_BUFFER_MINUTES: u8 = 10;

/// Represents a day of the week.
#[derive(Clone, Copy, Debug, PartialEq, Eq, Structural)]
pub enum Day {
    Sunday,
    Monday,
    Tuesday,
    Wednesday,
    Thursday,
    Friday,
    Saturday,
}

/// The day a 0-based index denotes, 0 being Sunday; anything outside
/// `0..=5` falls back to Saturday.
pub open spec fn day_from_index(index: int) -> Day {
    if index == 0 {
        Day::Sunday
    } else if index == 1 {
        Day::Monday
    } else if index == 2 {
        Day::Tuesday
    } else if index == 3 {
        Day::Wednesday
    } else if index == 4 {
        Day::Thursday
    } else if index == 5 {
        Day::Friday
    } else {
        Day::Saturday
    }
}

impl From<i32> for Day {
    fn from(index: i32) -> (day: Day) {
        match index {
            0 => Day::Sunday,
            1 => Day::Monday,
            2 => Day::Tuesday,
            3 => Day::Wednesday,
            4 => Day::Thursday,
            5 => Day::Friday,
            _ => Day::Saturday,
        }
    }
}

impl vstd::std_specs::convert::FromSpecImpl<i32> for Day {
    open spec fn obeys_from_spec() -> bool {
        true
    }

    open spec fn from_spec(index: i32) -> Day {
        day_from_index(index as int)
    }
}

/// Represents the times that a business is open.
#[derive(Clone, Copy, Debug, PartialEq, Eq, Structural)]
pub struct Hours {
    pub start: Time,
    pub end: Time,
}

/// The display label of an open/close window. Two window ends whose
/// 12-hour labels coincide read as open around the clock; the equality is
/// on the formatted output, not on the raw values.
pub open spec fn hours_display_spec(h: Hours) -> Seq<char> {
    if display_spec(h.start) == display_spec(h.end) {
        "Open 24 hours"@
    } else {
        display_spec(h.start) + "\u{2013}"@ + display_spec(h.end)
    }
}

impl Hours {
    /// Both window ends lie on the 48-hour clock.
    pub open spec fn wf(self) -> bool {
        self.start.wf() && self.end.wf()
    }

    /// A window open from `start` to `end`.
    pub fn new(start: Time, end: Time) -> (h: Self)
        ensures
            h.start == start,
            h.end == end,
    {
        Self { start, end }
    }

    /// Formats this window for display, as `hours_display_spec`
    /// describes: an en-dash-separated pair of 12-hour labels, or
    /// `Open 24 hours` when the two labels coincide.
    pub fn to_display(&self) -> (out: String)
        requires
            self.wf(),
        ensures
            out@ == hours_display_spec(*self),
    {
        let start = self.start.to_display();
        let end = self.end.to_display();
        if start == end {
            let out = String::from_str("Open 24 hours");
            proof {
                reveal_strlit("Open 24 hours");
            }
            out
        } else {
            let mut out = start;
            out.append("\u{2013}");
            out.append(end.as_str());
            proof {
                assert(out@ =~= hours_display_spec(*self));
            }
            out
        }
    }
}

/// The optional open/close window of each day of a week; a day without
/// one is closed.
#[derive(Clone, Copy, Debug)]
pub struct HoursMap {
    pub sunday: Option<Hours>,
    pub monday: Option<Hours>,
    pub tuesday: Option<Hours>,
    pub wednesday: Option<Hours>,
    pub thursday: Option<Hours>,
    pub friday: Option<Hours>,
    pub saturday: Option<Hours>,
}

impl HoursMap {
    /// The window of the given day, if the business opens at all.
    pub open spec fn on(self, day: Day) -> Option<Hours> {
        match day {
            Day::Sunday => self.sunday,
            Day::Monday => self.monday,
            Day::Tuesday => self.tuesday,
            Day::Wednesday => self.wednesday,
            Day::Thursday => self.thursday,
            Day::Friday => self.friday,
            Day::Saturday => self.saturday,
        }
    }

    /// Every window present is well formed.
    pub open spec fn wf(self) -> bool {
        forall|day: Day| (#[trigger] self.on(day)) matches Some(h) ==> h.wf()
    }

    /// A week with no open day.
    pub fn closed_all_week() -> (m: Self)
        ensures
            forall|day: Day| #[trigger] m.on(day) is None,
    {
        Self {
            sunday: None,
            monday: None,
            tuesday: None,
            wednesday: None,
            thursday: None,
            friday: None,
            saturday: None,
        }
    }

    /// This week, with the given day's window replaced.
    pub fn with_day(self, day: Day, hours: Option<Hours>) -> (m: Self)
        ensures
            m.on(day) == hours,
            forall|d: Day| d != day ==> #[trigger] m.on(d) == self.on(d),
    {
        let mut m = self;
        match day {
            Day::Sunday => m.sunday = hours,
            Day::Monday => m.monday = hours,
            Day::Tuesday => m.tuesday = hours,
            Day::Wednesday => m.wednesday = hours,
            Day::Thursday => m.thursday = hours,
            Day::Friday => m.friday = hours,
            Day::Saturday => m.saturday = hours,
        }
        m
    }
}

/// The mathematical image of a `Restaurant`: its name as a character
/// sequence together with its weekly windows.
pub struct RestaurantView {
    pub name: Seq<char>,
    pub hours: HoursMap,
}

impl RestaurantView {
    /// Every window of the week is well formed.
    pub open spec fn wf(self) -> bool {
        self.hours.wf()
    }
}

/// Whether a restaurant is a suitable candidate at the given day and
/// time: it must open that day, and the time plus the travel buffer must
/// fall strictly inside the open window — a restaurant closing exactly at
/// the buffered time is not viable.
pub open spec fn viable_spec(r: RestaurantView, day: Day, time: Time) -> bool {
    match r.hours.on(day) {
        None => false,
        Some(hours) => {
            let t = add_spec(time, TRAVEL_BUFFER_MINUTES);
            cmp_spec(hours.start, t) == core::cmp::Ordering::Less && cmp_spec(hours.end, t)
                == core::cmp::Ordering::Greater
        },
    }
}

/// Law: a restaurant with no window on a day is never viable that day,
/// whatever the time.
pub proof fn lemma_closed_day_never_viable(r: RestaurantView, day: Day, time: Time)
    requires
        r.hours.on(day) is None,
    ensures
        !viable_spec(r, day, time),
{
}

/// Encapsulates a restaurant/business and its hours.
#[derive(Debug)]
pub struct Restaurant {
    pub name: String,
    pub hours: HoursMap,
}

impl View for Restaurant {
    type V = RestaurantView;

    open spec fn view(&self) -> RestaurantView {
        RestaurantView { name: self.name@, hours: self.hours }
    }
}

impl DeepView for Restaurant {
    type V = RestaurantView;

    open spec fn deep_view(&self) -> RestaurantView {
        self@
    }
}

impl Clone for Restaurant {
    fn clone(&self) -> (r: Self)
        ensures
            r@ == self@,
    {
        Restaurant { name: self.name.clone(), hours: self.hours }
    }
}

impl Restaurant {
    /// A restaurant with the given display name and weekly windows.
    pub fn new(name: String, hours: HoursMap) -> (r: Self)
        ensures
            r@ == (RestaurantView { name: name@, hours }),
    {
        Restaurant { name, hours }
    }

    /// Gets the hours of this restaurant on the given day.
    pub fn get_hours(&self, day: Day) -> (h: Option<Hours>)
        ensures
            h == self@.hours.on(day),
    {
        match day {
            Day::Sunday => self.hours.sunday,
            Day::Monday => self.hours.monday,
            Day::Tuesday => self.hours.tuesday,
            Day::Wednesday => self.hours.wednesday,
            Day::Thursday => self.hours.thursday,
            Day::Friday => self.hours.friday,
            Day::Saturday => self.hours.saturday,
        }
    }

    /// Returns whether this restaurant is open on the given day.
    pub fn is_open(&self, day: Day) -> (b: bool)
        ensures
            b == self@.hours.on(day) is Some,
    {
        self.get_hours(day).is_some()
    }

    /// Returns whether this restaurant is a suitable candidate for dining,
    /// considering travel time and business hours.
    pub fn is_viable(&self, day: Day, time: Time) -> (b: bool)
        requires
            time.wf(),
        ensures
            b == viable_spec(self@, day, time),
    {
        match self.get_hours(day) {
            None => false,
            Some(hours) => {
                let t = time.add_minutes(TRAVEL_BUFFER_MINUTES);
                hours.start < t && hours.end > t
            },
        }
    }
}

} // verus!
