//! The mark that shows, for a moment, where the player clicked and whether
//! the click was on the beat.

use crate::geometry::Point;
use crate::tempo::MICROS_PER_MILLI;
use vstd::prelude::*;

verus! {

/// The mark stands this far to the left of the click, in points.
pub const MARK_OFFSET_X: i64 = 24;

/// The mark stands this far above the click, in points.
pub const MARK_OFFSET_Y: i64 = 48;

/// The mark stays for this long, in milliseconds.
pub const MARK_LINGER: u64 = 250;

/// What the game tells the mark.
#[derive(Clone, Copy, Debug, PartialEq, Eq)]
pub enum ClickCommand {
    /// A click was judged: on the beat or off it, at `location` if it has one.
    SetStatus { success: bool, location: Option<Point> },
}

/// The mark to show: where, and for a click on the beat or off it.
#[derive(Clone, Copy, Debug, PartialEq, Eq, Structural)]
pub struct ClickMark {
    pub location: Point,
    pub success: bool,
}

/// Where the mark stands and when it was last shown.
#[derive(Clone, Copy, Debug, PartialEq, Eq)]
pub struct Clicks {
    pub location: Point,
    pub last_click: Option<u64>,
}

/// `value` less `offset`, held within the type.
pub open spec fn moved_back(value: i64, offset: i64) -> i64 {
    if value - offset < i64::MIN {
        i64::MIN
    } else if value - offset > i64::MAX {
        i64::MAX
    } else {
        (value - offset) as i64
    }
}

/// Where the mark stands for a click at `location`: up and to the left.
pub open spec fn mark_location(location: Point) -> Point {
    Point {
        x: moved_back(location.x, MARK_OFFSET_X),
        y: moved_back(location.y, MARK_OFFSET_Y),
    }
}

impl Clicks {
    /// The state after `command` at `now`: a click with a location moves
    /// the mark there and shows it; one without changes nothing.
    pub open spec fn after_input(&self, command: ClickCommand, now: u64) -> Clicks {
        match command {
            ClickCommand::SetStatus { success, location } => match location {
                Some(location) => Clicks {
                    location: mark_location(location),
                    last_click: Some(now),
                },
                None => *self,
            },
        }
    }

    /// The mark to show for `command`, if it has a location.
    pub open spec fn mark_for(command: ClickCommand) -> Option<ClickMark> {
        match command {
            ClickCommand::SetStatus { success, location } => match location {
                Some(location) => Some(ClickMark { location: mark_location(location), success }),
                None => None,
            },
        }
    }

    /// Whether the mark has stayed its time at `now`.
    pub open spec fn expired(&self, now: u64) -> bool {
        self.last_click matches Some(shown) && now >= shown && (now - shown) / (
        MICROS_PER_MILLI as int) > MARK_LINGER
    }

    /// No mark has been shown.
    pub fn new() -> (clicks: Clicks)
        ensures
            clicks == (Clicks { location: Point { x: 0, y: 0 }, last_click: None }),
    {
        Clicks { location: Point { x: 0, y: 0 }, last_click: None }
    }

    /// Takes the judgment of a click, and says which mark to show for it.
    pub fn receive_input(&mut self, command: ClickCommand, now: u64) -> (mark: Option<ClickMark>)
        ensures
            *final(self) == old(self).after_input(command, now),
            mark == Self::mark_for(command),
    {
        match command {
            ClickCommand::SetStatus { success, location } => match location {
                Some(location) => {
                    let x = if location.x < i64::MIN + MARK_OFFSET_X {
                        i64::MIN
                    } else {
                        location.x - MARK_OFFSET_X
                    };
                    let y = if location.y < i64::MIN + MARK_OFFSET_Y {
                        i64::MIN
                    } else {
                        location.y - MARK_OFFSET_Y
                    };
                    self.location = Point { x, y };
                    self.last_click = Some(now);
                    Some(ClickMark { location: self.location, success })
                },
                None => None,
            },
        }
    }

    /// Whether the mark is to be taken down at `now`.
    pub fn update(&self, now: u64) -> (hide: bool)
        ensures
            hide == self.expired(now),
    {
        match self.last_click {
            Some(shown) => now >= shown && (now - shown) / MICROS_PER_MILLI > MARK_LINGER,
            None => false,
        }
    }
}

} // verus!
