//! Closed date windows and the classification of timestamps against them.
use vstd::prelude::*;

verus! {

/// An instant in UTC, as whole seconds since the Unix epoch.
pub type Timestamp = i64;

/// A closed interval `[oldest, newest]` of instants.
#[derive(Debug, Clone, Copy, PartialEq, Eq, Structural)]
pub struct DateWindow {
    pub oldest: Timestamp,
    pub newest: Timestamp,
}

/// Where an instant lies relative to a window.
#[derive(Debug, Clone, Copy, PartialEq, Eq, Structural)]
pub enum WindowPosition {
    /// Strictly older than the window's oldest instant.
    Before,
    /// Within the window, both bounds included.
    Inside,
    /// Strictly newer than the window's newest instant.
    After,
}

/// Input rejected before any request is made.
#[derive(Debug, Clone, Copy, PartialEq, Eq, Structural)]
pub enum ValidationError {
    /// The newest instant does not come strictly after the oldest one.
    EmptyWindow { newest: Timestamp, oldest: Timestamp },
}

impl DateWindow {
    /// Builds the window `[oldest, newest]`, rejecting it unless `newest > oldest`.
    pub fn new(newest: Timestamp, oldest: Timestamp) -> (r: Result<DateWindow, ValidationError>)
        ensures
            newest <= oldest ==> r == Err::<DateWindow, ValidationError>(
                ValidationError::EmptyWindow { newest, oldest },
            ),
            newest > oldest ==> r == Ok::<DateWindow, ValidationError>(DateWindow { oldest, newest }),
    {
        if newest <= oldest {
            Err(ValidationError::EmptyWindow { newest, oldest })
        } else {
            Ok(DateWindow { oldest, newest })
        }
    }
}

/// Where `t` lies relative to `w`.
pub open spec fn position_of(t: Timestamp, w: DateWindow) -> WindowPosition {
    if t < w.oldest {
        WindowPosition::Before
    } else if t > w.newest {
        WindowPosition::After
    } else {
        WindowPosition::Inside
    }
}

/// Classifies `t` against the window: older than `oldest` is `Before`, newer
/// than `newest` is `After`, anything else (both bounds included) is `Inside`.
pub fn classify(t: Timestamp, w: &DateWindow) -> (r: WindowPosition)
    ensures
        r == position_of(t, *w),
{
    if t < w.oldest {
        WindowPosition::Before
    } else if t > w.newest {
        WindowPosition::After
    } else {
        WindowPosition::Inside
    }
}

} // verus!
