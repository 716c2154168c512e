//! One recurring alert definition: its fields, its validity limits, the
//! validated constructor, and its rendered forms.

use vstd::prelude::*;

use crate::numfmt::dec_digits;
use crate::numfmt::u64_to_string;

verus! {

/// Upper bound on the number of Unicode scalar values in a title.
pub const TITLE_LIMIT: usize = 100;

/// Upper bound on the number of Unicode scalar values in a message.
pub const MESSAGE_LIMIT: usize = 500;

/// One recurring alert definition. An `id` of zero is the sentinel for
/// "not yet assigned"; the daemon assigns the real id at insertion time.
pub struct AlertSchedule {
    pub id: u64,
    pub title: String,
    pub message: String,
    pub repeat_interval_in_seconds: u64,
    pub stopped: bool,
}

/// The mathematical value of an [`AlertSchedule`]: the same fields with
/// the text as character sequences.
pub struct ScheduleView {
    pub id: u64,
    pub title: Seq<char>,
    pub message: Seq<char>,
    pub repeat_interval_in_seconds: u64,
    pub stopped: bool,
}

impl View for AlertSchedule {
    type V = ScheduleView;

    open spec fn view(&self) -> ScheduleView {
        ScheduleView {
            id: self.id,
            title: self.title@,
            message: self.message@,
            repeat_interval_in_seconds: self.repeat_interval_in_seconds,
            stopped: self.stopped,
        }
    }
}

impl DeepView for AlertSchedule {
    type V = ScheduleView;

    open spec fn deep_view(&self) -> ScheduleView {
        self.view()
    }
}

impl Clone for AlertSchedule {
    fn clone(&self) -> (r: Self)
        ensures
            r@ == self@,
    {
        AlertSchedule {
            id: self.id,
            title: self.title.clone(),
            message: self.message.clone(),
            repeat_interval_in_seconds: self.repeat_interval_in_seconds,
            stopped: self.stopped,
        }
    }
}

/// Whether a title is within the size limit.
pub open spec fn title_ok(title: Seq<char>) -> bool {
    title.len() <= TITLE_LIMIT
}

/// Whether a message is within the size limit.
pub open spec fn message_ok(message: Seq<char>) -> bool {
    message.len() <= MESSAGE_LIMIT
}

/// The same schedule with the stopped flag replaced.
pub open spec fn with_stopped(s: ScheduleView, stopped: bool) -> ScheduleView {
    ScheduleView {
        id: s.id,
        title: s.title,
        message: s.message,
        repeat_interval_in_seconds: s.repeat_interval_in_seconds,
        stopped,
    }
}

/// The same schedule with the client-settable fields replaced.
pub open spec fn with_fields(
    s: ScheduleView,
    title: Seq<char>,
    message: Seq<char>,
    interval: u64,
) -> ScheduleView {
    ScheduleView {
        id: s.id,
        title,
        message,
        repeat_interval_in_seconds: interval,
        stopped: s.stopped,
    }
}

/// Why a schedule or a request was rejected.
#[derive(Clone, Copy, Debug, PartialEq, Eq, Structural)]
pub enum ScheduleError {
    TitleTooLong,
    MessageTooLong,
    InvalidId,
}

impl ScheduleError {
    /// The operator-facing description of the error.
    pub open spec fn spec_message(self) -> Seq<char> {
        match self {
            ScheduleError::TitleTooLong => "Title exceeds 100 characters"@,
            ScheduleError::MessageTooLong => "Message exceeds 500 characters"@,
            ScheduleError::InvalidId => "Invalid alert ID"@,
        }
    }

    /// Renders the error description.
    pub fn message(&self) -> (r: String)
        ensures
            r@ == self.spec_message(),
    {
        match self {
            ScheduleError::TitleTooLong => "Title exceeds 100 characters".to_owned(),
            ScheduleError::MessageTooLong => "Message exceeds 500 characters".to_owned(),
            ScheduleError::InvalidId => "Invalid alert ID".to_owned(),
        }
    }
}

impl AlertSchedule {
    /// Validated constructor: rejects an oversize title or message and
    /// otherwise yields an unassigned (`id == 0`), not-stopped schedule.
    pub fn new(title: String, message: String, repeat_interval_in_seconds: u64) -> (r: Result<
        AlertSchedule,
        ScheduleError,
    >)
        ensures
            !title_ok(title@) ==> r == Result::<AlertSchedule, ScheduleError>::Err(
                ScheduleError::TitleTooLong,
            ),
            title_ok(title@) && !message_ok(message@) ==> r == Result::<
                AlertSchedule,
                ScheduleError,
            >::Err(ScheduleError::MessageTooLong),
            title_ok(title@) && message_ok(message@) ==> r is Ok && r->Ok_0@ == (ScheduleView {
                id: 0,
                title: title@,
                message: message@,
                repeat_interval_in_seconds,
                stopped: false,
            }),
    {
        if title.as_str().unicode_len() > TITLE_LIMIT {
            return Err(ScheduleError::TitleTooLong);
        }
        if message.as_str().unicode_len() > MESSAGE_LIMIT {
            return Err(ScheduleError::MessageTooLong);
        }
        Ok(
            AlertSchedule {
                id: 0,
                title,
                message,
                repeat_interval_in_seconds,
                stopped: false,
            },
        )
    }

    /// The one-line rendering of a schedule: a `#`, the id right-aligned
    /// to three columns, then title, message and interval.
    pub open spec fn spec_display_line(s: ScheduleView) -> Seq<char> {
        "#"@ + Self::spec_padded_id(s.id) + "  "@ + s.title + " - "@ + s.message + " (every "@
            + dec_digits(s.repeat_interval_in_seconds as nat) + "s)"@
    }

    /// The id in decimal, right-aligned with spaces to three columns.
    pub open spec fn spec_padded_id(id: u64) -> Seq<char> {
        if id < 10 {
            "  "@ + dec_digits(id as nat)
        } else if id < 100 {
            " "@ + dec_digits(id as nat)
        } else {
            dec_digits(id as nat)
        }
    }

    /// Renders the schedule as its one-line form.
    pub fn display_line(&self) -> (r: String)
        ensures
            r@ == Self::spec_display_line(self@),
    {
        let mut r = "#".to_owned();
        if self.id < 10 {
            r.append("  ");
        } else if self.id < 100 {
            r.append(" ");
        }
        let digits = u64_to_string(self.id);
        r.append(digits.as_str());
        r.append("  ");
        r.append(self.title.as_str());
        r.append(" - ");
        r.append(self.message.as_str());
        r.append(" (every ");
        let interval = u64_to_string(self.repeat_interval_in_seconds);
        r.append(interval.as_str());
        r.append("s)");
        proof {
            assert(r@ =~= Self::spec_display_line(self@));
        }
        r
    }
}

} // verus!
