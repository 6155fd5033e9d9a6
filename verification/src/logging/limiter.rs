//! The limit on warnings that repeat.

use vstd::prelude::*;
use vstd::string::*;
use crate::logging::durations;
use crate::logging::durations::SecondsReading;
use crate::logging::events;
use crate::logging::events::{
    is_tor_descriptor_upload_timeout_event,
    rewrite_message,
    should_suppress_event,
    LogEventFields,
    LogEventView,
};
use crate::numbers;
use crate::numbers::{decimal_u128, decimal_u64};
use crate::text;
use crate::text::concat;

verus! {

/// How long repeated warnings about descriptors are held back, in nanoseconds.
pub const TOR_DESCRIPTOR_TIMEOUT_SUPPRESSION_WINDOW: u128 = 600_000_000_000;

/// What becomes of a warning about a descriptor.
#[derive(Debug, Clone, Copy, PartialEq, Eq, Structural)]
pub enum TorDescriptorTimeoutDecision {
    /// It is written.
    EmitOriginal,
    /// It is held back.
    Suppress,
    /// It is written as a summary of those that were held back.
    EmitSummary {
        /// How many were held back.
        suppressed: u64,
        /// How long they were held back, in nanoseconds.
        window: u128,
    },
}

/// What holds back repeated warnings about descriptors. Times are nanoseconds of a
/// clock that only moves on.
#[derive(Debug, Clone, Copy, PartialEq, Eq, Structural)]
pub struct TorDescriptorTimeoutLimiter {
    /// How long warnings are held back.
    pub window: u128,
    /// When the last warning was written.
    pub window_started_at: Option<u128>,
    /// How many have been held back since.
    pub suppressed: u64,
    /// The decision that is made again for the second of two outputs.
    pub duplicate_formatter_decision: Option<TorDescriptorTimeoutDecision>,
}

impl TorDescriptorTimeoutLimiter {
    /// A limiter that has seen no warning.
    pub fn new(window: u128) -> (r: Self)
        ensures
            r == (TorDescriptorTimeoutLimiter {
                window,
                window_started_at: None,
                suppressed: 0,
                duplicate_formatter_decision: None,
            }),
    {
        TorDescriptorTimeoutLimiter {
            window,
            window_started_at: None,
            suppressed: 0,
            duplicate_formatter_decision: None,
        }
    }

    /// Whether a warning starts a new window at the given time. Time that seems to run
    /// backwards counts as none.
    pub open spec fn opens(self, now: u128) -> bool {
        match self.window_started_at {
            None => true,
            Some(start) => {
                let elapsed = if now >= start {
                    now - start
                } else {
                    0
                };
                elapsed >= self.window
            },
        }
    }

    /// What becomes of a warning at the given time.
    pub open spec fn decision(self, now: u128) -> TorDescriptorTimeoutDecision {
        if !self.opens(now) {
            TorDescriptorTimeoutDecision::Suppress
        } else if self.window_started_at is None || self.suppressed == 0 {
            TorDescriptorTimeoutDecision::EmitOriginal
        } else {
            TorDescriptorTimeoutDecision::EmitSummary {
                suppressed: self.suppressed,
                window: self.window,
            }
        }
    }

    /// The limiter after a warning at the given time.
    pub open spec fn after(self, now: u128) -> TorDescriptorTimeoutLimiter {
        if self.opens(now) {
            TorDescriptorTimeoutLimiter {
                window_started_at: Some(now),
                suppressed: if self.window_started_at is None {
                    self.suppressed
                } else {
                    0
                },
                ..self
            }
        } else {
            TorDescriptorTimeoutLimiter {
                suppressed: if self.suppressed == u64::MAX {
                    u64::MAX
                } else {
                    (self.suppressed + 1) as u64
                },
                ..self
            }
        }
    }

    /// Decides what becomes of a warning at the given time.
    pub fn decide_once(&mut self, now: u128) -> (r: TorDescriptorTimeoutDecision)
        ensures
            r == old(self).decision(now),
            *final(self) == old(self).after(now),
    {
        match self.window_started_at {
            None => {
                self.window_started_at = Some(now);
                TorDescriptorTimeoutDecision::EmitOriginal
            },
            Some(start) => {
                let elapsed: u128 = if now >= start {
                    now - start
                } else {
                    0
                };
                if elapsed >= self.window {
                    let suppressed: u64 = self.suppressed;
                    self.window_started_at = Some(now);
                    self.suppressed = 0;
                    if suppressed == 0 {
                        TorDescriptorTimeoutDecision::EmitOriginal
                    } else {
                        TorDescriptorTimeoutDecision::EmitSummary {
                            suppressed,
                            window: self.window,
                        }
                    }
                } else {
                    if self.suppressed < u64::MAX {
                        self.suppressed = self.suppressed + 1;
                    }
                    TorDescriptorTimeoutDecision::Suppress
                }
            },
        }
    }

    /// Decides what becomes of a warning, which two outputs ask for one after the other:
    /// the second gets the decision of the first.
    pub fn decide(&mut self, now: u128) -> (r: TorDescriptorTimeoutDecision)
        ensures
            match old(self).duplicate_formatter_decision {
                Some(decision) => r == decision && *final(self) == (TorDescriptorTimeoutLimiter {
                    duplicate_formatter_decision: None,
                    ..*old(self)
                }),
                None => r == old(self).decision(now) && *final(self) == (
                TorDescriptorTimeoutLimiter {
                    duplicate_formatter_decision: Some(r),
                    ..old(self).after(now)
                }),
            },
    {
        match self.duplicate_formatter_decision {
            Some(decision) => {
                self.duplicate_formatter_decision = None;
                decision
            },
            None => {
                let decision = self.decide_once(now);
                self.duplicate_formatter_decision = Some(decision);
                decision
            },
        }
    }
}

/// What a summary says.
pub open spec fn summary_text(suppressed: u64, window: u128) -> Seq<char> {
    "Tor descriptor upload timeouts are still occurring; suppressed "@ + numbers::nat_text(
        suppressed as nat,
    ) + " repeated warnings in the last "@ + numbers::nat_text(
        (window as nat / 1_000_000_000nat) / 60nat,
    ) + " minutes"@
}

/// What a summary says.
fn summary(suppressed: u64, window: u128) -> (r: String)
    ensures
        r@ == summary_text(suppressed, window),
{
    let count = decimal_u64(suppressed);
    let mut r = concat(
        "Tor descriptor upload timeouts are still occurring; suppressed ",
        count.as_str(),
    );
    r.append(" repeated warnings in the last ");
    let minutes = decimal_u128(window / 1_000_000_000 / 60);
    r.append(minutes.as_str());
    r.append(" minutes");
    r
}

/// An event after a decision about it, if it is written.
pub open spec fn limited(event: LogEventView, decision: TorDescriptorTimeoutDecision) -> Option<
    LogEventView,
> {
    match decision {
        TorDescriptorTimeoutDecision::EmitOriginal => Some(event),
        TorDescriptorTimeoutDecision::Suppress => None,
        TorDescriptorTimeoutDecision::EmitSummary { suppressed, window } => Some(
            LogEventView {
                message: Some(summary_text(suppressed, window)),
                fields: Seq::empty(),
            },
        ),
    }
}

/// Carries out a decision about an event, and says whether it is written.
pub fn apply_tor_descriptor_timeout_rate_limit(
    event: &mut LogEventFields,
    decision: TorDescriptorTimeoutDecision,
) -> (r: bool)
    ensures
        match limited(old(event)@, decision) {
            Some(after) => r && final(event)@ == after,
            None => !r && final(event)@ == old(event)@,
        },
{
    match decision {
        TorDescriptorTimeoutDecision::EmitOriginal => true,
        TorDescriptorTimeoutDecision::Suppress => false,
        TorDescriptorTimeoutDecision::EmitSummary { suppressed, window } => {
            event.message = Some(summary(suppressed, window));
            event.fields = Vec::new();
            assert(event@.fields =~= Seq::<(Seq<char>, Seq<char>)>::empty());
            true
        },
    }
}

/// Whether the limiter is asked about an event that has been put into plain words.
pub open spec fn is_limited(target: Seq<char>, event: LogEventView, warning: bool) -> bool {
    warning && events::is_descriptor_timeout(target, event)
}

/// An event as it is written, if it is. `decision` is what the limiter says of it, and
/// counts only where it is asked.
pub open spec fn prepared(
    target: Seq<char>,
    event: LogEventView,
    warning: bool,
    decision: TorDescriptorTimeoutDecision,
) -> Option<LogEventView> {
    let kept = if is_limited(target, event, warning) {
        limited(event, decision)
    } else {
        Some(event)
    };
    match kept {
        Some(after) => if events::is_suppressed(target, after) {
            None
        } else {
            Some(after)
        },
        None => None,
    }
}

/// Prepares an event for an output: puts it into plain words, and asks the limiter where
/// it is a warning that repeats. Says whether the event is written.
pub fn prepare_event_fields(
    target: &str,
    file: Option<&str>,
    event: &mut LogEventFields,
    reading: Option<&SecondsReading>,
    warning: bool,
    limiter: &mut TorDescriptorTimeoutLimiter,
    now: u128,
) -> (r: bool)
    ensures
        ({
            let told = events::rewritten(
                target@,
                text::opt_str(file),
                old(event)@,
                durations::reading_view(reading),
            );
            let decision = match old(limiter).duplicate_formatter_decision {
                Some(made) => made,
                None => old(limiter).decision(now),
            };
            &&& r == (prepared(target@, told, warning, decision) is Some)
            &&& r ==> prepared(target@, told, warning, decision) == Some(final(event)@)
            &&& !is_limited(target@, told, warning) ==> *final(limiter) == *old(limiter)
            &&& is_limited(target@, told, warning) ==> *final(limiter) == match old(
                limiter,
            ).duplicate_formatter_decision {
                Some(_) => TorDescriptorTimeoutLimiter {
                    duplicate_formatter_decision: None,
                    ..*old(limiter)
                },
                None => TorDescriptorTimeoutLimiter {
                    duplicate_formatter_decision: Some(decision),
                    ..old(limiter).after(now)
                },
            }
        }),
{
    rewrite_message(target, file, event, reading);
    if warning && is_tor_descriptor_upload_timeout_event(target, event) {
        let decision = limiter.decide(now);
        if !apply_tor_descriptor_timeout_rate_limit(event, decision) {
            return false;
        }
    }
    !should_suppress_event(target, event)
}

/// Both outputs get the same decision about one event, which is counted once.
pub proof fn law_two_outputs_agree(limiter: TorDescriptorTimeoutLimiter, now: u128)
    requires
        limiter.duplicate_formatter_decision is None,
    ensures
        ({
            let first = limiter.decision(now);
            let between = TorDescriptorTimeoutLimiter {
                duplicate_formatter_decision: Some(first),
                ..limiter.after(now)
            };
            let end = TorDescriptorTimeoutLimiter {
                duplicate_formatter_decision: None,
                ..between
            };
            &&& between.duplicate_formatter_decision == Some(first)
            &&& end == limiter.after(now)
        }),
{
}

/// Within a window after a warning was written, all others are held back and counted,
/// and the first one after the window tells how many they were.
pub proof fn law_warnings_are_held_back_and_counted(
    limiter: TorDescriptorTimeoutLimiter,
    now: u128,
    later: u128,
)
    requires
        limiter.window_started_at is Some,
        limiter.window_started_at->Some_0 <= now,
        now - limiter.window_started_at->Some_0 < limiter.window,
        limiter.suppressed < u64::MAX,
        later - limiter.window_started_at->Some_0 >= limiter.window,
        later >= now,
    ensures
        limiter.decision(now) is Suppress,
        limiter.after(now).suppressed == limiter.suppressed + 1,
        limiter.after(now).decision(later) == (TorDescriptorTimeoutDecision::EmitSummary {
            suppressed: (limiter.suppressed + 1) as u64,
            window: limiter.window,
        }),
        limiter.after(now).after(later).suppressed == 0,
{
}

/// The first warning is told; those that follow within the window are held back and counted;
/// the first after it tells how many were, or is told itself where none was, and opens a new
/// window.
pub proof fn law_windows_open_one_after_another(limiter: TorDescriptorTimeoutLimiter, now: u128)
    ensures
        ({
            let start = limiter.window_started_at;
            let open = start is Some && (now < start->Some_0 || now - start->Some_0
                < limiter.window) && limiter.window > 0;
            let d = limiter.decision(now);
            let after = limiter.after(now);
            &&& start is None ==> d is EmitOriginal
            &&& open ==> d is Suppress && after.window_started_at == start
            &&& start is Some && !open && limiter.suppressed == 0 ==> d is EmitOriginal
            &&& start is Some && !open && limiter.suppressed > 0 ==> d == (
            TorDescriptorTimeoutDecision::EmitSummary {
                suppressed: limiter.suppressed,
                window: limiter.window,
            }) && after.suppressed == 0
            &&& !open ==> after.window_started_at == Some(now)
            &&& after.window == limiter.window
        }),
{
}

/// What is told of an event: itself, nothing, or in its place a message that says how many
/// were held back and for how many minutes, without the event's fields.
pub proof fn law_held_back_events_are_summed_up(event: LogEventView, suppressed: u64, minutes: nat)
    requires
        minutes * 60_000_000_000 <= u128::MAX,
    ensures
        limited(event, TorDescriptorTimeoutDecision::EmitOriginal) == Some(event),
        limited(event, TorDescriptorTimeoutDecision::Suppress) is None,
        ({
            let r = limited(
                event,
                TorDescriptorTimeoutDecision::EmitSummary {
                    suppressed,
                    window: (minutes * 60_000_000_000) as u128,
                },
            );
            &&& r is Some
            &&& r->Some_0.fields.len() == 0
            &&& r->Some_0.message == Some(
                "Tor descriptor upload timeouts are still occurring; suppressed "@
                    + numbers::nat_text(suppressed as nat) + " repeated warnings in the last "@
                    + numbers::nat_text(minutes) + " minutes"@,
            )
        }),
{
    assert((minutes * 60_000_000_000) / 1_000_000_000 == minutes * 60);
    assert((minutes * 60) / 60 == minutes);
}

/// Only warnings about descriptors that could not be uploaded in time are held back; any
/// other event is told as it is, unless it is one that is never told.
pub proof fn law_only_repeated_warnings_are_held_back(
    target: Seq<char>,
    event: LogEventView,
    warning: bool,
    decision: TorDescriptorTimeoutDecision,
)
    ensures
        !warning && !events::is_suppressed(target, event) ==> prepared(
            target,
            event,
            warning,
            decision,
        ) == Some(event),
        !events::is_descriptor_timeout(target, event) && !events::is_suppressed(target, event)
            ==> prepared(target, event, warning, decision) == Some(event),
        warning && events::is_descriptor_timeout(target, event) && decision is Suppress ==> prepared(
            target,
            event,
            warning,
            decision,
        ) is None,
{
}

} // verus!
