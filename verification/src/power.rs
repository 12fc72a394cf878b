//! Power: the changes between mains and battery, which the policy turns into opt-in
//! pauses, and the battery samples that feed the diagnosis of its wear.
use vstd::prelude::*;

use crate::double::Double;
use crate::events::{HostEvent, HostEventView};
use crate::time::Timestamp;

verus! {

#[derive(Debug, Clone, Copy, PartialEq, Eq, Structural)]
pub struct BatterySample {
    pub at: Timestamp,
    pub on_ac: bool,
    pub soc_pct: Option<Double>,
    pub cycle_count: Option<u64>,
    pub design_capacity_mah: Option<u64>,
    pub nominal_capacity_mah: Option<u64>,
    pub temperature_c: Option<Double>,
    /// Sum of the containers' CPU% at sample time.
    pub hades_cpu_pct: Double,
}

/// Every so many ticks a sample is taken: every five minutes.
pub const SAMPLE_TICKS: u32 = 10;

/// What is remembered from one look at the power to the next.
#[derive(Debug, Clone, Copy, PartialEq, Eq, Structural)]
pub struct PowerWatch {
    pub prev_on_ac: Option<bool>,
    pub countdown: u32,
}

/// What a look at the power leads to: an event, and whether a sample is taken.
#[derive(Debug)]
pub struct PowerTick {
    pub event: Option<HostEvent>,
    pub sample: bool,
}

/// The event of a change between mains and battery.
pub open spec fn power_event(prev: Option<bool>, on_ac: bool) -> Option<HostEventView> {
    match prev {
        Some(p) => if p && !on_ac {
            Some(HostEventView::OnBattery)
        } else if !p && on_ac {
            Some(HostEventView::OnAc)
        } else {
            None
        },
        None => None,
    }
}

pub open spec fn opt_event(e: Option<HostEvent>) -> Option<HostEventView> {
    match e {
        Some(x) => Some(x@),
        None => None,
    }
}

/// What is remembered after a look; one that could not be read changes nothing.
pub open spec fn watch_after(w: PowerWatch, on_ac: Option<bool>) -> PowerWatch {
    match on_ac {
        Some(ac) => PowerWatch {
            prev_on_ac: Some(ac),
            countdown: if w.countdown == 0 {
                (SAMPLE_TICKS - 1) as u32
            } else {
                (w.countdown - 1) as u32
            },
        },
        None => w,
    }
}

/// Is a sample taken at this look?
pub open spec fn samples_at(w: PowerWatch, on_ac: Option<bool>) -> bool {
    on_ac is Some && w.countdown == 0
}

impl PowerWatch {
    pub fn new() -> (r: Self)
        ensures
            r == (PowerWatch { prev_on_ac: None, countdown: 0 }),
    {
        PowerWatch { prev_on_ac: None, countdown: 0 }
    }

    /// Takes in whether the host is on mains; an unreadable look changes nothing.
    pub fn tick(&mut self, on_ac: Option<bool>) -> (r: PowerTick)
        ensures
            *final(self) == watch_after(*old(self), on_ac),
            r.sample == samples_at(*old(self), on_ac),
            opt_event(r.event) == match on_ac {
                Some(ac) => power_event(old(self).prev_on_ac, ac),
                None => None,
            },
    {
        let ac = match on_ac {
            Some(ac) => ac,
            None => {
                return PowerTick { event: None, sample: false };
            },
        };
        let event = match self.prev_on_ac {
            Some(p) => if p && !ac {
                Some(HostEvent::OnBattery)
            } else if !p && ac {
                Some(HostEvent::OnAc)
            } else {
                None
            },
            None => None,
        };
        self.prev_on_ac = Some(ac);
        let sample = self.countdown == 0;
        if sample {
            self.countdown = SAMPLE_TICKS;
        }
        self.countdown = self.countdown - 1;
        PowerTick { event, sample }
    }
}

// ---------------------------------------------------------------------------- laws

/// A change of power is told when it is seen, and only a change is: the first look tells
/// nothing, and coming back to what was there before tells the opposite.
pub proof fn changes_of_power_are_told(a: bool, b: bool)
    ensures
        power_event(None, a) is None,
        power_event(Some(a), a) is None,
        power_event(Some(true), false) == Some(HostEventView::OnBattery),
        power_event(Some(false), true) == Some(HostEventView::OnAc),
        a != b ==> power_event(Some(a), b) is Some && power_event(Some(a), b) != power_event(
            Some(b),
            a,
        ),
{
}

/// What is remembered after some looks at the power.
pub open spec fn after_looks(looks: Seq<Option<bool>>) -> PowerWatch
    decreases looks.len(),
{
    if looks.len() == 0 {
        PowerWatch { prev_on_ac: None, countdown: 0 }
    } else {
        watch_after(after_looks(looks.drop_last()), looks.last())
    }
}

/// The looks that could be read.
pub open spec fn readable(looks: Seq<Option<bool>>) -> Seq<bool>
    decreases looks.len(),
{
    if looks.len() == 0 {
        Seq::empty()
    } else {
        match looks.last() {
            Some(ac) => readable(looks.drop_last()).push(ac),
            None => readable(looks.drop_last()),
        }
    }
}

/// Of the looks that can be read the first and then every tenth takes a sample, and each is
/// compared with the one before it.
pub proof fn every_tenth_look_is_sampled(looks: Seq<Option<bool>>, ac: bool)
    ensures
        samples_at(after_looks(looks), Some(ac)) <==> readable(looks).len() % 10 == 0,
        !samples_at(after_looks(looks), None),
        after_looks(looks).prev_on_ac == if readable(looks).len() == 0 {
            None
        } else {
            Some(readable(looks).last())
        },
{
    lemma_looks(looks);
}

proof fn lemma_looks(looks: Seq<Option<bool>>)
    ensures
        after_looks(looks).countdown == (10 - readable(looks).len() % 10) % 10,
        after_looks(looks).prev_on_ac == if readable(looks).len() == 0 {
            None
        } else {
            Some(readable(looks).last())
        },
    decreases looks.len(),
{
    if looks.len() > 0 {
        lemma_looks(looks.drop_last());
    }
}

} // verus!
