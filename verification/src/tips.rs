//! What Jito bundles have been tipping, and how much to tip in turn.

use crate::miner::Miner;
use crate::text::{decimal, decimal_text};
use vstd::prelude::*;
use vstd::string::StringExecFns;

verus! {

/// The tips that recent bundles landed with, by percentile, in lamports.
#[derive(Clone, Copy, Debug, PartialEq, Eq, Structural)]
pub struct JitoTips {
    pub p25_landed: u64,
    pub p50_landed: u64,
    pub p75_landed: u64,
    pub p95_landed: u64,
    pub p99_landed: u64,
}

impl Default for JitoTips {
    /// Nothing known of any tip.
    fn default() -> (tips: JitoTips)
        ensures
            tips == no_tips(),
            tips.p25_landed == 0 && tips.p50_landed == 0 && tips.p75_landed == 0
                && tips.p95_landed == 0 && tips.p99_landed == 0,
    {
        JitoTips { p25_landed: 0, p50_landed: 0, p75_landed: 0, p95_landed: 0, p99_landed: 0 }
    }
}

/// Nothing known of any tip.
pub open spec fn no_tips() -> JitoTips {
    JitoTips { p25_landed: 0, p50_landed: 0, p75_landed: 0, p95_landed: 0, p99_landed: 0 }
}

/// How tips are written in a log line.
pub open spec fn tips_text(tips: JitoTips) -> Seq<char> {
    "tips(p25="@ + decimal(tips.p25_landed as nat) + ",p50="@ + decimal(tips.p50_landed as nat)
        + ",p75="@ + decimal(tips.p75_landed as nat) + ",p95="@ + decimal(tips.p95_landed as nat)
        + ",p99="@ + decimal(tips.p99_landed as nat) + ")"@
}

impl JitoTips {
    /// The median.
    pub fn p50(&self) -> (r: u64)
        ensures
            r == self.p50_landed,
    {
        self.p50_landed
    }

    /// The lower quartile.
    pub fn p25(&self) -> (r: u64)
        ensures
            r == self.p25_landed,
    {
        self.p25_landed
    }

    /// The tips as a log line has them.
    pub fn text(&self) -> (r: String)
        ensures
            r@ == tips_text(*self),
            r@ == "tips(p25="@ + decimal(self.p25_landed as nat) + ",p50="@ + decimal(
                self.p50_landed as nat,
            ) + ",p75="@ + decimal(self.p75_landed as nat) + ",p95="@ + decimal(
                self.p95_landed as nat,
            ) + ",p99="@ + decimal(self.p99_landed as nat) + ")"@,
    {
        let p25 = decimal_text(self.p25_landed);
        let p50 = decimal_text(self.p50_landed);
        let p75 = decimal_text(self.p75_landed);
        let p95 = decimal_text(self.p95_landed);
        let p99 = decimal_text(self.p99_landed);
        "tips(p25=".to_owned().concat(p25.as_str()).concat(",p50=").concat(p50.as_str()).concat(
            ",p75=",
        ).concat(p75.as_str()).concat(",p95=").concat(p95.as_str()).concat(",p99=").concat(
            p99.as_str(),
        ).concat(")")
    }
}

/// The lesser of two amounts.
pub open spec fn lesser(a: int, b: int) -> int {
    if a <= b {
        a
    } else {
        b
    }
}

/// The tip in lamports. A cap of zero fixes it at the fee. Otherwise it follows the market: it is
/// the lower quartile, which is zero as long as none is known, plus the fee, up to the cap. There
/// is no tip where the sum does not fit a `u64`.
pub open spec fn tip_for(priority_fee: u64, max_adaptive_tip: u64, p25: u64) -> Option<u64> {
    if max_adaptive_tip == 0 {
        Some(priority_fee)
    } else if p25 + priority_fee <= u64::MAX {
        Some(lesser(max_adaptive_tip as int, p25 + priority_fee) as u64)
    } else {
        None
    }
}

impl Miner {
    /// The tip to pay, given what recent bundles paid.
    pub fn tip(&self, tips: &JitoTips) -> (r: Option<u64>)
        ensures
            r == tip_for(self.priority_fee, self.max_adaptive_tip, tips.p25_landed),
            self.max_adaptive_tip == 0 ==> r == Some(self.priority_fee),
            self.max_adaptive_tip > 0 ==> (r is None <==> tips.p25_landed + self.priority_fee
                > u64::MAX),
            self.max_adaptive_tip > 0 ==> (r matches Some(tip) ==> {
                &&& tip <= self.max_adaptive_tip
                &&& tip <= tips.p25_landed + self.priority_fee
                &&& tip == self.max_adaptive_tip || tip == tips.p25_landed + self.priority_fee
            }),
    {
        if self.max_adaptive_tip > 0 {
            match tips.p25().checked_add(self.priority_fee) {
                Some(sum) => Some(if self.max_adaptive_tip <= sum {
                    self.max_adaptive_tip
                } else {
                    sum
                }),
                None => None,
            }
        } else {
            Some(self.priority_fee)
        }
    }
}

/// A cap of zero fixes the tip at the priority fee, whatever the market does.
pub proof fn lemma_zero_cap_fixes_tip(priority_fee: u64, p25: u64)
    ensures
        tip_for(priority_fee, 0, p25) == Some(priority_fee),
{
}

/// The cap is the most that is ever tipped, unless it is zero.
pub proof fn lemma_tip_within_cap(priority_fee: u64, max_adaptive_tip: u64, p25: u64)
    requires
        max_adaptive_tip > 0,
    ensures
        tip_for(priority_fee, max_adaptive_tip, p25) matches Some(tip) ==> tip <= max_adaptive_tip,
{
}

/// With a cap, the tip is the lesser of the cap and the lower quartile plus the fee: it exceeds
/// neither and is one of the two. It is missing only where that sum does not fit a `u64`.
pub proof fn lemma_tip_is_cap_or_sum(priority_fee: u64, max_adaptive_tip: u64, p25: u64)
    requires
        max_adaptive_tip > 0,
    ensures
        tip_for(priority_fee, max_adaptive_tip, p25) is None <==> p25 + priority_fee > u64::MAX,
        tip_for(priority_fee, max_adaptive_tip, p25) matches Some(tip) ==> {
            &&& tip <= max_adaptive_tip
            &&& tip <= p25 + priority_fee
            &&& tip == max_adaptive_tip || tip == p25 + priority_fee
        },
{
}

/// A tip that follows the market counts the priority fee in: below the cap it is exactly that
/// much above the lower quartile.
pub proof fn lemma_fee_counts_toward_tip(priority_fee: u64, max_adaptive_tip: u64, p25: u64)
    requires
        p25 + priority_fee <= max_adaptive_tip,
    ensures
        tip_for(priority_fee, max_adaptive_tip, p25) matches Some(tip) && tip == p25
            + priority_fee,
{
}

/// Where the market tips more, so does the miner.
pub proof fn lemma_tip_follows_market(
    priority_fee: u64,
    max_adaptive_tip: u64,
    p25: u64,
    higher: u64,
)
    requires
        p25 <= higher,
        tip_for(priority_fee, max_adaptive_tip, higher) is Some,
    ensures
        tip_for(priority_fee, max_adaptive_tip, p25) is Some,
        tip_for(priority_fee, max_adaptive_tip, p25)->0 <= tip_for(
            priority_fee,
            max_adaptive_tip,
            higher,
        )->0,
{
}

/// What happened on the stream that reports tips.
pub enum TipEvent {
    /// The connection could not be made.
    ConnectFailed,
    /// The connection stands.
    Connected,
    /// A message could not be read.
    ReadFailed,
    /// A message was read that holds no list of tips.
    Unreadable,
    /// A message was read that holds this list of tips.
    Reported(Vec<JitoTips>),
    /// The stream ended.
    Closed,
}

/// What to do about the stream.
#[derive(Clone, Copy, Debug, PartialEq, Eq, Structural)]
pub enum TipAction {
    /// Read the next message.
    Read,
    /// Wait this many seconds, then connect.
    ReconnectAfter(u64),
}

/// The seconds between two attempts to connect.
pub const RECONNECT_SECONDS: u64 = 5;

/// The tips that an event reports: the first of a list that is not empty.
pub open spec fn reported(event: TipEvent) -> Option<JitoTips> {
    match event {
        TipEvent::Reported(list) if list@.len() > 0 => Some(list@[0]),
        _ => None,
    }
}

/// Takes one event of the tip stream into account and says what to do next. Only a list that is
/// not empty changes the tips; a lost connection is made again.
pub fn subscribe_jito_tips(tips: &mut JitoTips, event: TipEvent) -> (action: TipAction)
    ensures
        event matches TipEvent::Reported(list) ==> *final(tips) == (if list@.len() > 0 {
            list@[0]
        } else {
            *old(tips)
        }),
        !(event is Reported) ==> *final(tips) == *old(tips),
        *final(tips) == (match reported(event) {
            Some(latest) => latest,
            None => *old(tips),
        }),
        event is ConnectFailed || event is Closed ==> action == TipAction::ReconnectAfter(5),
        action == (if event is ConnectFailed || event is Closed {
            TipAction::ReconnectAfter(RECONNECT_SECONDS)
        } else {
            TipAction::Read
        }),
{
    match event {
        TipEvent::ConnectFailed => TipAction::ReconnectAfter(RECONNECT_SECONDS),
        TipEvent::Closed => TipAction::ReconnectAfter(RECONNECT_SECONDS),
        TipEvent::Connected => TipAction::Read,
        TipEvent::ReadFailed => TipAction::Read,
        TipEvent::Unreadable => TipAction::Read,
        TipEvent::Reported(list) => {
            if list.len() > 0 {
                *tips = list[0];
            }
            TipAction::Read
        },
    }
}

/// The tips after a run of events.
pub open spec fn tips_after(start: JitoTips, events: Seq<TipEvent>) -> JitoTips
    decreases events.len(),
{
    if events.len() == 0 {
        start
    } else {
        match reported(events.last()) {
            Some(latest) => latest,
            None => tips_after(start, events.drop_last()),
        }
    }
}

/// The tips are always the latest ones reported: no failure and no reconnection loses them.
pub proof fn lemma_latest_report_stands(start: JitoTips, events: Seq<TipEvent>, at: int)
    requires
        0 <= at < events.len(),
        reported(events[at]) is Some,
        forall|k: int| at < k < events.len() ==> reported(#[trigger] events[k]) is None,
    ensures
        tips_after(start, events) == reported(events[at])->0,
    decreases events.len(),
{
    if at < events.len() - 1 {
        let shorter = events.drop_last();
        assert(shorter[at] == events[at]);
        assert forall|k: int| at < k < shorter.len() implies reported(#[trigger] shorter[k])
            is None by {
            assert(shorter[k] == events[k]);
        }
        lemma_latest_report_stands(start, shorter, at);
    }
}

/// Until something is reported, the tips are those it began with.
pub proof fn lemma_tips_stand_without_report(start: JitoTips, events: Seq<TipEvent>)
    requires
        forall|k: int| 0 <= k < events.len() ==> reported(#[trigger] events[k]) is None,
    ensures
        tips_after(start, events) == start,
    decreases events.len(),
{
    if events.len() > 0 {
        let shorter = events.drop_last();
        assert forall|k: int| 0 <= k < shorter.len() implies reported(#[trigger] shorter[k])
            is None by {
            assert(shorter[k] == events[k]);
        }
        lemma_tips_stand_without_report(start, shorter);
    }
}

/// Every report that names at least one entry is taken over: the tips are the first entry of the
/// latest list that was not empty, whatever came after it.
pub proof fn lemma_first_entry_is_kept(
    start: JitoTips,
    events: Seq<TipEvent>,
    at: int,
    list: Vec<JitoTips>,
)
    requires
        0 <= at < events.len(),
        events[at] == TipEvent::Reported(list),
        list@.len() > 0,
        forall|k: int|
            at < k < events.len() ==> (#[trigger] events[k] matches TipEvent::Reported(later)
                ==> later@.len() == 0),
    ensures
        tips_after(start, events) == list@[0],
{
    assert forall|k: int| at < k < events.len() implies reported(#[trigger] events[k]) is None by {
    }
    lemma_latest_report_stands(start, events, at);
}

/// Nothing but a report that names an entry changes the tips.
pub proof fn lemma_only_entries_change_tips(start: JitoTips, events: Seq<TipEvent>, event: TipEvent)
    ensures
        event matches TipEvent::Reported(list) ==> tips_after(start, events.push(event)) == (
        if list@.len() > 0 {
            list@[0]
        } else {
            tips_after(start, events)
        }),
        !(event is Reported) ==> tips_after(start, events.push(event)) == tips_after(start, events),
        tips_after(start, seq![]) == start,
{
    assert(events.push(event).drop_last() =~= events);
}

} // verus!
