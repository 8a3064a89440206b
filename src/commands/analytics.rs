//! Usage counters: per-day totals and the current session.

use vstd::prelude::*;
use crate::text::same_text;

verus! {

/// Usage on one day.
#[derive(Debug, Clone, Default)]
pub struct DailyUsage {
    /// The day, as `YYYY-MM-DD`.
    pub date: String,
    pub sessions: u32,
    pub messages: u32,
    pub estimated_tokens: u64,
    pub active_minutes: u32,
    pub tools_used: u32,
}

/// Usage over a week.
#[derive(Debug, Clone)]
pub struct WeeklySummary {
    pub week_start: String,
    pub week_end: String,
    pub total_sessions: u32,
    pub total_messages: u32,
    pub total_tokens: u64,
    pub total_minutes: u32,
    pub total_tools: u32,
    pub daily_breakdown: Vec<DailyUsage>,
}

/// Usage over a month.
#[derive(Debug, Clone)]
pub struct MonthlySummary {
    /// The month, as `YYYY-MM`.
    pub month: String,
    pub total_sessions: u32,
    pub total_messages: u32,
    pub total_tokens: u64,
    pub total_minutes: u32,
    pub weekly_breakdown: Vec<WeeklySummary>,
}

/// The session in progress.
#[derive(Debug, Clone)]
pub struct SessionData {
    pub session_id: String,
    /// When it started, in seconds since the Unix epoch.
    pub start_time: i64,
    pub messages: u32,
    pub tokens: u64,
    pub tools: u32,
}

/// All usage data.
#[derive(Debug, Clone, Default)]
pub struct AnalyticsData {
    pub daily_usage: Vec<DailyUsage>,
    pub current_session: Option<SessionData>,
}

/// Whether some entry is for `date`.
pub open spec fn has_day(days: Seq<DailyUsage>, date: Seq<char>) -> bool {
    exists|i: int| 0 <= i < days.len() && (#[trigger] days[i]).date@ == date
}

/// `u` is an entry for `date` with nothing counted.
pub open spec fn is_empty_day(u: DailyUsage, date: Seq<char>) -> bool {
    u.date@ == date && u.sessions == 0 && u.messages == 0 && u.estimated_tokens == 0 && u.active_minutes
        == 0 && u.tools_used == 0
}

fn empty_day(date: &str) -> (r: DailyUsage)
    ensures
        is_empty_day(r, date@),
{
    DailyUsage {
        date: String::from_str(date),
        sessions: 0,
        messages: 0,
        estimated_tokens: 0,
        active_minutes: 0,
        tools_used: 0,
    }
}

/// The index of the first entry for `today`, adding an empty one at the end
/// when there is none. Nothing else changes.
pub fn get_or_create_today(data: &mut AnalyticsData, today: &str) -> (r: usize)
    ensures
        r < final(data).daily_usage@.len(),
        final(data).daily_usage@[r as int].date@ == today@,
        forall|j: int| 0 <= j < r ==> final(data).daily_usage@[j].date@ != today@,
        final(data).current_session == old(data).current_session,
        has_day(old(data).daily_usage@, today@) ==> final(data).daily_usage@ == old(data).daily_usage@,
        !has_day(old(data).daily_usage@, today@) ==> final(data).daily_usage@.drop_last()
            == old(data).daily_usage@ && is_empty_day(final(data).daily_usage@.last(), today@),
{
    let mut i: usize = 0;
    while i < data.daily_usage.len()
        invariant
            i <= data.daily_usage@.len(),
            data.daily_usage@ == old(data).daily_usage@,
            data.current_session == old(data).current_session,
            forall|j: int| 0 <= j < i ==> data.daily_usage@[j].date@ != today@,
        decreases data.daily_usage@.len() - i,
    {
        if same_text(data.daily_usage[i].date.as_str(), today) {
            return i;
        }
        i += 1;
    }
    data.daily_usage.push(empty_day(today));
    assert(data.daily_usage@.drop_last() =~= old(data).daily_usage@);
    i
}

/// The first entry for `date`, if any.
pub open spec fn day_of(days: Seq<DailyUsage>, date: Seq<char>) -> Option<DailyUsage>
    decreases days.len(),
{
    if days.len() == 0 {
        None
    } else if days[0].date@ == date {
        Some(days[0])
    } else {
        day_of(days.drop_first(), date)
    }
}

/// The counters of the first entry for `date` (sessions, messages, tokens,
/// minutes, tool calls), all zero where there is none.
pub open spec fn counts_on(days: Seq<DailyUsage>, date: Seq<char>) -> (int, int, int, int, int) {
    match day_of(days, date) {
        Some(d) => (
            d.sessions as int,
            d.messages as int,
            d.estimated_tokens as int,
            d.active_minutes as int,
            d.tools_used as int,
        ),
        None => (0, 0, 0, 0, 0),
    }
}

proof fn lemma_day_of_first(days: Seq<DailyUsage>, date: Seq<char>, r: int)
    requires
        0 <= r < days.len(),
        days[r].date@ == date,
        forall|j: int| 0 <= j < r ==> days[j].date@ != date,
    ensures
        day_of(days, date) == Some(days[r]),
    decreases r,
{
    if r > 0 {
        lemma_day_of_first(days.drop_first(), date, r - 1);
    }
}

proof fn lemma_day_of_none(days: Seq<DailyUsage>, date: Seq<char>)
    requires
        !has_day(days, date),
    ensures
        day_of(days, date) is None,
    decreases days.len(),
{
    if days.len() > 0 {
        assert(days[0].date@ != date);
        assert forall|i: int| 0 <= i < days.drop_first().len() implies (#[trigger] days.drop_first()[i]).date@ != date by {
            assert(days.drop_first()[i] == days[i + 1]);
        }
        lemma_day_of_none(days.drop_first(), date);
    }
}

/// Today's entry is the one at `i`, and it had the counters `counts_on`
/// gives for the data before it was created.
proof fn lemma_today_entry(old_days: Seq<DailyUsage>, days: Seq<DailyUsage>, date: Seq<char>, i: int)
    requires
        0 <= i < days.len(),
        days[i].date@ == date,
        forall|j: int| 0 <= j < i ==> days[j].date@ != date,
        has_day(old_days, date) ==> days == old_days,
        !has_day(old_days, date) ==> days.drop_last() == old_days && is_empty_day(days.last(), date),
    ensures
        day_of(days, date) == Some(days[i]),
        counts_on(old_days, date) == (
            days[i].sessions as int,
            days[i].messages as int,
            days[i].estimated_tokens as int,
            days[i].active_minutes as int,
            days[i].tools_used as int,
        ),
{
    lemma_day_of_first(days, date, i);
    if !has_day(old_days, date) {
        lemma_day_of_none(old_days, date);
        if i < days.len() - 1 {
            assert(old_days[i] == days[i]);
            assert(has_day(old_days, date));
        }
    }
}

/// The entries after an update of the one at `i` to `day`, which keeps its
/// date: the first entry for that date is now `day`.
proof fn lemma_update_today(days: Seq<DailyUsage>, date: Seq<char>, i: int, day: DailyUsage)
    requires
        0 <= i < days.len(),
        days[i].date@ == date,
        day.date@ == date,
        forall|j: int| 0 <= j < i ==> days[j].date@ != date,
    ensures
        day_of(days.update(i, day), date) == Some(day),
{
    lemma_day_of_first(days.update(i, day), date, i);
}

/// `a + b`, or the largest `u32` where the sum exceeds it.
pub open spec fn sat32(a: int, b: int) -> int {
    if a + b > u32::MAX {
        u32::MAX as int
    } else {
        a + b
    }
}

/// `a + b`, or the largest `u64` where the sum exceeds it.
pub open spec fn sat64(a: int, b: int) -> int {
    if a + b > u64::MAX {
        u64::MAX as int
    } else {
        a + b
    }
}

/// Counts a message of the current session, if any, and of today: one
/// message, its estimated tokens and its tool calls. Counters stop at their
/// largest value.
pub fn record_message(data: &mut AnalyticsData, today: &str, estimated_tokens: u64, tool_calls: u32)
    ensures
        match old(data).current_session {
            Some(s) => final(data).current_session matches Some(n) && n.session_id == s.session_id
                && n.start_time == s.start_time && n.messages == sat32(s.messages as int, 1) && n.tokens
                == sat64(s.tokens as int, estimated_tokens as int) && n.tools == sat32(
                s.tools as int,
                tool_calls as int,
            ),
            None => final(data).current_session is None,
        },
        day_of(final(data).daily_usage@, today@) matches Some(d) && d.sessions == counts_on(
            old(data).daily_usage@,
            today@,
        ).0 && d.messages == sat32(counts_on(old(data).daily_usage@, today@).1, 1) && d.estimated_tokens
            == sat64(counts_on(old(data).daily_usage@, today@).2, estimated_tokens as int)
            && d.active_minutes == counts_on(old(data).daily_usage@, today@).3 && d.tools_used == sat32(
            counts_on(old(data).daily_usage@, today@).4,
            tool_calls as int,
        ),
{
    if let Some(session) = &mut data.current_session {
        session.messages = session.messages.saturating_add(1);
        session.tokens = session.tokens.saturating_add(estimated_tokens);
        session.tools = session.tools.saturating_add(tool_calls);
    }
    let ghost before = data.daily_usage@;
    let i = get_or_create_today(data, today);
    proof {
        lemma_today_entry(before, data.daily_usage@, today@, i as int);
    }
    let ghost created = data.daily_usage@;
    let mut day = data.daily_usage.remove(i);
    day.messages = day.messages.saturating_add(1);
    day.estimated_tokens = day.estimated_tokens.saturating_add(estimated_tokens);
    day.tools_used = day.tools_used.saturating_add(tool_calls);
    data.daily_usage.insert(i, day);
    proof {
        assert(data.daily_usage@ =~= created.update(i as int, day));
        lemma_update_today(created, today@, i as int, day);
    }
}

/// Counts `minutes` of activity today.
pub fn record_activity(data: &mut AnalyticsData, today: &str, minutes: u32)
    ensures
        final(data).current_session == old(data).current_session,
        day_of(final(data).daily_usage@, today@) matches Some(d) && d.sessions == counts_on(
            old(data).daily_usage@,
            today@,
        ).0 && d.messages == counts_on(old(data).daily_usage@, today@).1 && d.estimated_tokens
            == counts_on(old(data).daily_usage@, today@).2 && d.active_minutes == sat32(
            counts_on(old(data).daily_usage@, today@).3,
            minutes as int,
        ) && d.tools_used == counts_on(old(data).daily_usage@, today@).4,
{
    let ghost before = data.daily_usage@;
    let i = get_or_create_today(data, today);
    proof {
        lemma_today_entry(before, data.daily_usage@, today@, i as int);
    }
    let ghost created = data.daily_usage@;
    let mut day = data.daily_usage.remove(i);
    day.active_minutes = day.active_minutes.saturating_add(minutes);
    data.daily_usage.insert(i, day);
    proof {
        assert(data.daily_usage@ =~= created.update(i as int, day));
        lemma_update_today(created, today@, i as int, day);
    }
}

/// Starts a session with nothing counted yet, and counts a session today.
pub fn start_session(data: &mut AnalyticsData, session_id: String, now: i64, today: &str)
    ensures
        final(data).current_session matches Some(s) && s.session_id@ == session_id@ && s.start_time
            == now && s.messages == 0 && s.tokens == 0 && s.tools == 0,
        day_of(final(data).daily_usage@, today@) matches Some(d) && d.sessions == sat32(
            counts_on(old(data).daily_usage@, today@).0,
            1,
        ) && d.messages == counts_on(old(data).daily_usage@, today@).1 && d.estimated_tokens
            == counts_on(old(data).daily_usage@, today@).2 && d.active_minutes == counts_on(
            old(data).daily_usage@,
            today@,
        ).3 && d.tools_used == counts_on(old(data).daily_usage@, today@).4,
{
    data.current_session = Some(
        SessionData { session_id, start_time: now, messages: 0, tokens: 0, tools: 0 },
    );
    let ghost before = data.daily_usage@;
    let i = get_or_create_today(data, today);
    proof {
        lemma_today_entry(before, data.daily_usage@, today@, i as int);
    }
    let ghost created = data.daily_usage@;
    let mut day = data.daily_usage.remove(i);
    day.sessions = day.sessions.saturating_add(1);
    data.daily_usage.insert(i, day);
    proof {
        assert(data.daily_usage@ =~= created.update(i as int, day));
        lemma_update_today(created, today@, i as int, day);
    }
}

/// Ends the current session.
pub fn end_session(data: &mut AnalyticsData)
    ensures
        final(data).current_session is None,
        final(data).daily_usage@ == old(data).daily_usage@,
{
    data.current_session = None;
}

/// `u` holds the counters of `date` in `days`.
pub open spec fn is_usage_on(u: DailyUsage, days: Seq<DailyUsage>, date: Seq<char>) -> bool {
    &&& u.date@ == date
    &&& (u.sessions as int, u.messages as int, u.estimated_tokens as int, u.active_minutes as int, u.tools_used as int)
        == counts_on(days, date)
}

fn copy_usage(u: &DailyUsage) -> (r: DailyUsage)
    ensures
        r.date@ == u.date@,
        r.sessions == u.sessions,
        r.messages == u.messages,
        r.estimated_tokens == u.estimated_tokens,
        r.active_minutes == u.active_minutes,
        r.tools_used == u.tools_used,
{
    DailyUsage {
        date: u.date.clone(),
        sessions: u.sessions,
        messages: u.messages,
        estimated_tokens: u.estimated_tokens,
        active_minutes: u.active_minutes,
        tools_used: u.tools_used,
    }
}

/// The usage recorded for `date`: its first entry, or an empty one.
pub fn usage_on(data: &AnalyticsData, date: &str) -> (r: DailyUsage)
    ensures
        is_usage_on(r, data.daily_usage@, date@),
{
    let mut i: usize = 0;
    while i < data.daily_usage.len()
        invariant
            i <= data.daily_usage@.len(),
            forall|j: int| 0 <= j < i ==> data.daily_usage@[j].date@ != date@,
        decreases data.daily_usage@.len() - i,
    {
        if same_text(data.daily_usage[i].date.as_str(), date) {
            proof {
                lemma_day_of_first(data.daily_usage@, date@, i as int);
            }
            let mut u = copy_usage(&data.daily_usage[i]);
            u.date = String::from_str(date);
            return u;
        }
        i += 1;
    }
    proof {
        lemma_day_of_none(data.daily_usage@, date@);
    }
    empty_day(date)
}

/// The usage recorded for each of `dates`, in order.
pub fn get_daily_usage(data: &AnalyticsData, dates: &Vec<String>) -> (r: Vec<DailyUsage>)
    ensures
        r@.len() == dates@.len(),
        forall|k: int| 0 <= k < r@.len() ==> is_usage_on(#[trigger] r@[k], data.daily_usage@, dates@[k]@),
{
    let mut out: Vec<DailyUsage> = Vec::new();
    let mut i: usize = 0;
    while i < dates.len()
        invariant
            i <= dates@.len(),
            out@.len() == i,
            forall|k: int| 0 <= k < i ==> is_usage_on(#[trigger] out@[k], data.daily_usage@, dates@[k]@),
        decreases dates@.len() - i,
    {
        out.push(usage_on(data, dates[i].as_str()));
        i += 1;
    }
    out
}

/// The running total of one counter over `dates`, saturating at `max`:
/// sessions, messages, tokens, minutes or tool calls for `k` from 0 to 4.
pub open spec fn total_of(days: Seq<DailyUsage>, dates: Seq<Seq<char>>, k: int, max: int) -> int
    decreases dates.len(),
{
    if dates.len() == 0 {
        0
    } else {
        let before = total_of(days, dates.drop_last(), k, max);
        let c = counts_on(days, dates.last());
        let x = if k == 0 {
            c.0
        } else if k == 1 {
            c.1
        } else if k == 2 {
            c.2
        } else if k == 3 {
            c.3
        } else {
            c.4
        };
        if before + x > max {
            max
        } else {
            before + x
        }
    }
}

/// The usage over the days `dates` (a week, Monday first): totals that stop
/// at their largest value, and each day's usage.
pub fn get_weekly_summary(data: &AnalyticsData, dates: &Vec<String>) -> (r: WeeklySummary)
    ensures
        r.daily_breakdown@.len() == dates@.len(),
        forall|k: int|
            0 <= k < dates@.len() ==> is_usage_on(#[trigger] r.daily_breakdown@[k], data.daily_usage@, dates@[k]@),
        dates@.len() > 0 ==> r.week_start@ == dates@[0]@ && r.week_end@ == dates@.last()@,
        r.total_sessions == total_of(data.daily_usage@, crate::text::views(dates@), 0, u32::MAX as int),
        r.total_messages == total_of(data.daily_usage@, crate::text::views(dates@), 1, u32::MAX as int),
        r.total_tokens == total_of(data.daily_usage@, crate::text::views(dates@), 2, u64::MAX as int),
        r.total_minutes == total_of(data.daily_usage@, crate::text::views(dates@), 3, u32::MAX as int),
        r.total_tools == total_of(data.daily_usage@, crate::text::views(dates@), 4, u32::MAX as int),
{
    let ghost d = crate::text::views(dates@);
    let mut summary = WeeklySummary {
        week_start: String::new(),
        week_end: String::new(),
        total_sessions: 0,
        total_messages: 0,
        total_tokens: 0,
        total_minutes: 0,
        total_tools: 0,
        daily_breakdown: Vec::new(),
    };
    if dates.len() > 0 {
        summary.week_start = dates[0].clone();
        summary.week_end = dates[dates.len() - 1].clone();
    }
    let mut i: usize = 0;
    assert(d.take(0) =~= Seq::<Seq<char>>::empty());
    while i < dates.len()
        invariant
            i <= dates@.len(),
            d == crate::text::views(dates@),
            dates@.len() > 0 ==> summary.week_start@ == dates@[0]@ && summary.week_end@ == dates@.last()@,
            summary.daily_breakdown@.len() == i,
            forall|k: int|
                0 <= k < i ==> is_usage_on(#[trigger] summary.daily_breakdown@[k], data.daily_usage@, dates@[k]@),
            summary.total_sessions == total_of(data.daily_usage@, d.take(i as int), 0, u32::MAX as int),
            summary.total_messages == total_of(data.daily_usage@, d.take(i as int), 1, u32::MAX as int),
            summary.total_tokens == total_of(data.daily_usage@, d.take(i as int), 2, u64::MAX as int),
            summary.total_minutes == total_of(data.daily_usage@, d.take(i as int), 3, u32::MAX as int),
            summary.total_tools == total_of(data.daily_usage@, d.take(i as int), 4, u32::MAX as int),
        decreases dates@.len() - i,
    {
        assert(d.take(i + 1).drop_last() =~= d.take(i as int));
        assert(d.take(i + 1).last() == dates@[i as int]@);
        let u = usage_on(data, dates[i].as_str());
        summary.total_sessions = summary.total_sessions.saturating_add(u.sessions);
        summary.total_messages = summary.total_messages.saturating_add(u.messages);
        summary.total_tokens = summary.total_tokens.saturating_add(u.estimated_tokens);
        summary.total_minutes = summary.total_minutes.saturating_add(u.active_minutes);
        summary.total_tools = summary.total_tools.saturating_add(u.tools_used);
        summary.daily_breakdown.push(u);
        i += 1;
    }
    assert(d.take(dates@.len() as int) =~= d);
    summary
}

/// The usage over the days `dates` of the month `month`: totals that stop
/// at their largest value; no weekly breakdown.
pub fn get_monthly_summary(data: &AnalyticsData, month: String, dates: &Vec<String>) -> (r: MonthlySummary)
    ensures
        r.month@ == month@,
        r.weekly_breakdown@.len() == 0,
        r.total_sessions == total_of(data.daily_usage@, crate::text::views(dates@), 0, u32::MAX as int),
        r.total_messages == total_of(data.daily_usage@, crate::text::views(dates@), 1, u32::MAX as int),
        r.total_tokens == total_of(data.daily_usage@, crate::text::views(dates@), 2, u64::MAX as int),
        r.total_minutes == total_of(data.daily_usage@, crate::text::views(dates@), 3, u32::MAX as int),
{
    let week = get_weekly_summary(data, dates);
    MonthlySummary {
        month,
        total_sessions: week.total_sessions,
        total_messages: week.total_messages,
        total_tokens: week.total_tokens,
        total_minutes: week.total_minutes,
        weekly_breakdown: Vec::new(),
    }
}

} // verus!
