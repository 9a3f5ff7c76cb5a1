//! The clipboard monitor as a state machine.
//!
//! The monitor holds the running flag, whether a driving task is alive, the
//! last clipboard text it saw, the time of the last change and the history.
//! The driving task reads the clipboard on each tick and hands over what was
//! read; the monitor decides whether the text is a change and, if so, records
//! it in the history. At most one driving task is alive at a time: starting
//! asks for a new task only when none is alive, and a task learns that it
//! must end from the tick that reports `Stopped`.

use vstd::prelude::*;
use crate::history::{
    add_item, exists_recent, fresh_id, has_id, ids_issued, index_of,
    lemma_record_change_keeps_shape, new_item, now_millis, record_change, well_shaped,
    ClipboardDatabase, ClipboardItem, StoreError, StoreView, MAX_ITEMS,
};
use crate::detection::text_option;
use crate::text::{blank, is_blank};

verus! {

/// The monitor's state, as values.
pub struct MonitorView {
    pub is_running: bool,
    pub task_alive: bool,
    pub last_content: Seq<char>,
    pub last_check: i64,
    pub history: StoreView,
}

/// `read` counts as a change after `last`: it differs and is not blank.
pub open spec fn is_change(last: Seq<char>, read: Seq<char>) -> bool {
    read != last && !blank(read)
}

/// Milliseconds from `from` to `to`; zero where `to` is earlier.
pub open spec fn elapsed(from: i64, to: i64) -> int {
    if to >= from {
        to - from
    } else {
        0
    }
}

/// What one tick, or one immediate check, of the monitor did.
#[derive(Debug)]
pub enum TickOutcome {
    /// The monitor is stopped: the driving task must end.
    Stopped,
    /// The clipboard could not be read as text.
    Unreadable,
    /// The clipboard holds only whitespace.
    Blank,
    /// The clipboard holds what was seen last.
    Unchanged,
    /// A change, already captured within the duplicate window.
    Duplicate,
    /// A change, captured as this item.
    Stored(ClipboardItem),
    /// A change that the history refused.
    StoreFailed(StoreError),
}

/// The monitor after it is handed the clipboard text `c`, with `id` for a
/// new item, at `now`: a change is noted and recorded; anything else leaves
/// it as it was.
pub open spec fn take_text(m: MonitorView, c: Seq<char>, id: Seq<char>, now: i64) -> MonitorView {
    if is_change(m.last_content, c) {
        MonitorView {
            last_content: c,
            last_check: now,
            history: record_change(m.history, c, id, now),
            ..m
        }
    } else {
        m
    }
}

/// The monitor after one tick of its driving task that read `read` (`None`
/// where the clipboard could not be read as text). A stopped monitor only
/// notes that its task ends.
pub open spec fn tick(m: MonitorView, read: Option<Seq<char>>, id: Seq<char>, now: i64) -> MonitorView {
    if !m.is_running {
        MonitorView { task_alive: false, ..m }
    } else {
        match read {
            Some(c) => take_text(m, c, id, now),
            None => m,
        }
    }
}

/// What a tick hands to the monitor.
pub struct TickEvent {
    pub read: Option<Seq<char>>,
    pub id: Seq<char>,
    pub now: i64,
}

/// The monitor after the ticks `events`, in order.
pub open spec fn run_ticks(m: MonitorView, events: Seq<TickEvent>) -> MonitorView
    decreases events.len(),
{
    if events.len() == 0 {
        m
    } else {
        let e = events.last();
        tick(run_ticks(m, events.drop_last()), e.read, e.id, e.now)
    }
}

/// Whether `r` reports what handing the text `c` to a monitor in state `m`
/// did, with `id` for a new item, at `now`.
pub open spec fn reports(r: TickOutcome, m: MonitorView, c: Seq<char>, id: Seq<char>, now: i64) -> bool {
    if blank(c) {
        r is Blank
    } else if c == m.last_content {
        r is Unchanged
    } else if exists_recent(m.history.items, c, now) {
        r is Duplicate
    } else if m.history.issued.contains(id) {
        r is StoreFailed
    } else {
        r matches TickOutcome::Stored(item) && item@ == new_item(c, id, now)
    }
}

/// Whether `r` is what a change may lead to whatever the id and time were:
/// a duplicate, a refusal, or an item captured from `c` and added to the
/// history `h`, giving `after`.
pub open spec fn reports_change(r: TickOutcome, h: StoreView, c: Seq<char>, after: StoreView) -> bool {
    ||| r is Duplicate
    ||| r is StoreFailed
    ||| r matches TickOutcome::Stored(item) && item@ == new_item(c, item@.id, item@.timestamp)
        && after.items == add_item(h.items, item@)
}

/// Once stopped, the monitor notes nothing and stores nothing more whatever
/// the ticks read; after its first tick no driving task is alive.
pub proof fn law_stopped_monitor_is_inert(m: MonitorView, events: Seq<TickEvent>)
    requires
        !m.is_running,
    ensures
        run_ticks(m, events) == if events.len() == 0 {
            m
        } else {
            MonitorView { task_alive: false, ..m }
        },
    decreases events.len(),
{
    if events.len() > 0 {
        law_stopped_monitor_is_inert(m, events.drop_last());
    }
}

/// Stopping then starting again before the driving task has ticked keeps
/// that task: no second one is asked for, and its next tick goes on.
pub proof fn law_restart_keeps_one_task(m: MonitorView, read: Option<Seq<char>>, id: Seq<char>, now: i64)
    requires
        m.task_alive,
    ensures
        ({
            let restarted = MonitorView {
                is_running: true,
                task_alive: true,
                ..MonitorView { is_running: false, ..m }
            };
            restarted.task_alive && tick(restarted, read, id, now).task_alive
        }),
{
}

/// Whatever the clipboard holds over any run of ticks, the history stays
/// newest first, with distinct ids, at most `MAX_ITEMS` items, and only ids
/// the store issued.
pub proof fn law_history_stays_bounded(m: MonitorView, events: Seq<TickEvent>)
    requires
        well_shaped(m.history.items),
        ids_issued(m.history),
    ensures
        well_shaped(run_ticks(m, events).history.items),
        ids_issued(run_ticks(m, events).history),
        run_ticks(m, events).history.items.len() <= MAX_ITEMS,
    decreases events.len(),
{
    if events.len() > 0 {
        let e = events.last();
        let prev = run_ticks(m, events.drop_last());
        law_history_stays_bounded(m, events.drop_last());
        if let Some(c) = e.read {
            lemma_record_change_keeps_shape(prev.history, c, e.id, e.now);
        }
    }
}

/// A running monitor with an empty history that sees `a`, `a` again, then
/// `b` stores two items, newest first: `b`, then the first `a`.
pub proof fn law_copy_a_twice_then_b(
    m: MonitorView,
    a: Seq<char>,
    b: Seq<char>,
    ids: Seq<Seq<char>>,
    times: Seq<i64>,
)
    requires
        m.is_running,
        m.history == crate::history::empty_store(),
        m.last_content != a,
        !blank(a),
        !blank(b),
        a != b,
        ids.len() == 3,
        times.len() == 3,
        ids[0] != ids[2],
        times[0] <= times[2],
    ensures
        run_ticks(
            m,
            seq![
                TickEvent { read: Some(a), id: ids[0], now: times[0] },
                TickEvent { read: Some(a), id: ids[1], now: times[1] },
                TickEvent { read: Some(b), id: ids[2], now: times[2] },
            ],
        ).history.items == seq![new_item(b, ids[2], times[2]), new_item(a, ids[0], times[0])],
{
    let e0 = TickEvent { read: Some(a), id: ids[0], now: times[0] };
    let e1 = TickEvent { read: Some(a), id: ids[1], now: times[1] };
    let e2 = TickEvent { read: Some(b), id: ids[2], now: times[2] };
    let events = seq![e0, e1, e2];
    assert(events.drop_last() =~= seq![e0, e1]);
    assert(seq![e0, e1].drop_last() =~= seq![e0]);
    assert(seq![e0].drop_last() =~= Seq::<TickEvent>::empty());
    let first = new_item(a, ids[0], times[0]);
    let m1 = run_ticks(m, seq![e0]);
    assert(run_ticks(m, Seq::<TickEvent>::empty()) == m);
    assert(seq![e0].last() == e0);
    assert(m1 == tick(m, Some(a), ids[0], times[0]));
    assert(is_change(m.last_content, a));
    assert(!exists_recent(m.history.items, a, times[0]));
    assert(!m.history.issued.contains(ids[0]));
    crate::history::lemma_insertion_point_at(m.history.items, times[0], 0);
    assert(m.history.items.insert(0, first) =~= seq![first]);
    assert(m1.history.items =~= seq![first]);
    assert(m1.history.issued == Set::<Seq<char>>::empty().insert(ids[0]));
    let m2 = run_ticks(m, seq![e0, e1]);
    assert(m2 == m1);
    let second = new_item(b, ids[2], times[2]);
    assert(!exists_recent(m2.history.items, b, times[2]));
    assert(!m2.history.issued.contains(ids[2]));
    crate::history::lemma_insertion_point_at(m2.history.items, times[2], 0);
    assert(run_ticks(m, events).history.items =~= seq![second, first]);
}

/// A running monitor with an empty history that sees `c`, then `d`, then
/// `c` again within the duplicate window keeps exactly one item holding
/// `c`: the history is `d`, then the first `c`.
pub proof fn law_repeat_within_window_is_stored_once(
    m: MonitorView,
    c: Seq<char>,
    d: Seq<char>,
    ids: Seq<Seq<char>>,
    times: Seq<i64>,
)
    requires
        m.is_running,
        m.history == crate::history::empty_store(),
        m.last_content != c,
        !blank(c),
        !blank(d),
        c != d,
        ids.len() == 3,
        times.len() == 3,
        ids[0] != ids[1],
        times[0] <= times[1] <= times[2] < times[0] + crate::history::DEDUP_WINDOW_MS,
    ensures
        run_ticks(
            m,
            seq![
                TickEvent { read: Some(c), id: ids[0], now: times[0] },
                TickEvent { read: Some(d), id: ids[1], now: times[1] },
                TickEvent { read: Some(c), id: ids[2], now: times[2] },
            ],
        ).history.items == seq![new_item(d, ids[1], times[1]), new_item(c, ids[0], times[0])],
{
    let e0 = TickEvent { read: Some(c), id: ids[0], now: times[0] };
    let e1 = TickEvent { read: Some(d), id: ids[1], now: times[1] };
    let e2 = TickEvent { read: Some(c), id: ids[2], now: times[2] };
    let events = seq![e0, e1, e2];
    assert(events.drop_last() =~= seq![e0, e1]);
    assert(seq![e0, e1].drop_last() =~= seq![e0]);
    assert(seq![e0].drop_last() =~= Seq::<TickEvent>::empty());
    let first = new_item(c, ids[0], times[0]);
    let m1 = run_ticks(m, seq![e0]);
    assert(run_ticks(m, Seq::<TickEvent>::empty()) == m);
    assert(seq![e0].last() == e0);
    assert(m1 == tick(m, Some(c), ids[0], times[0]));
    assert(is_change(m.last_content, c));
    assert(!exists_recent(m.history.items, c, times[0]));
    assert(!m.history.issued.contains(ids[0]));
    crate::history::lemma_insertion_point_at(m.history.items, times[0], 0);
    assert(m.history.items.insert(0, first) =~= seq![first]);
    assert(m1.history.items =~= seq![first]);
    assert(m1.history.issued == Set::<Seq<char>>::empty().insert(ids[0]));
    let second = new_item(d, ids[1], times[1]);
    let m2 = run_ticks(m, seq![e0, e1]);
    assert(!exists_recent(m1.history.items, d, times[1]));
    assert(!m1.history.issued.contains(ids[1]));
    crate::history::lemma_insertion_point_at(m1.history.items, times[1], 0);
    assert(m2.history.items =~= seq![second, first]);
    assert(m2.last_content == d);
    assert(crate::history::is_recent(m2.history.items[1], times[2]));
    assert(exists_recent(m2.history.items, c, times[2]));
    assert(run_ticks(m, events).history == m2.history);
}

/// A tick that reads content whose every stored copy is older than the
/// duplicate window stores it again, as the newest item, and evicts nothing
/// where the history has room: one more item holds that content.
pub proof fn law_repeat_after_window_is_stored_again(
    m: MonitorView,
    c: Seq<char>,
    id: Seq<char>,
    now: i64,
)
    requires
        m.is_running,
        well_shaped(m.history.items),
        m.history.items.len() < MAX_ITEMS,
        m.last_content != c,
        !blank(c),
        !m.history.issued.contains(id),
        forall|i: int|
            0 <= i < m.history.items.len() ==> #[trigger] m.history.items[i].timestamp <= now,
        forall|i: int|
            0 <= i < m.history.items.len() && #[trigger] m.history.items[i].content == c
                ==> !crate::history::is_recent(m.history.items[i], now),
    ensures
        tick(m, Some(c), id, now).history.items == m.history.items.insert(0, new_item(c, id, now)),
{
    let items = m.history.items;
    assert(!exists_recent(items, c, now));
    crate::history::lemma_insertion_point_at(items, now, 0);
    assert(add_item(items, new_item(c, id, now)) == items.insert(0, new_item(c, id, now)));
}

/// Text that holds only whitespace is never taken: a tick that reads it
/// leaves the last text, the time of the last change and the history as
/// they were.
pub proof fn law_blank_text_is_ignored(m: MonitorView, read: Seq<char>, id: Seq<char>, now: i64)
    requires
        blank(read),
    ensures
        tick(m, Some(read), id, now).last_content == m.last_content,
        tick(m, Some(read), id, now).last_check == m.last_check,
        tick(m, Some(read), id, now).history == m.history,
{
}

/// The clipboard monitor: the running flag, whether a driving task is
/// alive, the last text seen, the time of the last change (milliseconds
/// since the Unix epoch) and the history.
pub struct ClipboardMonitor {
    is_running: bool,
    task_alive: bool,
    last_content: String,
    last_check: i64,
    database: ClipboardDatabase,
}

impl View for ClipboardMonitor {
    type V = MonitorView;

    closed spec fn view(&self) -> MonitorView {
        MonitorView {
            is_running: self.is_running,
            task_alive: self.task_alive,
            last_content: self.last_content@,
            last_check: self.last_check,
            history: self.database.store(),
        }
    }
}

impl ClipboardMonitor {
    /// The monitor's invariant: its history is well formed, and a running
    /// monitor has a live driving task.
    pub closed spec fn wf(&self) -> bool {
        &&& self.database.wf()
        &&& self.is_running ==> self.task_alive
    }

    /// A stopped monitor without a task that has seen nothing, with an empty
    /// history, whose last change is dated `now`.
    pub fn new_at(now: i64) -> (r: Self)
        ensures
            r.wf(),
            r@ == (MonitorView {
                is_running: false,
                task_alive: false,
                last_content: Seq::empty(),
                last_check: now,
                history: crate::history::empty_store(),
            }),
    {
        ClipboardMonitor {
            is_running: false,
            task_alive: false,
            last_content: String::new(),
            last_check: now,
            database: ClipboardDatabase::new(),
        }
    }

    /// A stopped monitor without a task that has seen nothing, with an empty
    /// history, whose last change is dated by the wall clock.
    pub fn new() -> (r: Self)
        ensures
            r.wf(),
            !r@.is_running,
            !r@.task_alive,
            r@.last_content == Seq::<char>::empty(),
            r@.history == crate::history::empty_store(),
    {
        Self::new_at(now_millis())
    }

    /// Puts `database` in place of the history.
    pub fn initialize_database(&mut self, database: ClipboardDatabase)
        requires
            old(self).wf(),
            database.wf(),
        ensures
            final(self).wf(),
            final(self)@ == (MonitorView { history: database.store(), ..old(self)@ }),
    {
        self.database = database;
    }

    /// Marks the monitor running. Returns whether a driving task must now be
    /// started: only where none is alive. A task that was asked to stop but
    /// has not ticked since goes on instead.
    pub fn start_monitoring(&mut self) -> (r: bool)
        requires
            old(self).wf(),
        ensures
            final(self).wf(),
            r == !old(self)@.task_alive,
            old(self)@.is_running ==> !r,
            final(self)@ == (MonitorView { is_running: true, task_alive: true, ..old(self)@ }),
    {
        self.is_running = true;
        if self.task_alive {
            return false;
        }
        self.task_alive = true;
        true
    }

    /// Asks the monitor to stop: the driving task ends at its next tick.
    pub fn stop_monitoring(&mut self)
        requires
            old(self).wf(),
        ensures
            final(self).wf(),
            final(self)@ == (MonitorView { is_running: false, ..old(self)@ }),
    {
        self.is_running = false;
    }

    /// Whether the monitor is running.
    pub fn is_monitoring(&self) -> (r: bool)
        ensures
            r == self@.is_running,
    {
        self.is_running
    }

    /// The last clipboard text seen as a change.
    pub fn get_last_content(&self) -> (r: String)
        ensures
            r@ == self@.last_content,
    {
        self.last_content.clone()
    }

    /// Milliseconds from the last change to `now`; zero where `now` is
    /// earlier.
    pub fn time_since_last_change_at(&self, now: i64) -> (r: u64)
        ensures
            r == elapsed(self@.last_check, now),
    {
        if now >= self.last_check {
            ((now as i128) - (self.last_check as i128)) as u64
        } else {
            0
        }
    }

    /// Milliseconds from the last change to now, by the wall clock.
    pub fn time_since_last_change(&self) -> (r: u64)
        ensures
            exists|now: i64| r == #[trigger] elapsed(self@.last_check, now),
    {
        self.time_since_last_change_at(now_millis())
    }

    /// The history.
    pub fn get_database(&self) -> (r: &ClipboardDatabase)
        requires
            self.wf(),
        ensures
            r.wf(),
            r.store() == self@.history,
    {
        &self.database
    }

    /// Removes the history's item with `item_id`; nothing happens where none
    /// has it. The id stays issued.
    pub fn delete_clipboard_item(&mut self, item_id: &str)
        requires
            old(self).wf(),
        ensures
            final(self).wf(),
            has_id(old(self)@.history.items, item_id@) ==> final(self)@ == (MonitorView {
                history: StoreView {
                    items: old(self)@.history.items.remove(
                        index_of(old(self)@.history.items, item_id@),
                    ),
                    ..old(self)@.history
                },
                ..old(self)@
            }),
            !has_id(old(self)@.history.items, item_id@) ==> final(self)@ == old(self)@,
    {
        self.database.delete_clipboard_item(item_id);
    }

    /// Empties the history; its ids stay issued.
    pub fn clear_clipboard_history(&mut self)
        requires
            old(self).wf(),
        ensures
            final(self).wf(),
            final(self)@ == (MonitorView {
                history: StoreView { items: Seq::empty(), ..old(self)@.history },
                ..old(self)@
            }),
    {
        self.database.clear_clipboard_history();
    }

    /// Steps 2 to 4 of a tick on the clipboard text `content`, with `id` for
    /// a new item, at `now`: blank text and the text seen last are reported
    /// and change nothing; a change is noted and recorded in the history.
    pub fn check_now_at(&mut self, content: String, id: String, now: i64) -> (r: TickOutcome)
        requires
            old(self).wf(),
        ensures
            final(self).wf(),
            final(self)@ == take_text(old(self)@, content@, id@, now),
            reports(r, old(self)@, content@, id@, now),
    {
        if is_blank(content.as_str()) {
            return TickOutcome::Blank;
        }
        if content == self.last_content {
            return TickOutcome::Unchanged;
        }
        let r = self.database.insert_if_new_at(content.as_str(), id, now);
        self.last_content = content;
        self.last_check = now;
        match r {
            Ok(None) => TickOutcome::Duplicate,
            Ok(Some(item)) => TickOutcome::Stored(item),
            Err(e) => TickOutcome::StoreFailed(e),
        }
    }

    /// Steps 2 to 4 of a tick on the clipboard text `content`; the item id
    /// is fresh and random, and the time is the wall clock's.
    pub fn check_now(&mut self, content: String) -> (r: TickOutcome)
        requires
            old(self).wf(),
        ensures
            final(self).wf(),
            exists|id: Seq<char>, now: i64|
                final(self)@ == #[trigger] take_text(old(self)@, content@, id, now),
            blank(content@) ==> r is Blank && final(self)@ == old(self)@,
            !blank(content@) && content@ == old(self)@.last_content ==> r is Unchanged
                && final(self)@ == old(self)@,
            is_change(old(self)@.last_content, content@) ==> final(self)@.last_content == content@
                && reports_change(r, old(self)@.history, content@, final(self)@.history),
    {
        let id = fresh_id();
        let now = now_millis();
        let ghost c = content@;
        let r = self.check_now_at(content, id, now);
        assert(self@ == take_text(old(self)@, c, id@, now));
        r
    }

    /// One tick of the driving task, given what was read from the clipboard
    /// (`None` where it could not be read as text), a fresh item id and the
    /// time. A stopped monitor reports `Stopped`, which ends the task, and
    /// changes nothing else; a running one checks the text as `check_now_at`
    /// does.
    pub fn process_tick_at(&mut self, read: Option<String>, id: String, now: i64) -> (r:
        TickOutcome)
        requires
            old(self).wf(),
        ensures
            final(self).wf(),
            final(self)@ == tick(old(self)@, text_option(read), id@, now),
            !old(self)@.is_running ==> r is Stopped,
            old(self)@.is_running && read is None ==> r is Unreadable,
            old(self)@.is_running && read is Some ==> reports(r, old(self)@, read->0@, id@, now),
    {
        if !self.is_running {
            self.task_alive = false;
            return TickOutcome::Stopped;
        }
        match read {
            Some(c) => self.check_now_at(c, id, now),
            None => TickOutcome::Unreadable,
        }
    }

    /// One tick of the driving task, given what was read from the clipboard;
    /// the item id is fresh and random, and the time is the wall clock's.
    pub fn process_tick(&mut self, read: Option<String>) -> (r: TickOutcome)
        requires
            old(self).wf(),
        ensures
            final(self).wf(),
            exists|id: Seq<char>, now: i64|
                final(self)@ == #[trigger] tick(old(self)@, text_option(read), id, now),
            !old(self)@.is_running ==> r is Stopped,
            old(self)@.is_running && read is None ==> r is Unreadable,
            old(self)@.is_running && read is Some && blank(read->0@) ==> r is Blank,
            old(self)@.is_running && read is Some && !blank(read->0@) && read->0@ == old(
                self,
            )@.last_content ==> r is Unchanged,
            old(self)@.is_running && read is Some && is_change(old(self)@.last_content, read->0@)
                ==> reports_change(r, old(self)@.history, read->0@, final(self)@.history),
    {
        let id = fresh_id();
        let now = now_millis();
        let ghost read_view = text_option(read);
        let r = self.process_tick_at(read, id, now);
        assert(self@ == tick(old(self)@, read_view, id@, now));
        r
    }

    /// Checks the clipboard text `content` at once, outside the ticks: blank
    /// text gives `None` and changes nothing; other text is returned, and
    /// where it is a change it is noted and recorded as on a tick. A refusal
    /// by the history comes back as the error.
    pub fn detect_current_content_at(&mut self, content: String, id: String, now: i64) -> (r:
        Result<Option<String>, StoreError>)
        requires
            old(self).wf(),
        ensures
            final(self).wf(),
            final(self)@ == take_text(old(self)@, content@, id@, now),
            blank(content@) ==> r matches Ok(None),
            !blank(content@) ==> (r is Err <==> is_change(old(self)@.last_content, content@)
                && !exists_recent(old(self)@.history.items, content@, now)
                && old(self)@.history.issued.contains(id@)),
            !blank(content@) && r is Ok ==> (r matches Ok(Some(s)) && s@ == content@),
    {
        let copy = content.clone();
        match self.check_now_at(content, id, now) {
            TickOutcome::Blank => Ok(None),
            TickOutcome::StoreFailed(e) => Err(e),
            _ => Ok(Some(copy)),
        }
    }

    /// Checks the clipboard text `content` at once; the item id is fresh and
    /// random, and the time is the wall clock's.
    pub fn detect_current_content(&mut self, content: String) -> (r: Result<
        Option<String>,
        StoreError,
    >)
        requires
            old(self).wf(),
        ensures
            final(self).wf(),
            exists|id: Seq<char>, now: i64|
                final(self)@ == #[trigger] take_text(old(self)@, content@, id, now),
            blank(content@) ==> (r matches Ok(None) && final(self)@ == old(self)@),
            !blank(content@) && content@ == old(self)@.last_content ==> (r matches Ok(Some(s))
                && s@ == content@ && final(self)@ == old(self)@),
            !blank(content@) ==> (r is Err || (r matches Ok(Some(s)) && s@ == content@)),
            is_change(old(self)@.last_content, content@) ==> final(self)@.last_content == content@,
            r is Err ==> exists|id: Seq<char>|
                id.len() == 36 && #[trigger] old(self)@.history.issued.contains(id),
    {
        let id = fresh_id();
        let now = now_millis();
        let ghost c = content@;
        let r = self.detect_current_content_at(content, id, now);
        assert(self@ == take_text(old(self)@, c, id@, now));
        r
    }
}

} // verus!
