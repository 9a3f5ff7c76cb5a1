//! The bounded, deduplicated clipboard history.
//!
//! Items are kept newest first by timestamp. After every insert the store
//! keeps only the `MAX_ITEMS` most recent; a content already captured within
//! the last `DEDUP_WINDOW_MS` is not captured again.

use vstd::prelude::*;
use crate::detection::{classification, standard_languages, text_option, ContentDetector};

verus! {

/// Most items the history holds.
pub const MAX_ITEMS: usize = 20;

/// Length of the duplicate window, in milliseconds (one hour).
pub const DEDUP_WINDOW_MS: i64 = 3_600_000;

/// Relies on `chrono`'s `From<std::time::SystemTime>` for `DateTime<Utc>`,
/// read as milliseconds since the Unix epoch; a clock set before 1970 gives
/// a negative value. Nothing is promised of the value: the wall clock may go
/// back.
#[verifier::external_body]
pub(crate) fn now_millis() -> (r: i64) {
    chrono::DateTime::<chrono::Utc>::from(std::time::SystemTime::now()).timestamp_millis()
}

/// Relies on `uuid::Uuid::new_v4` written in its hyphenated form, which is
/// 36 characters long. The value is random.
#[verifier::external_body]
pub(crate) fn fresh_id() -> (r: String)
    ensures
        r@.len() == 36,
{
    uuid::Uuid::new_v4().to_string()
}

/// One captured clipboard snapshot. `timestamp` is in milliseconds since the
/// Unix epoch.
#[derive(Debug, Clone)]
pub struct ClipboardItem {
    pub id: String,
    pub content: String,
    pub content_type: String,
    pub code_language: Option<String>,
    pub source_app: String,
    pub timestamp: i64,
    pub size: usize,
    pub is_favorite: bool,
    pub tags: Vec<String>,
    pub preview: String,
}

/// A clipboard item as values.
pub struct ItemView {
    pub id: Seq<char>,
    pub content: Seq<char>,
    pub content_type: Seq<char>,
    pub code_language: Option<Seq<char>>,
    pub source_app: Seq<char>,
    pub timestamp: i64,
    pub size: usize,
    pub is_favorite: bool,
    pub tags: Seq<Seq<char>>,
    pub preview: Seq<char>,
}

/// The texts `v` holds, as values.
pub open spec fn texts(v: Seq<String>) -> Seq<Seq<char>> {
    v.map_values(|s: String| s@)
}

impl View for ClipboardItem {
    type V = ItemView;

    open spec fn view(&self) -> ItemView {
        ItemView {
            id: self.id@,
            content: self.content@,
            content_type: self.content_type@,
            code_language: text_option(self.code_language),
            source_app: self.source_app@,
            timestamp: self.timestamp,
            size: self.size,
            is_favorite: self.is_favorite,
            tags: texts(self.tags@),
            preview: self.preview@,
        }
    }
}

/// The item captured from `content` under `id` at time `now`.
pub open spec fn new_item(content: Seq<char>, id: Seq<char>, now: i64) -> ItemView {
    let c = classification(content);
    ItemView {
        id,
        content,
        content_type: c.content_type,
        code_language: c.code_language,
        source_app: c.source_app,
        timestamp: now,
        size: c.size,
        is_favorite: false,
        tags: Seq::empty(),
        preview: c.preview,
    }
}

/// Timestamps do not increase along `s`.
pub open spec fn newest_first(s: Seq<ItemView>) -> bool {
    forall|i: int, j: int| 0 <= i < j < s.len() ==> s[i].timestamp >= s[j].timestamp
}

/// No two items of `s` share an id.
pub open spec fn ids_distinct(s: Seq<ItemView>) -> bool {
    forall|i: int, j: int| 0 <= i < j < s.len() ==> s[i].id != s[j].id
}

/// The shape every history keeps: newest first, distinct ids, at most
/// `MAX_ITEMS` items.
pub open spec fn well_shaped(s: Seq<ItemView>) -> bool {
    &&& s.len() <= MAX_ITEMS
    &&& newest_first(s)
    &&& ids_distinct(s)
}

/// Some item of `s` holds `id`.
pub open spec fn has_id(s: Seq<ItemView>, id: Seq<char>) -> bool {
    exists|i: int| 0 <= i < s.len() && s[i].id == id
}

/// Position of the item with `id` in `s`.
pub open spec fn index_of(s: Seq<ItemView>, id: Seq<char>) -> int {
    choose|i: int| 0 <= i < s.len() && s[i].id == id
}

/// `it` was captured within the duplicate window that ends at `now`.
pub open spec fn is_recent(it: ItemView, now: i64) -> bool {
    it.timestamp > now - DEDUP_WINDOW_MS
}

/// `s` holds an item with exactly `content`, captured within the duplicate
/// window that ends at `now`.
pub open spec fn exists_recent(s: Seq<ItemView>, content: Seq<char>, now: i64) -> bool {
    exists|i: int| 0 <= i < s.len() && s[i].content == content && is_recent(s[i], now)
}

/// Where an item stamped `ts` goes in `s`: after every item strictly newer.
pub open spec fn insertion_point(s: Seq<ItemView>, ts: i64) -> int
    decreases s.len(),
{
    if s.len() == 0 || s[0].timestamp <= ts {
        0
    } else {
        1 + insertion_point(s.drop_first(), ts)
    }
}

/// `s` with `it` added in timestamp order, before the items of equal time.
pub open spec fn insert_newest_first(s: Seq<ItemView>, it: ItemView) -> Seq<ItemView> {
    s.insert(insertion_point(s, it.timestamp), it)
}

/// The `n` first, that is most recent, items of `s`.
pub open spec fn retain_latest(s: Seq<ItemView>, n: nat) -> Seq<ItemView> {
    if s.len() <= n {
        s
    } else {
        s.take(n as int)
    }
}

/// The history `s` after `it` is inserted and the oldest evicted.
pub open spec fn add_item(s: Seq<ItemView>, it: ItemView) -> Seq<ItemView> {
    retain_latest(insert_newest_first(s, it), MAX_ITEMS as nat)
}

/// A store as values: its items, newest first, and every id it has ever
/// issued, including those of items since deleted or evicted.
pub struct StoreView {
    pub items: Seq<ItemView>,
    pub issued: Set<Seq<char>>,
}

/// Every item of `s` holds an id that `s` issued.
pub open spec fn ids_issued(s: StoreView) -> bool {
    forall|i: int| 0 <= i < s.items.len() ==> #[trigger] s.issued.contains(s.items[i].id)
}

/// The store `s` after capturing `c` under `id` at `now`: unchanged where
/// `c` is a duplicate within the window or `id` was ever issued.
pub open spec fn record_change(s: StoreView, c: Seq<char>, id: Seq<char>, now: i64) -> StoreView {
    if exists_recent(s.items, c, now) || s.issued.contains(id) {
        s
    } else {
        StoreView { items: add_item(s.items, new_item(c, id, now)), issued: s.issued.insert(id) }
    }
}

/// The page of `s` that skips `offset` items and holds at most `limit`.
pub open spec fn page(s: Seq<ItemView>, limit: nat, offset: nat) -> Seq<ItemView> {
    let start = if offset <= s.len() {
        offset as int
    } else {
        s.len() as int
    };
    let end = if start + limit <= s.len() {
        start + limit
    } else {
        s.len() as int
    };
    s.subrange(start, end)
}

/// An item stamped `ts` goes at `k` where every earlier item is strictly
/// newer and the item at `k`, if any, is not.
pub proof fn lemma_insertion_point_at(s: Seq<ItemView>, ts: i64, k: int)
    requires
        0 <= k <= s.len(),
        forall|j: int| 0 <= j < k ==> #[trigger] s[j].timestamp > ts,
        k == s.len() || s[k].timestamp <= ts,
    ensures
        insertion_point(s, ts) == k,
    decreases k,
{
    if k > 0 {
        let t = s.drop_first();
        assert forall|j: int| 0 <= j < k - 1 implies #[trigger] t[j].timestamp > ts by {
            assert(t[j] == s[j + 1]);
        }
        if k < s.len() {
            assert(t[k - 1] == s[k]);
        }
        lemma_insertion_point_at(t, ts, k - 1);
    }
}

proof fn lemma_insertion_point_bounds(s: Seq<ItemView>, ts: i64)
    requires
        newest_first(s),
    ensures
        0 <= insertion_point(s, ts) <= s.len(),
        forall|j: int| 0 <= j < insertion_point(s, ts) ==> #[trigger] s[j].timestamp > ts,
        forall|j: int| insertion_point(s, ts) <= j < s.len() ==> #[trigger] s[j].timestamp <= ts,
    decreases s.len(),
{
    if s.len() > 0 && s[0].timestamp > ts {
        let t = s.drop_first();
        lemma_insertion_point_bounds(t, ts);
        assert forall|j: int| 0 <= j < insertion_point(s, ts) implies #[trigger] s[j].timestamp
            > ts by {
            if j > 0 {
                assert(s[j] == t[j - 1]);
            }
        }
        assert forall|j: int| insertion_point(s, ts) <= j < s.len() implies #[trigger] s[j].timestamp
            <= ts by {
            assert(s[j] == t[j - 1]);
        }
    }
}

/// Adding an item with a fresh id to a well-formed history keeps it
/// newest first, with distinct ids and within `MAX_ITEMS`.
pub proof fn lemma_add_item_keeps_shape(s: Seq<ItemView>, it: ItemView)
    requires
        newest_first(s),
        ids_distinct(s),
        !has_id(s, it.id),
    ensures
        newest_first(insert_newest_first(s, it)),
        newest_first(add_item(s, it)),
        ids_distinct(add_item(s, it)),
        add_item(s, it).len() <= MAX_ITEMS,
        add_item(s, it).len() == if s.len() < MAX_ITEMS {
            s.len() + 1int
        } else {
            MAX_ITEMS as int
        },
{
    let k = insertion_point(s, it.timestamp);
    lemma_insertion_point_bounds(s, it.timestamp);
    let u = insert_newest_first(s, it);
    assert(u.len() == s.len() + 1);
    assert forall|i: int, j: int| 0 <= i < j < u.len() implies u[i].timestamp
        >= u[j].timestamp by {
        if j < k {
        } else if j == k {
            assert(u[i] == s[i]);
        } else if i < k {
            assert(u[i] == s[i]);
            assert(u[j] == s[j - 1]);
        } else if i == k {
            assert(u[j] == s[j - 1]);
        } else {
            assert(u[i] == s[i - 1]);
            assert(u[j] == s[j - 1]);
        }
    }
    assert forall|i: int, j: int| 0 <= i < j < u.len() implies u[i].id != u[j].id by {
        if i == k {
            assert(u[j] == s[j - 1]);
        } else if j == k {
            assert(u[i] == s[i]);
        } else {
            let si = if i < k { i } else { i - 1 };
            let sj = if j < k { j } else { j - 1 };
            assert(u[i] == s[si]);
            assert(u[j] == s[sj]);
        }
    }
}

proof fn lemma_insertion_point_range(s: Seq<ItemView>, ts: i64)
    ensures
        0 <= insertion_point(s, ts) <= s.len(),
    decreases s.len(),
{
    if s.len() > 0 && s[0].timestamp > ts {
        lemma_insertion_point_range(s.drop_first(), ts);
    }
}

/// Every item left after adding `it` to `s` is `it` or an item of `s`.
pub proof fn lemma_add_item_members(s: Seq<ItemView>, it: ItemView)
    ensures
        forall|j: int|
            0 <= j < add_item(s, it).len() ==> #[trigger] add_item(s, it)[j] == it || exists|i: int|
                0 <= i < s.len() && s[i] == add_item(s, it)[j],
{
    let k = insertion_point(s, it.timestamp);
    lemma_insertion_point_range(s, it.timestamp);
    let u = insert_newest_first(s, it);
    assert forall|j: int| 0 <= j < add_item(s, it).len() implies #[trigger] add_item(s, it)[j]
        == it || exists|i: int| 0 <= i < s.len() && s[i] == add_item(s, it)[j] by {
        assert(add_item(s, it)[j] == u[j]);
        if j < k {
            assert(u[j] == s[j]);
            assert(0 <= j < s.len() && s[j] == add_item(s, it)[j]);
        } else if j > k {
            assert(u[j] == s[j - 1]);
            assert(0 <= j - 1 < s.len() && s[j - 1] == add_item(s, it)[j]);
        }
    }
}

/// A store that records a change keeps every item's id among the ids it
/// issued, and its history keeps its shape.
pub proof fn lemma_record_change_keeps_shape(s: StoreView, c: Seq<char>, id: Seq<char>, now: i64)
    requires
        well_shaped(s.items),
        ids_issued(s),
    ensures
        well_shaped(record_change(s, c, id, now).items),
        ids_issued(record_change(s, c, id, now)),
{
    if !exists_recent(s.items, c, now) && !s.issued.contains(id) {
        let it = new_item(c, id, now);
        assert(!has_id(s.items, id)) by {
            if has_id(s.items, id) {
                let i = choose|i: int| 0 <= i < s.items.len() && s.items[i].id == id;
                assert(s.issued.contains(s.items[i].id));
            }
        }
        lemma_add_item_keeps_shape(s.items, it);
        lemma_add_item_members(s.items, it);
        let r = record_change(s, c, id, now);
        assert forall|j: int| 0 <= j < r.items.len() implies #[trigger] r.issued.contains(
            r.items[j].id,
        ) by {
            if r.items[j] != it {
                let i = choose|i: int| 0 <= i < s.items.len() && s.items[i] == r.items[j];
                assert(s.issued.contains(s.items[i].id));
            }
        }
    }
}

/// Eviction keeps the most recent items of the current history: after an
/// insert into any well-shaped history, the history holds the first
/// `MAX_ITEMS` of its items and the new one in timestamp order, so every
/// item kept is at least as recent as every item dropped.
pub proof fn law_eviction_keeps_most_recent(s: Seq<ItemView>, it: ItemView)
    requires
        well_shaped(s),
        !has_id(s, it.id),
    ensures
        add_item(s, it) == insert_newest_first(s, it).take(add_item(s, it).len() as int),
        add_item(s, it).len() == if s.len() < MAX_ITEMS {
            s.len() + 1int
        } else {
            MAX_ITEMS as int
        },
        forall|i: int, j: int|
            0 <= i < add_item(s, it).len() <= j < insert_newest_first(s, it).len()
                ==> insert_newest_first(s, it)[i].timestamp >= insert_newest_first(
                s,
                it,
            )[j].timestamp,
{
    lemma_add_item_keeps_shape(s, it);
    let u = insert_newest_first(s, it);
    if u.len() <= MAX_ITEMS {
        assert(u.take(u.len() as int) =~= u);
    }
}

/// Capturing the same content twice within the duplicate window stores it
/// once: the second capture finds the first and changes nothing. Once the
/// window has passed, the same content is stored a second time.
pub proof fn law_duplicate_window(
    s: StoreView,
    c: Seq<char>,
    id1: Seq<char>,
    id2: Seq<char>,
    t1: i64,
    t2: i64,
)
    requires
        well_shaped(s.items),
        ids_issued(s),
        forall|i: int|
            0 <= i < s.items.len() ==> #[trigger] s.items[i].content != c && s.items[i].timestamp
                <= t1,
        !s.issued.contains(id1),
        t1 <= t2,
    ensures
        record_change(s, c, id1, t1).items[0] == new_item(c, id1, t1),
        forall|i: int|
            0 < i < record_change(s, c, id1, t1).items.len() ==> #[trigger] record_change(
                s,
                c,
                id1,
                t1,
            ).items[i].content != c,
        t2 < t1 + DEDUP_WINDOW_MS ==> record_change(record_change(s, c, id1, t1), c, id2, t2)
            == record_change(s, c, id1, t1),
        t2 >= t1 + DEDUP_WINDOW_MS && id2 != id1 && !s.issued.contains(id2) ==> {
            let s2 = record_change(record_change(s, c, id1, t1), c, id2, t2).items;
            &&& s2[0] == new_item(c, id2, t2)
            &&& s2[1] == new_item(c, id1, t1)
            &&& forall|i: int| 1 < i < s2.len() ==> #[trigger] s2[i].content != c
        },
{
    let first = new_item(c, id1, t1);
    let items = s.items;
    assert(!exists_recent(items, c, t1));
    lemma_insertion_point_at(items, t1, 0);
    let r1 = record_change(s, c, id1, t1);
    let s1 = r1.items;
    assert(s1 == add_item(items, first));
    let u1 = items.insert(0, first);
    assert(s1.len() >= 1);
    assert forall|i: int| 0 < i < s1.len() implies #[trigger] s1[i].content != c by {
        assert(s1[i] == u1[i]);
        assert(u1[i] == items[i - 1]);
    }
    assert(s1[0] == first);
    if t2 < t1 + DEDUP_WINDOW_MS {
        assert(is_recent(s1[0], t2));
        assert(exists_recent(s1, c, t2));
    }
    if t2 >= t1 + DEDUP_WINDOW_MS && id2 != id1 && !s.issued.contains(id2) {
        let second = new_item(c, id2, t2);
        assert(!exists_recent(s1, c, t2)) by {
            assert(!is_recent(s1[0], t2));
        }
        assert(!r1.issued.contains(id2));
        lemma_insertion_point_at(s1, t2, 0);
        let s2 = record_change(r1, c, id2, t2).items;
        let u2 = s1.insert(0, second);
        assert(s2 == retain_latest(u2, MAX_ITEMS as nat));
        assert(s2.len() >= 2);
        assert(s2[0] == u2[0]);
        assert(s2[1] == u2[1]);
        assert forall|i: int| 1 < i < s2.len() implies #[trigger] s2[i].content != c by {
            assert(s2[i] == u2[i]);
            assert(u2[i] == s1[i - 1]);
        }
    }
}

/// One clipboard capture: its content, the id given to it and its time.
pub struct Capture {
    pub content: Seq<char>,
    pub id: Seq<char>,
    pub at: i64,
}

/// The item that `c` records.
pub open spec fn captured(c: Capture) -> ItemView {
    new_item(c.content, c.id, c.at)
}

/// The store `s` after the captures `cs`, in order.
pub open spec fn replay(s: StoreView, cs: Seq<Capture>) -> StoreView
    decreases cs.len(),
{
    if cs.len() == 0 {
        s
    } else {
        let c = cs.last();
        record_change(replay(s, cs.drop_last()), c.content, c.id, c.at)
    }
}

/// A store that holds nothing and has issued nothing.
pub open spec fn empty_store() -> StoreView {
    StoreView { items: Seq::empty(), issued: Set::empty() }
}

/// Captures of distinct contents under distinct ids, in time order, into an
/// empty store leave exactly the `MAX_ITEMS` most recent of them, newest
/// first, and the store has issued every one of their ids.
pub proof fn law_keeps_latest_captures(cs: Seq<Capture>)
    requires
        forall|i: int, j: int|
            0 <= i < j < cs.len() ==> {
                &&& #[trigger] cs[i].at <= #[trigger] cs[j].at
                &&& cs[i].content != cs[j].content
                &&& cs[i].id != cs[j].id
            },
    ensures
        replay(empty_store(), cs).items.len() == if cs.len() < MAX_ITEMS {
            cs.len() as int
        } else {
            MAX_ITEMS as int
        },
        forall|k: int|
            0 <= k < replay(empty_store(), cs).items.len() ==> #[trigger] replay(
                empty_store(),
                cs,
            ).items[k] == captured(cs[cs.len() - 1 - k]),
        forall|id: Seq<char>|
            #[trigger] replay(empty_store(), cs).issued.contains(id) <==> exists|i: int|
                0 <= i < cs.len() && cs[i].id == id,
    decreases cs.len(),
{
    if cs.len() > 0 {
        let n = cs.len() as int;
        let init = cs.drop_last();
        law_keeps_latest_captures(init);
        let prev = replay(empty_store(), init);
        let x = cs[n - 1];
        assert(cs.last() == x);
        assert forall|k: int| 0 <= k < prev.items.len() implies #[trigger] prev.items[k].content
            != x.content && prev.items[k].timestamp <= x.at by {
            assert(prev.items[k] == captured(init[init.len() - 1 - k]));
            assert(init[n - 2 - k] == cs[n - 2 - k]);
        }
        assert(!exists_recent(prev.items, x.content, x.at));
        assert(!prev.issued.contains(x.id)) by {
            if prev.issued.contains(x.id) {
                assert(replay(empty_store(), init).issued.contains(x.id));
                let i = choose|i: int| 0 <= i < init.len() && init[i].id == x.id;
                assert(init[i] == cs[i]);
                assert(cs[i].at <= cs[n - 1].at);
            }
        }
        lemma_insertion_point_at(prev.items, x.at, 0);
        let u = prev.items.insert(0, captured(x));
        let r = replay(empty_store(), cs);
        assert(r.items == retain_latest(u, MAX_ITEMS as nat));
        assert forall|k: int| 0 <= k < r.items.len() implies #[trigger] r.items[k] == captured(
            cs[n - 1 - k],
        ) by {
            assert(r.items[k] == u[k]);
            if k > 0 {
                assert(u[k] == prev.items[k - 1]);
                assert(init[init.len() - 1 - (k - 1)] == cs[n - 1 - k]);
            }
        }
        assert forall|id: Seq<char>| #[trigger] r.issued.contains(id) <==> exists|i: int|
            0 <= i < cs.len() && cs[i].id == id by {
            if r.issued.contains(id) && id != x.id {
                assert(prev.issued.contains(id));
                assert(replay(empty_store(), init).issued.contains(id));
                let i = choose|i: int| 0 <= i < init.len() && init[i].id == id;
                assert(init[i] == cs[i]);
            }
            if exists|i: int| 0 <= i < cs.len() && cs[i].id == id {
                let i = choose|i: int| 0 <= i < cs.len() && cs[i].id == id;
                if i < n - 1 {
                    assert(init[i] == cs[i]);
                    assert(replay(empty_store(), init).issued.contains(id));
                }
            }
        }
    }
}

/// Why an insert was refused.
#[derive(PartialEq, Eq, Structural, Clone, Copy, Debug)]
pub enum StoreError {
    /// The new item's id is already taken.
    DuplicateId,
}

impl ClipboardItem {
    /// A copy of this item.
    pub fn duplicate(&self) -> (r: ClipboardItem)
        ensures
            r@ == self@,
    {
        let code_language = match &self.code_language {
            Some(l) => Some(l.clone()),
            None => None,
        };
        let mut tags: Vec<String> = Vec::new();
        let mut i: usize = 0;
        while i < self.tags.len()
            invariant
                i <= self.tags.len(),
                tags@.len() == i,
                forall|k: int| 0 <= k < i ==> #[trigger] tags@[k]@ == self.tags@[k]@,
            decreases self.tags.len() - i,
        {
            tags.push(self.tags[i].clone());
            i = i + 1;
        }
        assert(texts(tags@) =~= texts(self.tags@));
        ClipboardItem {
            id: self.id.clone(),
            content: self.content.clone(),
            content_type: self.content_type.clone(),
            code_language,
            source_app: self.source_app.clone(),
            timestamp: self.timestamp,
            size: self.size,
            is_favorite: self.is_favorite,
            tags,
            preview: self.preview.clone(),
        }
    }
}

/// The clipboard history: at most `MAX_ITEMS` items with distinct ids,
/// newest first, and every id it ever issued, so that none is used twice.
pub struct ClipboardDatabase {
    items: Vec<ClipboardItem>,
    issued: Vec<String>,
    content_detector: ContentDetector,
}

impl View for ClipboardDatabase {
    type V = Seq<ItemView>;

    closed spec fn view(&self) -> Seq<ItemView> {
        self.items@.map_values(|it: ClipboardItem| it@)
    }
}

impl ClipboardDatabase {
    /// Every id this store has issued.
    pub closed spec fn issued_ids(&self) -> Set<Seq<char>> {
        Set::new(|id: Seq<char>| exists|k: int| 0 <= k < self.issued@.len() && self.issued@[k]@ == id)
    }

    /// The store as values.
    pub open spec fn store(&self) -> StoreView {
        StoreView { items: self@, issued: self.issued_ids() }
    }

    /// The detector classifies by the standard languages.
    pub closed spec fn detector_is_standard(&self) -> bool {
        &&& self.content_detector.wf()
        &&& self.content_detector@ == standard_languages()
    }

    /// The store's invariant.
    pub open spec fn wf(&self) -> bool {
        &&& well_shaped(self@)
        &&& ids_issued(self.store())
        &&& self.detector_is_standard()
    }

    /// An empty history that has issued no id.
    pub fn new() -> (r: Self)
        ensures
            r.wf(),
            r.store() == empty_store(),
    {
        let r = ClipboardDatabase {
            items: Vec::new(),
            issued: Vec::new(),
            content_detector: ContentDetector::new(),
        };
        assert(r@ =~= Seq::<ItemView>::empty());
        assert(r.issued_ids() =~= Set::<Seq<char>>::empty());
        r
    }

    /// Whether this store ever issued `id`.
    fn was_issued(&self, id: &String) -> (r: bool)
        ensures
            r == self.issued_ids().contains(id@),
    {
        let mut i: usize = 0;
        while i < self.issued.len()
            invariant
                i <= self.issued.len(),
                forall|j: int| 0 <= j < i ==> #[trigger] self.issued@[j]@ != id@,
            decreases self.issued.len() - i,
        {
            if self.issued[i] == *id {
                assert(self.issued@[i as int]@ == id@);
                return true;
            }
            i = i + 1;
        }
        false
    }

    /// Drops every item but the `n` most recent.
    fn retain_latest(&mut self, n: usize)
        ensures
            final(self)@ == retain_latest(old(self)@, n as nat),
            final(self).issued == old(self).issued,
            final(self).content_detector == old(self).content_detector,
    {
        self.items.truncate(n);
        assert(self@ =~= retain_latest(old(self)@, n as nat));
    }

    /// Adds `item` in timestamp order, then evicts all but the `MAX_ITEMS`
    /// most recent. Refused, with nothing changed, where its id was ever
    /// issued.
    pub fn insert_item(&mut self, item: ClipboardItem) -> (r: Result<(), StoreError>)
        requires
            old(self).wf(),
        ensures
            final(self).wf(),
            r is Err <==> old(self).issued_ids().contains(item@.id),
            r is Ok ==> final(self).store() == (StoreView {
                items: add_item(old(self)@, item@),
                issued: old(self).issued_ids().insert(item@.id),
            }),
            r is Err ==> final(self).store() == old(self).store(),
    {
        if self.was_issued(&item.id) {
            return Err(StoreError::DuplicateId);
        }
        let ghost s = self@;
        let ghost it = item@;
        let ghost before = self.issued_ids();
        assert forall|i: int| 0 <= i < s.len() implies #[trigger] before.contains(s[i].id) by {
            assert(self.store().issued.contains(self.store().items[i].id));
        }
        proof {
            assert(!has_id(s, it.id)) by {
                if has_id(s, it.id) {
                    let i = choose|i: int| 0 <= i < s.len() && s[i].id == it.id;
                    assert(self.store().issued.contains(self.store().items[i].id));
                }
            }
        }
        let mut k: usize = 0;
        while k < self.items.len() && self.items[k].timestamp > item.timestamp
            invariant
                s == self@,
                it == item@,
                k <= self.items.len(),
                forall|j: int| 0 <= j < k ==> #[trigger] s[j].timestamp > it.timestamp,
            decreases self.items.len() - k,
        {
            k = k + 1;
        }
        proof {
            lemma_insertion_point_at(s, it.timestamp, k as int);
            lemma_add_item_keeps_shape(s, it);
            lemma_add_item_members(s, it);
        }
        self.issued.push(item.id.clone());
        self.items.insert(k, item);
        assert(self@ =~= insert_newest_first(s, it));
        self.retain_latest(MAX_ITEMS);
        assert(self.issued_ids() =~= before.insert(it.id)) by {
            assert forall|id: Seq<char>| #[trigger] self.issued_ids().contains(id) implies before.insert(
                it.id,
            ).contains(id) by {
                let k = choose|k: int| 0 <= k < self.issued@.len() && self.issued@[k]@ == id;
                if k < self.issued@.len() - 1 {
                    assert(old(self).issued@[k] == self.issued@[k]);
                }
            }
            assert forall|id: Seq<char>| before.insert(it.id).contains(id) implies #[trigger] self.issued_ids().contains(
                id,
            ) by {
                if id == it.id {
                    assert(self.issued@[self.issued@.len() - 1]@ == id);
                } else {
                    let k = choose|k: int| 0 <= k < old(self).issued@.len() && old(self).issued@[k]@ == id;
                    assert(self.issued@[k] == old(self).issued@[k]);
                }
            }
        }
        assert forall|j: int| 0 <= j < self@.len() implies #[trigger] self.issued_ids().contains(
            self@[j].id,
        ) by {
            if self@[j] != it {
                let i = choose|i: int| 0 <= i < s.len() && s[i] == self@[j];
                assert(before.contains(s[i].id));
            }
        }
        Ok(())
    }

    /// Captures `content` under `id` at time `now`: classifies it, adds the
    /// new item and evicts down to `MAX_ITEMS`. Refused where `id` was ever
    /// issued.
    pub fn store_item_at(&mut self, content: &str, id: String, now: i64) -> (r: Result<
        ClipboardItem,
        StoreError,
    >)
        requires
            old(self).wf(),
        ensures
            final(self).wf(),
            r is Err <==> old(self).issued_ids().contains(id@),
            r is Err ==> final(self).store() == old(self).store(),
            r matches Ok(item) ==> item@ == new_item(content@, id@, now) && final(self).store() == (
            StoreView {
                items: add_item(old(self)@, item@),
                issued: old(self).issued_ids().insert(id@),
            }),
    {
        let info = self.content_detector.detect_content(content);
        let item = ClipboardItem {
            id,
            content: String::from_str(content),
            content_type: info.content_type,
            code_language: info.code_language,
            source_app: info.source_app,
            timestamp: now,
            size: info.size,
            is_favorite: false,
            tags: Vec::new(),
            preview: info.preview,
        };
        assert(item@.tags =~= Seq::<Seq<char>>::empty());
        assert(item@ == new_item(content@, id@, now));
        let copy = item.duplicate();
        match self.insert_item(item) {
            Ok(()) => Ok(copy),
            Err(e) => Err(e),
        }
    }

    /// Whether an item with exactly `content` was captured within the
    /// duplicate window that ends at `now`.
    pub fn content_exists_at(&self, content: &str, now: i64) -> (r: bool)
        ensures
            r == exists_recent(self@, content@, now),
    {
        let wanted = String::from_str(content);
        let mut i: usize = 0;
        while i < self.items.len()
            invariant
                wanted@ == content@,
                i <= self.items.len(),
                forall|j: int|
                    0 <= j < i ==> !(#[trigger] self@[j].content == content@ && is_recent(
                        self@[j],
                        now,
                    )),
            decreases self.items.len() - i,
        {
            let it = &self.items[i];
            if it.content == wanted && (it.timestamp as i128) > (now as i128) - (
            DEDUP_WINDOW_MS as i128) {
                assert(self@[i as int].content == content@ && is_recent(self@[i as int], now));
                return true;
            }
            i = i + 1;
        }
        false
    }

    /// Captures `content` at time `now` under `id` unless it is a duplicate
    /// within the window: then nothing is written and `Ok(None)` comes back.
    pub fn insert_if_new_at(&mut self, content: &str, id: String, now: i64) -> (r: Result<
        Option<ClipboardItem>,
        StoreError,
    >)
        requires
            old(self).wf(),
        ensures
            final(self).wf(),
            final(self).store() == record_change(old(self).store(), content@, id@, now),
            r matches Ok(None) <==> exists_recent(old(self)@, content@, now),
            r is Err <==> !exists_recent(old(self)@, content@, now) && old(
                self,
            ).issued_ids().contains(id@),
            r matches Ok(Some(item)) ==> item@ == new_item(content@, id@, now),
    {
        if self.content_exists_at(content, now) {
            return Ok(None);
        }
        match self.store_item_at(content, id, now) {
            Ok(item) => Ok(Some(item)),
            Err(e) => Err(e),
        }
    }

    /// The page of the history, newest first, that skips `offset` items and
    /// holds at most `limit`.
    pub fn get_clipboard_history(&self, limit: u32, offset: u32) -> (r: Vec<ClipboardItem>)
        ensures
            r@.map_values(|it: ClipboardItem| it@) == page(self@, limit as nat, offset as nat),
    {
        let n = self.items.len();
        let start: usize = if (offset as usize) <= n {
            offset as usize
        } else {
            n
        };
        let end: usize = if (limit as usize) <= n - start {
            start + limit as usize
        } else {
            n
        };
        let ghost expected = page(self@, limit as nat, offset as nat);
        assert(expected =~= self@.subrange(start as int, end as int));
        let mut out: Vec<ClipboardItem> = Vec::new();
        let mut i: usize = start;
        while i < end
            invariant
                n == self.items.len(),
                start <= i <= end <= n,
                out@.len() == i - start,
                forall|k: int| 0 <= k < i - start ==> #[trigger] out@[k]@ == self@[start + k],
            decreases end - i,
        {
            out.push(self.items[i].duplicate());
            i = i + 1;
        }
        assert(out@.map_values(|it: ClipboardItem| it@) =~= expected);
        out
    }

    /// Removes the item with `item_id`; nothing happens where none has it.
    /// The id stays issued.
    pub fn delete_clipboard_item(&mut self, item_id: &str)
        requires
            old(self).wf(),
        ensures
            final(self).wf(),
            final(self).issued_ids() == old(self).issued_ids(),
            has_id(old(self)@, item_id@) ==> final(self)@ == old(self)@.remove(
                index_of(old(self)@, item_id@),
            ),
            !has_id(old(self)@, item_id@) ==> final(self)@ == old(self)@,
    {
        let wanted = String::from_str(item_id);
        let ghost s = self@;
        let ghost ids = self.issued_ids();
        assert forall|j: int| 0 <= j < s.len() implies #[trigger] ids.contains(s[j].id) by {
            assert(self.store().issued.contains(self.store().items[j].id));
        }
        let mut i: usize = 0;
        while i < self.items.len()
            invariant
                s == self@,
                s == old(self)@,
                ids == old(self).issued_ids(),
                forall|j: int| 0 <= j < s.len() ==> #[trigger] ids.contains(s[j].id),
                self.issued == old(self).issued,
                self.wf(),
                wanted@ == item_id@,
                i <= self.items.len(),
                forall|j: int| 0 <= j < i ==> #[trigger] s[j].id != item_id@,
            decreases self.items.len() - i,
        {
            if self.items[i].id == wanted {
                proof {
                    let c = index_of(s, item_id@);
                    assert(s[i as int].id == item_id@);
                    if c != i {
                        if c < i {
                            assert(s[c].id != s[i as int].id);
                        } else {
                            assert(s[i as int].id != s[c].id);
                        }
                    }
                    assert(c == i);
                }
                self.items.remove(i);
                assert(self@ =~= s.remove(i as int));
                assert(self.issued_ids() =~= ids);
                assert forall|j: int| 0 <= j < self@.len() implies #[trigger] self.issued_ids().contains(
                    self@[j].id,
                ) by {
                    if j < i {
                        assert(self@[j] == s[j]);
                    } else {
                        assert(self@[j] == s[j + 1]);
                    }
                }
                return;
            }
            i = i + 1;
        }
    }

    /// Removes every item; the ids stay issued.
    pub fn clear_clipboard_history(&mut self)
        requires
            old(self).wf(),
        ensures
            final(self).wf(),
            final(self).store() == (StoreView {
                items: Seq::empty(),
                issued: old(self).issued_ids(),
            }),
    {
        self.items.clear();
        assert(self@ =~= Seq::<ItemView>::empty());
    }

    /// Captures `content` now under a fresh random id; see `store_item_at`.
    /// Only an id already issued, which are all 36 characters long where
    /// they come from here, can make it fail.
    pub fn store_clipboard_item(&mut self, content: &str) -> (r: Result<ClipboardItem, StoreError>)
        requires
            old(self).wf(),
        ensures
            final(self).wf(),
            r is Err ==> final(self).store() == old(self).store(),
            r is Err ==> exists|id: Seq<char>|
                id.len() == 36 && #[trigger] old(self).issued_ids().contains(id),
            r matches Ok(item) ==> {
                &&& item@ == new_item(content@, item@.id, item@.timestamp)
                &&& !old(self).issued_ids().contains(item@.id)
                &&& final(self).store() == (StoreView {
                    items: add_item(old(self)@, item@),
                    issued: old(self).issued_ids().insert(item@.id),
                })
            },
    {
        let id = fresh_id();
        let now = now_millis();
        self.store_item_at(content, id, now)
    }

    /// Whether an item with exactly `content` was captured within the last
    /// `DEDUP_WINDOW_MS`, by the wall clock.
    pub fn content_exists(&self, content: &str) -> (r: bool)
        ensures
            exists|now: i64| r == exists_recent(self@, content@, now),
    {
        let now = now_millis();
        self.content_exists_at(content, now)
    }

    /// Captures `content` now under a fresh random id unless it is a
    /// duplicate within the window; see `insert_if_new_at`.
    pub fn insert_if_new(&mut self, content: &str) -> (r: Result<Option<ClipboardItem>, StoreError>)
        requires
            old(self).wf(),
        ensures
            final(self).wf(),
            exists|id: Seq<char>, now: i64|
                final(self).store() == #[trigger] record_change(old(self).store(), content@, id, now),
            r matches Ok(None) ==> exists|i: int|
                0 <= i < old(self)@.len() && #[trigger] old(self)@[i].content == content@,
            r is Err ==> exists|id: Seq<char>|
                id.len() == 36 && #[trigger] old(self).issued_ids().contains(id),
            r matches Ok(Some(item)) ==> {
                &&& item@ == new_item(content@, item@.id, item@.timestamp)
                &&& !exists_recent(old(self)@, content@, item@.timestamp)
                &&& final(self).store() == record_change(
                    old(self).store(),
                    content@,
                    item@.id,
                    item@.timestamp,
                )
            },
    {
        let id = fresh_id();
        let now = now_millis();
        self.insert_if_new_at(content, id, now)
    }

    /// How many items the history holds.
    pub fn get_item_count(&self) -> (r: u32)
        requires
            self.wf(),
        ensures
            r == self@.len(),
    {
        self.items.len() as u32
    }
}

} // verus!
