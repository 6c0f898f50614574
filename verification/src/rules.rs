//! Detection rules and the correlation engine: each correlated rule keeps,
//! per group key, a sliding window of recent events, and fires when the
//! window satisfies the rule's operator.

use std::collections::VecDeque;
use vstd::prelude::*;
use vstd::string::StringExecFns;

use crate::codec::{parse_rfc3339_millis, rfc3339_millis, TIMESTAMP_BOUND_MS};

verus! {

broadcast use vstd::std_specs::vecdeque::group_vec_dequeue_axioms;

// ---------------------------------------------------------------------------
// Rule vocabulary
// ---------------------------------------------------------------------------

/// How serious an alert raised by a rule is.
#[derive(Debug, Clone, Copy, PartialEq, Eq)]
pub enum Severity {
    Low,
    Medium,
    High,
    Critical,
}

/// The label of a severity.
pub open spec fn severity_label(s: Severity) -> Seq<char> {
    match s {
        Severity::Low => "Low"@,
        Severity::Medium => "Medium"@,
        Severity::High => "High"@,
        Severity::Critical => "Critical"@,
    }
}

impl Severity {
    /// The severity's name, as written in rule files.
    pub fn to_str(&self) -> (r: &'static str)
        ensures
            r@ == severity_label(*self),
    {
        match self {
            Severity::Low => "Low",
            Severity::Medium => "Medium",
            Severity::High => "High",
            Severity::Critical => "Critical",
        }
    }
}

/// The attack stage a rule watches for.
#[derive(Debug, Clone, Copy, PartialEq, Eq)]
pub enum RuleCategory {
    Recon,
    Persistence,
    LateralMovement,
    Exfiltration,
    PrivEsc,
}

/// Whether a rule is switched on.
#[derive(Debug, Clone, Copy, PartialEq, Eq)]
pub enum RuleStatus {
    Enable,
    Disable,
}

/// The fields of a network event that a compiled rule can test.
#[derive(Debug, Clone, Copy, PartialEq, Eq)]
pub enum CompiledField {
    RemotePort,
    LocalPort,
    TxQueue,
    RxQueue,
    State,
    ProcessName,
    LocalIp,
    RemoteIp,
    Pid,
}

/// A typed value a compiled rule compares a field against.
#[derive(Debug, Clone, PartialEq, Eq)]
pub enum FieldValue {
    String(String),
    U16(u16),
    U32(u32),
    U64(u64),
    Bool(bool),
    Enum(String),
    Absent,
}

/// The kinds of checks a rule can perform.
#[derive(Debug, Clone, Copy, PartialEq, Eq)]
pub enum Type {
    TxQueue,
    RemotePort,
    RxQueue,
    LocalPort,
    PrivilegedPort,
    Correlation,
}

/// The display name of a check kind.
pub open spec fn type_label(t: Type) -> Seq<char> {
    match t {
        Type::TxQueue => "TxQueue"@,
        Type::RemotePort => "RemotePort"@,
        Type::RxQueue => "RxQueue"@,
        Type::LocalPort => "LocalPort"@,
        Type::PrivilegedPort => "PrivilegedPort"@,
        Type::Correlation => "Correlation"@,
    }
}

impl Type {
    /// The check kind's display name.
    pub fn as_str(&self) -> (r: &'static str)
        ensures
            r@ == type_label(*self),
    {
        match self {
            Type::TxQueue => "TxQueue",
            Type::RemotePort => "RemotePort",
            Type::RxQueue => "RxQueue",
            Type::LocalPort => "LocalPort",
            Type::PrivilegedPort => "PrivilegedPort",
            Type::Correlation => "Correlation",
        }
    }
}

/// How the events of a window are combined.
#[derive(Debug, Clone, Copy, PartialEq, Eq)]
pub enum CorrelationOperator {
    Count,
    Unique,
    Sequence,
    Sum,
}

/// The correlation part of a rule: events are grouped, kept for
/// `window_secs` seconds, and judged by `operator` against `threshold`.
#[derive(Debug, Clone, PartialEq, Eq)]
pub struct CorrelationRule {
    pub operator: CorrelationOperator,
    pub group_by: String,
    pub threshold: usize,
    pub window_secs: u64,
    pub sum_field: Option<String>,
    pub steps: Option<Vec<String>>,
}

/// A detection rule.
#[derive(Debug, Clone, PartialEq, Eq)]
pub struct Rule {
    pub name: String,
    pub severity: Severity,
    pub correlate: Option<CorrelationRule>,
    pub category: RuleCategory,
}

/// Why an event could not be correlated.
#[derive(Debug, Clone, Copy, PartialEq, Eq)]
pub enum CorrelationError {
    /// The event has no `timestamp` field holding an RFC 3339 text.
    MissingTimestamp,
}

impl CorrelationError {
    /// A human-readable description.
    pub fn message(&self) -> (r: &'static str)
        ensures
            r@ == "missing or invalid timestamp"@,
    {
        "missing or invalid timestamp"
    }
}

// ---------------------------------------------------------------------------
// Events
// ---------------------------------------------------------------------------

/// One top-level field of a JSON event: its name, its JSON text, and, when
/// the value is a JSON string, the string itself.
#[derive(Debug, PartialEq, Eq)]
pub struct EventField {
    pub name: String,
    pub text: String,
    pub string_value: Option<String>,
}

/// An event as the correlation engine reads it: the top-level fields of a
/// JSON object, in order.
#[derive(Debug, PartialEq, Eq)]
pub struct Event {
    pub fields: Vec<EventField>,
}

/// Mathematical content of an event field.
pub struct FieldModel {
    pub name: Seq<char>,
    pub text: Seq<char>,
    pub string_value: Option<Seq<char>>,
}

/// The text of an optional string.
pub open spec fn opt_text(o: Option<String>) -> Option<Seq<char>> {
    match o {
        Some(s) => Some(s@),
        None => None,
    }
}

impl View for EventField {
    type V = FieldModel;

    open spec fn view(&self) -> FieldModel {
        FieldModel { name: self.name@, text: self.text@, string_value: opt_text(self.string_value) }
    }
}

impl View for Event {
    type V = Seq<FieldModel>;

    open spec fn view(&self) -> Seq<FieldModel> {
        self.fields@.map_values(|f: EventField| f@)
    }
}

/// Position of the first field named `name` at or after position `i`.
pub open spec fn first_field_from(fields: Seq<FieldModel>, name: Seq<char>, i: int) -> Option<int>
    decreases fields.len() - i,
{
    if i < 0 || i >= fields.len() {
        None
    } else if fields[i].name == name {
        Some(i)
    } else {
        first_field_from(fields, name, i + 1)
    }
}

/// The field of an event that a lookup by name finds: the first one so named.
pub open spec fn field_named(fields: Seq<FieldModel>, name: Seq<char>) -> Option<FieldModel> {
    match first_field_from(fields, name, 0) {
        Some(i) => Some(fields[i]),
        None => None,
    }
}

/// The instant of an event: its `timestamp` field, when that is a string
/// that parses as RFC 3339.
pub open spec fn event_timestamp(fields: Seq<FieldModel>) -> Option<i64> {
    match field_named(fields, "timestamp"@) {
        Some(f) => match f.string_value {
            Some(s) => rfc3339_millis(s),
            None => None,
        },
        None => None,
    }
}

impl EventField {
    fn duplicate(&self) -> (r: EventField)
        ensures
            r@ == self@,
    {
        let string_value = match &self.string_value {
            Some(s) => Some(s.clone()),
            None => None,
        };
        EventField { name: self.name.clone(), text: self.text.clone(), string_value }
    }
}

impl Clone for Event {
    fn clone(&self) -> (r: Event)
        ensures
            r@ == self@,
    {
        let mut fields: Vec<EventField> = Vec::new();
        let mut i: usize = 0;
        while i < self.fields.len()
            invariant
                i <= self.fields@.len(),
                fields@.len() == i,
                forall|k: int| 0 <= k < i ==> #[trigger] fields@[k]@ == self.fields@[k]@,
            decreases self.fields@.len() - i,
        {
            fields.push(self.fields[i].duplicate());
            i = i + 1;
        }
        let r = Event { fields };
        assert(r@ =~= self@);
        r
    }
}

impl Event {
    /// Position of the first field with the given name.
    pub(crate) fn field_position(&self, name: &String) -> (r: Option<usize>)
        ensures
            match r {
                Some(i) => first_field_from(self@, name@, 0) == Some(i as int) && i < self@.len(),
                None => first_field_from(self@, name@, 0) is None,
            },
    {
        let mut i: usize = 0;
        while i < self.fields.len()
            invariant
                i <= self.fields@.len(),
                first_field_from(self@, name@, 0) == first_field_from(self@, name@, i as int),
            decreases self.fields@.len() - i,
        {
            if self.fields[i].name == *name {
                return Some(i);
            }
            i = i + 1;
        }
        None
    }

    /// The event's instant, read from its `timestamp` field.
    fn timestamp_ms(&self) -> (r: Option<i64>)
        ensures
            r == event_timestamp(self@),
            r matches Some(ms) ==> -TIMESTAMP_BOUND_MS <= ms <= TIMESTAMP_BOUND_MS,
    {
        let key = String::from_str("timestamp");
        match self.field_position(&key) {
            Some(i) => match &self.fields[i].string_value {
                Some(s) => parse_rfc3339_millis(s.as_str()),
                None => None,
            },
            None => None,
        }
    }
}

// ---------------------------------------------------------------------------
// Windows
// ---------------------------------------------------------------------------

/// An event kept in a window, with the instant it was taken at.
#[derive(Debug, PartialEq, Eq)]
pub struct WindowEntry {
    pub timestamp_ms: i64,
    pub event: Event,
}

/// Mathematical content of a window entry.
pub struct EntryModel {
    pub timestamp_ms: i64,
    pub event: Seq<FieldModel>,
}

impl View for WindowEntry {
    type V = EntryModel;

    open spec fn view(&self) -> EntryModel {
        EntryModel { timestamp_ms: self.timestamp_ms, event: self.event@ }
    }
}

/// The window of one rule and one group key.
#[derive(Debug)]
pub struct WindowSlot {
    pub rule_name: String,
    pub group_key: String,
    pub entries: VecDeque<WindowEntry>,
}

/// The entries of a window, as models.
pub open spec fn entries_model(q: Seq<WindowEntry>) -> Seq<EntryModel> {
    q.map_values(|e: WindowEntry| e@)
}

impl WindowSlot {
    /// The key of the window: rule name and group key.
    pub open spec fn key(&self) -> (Seq<char>, Seq<char>) {
        (self.rule_name@, self.group_key@)
    }

    /// The entries of the window, oldest first.
    pub open spec fn model(&self) -> Seq<EntryModel> {
        entries_model(self.entries@)
    }
}

/// All correlation windows, one per (rule name, group key).
#[derive(Debug)]
pub struct CorrelationState {
    pub windows: Vec<WindowSlot>,
}

/// Position of the first window with the given key at or after `i`.
pub open spec fn slot_from(slots: Seq<WindowSlot>, key: (Seq<char>, Seq<char>), i: int) -> Option<
    int,
>
    decreases slots.len() - i,
{
    if i < 0 || i >= slots.len() {
        None
    } else if slots[i].key() == key {
        Some(i)
    } else {
        slot_from(slots, key, i + 1)
    }
}

impl View for CorrelationState {
    type V = Map<(Seq<char>, Seq<char>), Seq<EntryModel>>;

    /// Each key maps to the entries of its window.
    open spec fn view(&self) -> Map<(Seq<char>, Seq<char>), Seq<EntryModel>> {
        Map::new(
            |k: (Seq<char>, Seq<char>)| slot_from(self.windows@, k, 0) is Some,
            |k: (Seq<char>, Seq<char>)| self.windows@[slot_from(self.windows@, k, 0)->0].model(),
        )
    }
}

/// Whether an entry taken at `ts` has left a window of `window_ms`
/// milliseconds at instant `now`. The age is read as an unsigned 64-bit
/// number, so an entry from the future counts as 2^64 milliseconds minus how
/// far ahead it is.
pub open spec fn outside_window(now: i64, ts: i64, window_ms: u64) -> bool {
    if now >= ts {
        now - ts > window_ms
    } else {
        now - ts + 0x1_0000_0000_0000_0000 > window_ms
    }
}

/// The entries that stay after the oldest ones that have left the window are
/// dropped; dropping stops at the first entry still inside.
pub open spec fn evict(entries: Seq<EntryModel>, now: i64, window_ms: u64) -> Seq<EntryModel>
    decreases entries.len(),
{
    if entries.len() > 0 && outside_window(now, entries[0].timestamp_ms, window_ms) {
        evict(entries.drop_first(), now, window_ms)
    } else {
        entries
    }
}

/// A window after an event taken at `now` arrives: stale entries dropped from
/// the front, the event appended.
pub open spec fn slide(entries: Seq<EntryModel>, now: i64, window_ms: u64, event: Seq<FieldModel>) -> Seq<
    EntryModel,
> {
    evict(entries, now, window_ms).push(EntryModel { timestamp_ms: now, event })
}

/// The JSON texts of field `name` in the entries that have it, oldest first.
pub open spec fn group_values(entries: Seq<EntryModel>, name: Seq<char>) -> Seq<Seq<char>>
    decreases entries.len(),
{
    if entries.len() == 0 {
        Seq::empty()
    } else {
        let rest = group_values(entries.drop_last(), name);
        match field_named(entries.last().event, name) {
            Some(f) => rest.push(f.text),
            None => rest,
        }
    }
}

/// Whether a window satisfies a correlation rule.
pub open spec fn verdict(c: CorrelationRule, window: Seq<EntryModel>) -> bool {
    match c.operator {
        CorrelationOperator::Count => window.len() >= c.threshold,
        CorrelationOperator::Unique => group_values(window, c.group_by@).to_set().len()
            >= c.threshold,
        CorrelationOperator::Sum => false,
        CorrelationOperator::Sequence => false,
    }
}

/// The width in milliseconds of a rule's window.
pub open spec fn window_width(c: CorrelationRule) -> int {
    c.window_secs * 1000
}

/// The window that a key currently has (empty when it has none).
pub open spec fn window_of(m: Map<(Seq<char>, Seq<char>), Seq<EntryModel>>, key: (Seq<char>, Seq<char>)) -> Seq<
    EntryModel,
> {
    if m.dom().contains(key) {
        m[key]
    } else {
        Seq::empty()
    }
}

/// Whether every entry's instant lies within the range chrono can produce.
pub open spec fn instants_bounded(entries: Seq<EntryModel>) -> bool {
    forall|k: int|
        0 <= k < entries.len() ==> -TIMESTAMP_BOUND_MS <= #[trigger] entries[k].timestamp_ms
            <= TIMESTAMP_BOUND_MS
}

proof fn lemma_slot_from_found(slots: Seq<WindowSlot>, key: (Seq<char>, Seq<char>), i: int)
    requires
        0 <= i,
    ensures
        slot_from(slots, key, i) matches Some(j) ==> i <= j < slots.len() && slots[j].key() == key,
        slot_from(slots, key, i) is None ==> forall|x: int|
            i <= x < slots.len() ==> #[trigger] slots[x].key() != key,
    decreases slots.len() - i,
{
    if i < slots.len() && slots[i].key() != key {
        lemma_slot_from_found(slots, key, i + 1);
    }
}

proof fn lemma_slot_from_same_keys(
    a: Seq<WindowSlot>,
    b: Seq<WindowSlot>,
    key: (Seq<char>, Seq<char>),
    i: int,
)
    requires
        a.len() == b.len(),
        forall|x: int| 0 <= x < a.len() ==> #[trigger] a[x].key() == b[x].key(),
    ensures
        slot_from(a, key, i) == slot_from(b, key, i),
    decreases a.len() - i,
{
    if 0 <= i < a.len() {
        lemma_slot_from_same_keys(a, b, key, i + 1);
    }
}

proof fn lemma_slot_from_push(a: Seq<WindowSlot>, s: WindowSlot, key: (Seq<char>, Seq<char>), i: int)
    requires
        0 <= i <= a.len(),
    ensures
        slot_from(a.push(s), key, i) == (match slot_from(a, key, i) {
            Some(j) => Some(j),
            None => if s.key() == key {
                Some(a.len() as int)
            } else {
                None
            },
        }),
    decreases a.len() - i,
{
    if i < a.len() {
        assert(a.push(s)[i] == a[i]);
        lemma_slot_from_push(a, s, key, i + 1);
    } else {
        assert(a.push(s)[i] == s);
        assert(slot_from(a.push(s), key, i + 1) is None);
    }
}

/// Whether the entry taken at `ts` has left the window, computed as the
/// unsigned reading of the signed age.
fn is_outside_window(now: i64, ts: i64, window_ms: u64) -> (r: bool)
    requires
        -TIMESTAMP_BOUND_MS <= now <= TIMESTAMP_BOUND_MS,
        -TIMESTAMP_BOUND_MS <= ts <= TIMESTAMP_BOUND_MS,
    ensures
        r == outside_window(now, ts, window_ms),
{
    let age: i64 = now - ts;
    let unsigned_age: u64 = age as u64;
    assert(age >= 0 ==> unsigned_age == age) by (bit_vector)
        requires
            unsigned_age == age as u64,
    ;
    assert(age < 0 ==> unsigned_age == age + 0x1_0000_0000_0000_0000) by (bit_vector)
        requires
            unsigned_age == age as u64,
    ;
    unsigned_age > window_ms
}

/// Whether a text occurs among the texts seen so far.
fn contains_text(seen: &Vec<String>, t: &String) -> (r: bool)
    ensures
        r == seen@.map_values(|s: String| s@).contains(t@),
{
    let ghost texts = seen@.map_values(|s: String| s@);
    let mut i: usize = 0;
    while i < seen.len()
        invariant
            i <= seen@.len(),
            texts == seen@.map_values(|s: String| s@),
            forall|k: int| 0 <= k < i ==> texts[k] != t@,
        decreases seen@.len() - i,
    {
        if seen[i] == *t {
            assert(texts[i as int] == t@);
            return true;
        }
        i = i + 1;
    }
    false
}

/// The number of distinct texts of field `name` in a window.
fn distinct_group_values(entries: &VecDeque<WindowEntry>, name: &String) -> (n: usize)
    ensures
        n == group_values(entries_model(entries@), name@).to_set().len(),
{
    let ghost model = entries_model(entries@);
    let mut seen: Vec<String> = Vec::new();
    let mut i: usize = 0;
    while i < entries.len()
        invariant
            i <= entries@.len(),
            model == entries_model(entries@),
            seen@.len() <= i,
            seen@.map_values(|s: String| s@).no_duplicates(),
            seen@.map_values(|s: String| s@).to_set() == group_values(model.take(i as int), name@).to_set(),
        decreases entries@.len() - i,
    {
        let ghost before = seen@.map_values(|s: String| s@);
        let e = &entries[i];
        assert(model.take(i + 1).drop_last() =~= model.take(i as int));
        assert(model.take(i + 1).last() == e@);
        match e.event.field_position(name) {
            Some(k) => {
                let t = &e.event.fields[k].text;
                assert(e.event@[k as int].text == t@);
                if !contains_text(&seen, t) {
                    seen.push(t.clone());
                    assert(seen@.map_values(|s: String| s@) =~= before.push(t@));
                    proof {
                        before.lemma_push_to_set_commute(t@);
                        group_values(model.take(i as int), name@).lemma_push_to_set_commute(t@);
                    }
                } else {
                    proof {
                        group_values(model.take(i as int), name@).lemma_push_to_set_commute(t@);
                        assert(before.to_set().contains(t@));
                        assert(before.to_set().insert(t@) =~= before.to_set());
                    }
                }
            },
            None => {},
        }
        i = i + 1;
    }
    assert(model.take(entries@.len() as int) =~= model);
    proof {
        seen@.map_values(|s: String| s@).unique_seq_to_set();
    }
    seen.len()
}


// ---------------------------------------------------------------------------
// Laws of the correlation windows
// ---------------------------------------------------------------------------

/// Eviction only ever drops entries from the front: what stays is a suffix
/// of the window, in the same order.
pub proof fn lemma_evict_keeps_suffix(entries: Seq<EntryModel>, now: i64, window_ms: u64)
    ensures
        evict(entries, now, window_ms).len() <= entries.len(),
        evict(entries, now, window_ms) == entries.subrange(
            entries.len() - evict(entries, now, window_ms).len(),
            entries.len() as int,
        ),
    decreases entries.len(),
{
    if entries.len() > 0 && outside_window(now, entries[0].timestamp_ms, window_ms) {
        let rest = entries.drop_first();
        lemma_evict_keeps_suffix(rest, now, window_ms);
        let n = evict(rest, now, window_ms).len();
        assert(rest.subrange(rest.len() - n, rest.len() as int) =~= entries.subrange(
            entries.len() - n,
            entries.len() as int,
        ));
    } else {
        assert(entries.subrange(0, entries.len() as int) =~= entries);
    }
}

/// After an event arrives, the window ends with that event, holds at most
/// one entry more than before, and its oldest entry has not left the window.
pub proof fn lemma_slide_shape(
    entries: Seq<EntryModel>,
    now: i64,
    window_ms: u64,
    event: Seq<FieldModel>,
)
    ensures
        slide(entries, now, window_ms, event).len() >= 1,
        slide(entries, now, window_ms, event).len() <= entries.len() + 1,
        slide(entries, now, window_ms, event).last() == (EntryModel { timestamp_ms: now, event }),
        !outside_window(now, slide(entries, now, window_ms, event)[0].timestamp_ms, window_ms),
{
    lemma_evict_keeps_suffix(entries, now, window_ms);
    lemma_evict_front_inside(entries, now, window_ms);
    let kept = evict(entries, now, window_ms);
    if kept.len() > 0 {
        assert(slide(entries, now, window_ms, event)[0] == kept[0]);
    }
}

proof fn lemma_evict_front_inside(entries: Seq<EntryModel>, now: i64, window_ms: u64)
    ensures
        evict(entries, now, window_ms).len() > 0 ==> !outside_window(
            now,
            evict(entries, now, window_ms)[0].timestamp_ms,
            window_ms,
        ),
    decreases entries.len(),
{
    if entries.len() > 0 && outside_window(now, entries[0].timestamp_ms, window_ms) {
        lemma_evict_front_inside(entries.drop_first(), now, window_ms);
    }
}

proof fn lemma_group_values_len(entries: Seq<EntryModel>, name: Seq<char>)
    ensures
        group_values(entries, name).len() <= entries.len(),
    decreases entries.len(),
{
    if entries.len() > 0 {
        lemma_group_values_len(entries.drop_last(), name);
    }
}

/// A window never holds more distinct values of a field than entries, so
/// whenever a `Unique` rule fires, a `Count` rule with the same threshold
/// fires on the same window.
pub proof fn lemma_unique_implies_count(window: Seq<EntryModel>, name: Seq<char>, threshold: usize)
    ensures
        group_values(window, name).to_set().len() <= window.len(),
        group_values(window, name).to_set().len() >= threshold ==> window.len() >= threshold,
{
    lemma_group_values_len(window, name);
    group_values(window, name).lemma_cardinality_of_set();
}

/// The JSON texts that field `name` has among the entries of a window that
/// have such a field, whatever the JSON type of the value.
pub open spec fn field_texts(window: Seq<EntryModel>, name: Seq<char>) -> Set<Seq<char>> {
    Set::new(
        |t: Seq<char>|
            exists|i: int|
                0 <= i < window.len() && (#[trigger] field_named(window[i].event, name) matches Some(
                    f,
                ) && f.text == t),
    )
}

/// The values a `Unique` rule tells apart are exactly the JSON texts of the
/// grouping field in the window's entries that have it: a number, a string or
/// any other JSON value counts, and an entry without the field adds nothing.
pub proof fn lemma_unique_values_are_field_texts(window: Seq<EntryModel>, name: Seq<char>)
    ensures
        group_values(window, name).to_set() == field_texts(window, name),
    decreases window.len(),
{
    if window.len() == 0 {
        assert(group_values(window, name).to_set() =~= field_texts(window, name));
    } else {
        let prefix = window.drop_last();
        lemma_unique_values_are_field_texts(prefix, name);
        let rest = group_values(prefix, name);
        let last = window.last();
        match field_named(last.event, name) {
            Some(f) => {
                rest.lemma_push_to_set_commute(f.text);
            },
            None => {},
        }
        assert forall|t: Seq<char>|
            group_values(window, name).to_set().contains(t) <==> field_texts(window, name).contains(
                t,
            ) by {
            if field_texts(window, name).contains(t) {
                let i = choose|i: int|
                    0 <= i < window.len() && (#[trigger] field_named(window[i].event, name) matches Some(
                        f,
                    ) && f.text == t);
                if i < window.len() - 1 {
                    assert(prefix[i] == window[i]);
                    assert(field_texts(prefix, name).contains(t));
                }
            }
            if field_texts(prefix, name).contains(t) {
                let i = choose|i: int|
                    0 <= i < prefix.len() && (#[trigger] field_named(prefix[i].event, name) matches Some(
                        f,
                    ) && f.text == t);
                assert(window[i] == prefix[i]);
            }
            if field_named(last.event, name) matches Some(f) && f.text == t {
                assert(window[window.len() - 1] == last);
            }
        }
        assert(group_values(window, name).to_set() =~= field_texts(window, name));
    }
}

/// A `Unique` rule with threshold at most one fires on every window holding
/// an entry that has the grouping field, whatever its value's JSON type.
pub proof fn lemma_unique_sees_any_value(c: CorrelationRule, window: Seq<EntryModel>, i: int)
    requires
        c.operator == CorrelationOperator::Unique,
        c.threshold <= 1,
        0 <= i < window.len(),
        field_named(window[i].event, c.group_by@) is Some,
    ensures
        verdict(c, window),
{
    let name = c.group_by@;
    lemma_unique_values_are_field_texts(window, name);
    let t = field_named(window[i].event, name)->0.text;
    assert(field_texts(window, name).contains(t));
    vstd::seq_lib::seq_to_set_is_finite(group_values(window, name));
    vstd::set_lib::lemma_set_empty_equivalency_len(group_values(window, name).to_set());
}

/// A `Count` rule counts events, not values: its verdict is whether the
/// window holds at least `threshold` entries, so two windows of one length
/// get the same verdict whatever fields their events carry.
pub proof fn lemma_count_counts_entries(c: CorrelationRule, w1: Seq<EntryModel>, w2: Seq<EntryModel>)
    requires
        c.operator == CorrelationOperator::Count,
        w1.len() == w2.len(),
    ensures
        verdict(c, w1) == (w1.len() >= c.threshold),
        verdict(c, w1) == verdict(c, w2),
{
}

/// Processing a timestamped event for a `Count` rule answers whether the
/// entries kept from the key's window, together with the new event, number
/// at least `threshold`: an event fires a threshold-one rule whatever fields
/// it carries.
pub proof fn lemma_process_count(
    before: Map<(Seq<char>, Seq<char>), Seq<EntryModel>>,
    after: Map<(Seq<char>, Seq<char>), Seq<EntryModel>>,
    rule: Rule,
    group_key: Seq<char>,
    event: Seq<FieldModel>,
    r: Result<bool, CorrelationError>,
)
    requires
        processed(before, after, rule, group_key, event, r),
        rule.correlate matches Some(c) && c.operator == CorrelationOperator::Count,
        event_timestamp(event) is Some,
    ensures
        r == Ok::<bool, CorrelationError>(
            evict(
                window_of(before, (rule.name@, group_key)),
                event_timestamp(event)->0,
                window_width(rule.correlate->0) as u64,
            ).len() + 1 >= rule.correlate->0.threshold,
        ),
{
}

/// Processing a timestamped event that has the grouping field, whatever its
/// JSON type, fires a `Unique` rule with threshold at most one.
pub proof fn lemma_process_unique(
    before: Map<(Seq<char>, Seq<char>), Seq<EntryModel>>,
    after: Map<(Seq<char>, Seq<char>), Seq<EntryModel>>,
    rule: Rule,
    group_key: Seq<char>,
    event: Seq<FieldModel>,
    r: Result<bool, CorrelationError>,
)
    requires
        processed(before, after, rule, group_key, event, r),
        rule.correlate matches Some(c) && c.operator == CorrelationOperator::Unique && c.threshold
            <= 1 && field_named(event, c.group_by@) is Some,
        event_timestamp(event) is Some,
    ensures
        r == Ok::<bool, CorrelationError>(true),
{
    let c = rule.correlate->0;
    let now = event_timestamp(event)->0;
    let window = slide(
        window_of(before, (rule.name@, group_key)),
        now,
        window_width(c) as u64,
        event,
    );
    let k = window.len() - 1;
    assert(window[k].event == event);
    lemma_unique_sees_any_value(c, window, k);
}

/// Whether an event processed for a rule and group key took the windows
/// from `before` to `after` with answer `r`. A rule without a correlation
/// part answers `false` and an event without a readable timestamp is an
/// error, neither touching the windows; otherwise the key's window drops its
/// stale front entries and takes the event, and the answer is the verdict on
/// it.
pub open spec fn processed(
    before: Map<(Seq<char>, Seq<char>), Seq<EntryModel>>,
    after: Map<(Seq<char>, Seq<char>), Seq<EntryModel>>,
    rule: Rule,
    group_key: Seq<char>,
    event: Seq<FieldModel>,
    r: Result<bool, CorrelationError>,
) -> bool {
    match rule.correlate {
        None => r == Ok::<bool, CorrelationError>(false) && after == before,
        Some(c) => match event_timestamp(event) {
            None => r == Err::<bool, CorrelationError>(CorrelationError::MissingTimestamp) && after
                == before,
            Some(now) => {
                let key = (rule.name@, group_key);
                let window = slide(window_of(before, key), now, window_width(c) as u64, event);
                &&& after == before.insert(key, window)
                &&& r == Ok::<bool, CorrelationError>(verdict(c, window))
            },
        },
    }
}

/// Whether a rule's window is too wide to measure in milliseconds.
pub open spec fn window_overflows(rule: Rule) -> bool {
    rule.correlate matches Some(c) && window_width(c) > u64::MAX
}

impl CorrelationState {
    /// The state's invariant: no two windows share a key, and every instant
    /// stored lies in the range chrono produces.
    pub open spec fn wf(&self) -> bool {
        &&& forall|i: int, j: int|
            0 <= i < j < self.windows@.len() ==> #[trigger] self.windows@[i].key()
                != #[trigger] self.windows@[j].key()
        &&& forall|i: int|
            0 <= i < self.windows@.len() ==> instants_bounded(#[trigger] self.windows@[i].model())
    }

    /// A state with no windows.
    pub fn new() -> (r: CorrelationState)
        ensures
            r.wf(),
            r@ == Map::<(Seq<char>, Seq<char>), Seq<EntryModel>>::empty(),
    {
        let r = CorrelationState { windows: Vec::new() };
        assert(r@ =~= Map::<(Seq<char>, Seq<char>), Seq<EntryModel>>::empty());
        r
    }

    /// Feeds an event to a rule's window for a group key and reports whether
    /// the window now satisfies the rule.
    ///
    /// A rule without a correlation part never fires and leaves the state
    /// alone; so does an event without a readable timestamp, which is an
    /// error. Otherwise the key's window (created empty when missing) drops
    /// its stale front entries, takes the event, and is judged.
    pub fn process(&mut self, rule: &Rule, group_key: &str, event: &Event) -> (r: Result<
        bool,
        CorrelationError,
    >)
        requires
            old(self).wf(),
            event_timestamp(event@) is Some ==> (rule.correlate matches Some(c) ==> window_width(c)
                <= u64::MAX),
        ensures
            final(self).wf(),
            processed(old(self)@, final(self)@, *rule, group_key@, event@, r),
    {
        let correlate = match &rule.correlate {
            Some(c) => c,
            None => return Ok(false),
        };
        let now = match event.timestamp_ms() {
            Some(t) => t,
            None => return Err(CorrelationError::MissingTimestamp),
        };
        let window_ms = correlate.window_secs * 1000;
        let group = String::from_str(group_key);
        let ghost key = (rule.name@, group_key@);
        let ghost old_windows = self.windows@;
        let ghost old_view = self@;

        // Find the key's window, or start an empty one.
        let found_at = self.find_slot(&rule.name, &group);
        let found = found_at.is_some();
        let j: usize = match found_at {
            Some(x) => x,
            None => 0,
        };
        proof {
            lemma_slot_from_found(old_windows, key, 0);
        }
        let mut slot = if found {
            self.windows.remove(j)
        } else {
            WindowSlot { rule_name: rule.name.clone(), group_key: group, entries: VecDeque::new() }
        };
        let ghost start = slot.model();
        assert(start == window_of(old_view, key)) by {
            if !found {
                assert(slot.model() =~= Seq::<EntryModel>::empty());
            }
        }
        assert(instants_bounded(start)) by {
            if found {
                assert(old_windows[j as int] == slot);
            }
        }

        // Drop the entries that have left the window.
        while slot.entries.len() > 0
            invariant
                evict(slot.model(), now, window_ms) == evict(start, now, window_ms),
                instants_bounded(slot.model()),
                -TIMESTAMP_BOUND_MS <= now <= TIMESTAMP_BOUND_MS,
                slot.key() == key,
            ensures
                slot.model() == evict(start, now, window_ms),
                instants_bounded(slot.model()),
                slot.key() == key,
            decreases slot.entries@.len(),
        {
            let ts = slot.entries[0].timestamp_ms;
            assert(slot.model()[0].timestamp_ms == ts);
            if is_outside_window(now, ts, window_ms) {
                let ghost before = slot.model();
                slot.entries.pop_front();
                assert(slot.model() =~= before.drop_first());
                assert forall|k: int| 0 <= k < slot.model().len() implies -TIMESTAMP_BOUND_MS
                    <= #[trigger] slot.model()[k].timestamp_ms <= TIMESTAMP_BOUND_MS by {
                    assert(slot.model()[k] == before[k + 1]);
                }
            } else {
                break;
            }
        }

        // Take the event.
        let ghost evicted = slot.model();
        slot.entries.push_back(WindowEntry { timestamp_ms: now, event: event.clone() });
        let ghost window = slide(start, now, window_ms, event@);
        assert(slot.model() =~= window);
        assert(instants_bounded(slot.model())) by {
            assert forall|k: int| 0 <= k < slot.model().len() implies -TIMESTAMP_BOUND_MS
                <= #[trigger] slot.model()[k].timestamp_ms <= TIMESTAMP_BOUND_MS by {
                if k < evicted.len() {
                    assert(slot.model()[k] == evicted[k]);
                }
            }
        }
        let verdict_now = Self::evaluate(correlate, &slot.entries);

        // Put the window back in its place.
        let ghost new_slot = slot;
        let pos = if found {
            j
        } else {
            self.windows.len()
        };
        self.windows.insert(pos, slot);
        proof {
            let w = self.windows@;
            if found {
                assert(old_windows.remove(j as int).insert(j as int, new_slot) =~= old_windows.update(
                    j as int,
                    new_slot,
                ));
                assert(w =~= old_windows.update(j as int, new_slot));
                assert forall|x: int| 0 <= x < w.len() implies #[trigger] w[x].key()
                    == old_windows[x].key() by {}
                assert forall|k: (Seq<char>, Seq<char>)|
                    slot_from(w, k, 0) == slot_from(old_windows, k, 0) by {
                    lemma_slot_from_same_keys(w, old_windows, k, 0);
                }
                assert forall|k: (Seq<char>, Seq<char>)| #[trigger]
                    old_view.dom().contains(k) && k != key implies self@[k] == old_view[k] by {
                    lemma_slot_from_found(old_windows, k, 0);
                }
                assert(self@ =~= old_view.insert(key, window));
            } else {
                assert(old_windows.insert(old_windows.len() as int, new_slot) =~= old_windows.push(
                    new_slot,
                ));
                assert(w =~= old_windows.push(new_slot));
                assert forall|k: (Seq<char>, Seq<char>)|
                    slot_from(w, k, 0) == (match slot_from(old_windows, k, 0) {
                        Some(x) => Some(x),
                        None => if new_slot.key() == k {
                            Some(old_windows.len() as int)
                        } else {
                            None
                        },
                    }) by {
                    lemma_slot_from_push(old_windows, new_slot, k, 0);
                }
                assert forall|k: (Seq<char>, Seq<char>)| #[trigger]
                    old_view.dom().contains(k) implies self@[k] == old_view[k] by {
                    lemma_slot_from_found(old_windows, k, 0);
                    assert(w[slot_from(old_windows, k, 0)->0] == old_windows[slot_from(
                        old_windows,
                        k,
                        0,
                    )->0]);
                }
                assert(self@ =~= old_view.insert(key, window));
            }
            assert forall|a: int, b: int| 0 <= a < b < w.len() implies #[trigger] w[a].key()
                != #[trigger] w[b].key() by {
                if found {
                    assert(w[a].key() == old_windows[a].key());
                    assert(w[b].key() == old_windows[b].key());
                } else if b == old_windows.len() {
                    assert(w[a] == old_windows[a]);
                }
            }
            assert forall|a: int| 0 <= a < w.len() implies instants_bounded(
                #[trigger] w[a].model(),
            ) by {
                if a != pos {
                    assert(w[a] == old_windows[a]);
                }
            }
        }
        Ok(verdict_now)
    }

    /// Processes an event like `process` when the rule's window can be
    /// measured in milliseconds, or when the event has no readable timestamp
    /// (which is answered before the window is measured). A correlated rule
    /// whose window is too wide, with a timestamped event, is not processed:
    /// the answer is `None` and the windows stay as they were.
    pub fn try_process(&mut self, rule: &Rule, group_key: &str, event: &Event) -> (r: Option<
        Result<bool, CorrelationError>,
    >)
        requires
            old(self).wf(),
        ensures
            final(self).wf(),
            r is None <==> window_overflows(*rule) && event_timestamp(event@) is Some,
            r is None ==> final(self)@ == old(self)@,
            r matches Some(answer) ==> processed(
                old(self)@,
                final(self)@,
                *rule,
                group_key@,
                event@,
                answer,
            ),
    {
        if let Some(c) = &rule.correlate {
            if c.window_secs > u64::MAX / 1000 {
                assert(c.window_secs * 1000 > u64::MAX) by (nonlinear_arith)
                    requires
                        c.window_secs > u64::MAX / 1000,
                ;
                if event.timestamp_ms().is_some() {
                    return None;
                }
            } else {
                assert(c.window_secs * 1000 <= u64::MAX) by (nonlinear_arith)
                    requires
                        c.window_secs <= u64::MAX / 1000,
                ;
            }
        }
        Some(self.process(rule, group_key, event))
    }

    /// Position of the window with the given key.
    fn find_slot(&self, rule_name: &String, group_key: &String) -> (r: Option<usize>)
        ensures
            match r {
                Some(j) => slot_from(self.windows@, (rule_name@, group_key@), 0) == Some(j as int)
                    && j < self.windows@.len(),
                None => slot_from(self.windows@, (rule_name@, group_key@), 0) is None,
            },
    {
        let ghost key = (rule_name@, group_key@);
        let mut j: usize = 0;
        while j < self.windows.len()
            invariant
                j <= self.windows@.len(),
                key == (rule_name@, group_key@),
                slot_from(self.windows@, key, 0) == slot_from(self.windows@, key, j as int),
            decreases self.windows@.len() - j,
        {
            let same_rule = self.windows[j].rule_name.eq(rule_name);
            let same_group = self.windows[j].group_key.eq(group_key);
            if same_rule && same_group {
                assert(self.windows@[j as int].key() == key);
                return Some(j);
            }
            j = j + 1;
        }
        None
    }

    /// Judges a window by a correlation rule.
    fn evaluate(correlate: &CorrelationRule, entries: &VecDeque<WindowEntry>) -> (r: bool)
        ensures
            r == verdict(*correlate, entries_model(entries@)),
    {
        match correlate.operator {
            CorrelationOperator::Count => entries.len() >= correlate.threshold,
            CorrelationOperator::Unique => {
                distinct_group_values(entries, &correlate.group_by) >= correlate.threshold
            },
            CorrelationOperator::Sum => false,
            CorrelationOperator::Sequence => false,
        }
    }
}

} // verus!
