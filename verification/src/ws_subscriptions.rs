//! The subscriptions that a public WebSocket stream keeps: each symbol with
//! the time a caller last asked for it and where its subscription stands on
//! the current connection. Symbols that nobody asked for within the idle
//! time are dropped and unsubscribed.

use vstd::prelude::*;
use dashmap::DashMap;

verus! {

/// How long a symbol stays subscribed after it was last asked for.
pub const SUBSCRIPTION_IDLE_TTL_MS: i64 = 20000;

/// The most symbols one subscribe or unsubscribe request carries.
pub const SUBSCRIBE_BATCH_SIZE: usize = 50;

/// Where one symbol's subscription stands.
#[derive(Clone, Copy, Debug)]
pub struct SubscriptionState {
    pub last_touched_ms: i64,
    pub sent_on_current_connection: bool,
    pub sent_at_ms: Option<i64>,
    pub acknowledged_on_current_connection: bool,
}

/// The state of a symbol first asked for at `now_ms`: nothing sent yet.
pub open spec fn fresh_state(now_ms: i64) -> SubscriptionState {
    SubscriptionState {
        last_touched_ms: now_ms,
        sent_on_current_connection: false,
        sent_at_ms: None,
        acknowledged_on_current_connection: false,
    }
}

/// What a subscription table holds: each symbol's state.
pub uninterp spec fn subscription_table(m: DashMap<String, SubscriptionState>) -> Map<
    Seq<char>,
    SubscriptionState,
>;

/// A table with no entries.
pub open spec fn no_subscriptions() -> Map<Seq<char>, SubscriptionState> {
    Map::empty()
}

/// `DashMap::new`: a map with no entries.
#[verifier::external_body]
fn table_new() -> (m: DashMap<String, SubscriptionState>)
    ensures
        subscription_table(m) == no_subscriptions(),
{
    DashMap::new()
}

/// `DashMap::get`, copying the state out: present exactly when the key is.
#[verifier::external_body]
fn table_get(m: &DashMap<String, SubscriptionState>, key: &str) -> (r: Option<SubscriptionState>)
    ensures
        match r {
            Some(s) => subscription_table(*m).contains_key(key@) && s == subscription_table(
                *m,
            )[key@],
            None => !subscription_table(*m).contains_key(key@),
        },
{
    m.get(key).map(|entry| *entry.value())
}

/// `DashMap::insert`: the key now maps to the value; other keys are
/// untouched.
#[verifier::external_body]
fn table_insert(m: &mut DashMap<String, SubscriptionState>, key: String, value: SubscriptionState)
    ensures
        subscription_table(*final(m)) == subscription_table(*old(m)).insert(key@, value),
{
    m.insert(key, value);
}

/// `DashMap::remove`: the key is gone; other keys are untouched.
#[verifier::external_body]
fn table_remove(m: &mut DashMap<String, SubscriptionState>, key: &str)
    ensures
        subscription_table(*final(m)) == subscription_table(*old(m)).remove(key@),
{
    m.remove(key);
}

/// `DashMap::is_empty`: true exactly when no key is present.
#[verifier::external_body]
fn table_is_empty(m: &DashMap<String, SubscriptionState>) -> (r: bool)
    ensures
        r == (subscription_table(*m).dom() == Set::<Seq<char>>::empty()),
{
    m.is_empty()
}

/// `DashMap::iter`, copying each entry out: every entry once, in an order
/// that the map does not promise.
#[verifier::external_body]
fn table_entries(m: &DashMap<String, SubscriptionState>) -> (r: Vec<(String, SubscriptionState)>)
    ensures
        forall|i: int|
            0 <= i < r@.len() ==> subscription_table(*m).contains_key(#[trigger] r@[i].0@)
                && subscription_table(*m)[r@[i].0@] == r@[i].1,
        forall|i: int, j: int| 0 <= i < j < r@.len() ==> r@[i].0@ != r@[j].0@,
        forall|k: Seq<char>| #[trigger]
            subscription_table(*m).contains_key(k) ==> exists|i: int|
                0 <= i < r@.len() && r@[i].0@ == k,
{
    m.iter().map(|entry| (entry.key().clone(), *entry.value())).collect()
}

/// The subscriptions of one stream.
#[derive(Debug)]
pub struct SubscriptionRegistry {
    table: DashMap<String, SubscriptionState>,
}

impl View for SubscriptionRegistry {
    type V = Map<Seq<char>, SubscriptionState>;

    closed spec fn view(&self) -> Map<Seq<char>, SubscriptionState> {
        subscription_table(self.table)
    }
}

/// The state after a symbol is asked for at `now_ms`: its time is renewed,
/// or it starts fresh.
pub open spec fn touched_state(m: Map<Seq<char>, SubscriptionState>, symbol: Seq<char>, now_ms: i64) -> SubscriptionState {
    if m.contains_key(symbol) {
        SubscriptionState { last_touched_ms: now_ms, ..m[symbol] }
    } else {
        fresh_state(now_ms)
    }
}

/// The table after the symbols are asked for, in order.
pub open spec fn touched_all(
    m: Map<Seq<char>, SubscriptionState>,
    symbols: Seq<Seq<char>>,
    now_ms: i64,
) -> Map<Seq<char>, SubscriptionState>
    decreases symbols.len(),
{
    if symbols.len() == 0 {
        m
    } else {
        let prev = touched_all(m, symbols.drop_last(), now_ms);
        prev.insert(symbols.last(), touched_state(prev, symbols.last(), now_ms))
    }
}

/// The symbols that asking for `symbols` adds, in order: each one that the
/// table held neither before nor earlier in the list.
pub open spec fn added_symbols(
    m: Map<Seq<char>, SubscriptionState>,
    symbols: Seq<Seq<char>>,
    now_ms: i64,
) -> Seq<Seq<char>>
    decreases symbols.len(),
{
    if symbols.len() == 0 {
        Seq::empty()
    } else {
        let prev = added_symbols(m, symbols.drop_last(), now_ms);
        if touched_all(m, symbols.drop_last(), now_ms).contains_key(symbols.last()) {
            prev
        } else {
            prev.push(symbols.last())
        }
    }
}

/// The time before which a symbol counts as idle: the idle time before
/// `now_ms`, saturating.
pub open spec fn idle_cutoff(now_ms: i64) -> int {
    if now_ms - SUBSCRIPTION_IDLE_TTL_MS < i64::MIN {
        i64::MIN as int
    } else {
        now_ms - SUBSCRIPTION_IDLE_TTL_MS
    }
}

/// Whether a subscription is idle at `now_ms`.
pub open spec fn is_idle(s: SubscriptionState, now_ms: i64) -> bool {
    s.last_touched_ms < idle_cutoff(now_ms)
}

/// A state with nothing sent on the current connection.
pub open spec fn unsent_state(s: SubscriptionState) -> SubscriptionState {
    SubscriptionState {
        sent_on_current_connection: false,
        sent_at_ms: None,
        acknowledged_on_current_connection: false,
        ..s
    }
}

/// Texts without repeats.
pub open spec fn distinct(s: Seq<Seq<char>>) -> bool {
    forall|i: int, j: int| 0 <= i < j < s.len() ==> s[i] != s[j]
}

pub open spec fn string_views(v: Seq<String>) -> Seq<Seq<char>> {
    v.map_values(|s: String| s@)
}

/// A change to the listed symbols' states.
#[derive(Clone, Copy, Debug)]
pub enum StateUpdate {
    /// The subscribe request went out (no time kept).
    Sent,
    /// The subscribe request went out at this time; no answer yet.
    SentAt(i64),
    /// The subscribe request did not go out.
    Unsent,
    /// The venue answered the subscribe request: accepted or refused.
    Acknowledged(bool),
}

/// A state after an update.
pub open spec fn updated(s: SubscriptionState, op: StateUpdate) -> SubscriptionState {
    match op {
        StateUpdate::Sent => SubscriptionState { sent_on_current_connection: true, ..s },
        StateUpdate::SentAt(t) => SubscriptionState {
            sent_on_current_connection: true,
            sent_at_ms: Some(t),
            acknowledged_on_current_connection: false,
            ..s
        },
        StateUpdate::Unsent => unsent_state(s),
        StateUpdate::Acknowledged(ok) => SubscriptionState {
            acknowledged_on_current_connection: ok,
            ..s
        },
    }
}

fn apply_update(s: SubscriptionState, op: StateUpdate) -> (r: SubscriptionState)
    ensures
        r == updated(s, op),
{
    match op {
        StateUpdate::Sent => SubscriptionState { sent_on_current_connection: true, ..s },
        StateUpdate::SentAt(t) => SubscriptionState {
            sent_on_current_connection: true,
            sent_at_ms: Some(t),
            acknowledged_on_current_connection: false,
            ..s
        },
        StateUpdate::Unsent => SubscriptionState {
            sent_on_current_connection: false,
            sent_at_ms: None,
            acknowledged_on_current_connection: false,
            ..s
        },
        StateUpdate::Acknowledged(ok) => SubscriptionState {
            acknowledged_on_current_connection: ok,
            ..s
        },
    }
}

/// The table after an update of the listed symbols that it holds; other
/// symbols, and listed ones it does not hold, are left alone.
pub open spec fn updated_listed(
    m: Map<Seq<char>, SubscriptionState>,
    symbols: Seq<Seq<char>>,
    op: StateUpdate,
) -> Map<Seq<char>, SubscriptionState> {
    Map::new(
        |k: Seq<char>| m.contains_key(k),
        |k: Seq<char>|
            if symbols.contains(k) {
                updated(m[k], op)
            } else {
                m[k]
            },
    )
}

/// The first `size` items, then the next `size`, and so on; only the last
/// batch may be shorter.
pub open spec fn batched<T>(items: Seq<T>, size: nat) -> Seq<Seq<T>>
    decreases items.len(),
{
    if items.len() == 0 || size == 0 {
        Seq::empty()
    } else if items.len() <= size {
        seq![items]
    } else {
        seq![items.subrange(0, size as int)] + batched(items.subrange(size as int, items.len() as int), size)
    }
}

/// Batching keeps every item, in order, in batches of one to `size` items.
pub proof fn batches_keep_every_symbol_in_order<T>(items: Seq<T>, size: nat)
    requires
        size > 0,
    ensures
        batched(items, size).flatten() == items,
        forall|i: int|
            0 <= i < batched(items, size).len() ==> 0 < (#[trigger] batched(items, size)[i]).len()
                <= size,
    decreases items.len(),
{
    if items.len() == 0 {
    } else if items.len() <= size {
        seq![items].lemma_flatten_one_element();
    } else {
        let head = items.subrange(0, size as int);
        let rest = items.subrange(size as int, items.len() as int);
        batches_keep_every_symbol_in_order(rest, size);
        assert(batched(items, size) == seq![head] + batched(rest, size));
        vstd::seq_lib::lemma_flatten_concat(seq![head], batched(rest, size));
        seq![head].lemma_flatten_one_element();
        assert(head + rest =~= items);
        assert forall|i: int|
            0 <= i < batched(items, size).len() implies 0 < (#[trigger] batched(items, size)[i]).len()
                <= size by {
            if i > 0 {
                assert(batched(items, size)[i] == batched(rest, size)[i - 1]);
            }
        }
    }
}

/// A symbol just asked for is not idle until the idle time has passed.
pub proof fn a_touched_symbol_stays_until_idle(
    m: Map<Seq<char>, SubscriptionState>,
    symbol: Seq<char>,
    now_ms: i64,
    later_ms: i64,
)
    requires
        later_ms - now_ms <= SUBSCRIPTION_IDLE_TTL_MS,
    ensures
        !is_idle(touched_state(m, symbol, now_ms), later_ms),
{
}

/// Asking for a list of symbols subscribes each of them and reports, each
/// once, exactly those that were not subscribed before.
pub proof fn touching_adds_exactly_the_new_symbols(
    m: Map<Seq<char>, SubscriptionState>,
    symbols: Seq<Seq<char>>,
    now_ms: i64,
)
    ensures
        distinct(added_symbols(m, symbols, now_ms)),
        forall|k: Seq<char>|
            #![trigger added_symbols(m, symbols, now_ms).contains(k)]
            added_symbols(m, symbols, now_ms).contains(k) <==> symbols.contains(k)
                && !m.contains_key(k),
        forall|k: Seq<char>|
            #![trigger touched_all(m, symbols, now_ms).contains_key(k)]
            touched_all(m, symbols, now_ms).contains_key(k) <==> m.contains_key(k)
                || symbols.contains(k),
    decreases symbols.len(),
{
    if symbols.len() > 0 {
        let init = symbols.drop_last();
        let last = symbols.last();
        touching_adds_exactly_the_new_symbols(m, init, now_ms);
        let prev = added_symbols(m, init, now_ms);
        assert forall|k: Seq<char>| symbols.contains(k) <==> (init.contains(k) || k == last) by {
            if symbols.contains(k) {
                let a = choose|a: int| 0 <= a < symbols.len() && symbols[a] == k;
                if a < init.len() {
                    assert(init[a] == k);
                }
            }
            if init.contains(k) {
                let a = choose|a: int| 0 <= a < init.len() && init[a] == k;
                assert(symbols[a] == k);
            }
            if k == last {
                assert(symbols[symbols.len() - 1] == k);
            }
        }
        let t = touched_all(m, init, now_ms);
        assert(t.contains_key(last) <==> m.contains_key(last) || init.contains(last));
        assert(prev.contains(last) <==> init.contains(last) && !m.contains_key(last));
        if !t.contains_key(last) {
            assert(added_symbols(m, symbols, now_ms) == prev.push(last));
            let next = prev.push(last);
            assert(!prev.contains(last));
            assert forall|i: int, j: int| 0 <= i < j < next.len() implies next[i] != next[j] by {
                if j == prev.len() {
                    assert(prev.contains(prev[i]));
                    assert(next[i] == prev[i]);
                    assert(next[j] == last);
                } else {
                    assert(next[i] == prev[i]);
                    assert(next[j] == prev[j]);
                }
            }
            assert forall|k: Seq<char>| next.contains(k) <==> prev.contains(k) || k == last by {
                if next.contains(k) {
                    let a = choose|a: int| 0 <= a < next.len() && next[a] == k;
                    if a < prev.len() {
                        assert(prev[a] == k);
                    }
                }
                if prev.contains(k) {
                    let a = choose|a: int| 0 <= a < prev.len() && prev[a] == k;
                    assert(next[a] == k);
                }
                if k == last {
                    assert(next[prev.len() as int] == k);
                }
            }
            assert forall|k: Seq<char>|
                added_symbols(m, symbols, now_ms).contains(k) <==> symbols.contains(k)
                    && !m.contains_key(k) by {
                assert(prev.contains(k) <==> init.contains(k) && !m.contains_key(k));
            }
        } else {
            assert(added_symbols(m, symbols, now_ms) == prev);
            assert forall|k: Seq<char>|
                added_symbols(m, symbols, now_ms).contains(k) <==> symbols.contains(k)
                    && !m.contains_key(k) by {
                assert(prev.contains(k) <==> init.contains(k) && !m.contains_key(k));
            }
        }
        assert forall|k: Seq<char>|
            touched_all(m, symbols, now_ms).contains_key(k) <==> m.contains_key(k)
                || symbols.contains(k) by {
            assert(t.contains_key(k) <==> m.contains_key(k) || init.contains(k));
        }
    }
}

/// Splits symbols into requests of at most [`SUBSCRIBE_BATCH_SIZE`].
pub fn subscribe_batches(symbols: &Vec<String>) -> (r: Vec<Vec<String>>)
    ensures
        r@.map_values(|b: Vec<String>| string_views(b@)) == batched(
            string_views(symbols@),
            SUBSCRIBE_BATCH_SIZE as nat,
        ),
{
    let ghost views = string_views(symbols@);
    let mut out: Vec<Vec<String>> = Vec::new();
    let n = symbols.len();
    let mut start: usize = 0;
    assert(views.subrange(0, n as int) =~= views);
    assert(out@.map_values(|b: Vec<String>| string_views(b@)) + batched(views, SUBSCRIBE_BATCH_SIZE as nat)
        =~= batched(views, SUBSCRIBE_BATCH_SIZE as nat));
    while start < n
        invariant
            n == symbols@.len(),
            views == string_views(symbols@),
            start <= n,
            out@.map_values(|b: Vec<String>| string_views(b@)) + batched(
                views.subrange(start as int, n as int),
                SUBSCRIBE_BATCH_SIZE as nat,
            ) == batched(views, SUBSCRIBE_BATCH_SIZE as nat),
        decreases n - start,
    {
        let end = if n - start <= SUBSCRIBE_BATCH_SIZE {
            n
        } else {
            start + SUBSCRIBE_BATCH_SIZE
        };
        let mut batch: Vec<String> = Vec::new();
        let mut j = start;
        while j < end
            invariant
                n == symbols@.len(),
                views == string_views(symbols@),
                start <= j <= end <= n,
                string_views(batch@) == views.subrange(start as int, j as int),
            decreases end - j,
        {
            let ghost before = batch@;
            assert(views[j as int] == symbols@[j as int]@);
            batch.push(symbols[j].clone());
            assert(string_views(batch@) =~= string_views(before).push(views[j as int]));
            assert(string_views(batch@) =~= views.subrange(start as int, j + 1));
            j = j + 1;
        }
        let ghost rest = views.subrange(start as int, n as int);
        proof {
            if end == n {
                assert(rest.subrange(0, rest.len() as int) =~= rest);
                assert(batched(rest, SUBSCRIBE_BATCH_SIZE as nat) == seq![rest]);
                assert(views.subrange(n as int, n as int) =~= Seq::<Seq<char>>::empty());
            } else {
                assert(rest.subrange(0, SUBSCRIBE_BATCH_SIZE as int) =~= views.subrange(
                    start as int,
                    end as int,
                ));
                assert(rest.subrange(SUBSCRIBE_BATCH_SIZE as int, rest.len() as int) =~= views.subrange(
                    end as int,
                    n as int,
                ));
            }
        }
        let ghost prev = out@.map_values(|b: Vec<String>| string_views(b@));
        out.push(batch);
        assert(out@.map_values(|b: Vec<String>| string_views(b@)) =~= prev.push(
            views.subrange(start as int, end as int),
        ));
        proof {
            let tail = batched(views.subrange(end as int, n as int), SUBSCRIBE_BATCH_SIZE as nat);
            assert(batched(rest, SUBSCRIBE_BATCH_SIZE as nat) =~= seq![
                views.subrange(start as int, end as int),
            ] + tail);
            assert(prev.push(views.subrange(start as int, end as int)) + tail =~= prev + (seq![
                views.subrange(start as int, end as int),
            ] + tail));
        }
        start = end;
    }
    assert(views.subrange(n as int, n as int) =~= Seq::<Seq<char>>::empty());
    assert(out@.map_values(|b: Vec<String>| string_views(b@)) + Seq::<Seq<Seq<char>>>::empty()
        =~= out@.map_values(|b: Vec<String>| string_views(b@)));
    out
}

impl SubscriptionRegistry {
    /// A registry with no subscriptions.
    pub fn new() -> (r: Self)
        ensures
            r@ == no_subscriptions(),
    {
        SubscriptionRegistry { table: table_new() }
    }

    /// Whether `symbol` is subscribed.
    pub fn contains(&self, symbol: &str) -> (r: bool)
        ensures
            r == self@.contains_key(symbol@),
    {
        table_get(&self.table, symbol).is_some()
    }

    /// The state of `symbol`, if it is subscribed.
    pub fn state(&self, symbol: &str) -> (r: Option<SubscriptionState>)
        ensures
            match r {
                Some(s) => self@.contains_key(symbol@) && s == self@[symbol@],
                None => !self@.contains_key(symbol@),
            },
    {
        table_get(&self.table, symbol)
    }

    /// Whether no symbol is subscribed.
    pub fn is_empty(&self) -> (r: bool)
        ensures
            r == (self@.dom() == Set::<Seq<char>>::empty()),
    {
        table_is_empty(&self.table)
    }

    /// Asks for `symbol` at `now_ms`; true when it was not subscribed.
    pub fn touch(&mut self, symbol: String, now_ms: i64) -> (r: bool)
        ensures
            r == !old(self)@.contains_key(symbol@),
            final(self)@ == old(self)@.insert(symbol@, touched_state(old(self)@, symbol@, now_ms)),
    {
        match table_get(&self.table, symbol.as_str()) {
            Some(state) => {
                table_insert(&mut self.table, symbol, SubscriptionState { last_touched_ms: now_ms, ..state });
                false
            },
            None => {
                table_insert(
                    &mut self.table,
                    symbol,
                    SubscriptionState {
                        last_touched_ms: now_ms,
                        sent_on_current_connection: false,
                        sent_at_ms: None,
                        acknowledged_on_current_connection: false,
                    },
                );
                true
            },
        }
    }

    /// Asks for `symbols` at `now_ms`, in order; the symbols that were not
    /// subscribed come back, each once, in the order they were first asked
    /// for.
    pub fn touch_many(&mut self, symbols: &Vec<String>, now_ms: i64) -> (r: Vec<String>)
        ensures
            final(self)@ == touched_all(old(self)@, string_views(symbols@), now_ms),
            string_views(r@) == added_symbols(old(self)@, string_views(symbols@), now_ms),
    {
        let ghost start = self@;
        let ghost views = string_views(symbols@);
        let mut added: Vec<String> = Vec::new();
        let n = symbols.len();
        let mut i: usize = 0;
        while i < n
            invariant
                n == symbols@.len(),
                views == string_views(symbols@),
                i <= n,
                self@ == touched_all(start, views.subrange(0, i as int), now_ms),
                string_views(added@) == added_symbols(start, views.subrange(0, i as int), now_ms),
            decreases n - i,
        {
            let ghost prefix = views.subrange(0, i + 1);
            proof {
                assert(prefix.drop_last() =~= views.subrange(0, i as int));
                assert(prefix.last() == symbols@[i as int]@);
            }
            let symbol = symbols[i].clone();
            let was_new = self.touch(symbol, now_ms);
            if was_new {
                let ghost before = added@;
                added.push(symbols[i].clone());
                assert(string_views(added@) =~= string_views(before).push(symbols@[i as int]@));
            }
            i = i + 1;
        }
        assert(views.subrange(0, n as int) =~= views);
        added
    }

    /// Applies `op` to the listed symbols that are subscribed.
    pub fn update(&mut self, symbols: &Vec<String>, op: StateUpdate)
        ensures
            final(self)@ == updated_listed(old(self)@, string_views(symbols@), op),
    {
        let ghost start = self@;
        let ghost views = string_views(symbols@);
        let n = symbols.len();
        let mut i: usize = 0;
        while i < n
            invariant
                n == symbols@.len(),
                views == string_views(symbols@),
                i <= n,
                self@ == updated_listed(start, views.subrange(0, i as int), op),
            decreases n - i,
        {
            let ghost before = self@;
            match table_get(&self.table, symbols[i].as_str()) {
                Some(state) => {
                    table_insert(&mut self.table, symbols[i].clone(), apply_update(state, op));
                },
                None => {},
            }
            proof {
                let next = views.subrange(0, i + 1);
                assert(next =~= views.subrange(0, i as int).push(views[i as int]));
                assert forall|k: Seq<char>| next.contains(k) <==> (views.subrange(
                    0,
                    i as int,
                ).contains(k) || k == views[i as int]) by {
                    if next.contains(k) {
                        let a = choose|a: int| 0 <= a < next.len() && next[a] == k;
                        if a < i {
                            assert(views.subrange(0, i as int)[a] == k);
                        }
                    }
                    if views.subrange(0, i as int).contains(k) {
                        let a = choose|a: int| 0 <= a < i && views.subrange(0, i as int)[a] == k;
                        assert(next[a] == k);
                    }
                    if k == views[i as int] {
                        assert(next[i as int] == k);
                    }
                }
                assert(views[i as int] == symbols@[i as int]@);
                assert(self@ =~= updated_listed(start, next, op));
            }
            i = i + 1;
        }
        assert(views.subrange(0, n as int) =~= views);
    }

    /// Every symbol is left with nothing sent on the current connection.
    pub fn reset_connection(&mut self)
        ensures
            final(self)@.dom() == old(self)@.dom(),
            forall|k: Seq<char>| #[trigger]
                final(self)@.contains_key(k) ==> final(self)@[k] == unsent_state(old(self)@[k]),
    {
        let ghost start = self@;
        let entries = table_entries(&self.table);
        let n = entries.len();
        let mut i: usize = 0;
        while i < n
            invariant
                n == entries@.len(),
                i <= n,
                self@.dom() == start.dom(),
                forall|a: int|
                    0 <= a < n ==> start.contains_key(#[trigger] entries@[a].0@) && start[entries@[a].0@]
                        == entries@[a].1,
                forall|a: int, b: int| 0 <= a < b < n ==> entries@[a].0@ != entries@[b].0@,
                forall|k: Seq<char>| #[trigger]
                    start.contains_key(k) ==> exists|a: int| 0 <= a < n && entries@[a].0@ == k,
                forall|a: int|
                    0 <= a < i ==> self@[#[trigger] entries@[a].0@] == unsent_state(
                        start[entries@[a].0@],
                    ),
                forall|a: int|
                    i <= a < n ==> self@[#[trigger] entries@[a].0@] == start[entries@[a].0@],
            decreases n - i,
        {
            let (key, state) = (entries[i].0.clone(), entries[i].1);
            table_insert(&mut self.table, key, apply_update(state, StateUpdate::Unsent));
            i = i + 1;
        }
        assert forall|k: Seq<char>| #[trigger] self@.contains_key(k) implies self@[k] == unsent_state(
            start[k],
        ) by {
            let a = choose|a: int| 0 <= a < n && entries@[a].0@ == k;
        }
        assert(self@.dom() =~= start.dom());
    }

    /// Drops the symbols that are idle at `now_ms` and returns them, each
    /// once, in an order the table does not promise; the others stay as they
    /// were.
    pub fn take_idle(&mut self, now_ms: i64) -> (r: Vec<String>)
        ensures
            forall|k: Seq<char>| #[trigger]
                final(self)@.contains_key(k) <==> old(self)@.contains_key(k) && !is_idle(
                    old(self)@[k],
                    now_ms,
                ),
            forall|k: Seq<char>| #[trigger]
                final(self)@.contains_key(k) ==> final(self)@[k] == old(self)@[k],
            distinct(string_views(r@)),
            forall|k: Seq<char>|
                string_views(r@).contains(k) <==> old(self)@.contains_key(k) && is_idle(
                    old(self)@[k],
                    now_ms,
                ),
    {
        let ghost start = self@;
        let cutoff: i64 = if now_ms < i64::MIN + SUBSCRIPTION_IDLE_TTL_MS {
            i64::MIN
        } else {
            now_ms - SUBSCRIPTION_IDLE_TTL_MS
        };
        let entries = table_entries(&self.table);
        let n = entries.len();
        let mut out: Vec<String> = Vec::new();
        let mut i: usize = 0;
        while i < n
            invariant
                n == entries@.len(),
                i <= n,
                cutoff == idle_cutoff(now_ms),
                forall|a: int|
                    0 <= a < n ==> start.contains_key(#[trigger] entries@[a].0@) && start[entries@[a].0@]
                        == entries@[a].1,
                forall|a: int, b: int| 0 <= a < b < n ==> entries@[a].0@ != entries@[b].0@,
                forall|k: Seq<char>| #[trigger]
                    start.contains_key(k) ==> exists|a: int| 0 <= a < n && entries@[a].0@ == k,
                forall|k: Seq<char>| #[trigger]
                    self@.contains_key(k) ==> start.contains_key(k) && self@[k] == start[k],
                forall|k: Seq<char>| #[trigger]
                    start.contains_key(k) && !is_idle(start[k], now_ms) ==> self@.contains_key(k),
                forall|a: int|
                    0 <= a < i && is_idle(entries@[a].1, now_ms) ==> !self@.contains_key(
                        #[trigger] entries@[a].0@,
                    ),
                forall|a: int| i <= a < n ==> self@.contains_key(#[trigger] entries@[a].0@),
                distinct(string_views(out@)),
                forall|k: Seq<char>|
                    string_views(out@).contains(k) <==> exists|a: int|
                        0 <= a < i && entries@[a].0@ == k && is_idle(entries@[a].1, now_ms),
            decreases n - i,
        {
            let ghost before_out = string_views(out@);
            if entries[i].1.last_touched_ms < cutoff {
                table_remove(&mut self.table, entries[i].0.as_str());
                out.push(entries[i].0.clone());
                proof {
                    let k = entries@[i as int].0@;
                    assert(string_views(out@) =~= before_out.push(k));
                    assert forall|x: int| 0 <= x < before_out.len() implies before_out[x] != k by {
                        assert(before_out.contains(before_out[x]));
                    }
                    assert forall|q: Seq<char>|
                        string_views(out@).contains(q) <==> exists|a: int|
                            0 <= a < i + 1 && entries@[a].0@ == q && is_idle(
                                entries@[a].1,
                                now_ms,
                            ) by {
                        if string_views(out@).contains(q) {
                            let x = choose|x: int| 0 <= x < string_views(out@).len() && string_views(out@)[x] == q;
                            if x < before_out.len() {
                                assert(before_out.contains(q));
                            }
                        }
                        if exists|a: int| 0 <= a < i + 1 && entries@[a].0@ == q && is_idle(entries@[a].1, now_ms) {
                            let a = choose|a: int| 0 <= a < i + 1 && entries@[a].0@ == q && is_idle(entries@[a].1, now_ms);
                            if a < i {
                                assert(before_out.contains(q));
                                let x = choose|x: int| 0 <= x < before_out.len() && before_out[x] == q;
                                assert(string_views(out@)[x] == q);
                            } else {
                                assert(string_views(out@)[before_out.len() as int] == q);
                            }
                        }
                    }
                }
            } else {
                proof {
                    assert forall|q: Seq<char>|
                        string_views(out@).contains(q) <==> exists|a: int|
                            0 <= a < i + 1 && entries@[a].0@ == q && is_idle(
                                entries@[a].1,
                                now_ms,
                            ) by {
                        if exists|a: int| 0 <= a < i + 1 && entries@[a].0@ == q && is_idle(entries@[a].1, now_ms) {
                            let a = choose|a: int| 0 <= a < i + 1 && entries@[a].0@ == q && is_idle(entries@[a].1, now_ms);
                            assert(a != i);
                        }
                    }
                }
            }
            i = i + 1;
        }
        assert forall|k: Seq<char>| #[trigger]
            self@.contains_key(k) <==> start.contains_key(k) && !is_idle(start[k], now_ms) by {
            if self@.contains_key(k) && start.contains_key(k) {
                let a = choose|a: int| 0 <= a < n && entries@[a].0@ == k;
            }
        }
        assert forall|k: Seq<char>|
            string_views(out@).contains(k) <==> start.contains_key(k) && is_idle(start[k], now_ms) by {
            if start.contains_key(k) && is_idle(start[k], now_ms) {
                let a = choose|a: int| 0 <= a < n && entries@[a].0@ == k;
            }
        }
        out
    }

    /// Up to `limit` symbols whose subscribe request has not gone out on
    /// the current connection, each once, in an order the table does not
    /// promise; fewer only when no other such symbol is left.
    pub fn unsent(&self, limit: usize) -> (r: Vec<String>)
        ensures
            distinct(string_views(r@)),
            r@.len() <= limit,
            forall|k: Seq<char>|
                string_views(r@).contains(k) ==> self@.contains_key(k)
                    && !self@[k].sent_on_current_connection,
            r@.len() < limit ==> forall|k: Seq<char>|
                self@.contains_key(k) && !self@[k].sent_on_current_connection ==> string_views(
                    r@,
                ).contains(k),
    {
        let entries = table_entries(&self.table);
        let n = entries.len();
        let mut out: Vec<String> = Vec::new();
        let mut i: usize = 0;
        while i < n && out.len() < limit
            invariant
                n == entries@.len(),
                i <= n,
                out@.len() <= limit,
                forall|a: int|
                    0 <= a < n ==> self@.contains_key(#[trigger] entries@[a].0@) && self@[entries@[a].0@]
                        == entries@[a].1,
                forall|a: int, b: int| 0 <= a < b < n ==> entries@[a].0@ != entries@[b].0@,
                forall|k: Seq<char>| #[trigger]
                    self@.contains_key(k) ==> exists|a: int| 0 <= a < n && entries@[a].0@ == k,
                distinct(string_views(out@)),
                forall|k: Seq<char>|
                    string_views(out@).contains(k) <==> exists|a: int|
                        0 <= a < i && entries@[a].0@ == k && !entries@[a].1.sent_on_current_connection,
            decreases n - i,
        {
            let ghost before_out = string_views(out@);
            if !entries[i].1.sent_on_current_connection {
                out.push(entries[i].0.clone());
                proof {
                    let k = entries@[i as int].0@;
                    assert(string_views(out@) =~= before_out.push(k));
                    assert forall|x: int| 0 <= x < before_out.len() implies before_out[x] != k by {
                        assert(before_out.contains(before_out[x]));
                    }
                    assert forall|q: Seq<char>|
                        string_views(out@).contains(q) <==> exists|a: int|
                            0 <= a < i + 1 && entries@[a].0@ == q
                                && !entries@[a].1.sent_on_current_connection by {
                        if string_views(out@).contains(q) {
                            let x = choose|x: int| 0 <= x < string_views(out@).len() && string_views(out@)[x] == q;
                            if x < before_out.len() {
                                assert(before_out.contains(q));
                            }
                        }
                        if exists|a: int| 0 <= a < i + 1 && entries@[a].0@ == q && !entries@[a].1.sent_on_current_connection {
                            let a = choose|a: int| 0 <= a < i + 1 && entries@[a].0@ == q && !entries@[a].1.sent_on_current_connection;
                            if a < i {
                                assert(before_out.contains(q));
                                let x = choose|x: int| 0 <= x < before_out.len() && before_out[x] == q;
                                assert(string_views(out@)[x] == q);
                            } else {
                                assert(string_views(out@)[before_out.len() as int] == q);
                            }
                        }
                    }
                }
            } else {
                proof {
                    assert forall|q: Seq<char>|
                        string_views(out@).contains(q) <==> exists|a: int|
                            0 <= a < i + 1 && entries@[a].0@ == q
                                && !entries@[a].1.sent_on_current_connection by {
                        if exists|a: int| 0 <= a < i + 1 && entries@[a].0@ == q && !entries@[a].1.sent_on_current_connection {
                            let a = choose|a: int| 0 <= a < i + 1 && entries@[a].0@ == q && !entries@[a].1.sent_on_current_connection;
                            assert(a != i);
                        }
                    }
                }
            }
            i = i + 1;
        }
        proof {
            if out@.len() < limit {
                assert(i == n);
                assert forall|k: Seq<char>|
                    self@.contains_key(k) && !self@[k].sent_on_current_connection implies string_views(
                        out@,
                    ).contains(k) by {
                    let a = choose|a: int| 0 <= a < n && entries@[a].0@ == k;
                }
            }
        }
        out
    }

    /// Every subscribed symbol, each once, in an order the table does not
    /// promise.
    pub fn symbols(&self) -> (r: Vec<String>)
        ensures
            distinct(string_views(r@)),
            forall|k: Seq<char>| self@.contains_key(k) <==> string_views(r@).contains(k),
    {
        let entries = table_entries(&self.table);
        let mut out: Vec<String> = Vec::new();
        let n = entries.len();
        let mut i: usize = 0;
        while i < n
            invariant
                n == entries@.len(),
                i <= n,
                out@.len() == i,
                forall|k: int| 0 <= k < i ==> (#[trigger] out@[k])@ == entries@[k].0@,
                forall|a: int, b: int| 0 <= a < b < n ==> entries@[a].0@ != entries@[b].0@,
                forall|a: int|
                    0 <= a < n ==> self@.contains_key(#[trigger] entries@[a].0@),
            decreases n - i,
        {
            out.push(entries[i].0.clone());
            i = i + 1;
        }
        assert forall|k: Seq<char>| self@.contains_key(k) implies string_views(out@).contains(k) by {
            let a = choose|a: int| 0 <= a < entries@.len() && entries@[a].0@ == k;
            assert(string_views(out@)[a] == k);
        }
        assert forall|k: Seq<char>| string_views(out@).contains(k) implies self@.contains_key(k) by {
            let a = choose|a: int| 0 <= a < string_views(out@).len() && string_views(out@)[a] == k;
            assert(out@[a]@ == entries@[a].0@);
        }
        out
    }
}

} // verus!
