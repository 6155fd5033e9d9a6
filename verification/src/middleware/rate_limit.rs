//! The limit on the requests of a client.

use vstd::prelude::*;
use vstd::string::*;
use crate::digest;
use crate::digest::sha256_text;
use crate::text;
use crate::text::{starts_with, str_eq};
use dashmap::DashMap;
use std::collections::hash_map::RandomState;

verus! {

/// The number of clients above which the table is cleaned.
pub const MAX_CLIENTS: usize = 5000;

/// How long the table is left alone, in seconds.
pub const CLEANUP_INTERVAL_SECS: u64 = 600;

/// Whether requests for the path are not counted.
pub open spec fn is_exempt(path: Seq<char>) -> bool {
    ||| text::begins(path, "/static/"@)
    ||| text::begins(path, "/theme-css/"@)
    ||| text::begins(path, "/boards/"@)
    ||| path == "/admin/log/live"@
    ||| path == "/admin/backup/progress"@
}

/// Whether requests for the path are not counted.
pub fn exempt(path: &str) -> (r: bool)
    ensures
        r == is_exempt(path@),
{
    starts_with(path, "/static/") || starts_with(path, "/theme-css/") || starts_with(
        path,
        "/boards/",
    ) || str_eq(path, "/admin/log/live") || str_eq(path, "/admin/backup/progress")
}

/// The key under which the requests of a client are counted: it does not show the
/// address.
pub open spec fn client_key(ip: Seq<char>) -> Seq<char> {
    digest::sha256_hex(vstd::utf8::encode_utf8(ip).push(71u8))
}

/// The key under which the requests of a client are counted.
pub fn rate_key(ip: &str) -> (r: String)
    ensures
        r@ == client_key(ip@),
{
    let from = ip.as_bytes();
    let mut bytes: Vec<u8> = Vec::new();
    let mut i: usize = 0;
    while i < from.len()
        invariant
            i <= from@.len(),
            bytes@ == from@.take(i as int),
        decreases from@.len() - i,
    {
        bytes.push(from[i]);
        assert(from@.take(i as int + 1) =~= from@.take(i as int).push(from@[i as int]));
        i = i + 1;
    }
    assert(from@.take(from@.len() as int) =~= from@);
    bytes.push(71u8);
    sha256_text(bytes.as_slice())
}

/// What is kept of a client: how many requests it made since when.
#[derive(Debug, Clone, Copy, PartialEq, Eq, Structural)]
pub struct RateEntry {
    /// How many requests the client made in the window.
    pub count: u32,
    /// When the window began.
    pub window_start: u64,
}

/// How long ago something was, or nothing where it is yet to come.
pub open spec fn age(now: u64, then: u64) -> int {
    if now >= then {
        now - then
    } else {
        0
    }
}

/// What is kept of a client after one more request.
pub open spec fn counted(entry: RateEntry, now: u64, window: u64) -> RateEntry {
    if age(now, entry.window_start) > window {
        RateEntry { count: 1, window_start: now }
    } else {
        RateEntry { count: (entry.count + 1) as u32, window_start: entry.window_start }
    }
}

/// Whether the request is refused.
pub open spec fn is_blocked(entry: RateEntry, now: u64, window: u64, limit: u32) -> bool {
    age(now, entry.window_start) <= window && entry.count + 1 > limit
}

/// Whether one more request of a client can be counted: the window is over, or the
/// count has room.
pub open spec fn is_countable(entry: RateEntry, now: u64, window: u64) -> bool {
    age(now, entry.window_start) > window || entry.count < u32::MAX
}

/// Whether one more request of a client can be counted.
pub fn countable(entry: RateEntry, now: u64, window: u64) -> (r: bool)
    ensures
        r == is_countable(entry, now, window),
{
    entry.count < u32::MAX || (now > entry.window_start && now - entry.window_start > window)
}

/// Counts a request of a client, and decides whether it is refused. The first request
/// of a window is never refused.
pub fn count_request(entry: &mut RateEntry, now: u64, window: u64, limit: u32) -> (r: bool)
    requires
        is_countable(*old(entry), now, window),
    ensures
        *final(entry) == counted(*old(entry), now, window),
        r == is_blocked(*old(entry), now, window, limit),
{
    let elapsed: u64 = if now >= entry.window_start {
        now - entry.window_start
    } else {
        0
    };
    if elapsed > window {
        entry.count = 1;
        entry.window_start = now;
        false
    } else {
        entry.count = entry.count + 1;
        entry.count > limit
    }
}

/// What is kept of a client that was not seen before.
pub fn new_entry(now: u64) -> (r: RateEntry)
    ensures
        r == (RateEntry { count: 0, window_start: now }),
{
    RateEntry { count: 0, window_start: now }
}

/// Whether the table should be cleaned.
pub fn should_clean(clients: usize, now: u64, last_cleanup: u64) -> (r: bool)
    ensures
        r == (clients > MAX_CLIENTS || age(now, last_cleanup) > CLEANUP_INTERVAL_SECS),
{
    clients > MAX_CLIENTS || (now > last_cleanup && now - last_cleanup > CLEANUP_INTERVAL_SECS)
}

/// Whether what is kept of a client stays in the table when it is cleaned.
pub fn survives_cleanup(entry: RateEntry, now: u64, window: u64) -> (r: bool)
    requires
        window * 2 <= u64::MAX,
    ensures
        r == (age(now, entry.window_start) <= window * 2),
{
    let elapsed: u64 = if now >= entry.window_start {
        now - entry.window_start
    } else {
        0
    };
    elapsed <= window * 2
}

/// A concurrent hash map of the `dashmap` crate.
#[verifier::external_type_specification]
#[verifier::external_body]
#[verifier::reject_recursive_types(K)]
#[verifier::reject_recursive_types(V)]
#[verifier::reject_recursive_types(S)]
pub struct ExDashMap<K, V, S>(DashMap<K, V, S>);

/// What a map holds of each client.
pub uninterp spec fn map_entries(map: DashMap<String, RateEntry, RandomState>) -> Map<
    Seq<char>,
    RateEntry,
>;

/// Nothing of any client.
pub open spec fn no_entries() -> Map<Seq<char>, RateEntry> {
    Map::empty()
}

/// `dashmap::DashMap::new`: a map that holds nothing.
#[verifier::external_body]
fn new_map() -> (r: DashMap<String, RateEntry, RandomState>)
    ensures
        map_entries(r) == no_entries(),
{
    DashMap::new()
}

/// `dashmap::DashMap::get`: what the map holds under the key.
#[verifier::external_body]
fn map_get(map: &DashMap<String, RateEntry, RandomState>, key: &str) -> (r: Option<RateEntry>)
    ensures
        match r {
            Some(entry) => map_entries(*map).dom().contains(key@) && map_entries(*map)[key@] == entry,
            None => !map_entries(*map).dom().contains(key@),
        },
{
    map.get(key).map(|entry| *entry.value())
}

/// `dashmap::DashMap::insert`: the map holds the value under the key, in place of what
/// it held there.
#[verifier::external_body]
fn map_insert(map: &mut DashMap<String, RateEntry, RandomState>, key: String, entry: RateEntry)
    ensures
        map_entries(*final(map)) == map_entries(*old(map)).insert(key@, entry),
{
    map.insert(key, entry);
}

/// `dashmap::DashMap::len`: how many keys the map holds something under.
#[verifier::external_body]
fn map_len(map: &DashMap<String, RateEntry, RandomState>) -> (r: usize)
    ensures
        r == map_entries(*map).dom().len(),
{
    map.len()
}

/// What stays of a table when it is cleaned.
pub open spec fn cleaned(entries: Map<Seq<char>, RateEntry>, now: u64, window: u64) -> Map<
    Seq<char>,
    RateEntry,
> {
    Map::new(
        |key: Seq<char>|
            entries.dom().contains(key) && age(now, entries[key].window_start) <= window * 2,
        |key: Seq<char>| entries[key],
    )
}

/// `dashmap::DashMap::retain`: of what the map holds, what [`survives_cleanup`] says
/// stays, and nothing else.
#[verifier::external_body]
fn map_retain(map: &mut DashMap<String, RateEntry, RandomState>, now: u64, window: u64)
    requires
        window * 2 <= u64::MAX,
    ensures
        map_entries(*final(map)) == cleaned(map_entries(*old(map)), now, window),
{
    map.retain(|_, entry| survives_cleanup(*entry, now, window));
}

/// The requests of all clients, and when they were last cleaned.
pub struct RateTable {
    entries: DashMap<String, RateEntry, RandomState>,
    last_cleanup: u64,
}

/// The model of a table.
#[verifier::ext_equal]
pub struct RateTableView {
    /// What is kept of each client, by its key.
    pub entries: Map<Seq<char>, RateEntry>,
    /// When the table was last cleaned.
    pub last_cleanup: u64,
}

impl View for RateTable {
    type V = RateTableView;

    closed spec fn view(&self) -> RateTableView {
        RateTableView { entries: map_entries(self.entries), last_cleanup: self.last_cleanup }
    }
}

impl RateTableView {
    /// What is kept of a client, at the latest from now on.
    pub open spec fn entry(self, key: Seq<char>, now: u64) -> RateEntry {
        if self.entries.dom().contains(key) {
            self.entries[key]
        } else {
            RateEntry { count: 0, window_start: now }
        }
    }

    /// Whether one more request of a client can be counted.
    pub open spec fn has_room(self, key: Seq<char>, now: u64, window: u64) -> bool {
        is_countable(self.entry(key, now), now, window)
    }

    /// Whether a request of a client is refused.
    pub open spec fn refuses(self, key: Seq<char>, now: u64, window: u64, limit: u32) -> bool {
        is_blocked(self.entry(key, now), now, window, limit)
    }

    /// The table after a request of a client: it is counted, and where it passes, the
    /// table is cleaned if it is time for that.
    pub open spec fn after_request(self, key: Seq<char>, now: u64, window: u64, limit: u32) -> Self {
        let entries = self.entries.insert(key, counted(self.entry(key, now), now, window));
        if !self.refuses(key, now, window, limit) && (entries.dom().len() > MAX_CLIENTS || age(
            now,
            self.last_cleanup,
        ) > CLEANUP_INTERVAL_SECS) {
            RateTableView { entries: cleaned(entries, now, window), last_cleanup: now }
        } else {
            RateTableView { entries, last_cleanup: self.last_cleanup }
        }
    }
}

impl RateTable {
    /// A table in which no client has made a request.
    pub fn new() -> (r: Self)
        ensures
            r@ == (RateTableView { entries: no_entries(), last_cleanup: 0 }),
    {
        RateTable { entries: new_map(), last_cleanup: 0 }
    }

    /// What is kept of a client.
    pub fn get(&self, key: &str) -> (r: Option<RateEntry>)
        ensures
            r == if self@.entries.dom().contains(key@) {
                Some(self@.entries[key@])
            } else {
                None
            },
    {
        map_get(&self.entries, key)
    }

    /// Counts a request of a client, decides whether it is refused, and cleans the
    /// table after a request that passes, if it is time for that.
    pub fn count(&mut self, key: String, now: u64, window: u64, limit: u32) -> (r: bool)
        requires
            old(self)@.has_room(key@, now, window),
            window * 2 <= u64::MAX,
        ensures
            final(self)@ == old(self)@.after_request(key@, now, window, limit),
            r == old(self)@.refuses(key@, now, window, limit),
    {
        let mut entry = match map_get(&self.entries, key.as_str()) {
            Some(entry) => entry,
            None => new_entry(now),
        };
        let blocked = count_request(&mut entry, now, window, limit);
        map_insert(&mut self.entries, key, entry);
        if !blocked && should_clean(map_len(&self.entries), now, self.last_cleanup) {
            self.last_cleanup = now;
            map_retain(&mut self.entries, now, window);
        }
        blocked
    }
}

impl Default for RateTable {
    fn default() -> (r: Self)
        ensures
            r@ == (RateTableView { entries: no_entries(), last_cleanup: 0 }),
    {
        Self::new()
    }
}

/// What becomes of a request.
#[derive(Debug, Clone, Copy, PartialEq, Eq, Structural)]
pub enum RateVerdict {
    /// It passes.
    Pass,
    /// It is refused: the client made too many.
    Refuse,
    /// It cannot be counted any more in the open window.
    Uncountable,
}

/// What becomes of a request.
pub open spec fn verdict(
    table: RateTableView,
    path: Seq<char>,
    ip: Seq<char>,
    now: u64,
    window: u64,
    limit: u32,
) -> RateVerdict {
    if is_exempt(path) {
        RateVerdict::Pass
    } else if !table.has_room(client_key(ip), now, window) {
        RateVerdict::Uncountable
    } else if table.refuses(client_key(ip), now, window, limit) {
        RateVerdict::Refuse
    } else {
        RateVerdict::Pass
    }
}

/// Decides whether a request of a client passes, and counts it unless its path is
/// exempt. A request that cannot be counted leaves the table as it is.
pub fn rate_limit_middleware(
    table: &mut RateTable,
    path: &str,
    ip: &str,
    now: u64,
    window: u64,
    limit: u32,
) -> (r: RateVerdict)
    requires
        window * 2 <= u64::MAX,
    ensures
        r == verdict(old(table)@, path@, ip@, now, window, limit),
        final(table)@ == if is_exempt(path@) || r is Uncountable {
            old(table)@
        } else {
            old(table)@.after_request(client_key(ip@), now, window, limit)
        },
{
    if exempt(path) {
        return RateVerdict::Pass;
    }
    let key = rate_key(ip);
    if let Some(entry) = table.get(key.as_str()) {
        if !countable(entry, now, window) {
            return RateVerdict::Uncountable;
        }
    }
    if table.count(key, now, window, limit) {
        RateVerdict::Refuse
    } else {
        RateVerdict::Pass
    }
}

/// What is kept of a client after so many requests at the given time.
pub open spec fn after_requests(entry: RateEntry, now: u64, window: u64, n: nat) -> RateEntry
    decreases n,
{
    if n == 0 {
        entry
    } else {
        counted(after_requests(entry, now, window, (n - 1) as nat), now, window)
    }
}

/// Within one window a client passes exactly as often as the limit says: of the
/// requests of a client that was not seen before, the first so many pass, and the
/// others are refused.
pub proof fn law_limit_holds_in_a_window(start: u64, now: u64, window: u64, limit: u32, n: nat)
    requires
        start <= now <= start + window,
        n < u32::MAX,
    ensures
        ({
            let seen = after_requests(RateEntry { count: 0, window_start: start }, now, window, n);
            &&& seen == (RateEntry { count: n as u32, window_start: start })
            &&& is_blocked(seen, now, window, limit) <==> n >= limit
        }),
    decreases n,
{
    if n > 0 {
        law_limit_holds_in_a_window(start, now, window, limit, (n - 1) as nat);
    }
}

/// Cleaning never forgets a client whose window is still open.
pub proof fn law_open_windows_survive(
    entries: Map<Seq<char>, RateEntry>,
    key: Seq<char>,
    now: u64,
    window: u64,
)
    requires
        entries.dom().contains(key),
        age(now, entries[key].window_start) <= window,
    ensures
        cleaned(entries, now, window).dom().contains(key),
        cleaned(entries, now, window)[key] == entries[key],
{
}

/// A request of one client changes nothing of another client whose window is open.
pub proof fn law_clients_are_counted_apart(
    table: RateTableView,
    key: Seq<char>,
    other: Seq<char>,
    now: u64,
    window: u64,
    limit: u32,
)
    requires
        key != other,
        table.entries.dom().contains(other),
        age(now, table.entries[other].window_start) <= window,
    ensures
        table.after_request(key, now, window, limit).entries.dom().contains(other),
        table.after_request(key, now, window, limit).entries[other] == table.entries[other],
{
}

/// Once its window is over, a client starts again with one request, which passes,
/// however often it was counted before.
pub proof fn law_windows_start_again(
    table: RateTableView,
    path: Seq<char>,
    ip: Seq<char>,
    now: u64,
    window: u64,
    limit: u32,
)
    requires
        table.entries.dom().contains(client_key(ip)),
        age(now, table.entries[client_key(ip)].window_start) > window,
    ensures
        verdict(table, path, ip, now, window, limit) is Pass,
        table.after_request(client_key(ip), now, window, limit).entries.dom().contains(
            client_key(ip),
        ),
        table.after_request(client_key(ip), now, window, limit).entries[client_key(ip)] == (
        RateEntry { count: 1, window_start: now }),
{
}

/// A client that has reached the limit is refused exactly as long as its window is
/// open.
pub proof fn law_limit_lasts_for_the_window(
    table: RateTableView,
    key: Seq<char>,
    now: u64,
    window: u64,
    limit: u32,
)
    requires
        table.entries.dom().contains(key),
        table.entries[key].count >= limit,
    ensures
        table.refuses(key, now, window, limit) <==> age(now, table.entries[key].window_start)
            <= window,
{
}

/// What is served to every page is exempt: what lies below the static files, the themes and
/// the boards' media, and the two pages that ask again and again; nothing else is.
pub proof fn law_only_served_files_are_exempt(path: Seq<char>, rest: Seq<char>)
    ensures
        is_exempt("/static/"@ + rest),
        is_exempt("/theme-css/"@ + rest),
        is_exempt("/boards/"@ + rest),
        is_exempt("/admin/log/live"@),
        is_exempt("/admin/backup/progress"@),
        is_exempt(path) ==> path == "/admin/log/live"@ || path == "/admin/backup/progress"@ || (
        path.len() >= 8 && (path.take(8) == "/static/"@ || path.take(8) == "/boards/"@)) || (
        path.len() >= 11 && path.take(11) == "/theme-css/"@),
{
    reveal_strlit("/static/");
    reveal_strlit("/theme-css/");
    reveal_strlit("/boards/");
    assert(("/static/"@ + rest).take(8) =~= "/static/"@);
    assert(("/boards/"@ + rest).take(8) =~= "/boards/"@);
    assert(("/theme-css/"@ + rest).take(11) =~= "/theme-css/"@);
}

/// A request to what is not exempt is refused exactly where the client's window is open and
/// it has made as many requests in it as the limit allows; a client of which nothing is
/// kept has made none. One that is refused is counted as well.
pub proof fn law_requests_are_refused_exactly_over_the_limit(
    table: RateTableView,
    path: Seq<char>,
    ip: Seq<char>,
    now: u64,
    window: u64,
    limit: u32,
)
    requires
        !is_exempt(path),
        table.entries.dom().contains(client_key(ip)) ==> table.entries[client_key(ip)].count
            < u32::MAX,
    ensures
        ({
            let key = client_key(ip);
            let known = table.entries.dom().contains(key);
            let entry = table.entries[key];
            let open = known && now <= entry.window_start + window;
            let after = table.after_request(key, now, window, limit).entries;
            &&& verdict(table, path, ip, now, window, limit) is Refuse <==> (open && entry.count
                >= limit) || (!known && limit == 0)
            &&& verdict(table, path, ip, now, window, limit) is Pass <==> !(verdict(
                table,
                path,
                ip,
                now,
                window,
                limit,
            ) is Refuse)
            &&& open && now >= entry.window_start ==> after.dom().contains(key) && after[key].count
                == entry.count + 1 && after[key].window_start == entry.window_start
            &&& known && !open ==> after.dom().contains(key) && after[key].count == 1
                && after[key].window_start == now
            &&& !known ==> after.dom().contains(key) && after[key].count == 1
                && after[key].window_start == now
        }),
{
}

/// The table is cleaned after a request that passes, where it holds more than five thousand
/// clients or ten minutes have passed since it last was; a client stays whose window began
/// no more than two windows ago.
pub proof fn law_tables_are_cleaned_of_old_clients(
    table: RateTableView,
    key: Seq<char>,
    other: Seq<char>,
    now: u64,
    window: u64,
    limit: u32,
)
    requires
        key != other,
        table.entries.dom().contains(other),
        table.last_cleanup <= now,
        table.entries[other].window_start <= now,
    ensures
        ({
            let after = table.after_request(key, now, window, limit);
            let full = table.entries.insert(
                key,
                counted(table.entry(key, now), now, window),
            ).dom().len() > 5000 || now - table.last_cleanup > 600;
            let cleans = full && !table.refuses(key, now, window, limit);
            &&& after.last_cleanup == if cleans {
                now
            } else {
                table.last_cleanup
            }
            &&& !after.entries.dom().contains(other) <==> cleans && now
                - table.entries[other].window_start > 2 * window
        }),
{
}

} // verus!
