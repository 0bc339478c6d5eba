//! The ephemeral artifact cache: finished images, kept under a token for a
//! bounded time and reclaimed by periodic reap passes.

use crate::token::{decimal, decimal_text, lemma_decimal_injective};
use dashmap::DashMap;
use vstd::prelude::*;
use vstd::string::StringExecFns;

verus! {

/// `dashmap::DashMap`: a concurrent hash map, opaque to the proofs; what it
/// holds is told by `table_entries`.
#[verifier::external_type_specification]
#[verifier::external_body]
#[verifier::reject_recursive_types(K)]
#[verifier::reject_recursive_types(V)]
#[verifier::reject_recursive_types(S)]
pub struct ExDashMap<K, V, S>(DashMap<K, V, S>);

/// A stored artifact and the time at which it was stored.
pub struct CacheEntry {
    pub payload: Vec<u8>,
    pub created: u64,
}

/// What a table holds: for each token the payload and the time of insertion.
pub uninterp spec fn table_entries(table: DashMap<String, CacheEntry>) -> Map<
    Seq<char>,
    (Seq<u8>, u64),
>;

/// The contents of an empty table.
pub open spec fn no_entries() -> Map<Seq<char>, (Seq<u8>, u64)> {
    Map::empty()
}

/// Whether an entry made at `created` is still within its lifetime at `now`.
pub open spec fn is_live(created: u64, now: u64, ttl: u64) -> bool {
    created + ttl > now
}

/// Decides whether an entry made at `created` outlives a reap pass at `now`.
pub fn live(created: u64, now: u64, ttl: u64) -> (keep: bool)
    ensures
        keep == is_live(created, now, ttl),
{
    now < created || now - created < ttl
}

/// `DashMap::new`: a table that holds nothing.
#[verifier::external_body]
fn table_new() -> (table: DashMap<String, CacheEntry>)
    ensures
        table_entries(table) == no_entries(),
{
    DashMap::new()
}

/// `DashMap::insert`: afterwards the key maps to the new value, whether or not
/// it was present; every other key is untouched.
#[verifier::external_body]
fn table_insert(
    table: &mut DashMap<String, CacheEntry>,
    key: String,
    payload: Vec<u8>,
    created: u64,
)
    ensures
        table_entries(*final(table)) == table_entries(*old(table)).insert(
            key@,
            (payload@, created),
        ),
{
    table.insert(key, CacheEntry { payload, created });
}

/// `DashMap::get`: a copy of the payload stored under the key, if there is
/// one.
#[verifier::external_body]
fn table_get(table: &DashMap<String, CacheEntry>, key: &str) -> (found: Option<Vec<u8>>)
    ensures
        found is Some <==> table_entries(*table).contains_key(key@),
        found matches Some(payload) ==> payload@ == table_entries(*table)[key@].0,
{
    table.get(key).map(|entry| entry.payload.clone())
}

/// `DashMap::retain` with the lifetime test: the entries that are live at
/// `now` stay as they are, the others are removed.
#[verifier::external_body]
fn table_retain_live(table: &mut DashMap<String, CacheEntry>, now: u64, ttl: u64)
    ensures
        table_entries(*final(table)) == live_entries(table_entries(*old(table)), now, ttl),
{
    table.retain(|_, entry| live(entry.created, now, ttl));
}

/// The entries that are live at `now`.
pub open spec fn live_entries(
    entries: Map<Seq<char>, (Seq<u8>, u64)>,
    now: u64,
    ttl: u64,
) -> Map<Seq<char>, (Seq<u8>, u64)> {
    Map::new(
        |token: Seq<char>| entries.contains_key(token) && is_live(entries[token].1, now, ttl),
        |token: Seq<char>| entries[token],
    )
}

/// Mathematical model of the cache.
pub struct CacheState {
    /// For each token in the table, the payload and the time of insertion.
    pub entries: Map<Seq<char>, (Seq<u8>, u64)>,
    /// The number that the next token is made from.
    pub next: u64,
    /// Lifetime of an entry.
    pub ttl: u64,
    /// Time between two reap passes.
    pub reap_every: u64,
}

impl CacheState {
    /// A cache that holds nothing and has issued no token.
    pub open spec fn empty(ttl: u64, reap_every: u64) -> CacheState {
        CacheState { entries: Map::empty(), next: 1, ttl, reap_every }
    }

    /// The token that the next insertion returns.
    pub open spec fn token(self) -> Seq<char> {
        decimal(self.next as nat)
    }

    /// The payload stored under `token`, if there is one.
    pub open spec fn get(self, token: Seq<char>) -> Option<Seq<u8>> {
        if self.entries.contains_key(token) {
            Some(self.entries[token].0)
        } else {
            None
        }
    }

    /// The cache after `payload` has been inserted at time `now`.
    pub open spec fn insert(self, payload: Seq<u8>, now: u64) -> CacheState {
        CacheState {
            entries: self.entries.insert(self.token(), (payload, now)),
            next: if self.next == u64::MAX {
                0
            } else {
                (self.next + 1) as u64
            },
            ..self
        }
    }

    /// The cache after a reap pass at time `now`.
    pub open spec fn reap(self, now: u64) -> CacheState {
        CacheState { entries: live_entries(self.entries, now, self.ttl), ..self }
    }

    /// Every token in the table was made from a number below the counter: so
    /// it is while the counter has not wrapped around.
    pub open spec fn in_sequence(self) -> bool {
        forall|token: Seq<char>| #[trigger]
            self.entries.contains_key(token) ==> exists|n: nat|
                n < self.next && token == #[trigger] decimal(n)
    }

    /// The cache after the payloads have been inserted in turn, each with its
    /// time of insertion.
    pub open spec fn insert_all(self, payloads: Seq<(Seq<u8>, u64)>) -> CacheState
        decreases payloads.len(),
    {
        if payloads.len() == 0 {
            self
        } else {
            self.insert_all(payloads.drop_last()).insert(payloads.last().0, payloads.last().1)
        }
    }
}

/// Lifetime of an entry unless another is configured: 15 minutes, in
/// nanoseconds.
pub const DEFAULT_TTL: u64 = 900_000_000_000;

/// Time between two reap passes unless another is configured: 5 minutes, in
/// nanoseconds.
pub const DEFAULT_REAP_INTERVAL: u64 = 300_000_000_000;

/// The payloads of a list of images, each with the time `now`.
pub open spec fn stamped(images: Seq<Vec<u8>>, now: u64) -> Seq<(Seq<u8>, u64)> {
    images.map_values(|image: Vec<u8>| (image@, now))
}

fn copy_bytes(bytes: &Vec<u8>) -> (copy: Vec<u8>)
    ensures
        copy@ == bytes@,
{
    let mut copy: Vec<u8> = Vec::new();
    let mut i: usize = 0;
    while i < bytes.len()
        invariant
            i <= bytes@.len(),
            copy@ == bytes@.subrange(0, i as int),
        decreases bytes@.len() - i,
    {
        copy.push(bytes[i]);
        i = i + 1;
        assert(copy@ =~= bytes@.subrange(0, i as int));
    }
    assert(copy@ =~= bytes@);
    copy
}

/// The cache: a table from tokens to artifacts and the counter that tokens
/// are made from. Times are counted in nanoseconds from an origin of the
/// caller's choice.
///
/// Tokens are consecutive numbers, so whoever holds one can guess the
/// others: a token is a handle, not a secret. The number of entries is not
/// bounded; only their lifetime is.
pub struct ImageCache {
    table: DashMap<String, CacheEntry>,
    next: u64,
    ttl: u64,
    reap_every: u64,
}

impl View for ImageCache {
    type V = CacheState;

    closed spec fn view(&self) -> CacheState {
        CacheState {
            entries: table_entries(self.table),
            next: self.next,
            ttl: self.ttl,
            reap_every: self.reap_every,
        }
    }
}

impl ImageCache {
    /// An empty cache whose entries live for 15 minutes and which is to be
    /// reaped every 5 minutes.
    pub fn new() -> (cache: ImageCache)
        ensures
            cache@ == CacheState::empty(DEFAULT_TTL, DEFAULT_REAP_INTERVAL),
            cache@.in_sequence(),
    {
        ImageCache::with_lifetime(DEFAULT_TTL, DEFAULT_REAP_INTERVAL)
    }

    /// An empty cache whose entries live for `ttl` nanoseconds and which is
    /// to be reaped every `reap_every` nanoseconds.
    pub fn with_lifetime(ttl: u64, reap_every: u64) -> (cache: ImageCache)
        ensures
            cache@ == CacheState::empty(ttl, reap_every),
            cache@.in_sequence(),
    {
        ImageCache { table: table_new(), next: 1, ttl, reap_every }
    }

    /// Lifetime of an entry, in nanoseconds.
    pub fn ttl(&self) -> (ttl: u64)
        ensures
            ttl == self@.ttl,
    {
        self.ttl
    }

    /// Time between two reap passes, in nanoseconds.
    pub fn reap_interval(&self) -> (interval: u64)
        ensures
            interval == self@.reap_every,
    {
        self.reap_every
    }

    /// The payload stored under `identifier`, if there is one. Reading
    /// neither removes the entry nor renews its lifetime.
    pub fn get(&self, identifier: &str) -> (found: Option<Vec<u8>>)
        ensures
            found is Some <==> self@.get(identifier@) is Some,
            found matches Some(payload) ==> self@.get(identifier@) == Some(payload@),
    {
        table_get(&self.table, identifier)
    }

    /// Stores `image` as of time `now` and returns its token: the counter in
    /// decimal. An entry that still holds that token is replaced; while the
    /// counter has not wrapped around there is none.
    pub fn insert(&mut self, image: Vec<u8>, now: u64) -> (token: String)
        ensures
            token@ == old(self)@.token(),
            final(self)@ == old(self)@.insert(image@, now),
            final(self)@.get(token@) == Some(image@),
            old(self)@.in_sequence() ==> old(self)@.get(token@) is None,
            old(self)@.in_sequence() && old(self)@.next < u64::MAX ==> final(self)@.in_sequence(),
    {
        proof {
            if self@.in_sequence() {
                lemma_token_is_fresh(self@);
            }
            lemma_in_sequence(self@, image@, now);
        }
        let token: String = decimal_text(self.next);
        table_insert(&mut self.table, token.clone(), image, now);
        self.next = self.next.wrapping_add(1);
        token
    }

    /// Stores the images one after the other as of time `now` and returns
    /// their tokens, in order. While the counter has not wrapped and does not
    /// run out, the tokens differ from each other and from every token in
    /// the table.
    pub fn insert_all(&mut self, images: &Vec<Vec<u8>>, now: u64) -> (tokens: Vec<String>)
        ensures
            final(self)@ == old(self)@.insert_all(stamped(images@, now)),
            tokens@.len() == images@.len(),
            forall|i: int|
                0 <= i < images@.len() && old(self)@.next + images@.len() <= u64::MAX
                    ==> #[trigger] tokens@[i]@ == token_at(old(self)@, i),
            old(self)@.in_sequence() && old(self)@.next + images@.len() <= u64::MAX ==> {
                &&& final(self)@.in_sequence()
                &&& forall|i: int, j: int|
                    0 <= i < j < images@.len() ==> #[trigger] tokens@[i]@ != #[trigger] tokens@[j]@
                &&& forall|i: int|
                    0 <= i < images@.len() ==> old(self)@.get(#[trigger] tokens@[i]@) is None
                        && final(self)@.get(tokens@[i]@) == Some(images@[i]@)
            },
    {
        let ghost start = self@;
        let ghost all = stamped(images@, now);
        let mut tokens: Vec<String> = Vec::new();
        let mut i: usize = 0;
        while i < images.len()
            invariant
                i <= images@.len(),
                all == stamped(images@, now),
                tokens@.len() == i,
                self@ == start.insert_all(all.subrange(0, i as int)),
                start.next + images@.len() <= u64::MAX ==> self@.next == start.next + i,
                forall|k: int|
                    0 <= k < i && start.next + images@.len() <= u64::MAX
                        ==> #[trigger] tokens@[k]@ == token_at(start, k),
            decreases images@.len() - i,
        {
            let image: Vec<u8> = copy_bytes(&images[i]);
            proof {
                assert(all.subrange(0, i + 1).drop_last() =~= all.subrange(0, i as int));
                assert(all.subrange(0, i + 1).last() == (images@[i as int]@, now));
            }
            let token: String = self.insert(image, now);
            tokens.push(token);
            i = i + 1;
        }
        proof {
            assert(all.subrange(0, i as int) =~= all);
            if start.in_sequence() && start.next + images@.len() <= u64::MAX {
                lemma_insertions_get_distinct_tokens(start, all);
            }
        }
        tokens
    }

    /// One reap pass at time `now`: removes every entry that is not live any
    /// more and leaves the others as they are.
    pub fn reap(&mut self, now: u64)
        ensures
            final(self)@ == old(self)@.reap(now),
            old(self)@.in_sequence() ==> final(self)@.in_sequence(),
    {
        proof {
            lemma_in_sequence(self@, Seq::empty(), now);
        }
        table_retain_live(&mut self.table, now, self.ttl);
    }
}

impl Default for ImageCache {
    fn default() -> (cache: ImageCache)
        ensures
            cache@ == CacheState::empty(DEFAULT_TTL, DEFAULT_REAP_INTERVAL),
    {
        ImageCache::new()
    }
}

/// The address under which the image stored under `token` is served by a
/// deployment whose public address is `base`.
pub open spec fn url_of(base: Seq<char>, token: Seq<char>) -> Seq<char> {
    base + "/image?image="@ + token
}

/// Writes the address under which the image stored under `token` is served.
pub fn image_url(base: &str, token: &str) -> (url: String)
    ensures
        url@ == url_of(base@, token@),
{
    let mut url: String = String::from_str(base);
    url.append("/image?image=");
    url.append(token);
    url
}

/// Reading right after an insertion returns the inserted payload.
pub proof fn lemma_round_trip(s: CacheState, payload: Seq<u8>, now: u64)
    ensures
        s.insert(payload, now).get(s.token()) == Some(payload),
{
}

/// An insertion changes nothing under the other tokens.
pub proof fn lemma_insert_keeps_others(
    s: CacheState,
    payload: Seq<u8>,
    now: u64,
    token: Seq<char>,
)
    requires
        token != s.token(),
    ensures
        s.insert(payload, now).get(token) == s.get(token),
{
}

/// Tokens made from different numbers differ.
pub proof fn lemma_tokens_distinct(a: u64, b: u64)
    requires
        a != b,
    ensures
        decimal(a as nat) != decimal(b as nat),
{
    if decimal(a as nat) == decimal(b as nat) {
        lemma_decimal_injective(a as nat, b as nat);
    }
}

/// While the counter has not wrapped around, the token of the next insertion
/// is held by no entry.
pub proof fn lemma_token_is_fresh(s: CacheState)
    requires
        s.in_sequence(),
    ensures
        s.get(s.token()) is None,
{
    if s.entries.contains_key(s.token()) {
        let n = choose|n: nat| n < s.next && s.token() == #[trigger] decimal(n);
        lemma_decimal_injective(s.next as nat, n);
    }
}

/// An empty cache is in sequence, an insertion below the last counter value
/// keeps the cache in sequence, and so does every reap pass.
pub proof fn lemma_in_sequence(s: CacheState, payload: Seq<u8>, now: u64)
    ensures
        CacheState::empty(s.ttl, s.reap_every).in_sequence(),
        s.in_sequence() && s.next < u64::MAX ==> s.insert(payload, now).in_sequence(),
        s.in_sequence() ==> s.reap(now).in_sequence(),
{
    if s.in_sequence() && s.next < u64::MAX {
        let after = s.insert(payload, now);
        assert forall|token: Seq<char>| #[trigger]
            after.entries.contains_key(token) implies exists|n: nat|
            n < after.next && token == #[trigger] decimal(n) by {
            if token == s.token() {
                assert(token == decimal(s.next as nat));
            } else {
                assert(s.entries.contains_key(token));
                let n = choose|n: nat| n < s.next && token == #[trigger] decimal(n);
                assert(n < after.next && token == decimal(n));
            }
        }
    }
    if s.in_sequence() {
        let after = s.reap(now);
        assert forall|token: Seq<char>| #[trigger]
            after.entries.contains_key(token) implies exists|n: nat|
            n < after.next && token == #[trigger] decimal(n) by {
            assert(s.entries.contains_key(token));
        }
    }
}

/// Right after a reap pass every entry in the table is within its lifetime.
pub proof fn lemma_reap_leaves_live_entries(s: CacheState, now: u64, token: Seq<char>)
    requires
        s.reap(now).entries.contains_key(token),
    ensures
        is_live(s.reap(now).entries[token].1, now, s.ttl),
        s.reap(now).entries[token] == s.entries[token],
{
}

/// A reap pass keeps every entry that is within its lifetime, whole.
pub proof fn lemma_reap_keeps_live(s: CacheState, now: u64, token: Seq<char>)
    requires
        s.entries.contains_key(token),
        is_live(s.entries[token].1, now, s.ttl),
    ensures
        s.reap(now).get(token) == s.get(token),
{
}

/// An insertion and a reap pass do not get in each other's way: in whichever
/// order they come, the inserted payload can be read afterwards, whole, as
/// long as the pass falls within its lifetime.
pub proof fn lemma_reap_spares_insertion(s: CacheState, payload: Seq<u8>, now: u64, pass: u64)
    requires
        is_live(now, pass, s.ttl),
    ensures
        s.insert(payload, now).reap(pass).get(s.token()) == Some(payload),
        s.reap(pass).insert(payload, now).get(s.token()) == Some(payload),
{
}

/// A reap pass at or after the end of an entry's lifetime removes it.
pub proof fn lemma_reap_removes_expired(s: CacheState, now: u64, token: Seq<char>)
    requires
        s.entries.contains_key(token),
        now >= s.entries[token].1 + s.ttl,
    ensures
        s.reap(now).get(token) is None,
{
}

/// An entry stored at time `stored` cannot be read at any time `read` from
/// `stored + ttl + reap_every` on, once a reap pass has run within the last
/// `reap_every` nanoseconds before the read (as one has when the passes are at
/// most `reap_every` apart), until its token is issued again.
pub proof fn lemma_entry_expires(s: CacheState, token: Seq<char>, stored: u64, pass: u64, read: u64)
    requires
        s.entries.contains_key(token),
        s.entries[token].1 == stored,
        read >= stored + s.ttl + s.reap_every,
        read - s.reap_every <= pass <= read,
    ensures
        s.reap(pass).get(token) is None,
{
}

/// The `i`-th of a run of insertions into `s` returns this token.
pub open spec fn token_at(s: CacheState, i: int) -> Seq<char> {
    decimal((s.next + i) as nat)
}

/// A run of insertions that does not exhaust the counter yields tokens that
/// are distinct from each other and from every token in the table, and
/// afterwards each token gives back the payload that was inserted for it
/// and no other. What the table held before is untouched, so that it holds
/// as many entries more as there were insertions.
pub proof fn lemma_insertions_get_distinct_tokens(s: CacheState, payloads: Seq<(Seq<u8>, u64)>)
    requires
        s.in_sequence(),
        s.next + payloads.len() <= u64::MAX,
    ensures
        s.insert_all(payloads).next == s.next + payloads.len(),
        s.insert_all(payloads).in_sequence(),
        forall|i: int, j: int|
            0 <= i < j < payloads.len() ==> #[trigger] token_at(s, i) != #[trigger] token_at(s, j),
        forall|i: int|
            0 <= i < payloads.len() ==> s.insert_all(payloads).get(#[trigger] token_at(s, i))
                == Some(payloads[i].0),
        forall|i: int| 0 <= i < payloads.len() ==> s.get(#[trigger] token_at(s, i)) is None,
        forall|token: Seq<char>|
            s.entries.contains_key(token) ==> #[trigger] s.insert_all(payloads).get(token)
                == s.get(token),
        s.entries.dom().finite() ==> s.insert_all(payloads).entries.dom().finite()
            && s.insert_all(payloads).entries.dom().len() == s.entries.dom().len()
            + payloads.len(),
    decreases payloads.len(),
{
    assert forall|i: int| 0 <= i < payloads.len() implies s.get(#[trigger] token_at(s, i))
        is None by {
        if s.entries.contains_key(token_at(s, i)) {
            let n = choose|n: nat| n < s.next && token_at(s, i) == #[trigger] decimal(n);
            lemma_decimal_injective((s.next + i) as nat, n);
        }
    }
    assert forall|i: int, j: int| 0 <= i < j < payloads.len() implies #[trigger] token_at(s, i)
        != #[trigger] token_at(s, j) by {
        lemma_tokens_distinct((s.next + i) as u64, (s.next + j) as u64);
    }
    if payloads.len() > 0 {
        let front = payloads.drop_last();
        let last = payloads.last();
        let before = s.insert_all(front);
        lemma_insertions_get_distinct_tokens(s, front);
        lemma_in_sequence(before, last.0, last.1);
        lemma_token_is_fresh(before);
        assert(before.token() == token_at(s, payloads.len() - 1));
        assert(s.insert_all(payloads).entries.dom() =~= before.entries.dom().insert(
            before.token(),
        ));
        assert forall|token: Seq<char>| s.entries.contains_key(token) implies #[trigger] s.insert_all(
            payloads,
        ).get(token) == s.get(token) by {
            assert(s.get(token_at(s, payloads.len() - 1)) is None);
            assert(token != before.token());
            assert(before.get(token) == s.get(token));
        }
        assert forall|i: int| 0 <= i < payloads.len() implies s.insert_all(payloads).get(
            #[trigger] token_at(s, i),
        ) == Some(payloads[i].0) by {
            if i < payloads.len() - 1 {
                assert(token_at(s, i) != token_at(s, payloads.len() - 1));
                assert(front[i] == payloads[i]);
                assert(before.get(token_at(s, i)) == Some(payloads[i].0));
            }
        }
    }
}

/// One event in the life of a cache: an insertion or a reap pass.
pub enum CacheOp {
    Insert { payload: Seq<u8>, now: u64 },
    Reap { now: u64 },
}

impl CacheOp {
    /// The time of the event.
    pub open spec fn time(self) -> u64 {
        match self {
            CacheOp::Insert { payload, now } => now,
            CacheOp::Reap { now } => now,
        }
    }

    /// What the event stores, if it is an insertion.
    pub open spec fn payload(self) -> Seq<u8> {
        match self {
            CacheOp::Insert { payload, now } => payload,
            CacheOp::Reap { now } => Seq::empty(),
        }
    }
}

impl CacheState {
    /// The cache after one event.
    pub open spec fn apply(self, op: CacheOp) -> CacheState {
        match op {
            CacheOp::Insert { payload, now } => self.insert(payload, now),
            CacheOp::Reap { now } => self.reap(now),
        }
    }

    /// The cache after a history of events, in order. Reads are no events:
    /// they change nothing.
    pub open spec fn run(self, ops: Seq<CacheOp>) -> CacheState
        decreases ops.len(),
    {
        if ops.len() == 0 {
            self
        } else {
            self.run(ops.drop_last()).apply(ops.last())
        }
    }
}

/// Number of insertions among the first `upto` events.
pub open spec fn insertions(ops: Seq<CacheOp>, upto: int) -> nat
    decreases upto,
{
    if upto <= 0 {
        0
    } else if ops[upto - 1] is Insert {
        insertions(ops, upto - 1) + 1
    } else {
        insertions(ops, upto - 1)
    }
}

/// The token that event `i` of a history on `s` returns, if it is an
/// insertion.
pub open spec fn issued(s: CacheState, ops: Seq<CacheOp>, i: int) -> Seq<char> {
    decimal((s.next + insertions(ops, i)) as nat)
}

/// Whether what event `i` stores is within its lifetime at every reap pass
/// that comes after it in the history.
pub open spec fn outlives(ops: Seq<CacheOp>, i: int, ttl: u64) -> bool {
    forall|j: int|
        i < j < ops.len() && #[trigger] ops[j] is Reap ==> is_live(ops[i].time(), ops[j].time(), ttl)
}

proof fn lemma_insertions_prefix(ops: Seq<CacheOp>, upto: int)
    requires
        0 <= upto < ops.len(),
    ensures
        insertions(ops.drop_last(), upto) == insertions(ops, upto),
    decreases upto,
{
    if upto > 0 {
        lemma_insertions_prefix(ops, upto - 1);
        assert(ops.drop_last()[upto - 1] == ops[upto - 1]);
    }
}

proof fn lemma_insertions_grow(ops: Seq<CacheOp>, i: int, j: int)
    requires
        0 <= i <= j <= ops.len(),
    ensures
        insertions(ops, i) <= insertions(ops, j) <= insertions(ops, i) + (j - i),
        i < j && ops[i] is Insert ==> insertions(ops, i) < insertions(ops, j),
    decreases j - i,
{
    if i < j {
        lemma_insertions_grow(ops, i, j - 1);
    }
}

proof fn lemma_outlives_step(ops: Seq<CacheOp>, i: int, ttl: u64)
    requires
        0 <= i < ops.len() - 1,
    ensures
        outlives(ops, i, ttl) == (outlives(ops.drop_last(), i, ttl) && (ops.last() is Reap
            ==> is_live(ops[i].time(), ops.last().time(), ttl))),
{
    let front = ops.drop_last();
    assert(front[i] == ops[i]);
    if outlives(ops, i, ttl) {
        assert forall|j: int| i < j < front.len() && #[trigger] front[j] is Reap implies is_live(
            front[i].time(),
            front[j].time(),
            ttl,
        ) by {
            assert(front[j] == ops[j]);
            assert(ops[j] is Reap);
        }
        if ops.last() is Reap {
            assert(ops[ops.len() - 1] is Reap);
        }
    }
    if outlives(front, i, ttl) && (ops.last() is Reap ==> is_live(
        ops[i].time(),
        ops.last().time(),
        ttl,
    )) {
        assert forall|j: int| i < j < ops.len() && #[trigger] ops[j] is Reap implies is_live(
            ops[i].time(),
            ops[j].time(),
            ttl,
        ) by {
            if j < ops.len() - 1 {
                assert(front[j] == ops[j]);
                assert(front[j] is Reap);
            }
        }
    }
}

/// What holds after every history of insertions and reap passes on a cache
/// whose counter has not wrapped and does not run out: the insertions get
/// tokens that differ from each other, and under the token of each of them
/// the cache holds the payload of that insertion, whole, exactly if every
/// later reap pass fell within its lifetime, and nothing otherwise.
pub proof fn lemma_history(s: CacheState, ops: Seq<CacheOp>)
    requires
        s.in_sequence(),
        s.next + ops.len() <= u64::MAX,
    ensures
        s.run(ops).in_sequence(),
        s.run(ops).ttl == s.ttl,
        s.run(ops).next == s.next + insertions(ops, ops.len() as int),
        forall|i: int, j: int|
            0 <= i < j < ops.len() && ops[i] is Insert && ops[j] is Insert ==> #[trigger] issued(
                s,
                ops,
                i,
            ) != #[trigger] issued(s, ops, j),
        forall|i: int|
            0 <= i < ops.len() && ops[i] is Insert ==> s.run(ops).get(#[trigger] issued(s, ops, i))
                == if outlives(ops, i, s.ttl) {
                Some(ops[i].payload())
            } else {
                None
            },
        forall|i: int|
            0 <= i < ops.len() && ops[i] is Insert && outlives(ops, i, s.ttl) ==> s.run(
                ops,
            ).entries[#[trigger] issued(s, ops, i)].1 == ops[i].time(),
    decreases ops.len(),
{
    let n = ops.len() as int;
    assert forall|i: int, j: int|
        0 <= i < j < n && ops[i] is Insert && ops[j] is Insert implies #[trigger] issued(s, ops, i)
        != #[trigger] issued(s, ops, j) by {
        lemma_insertions_grow(ops, i, j);
        lemma_insertions_grow(ops, j, n);
        lemma_insertions_grow(ops, 0, n);
        lemma_tokens_distinct(
            (s.next + insertions(ops, i)) as u64,
            (s.next + insertions(ops, j)) as u64,
        );
    }
    if n > 0 {
        let front = ops.drop_last();
        let last = ops.last();
        let mid = s.run(front);
        let end = s.run(ops);
        lemma_history(s, front);
        lemma_insertions_prefix(ops, n - 1);
        lemma_insertions_grow(ops, 0, n - 1);
        lemma_in_sequence(mid, last.payload(), last.time());
        assert(mid.next == s.next + insertions(ops, n - 1));
        assert forall|i: int| 0 <= i < n && ops[i] is Insert implies end.get(
            #[trigger] issued(s, ops, i),
        ) == (if outlives(ops, i, s.ttl) {
            Some(ops[i].payload())
        } else {
            None
        }) && (outlives(ops, i, s.ttl) ==> end.entries[issued(s, ops, i)].1 == ops[i].time()) by {
            if i < n - 1 {
                lemma_insertions_prefix(ops, i);
                lemma_outlives_step(ops, i, s.ttl);
                assert(front[i] == ops[i]);
                assert(issued(s, front, i) == issued(s, ops, i));
                if last is Insert {
                    lemma_insertions_grow(ops, i, n - 1);
                    lemma_tokens_distinct(
                        (s.next + insertions(ops, i)) as u64,
                        (s.next + insertions(ops, n - 1)) as u64,
                    );
                    assert(issued(s, ops, i) != mid.token());
                }
            } else {
                assert(issued(s, ops, i) == mid.token());
            }
        }
    }
}

} // verus!
