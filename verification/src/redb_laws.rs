//! What whole requests do to a persistent store.

use crate::entry::{
    effective_ttl, encoded, expiry, law_read_for_the_asked_time, law_record_is_read,
    law_record_layout, readable,
};
use crate::redb_run::{
    sweep, Action, ActionView, Event, EventView, Request, RequestView, Run, RunView, State,
};
use crate::reply::{Reply, SetOutcome, Verdict};
use crate::text::{lemma_filter_members, lemma_filter_no_duplicates};
use vstd::prelude::*;

verus! {

/// The entries of a store: the bytes that lie under each key.
pub type Entries = Map<Seq<char>, Seq<u8>>;

/// A persistent store, as the actions on it see it.
pub struct Disk {
    /// The entries that have been committed: none before anything was.
    pub committed: Option<Entries>,
    /// The entries as the transaction sees them.
    pub working: Entries,
    /// Whether there is a transaction.
    pub begun: bool,
    /// Whether the transaction writes.
    pub writing: bool,
    /// Whether the table is open.
    pub open: bool,
    /// Whether the keys are being walked.
    pub walking: bool,
    /// The keys that the walk has yet to come to.
    pub ahead: Seq<Seq<char>>,
}

impl Disk {
    /// A store that no request is at work on.
    pub open spec fn at_rest(committed: Option<Entries>) -> Disk {
        Disk {
            committed,
            working: Map::empty(),
            begun: false,
            writing: false,
            open: false,
            walking: false,
            ahead: Seq::empty(),
        }
    }

    /// The entries that have been committed.
    pub open spec fn entries(self) -> Entries {
        match self.committed {
            Some(entries) => entries,
            None => Map::empty(),
        }
    }

    /// The store once a transaction has begun.
    pub open spec fn begin(self, writing: bool) -> Disk {
        Disk { working: self.entries(), begun: true, writing, open: false, walking: false, ..self }
    }

    /// Whether an action can be performed: a table is opened in a transaction, an entry is looked
    /// up or walked to in an open table, and changed or committed in a transaction that writes.
    pub open spec fn allows(self, action: ActionView) -> bool {
        match action {
            Action::OpenTable => self.begun,
            Action::LookUp(_) => self.open,
            Action::Insert(_, _) => self.open && self.writing,
            Action::Remove(_) => self.open && self.writing,
            Action::ListKeys => self.open,
            Action::NextKey => self.walking,
            Action::Commit => self.begun && self.writing,
            _ => true,
        }
    }

    /// What an action does where nothing fails but what is not allowed, and what comes of it.
    /// `order` is the order in which the keys are walked, `now_ms` the time.
    pub open spec fn perform(self, action: ActionView, order: Seq<Seq<char>>, now_ms: u64) -> (
        Disk,
        EventView,
    ) {
        if !self.allows(action) {
            (self, Event::Failed(Seq::empty()))
        } else {
            match action {
                Action::ReadClock => (self, Event::Clock(now_ms)),
                Action::BeginRead => (self.begin(false), Event::Fine),
                Action::BeginWrite => (self.begin(true), Event::Fine),
                Action::OpenTable => if !self.writing && self.committed is None {
                    (self, Event::TableMissing)
                } else {
                    (Disk { open: true, ..self }, Event::Fine)
                },
                Action::LookUp(key) => (
                    self,
                    Event::Found(
                        if self.working.contains_key(key) {
                            Some(self.working[key])
                        } else {
                            None
                        },
                    ),
                ),
                Action::Insert(key, bytes) => (
                    Disk { working: self.working.insert(key, bytes), ..self },
                    Event::Fine,
                ),
                Action::Remove(key) => (
                    Disk { working: self.working.remove(key), ..self },
                    Event::Removed(self.working.contains_key(key)),
                ),
                Action::ListKeys => (Disk { walking: true, ahead: order, ..self }, Event::Fine),
                Action::NextKey => if self.ahead.len() > 0 {
                    (
                        Disk { ahead: self.ahead.drop_first(), ..self },
                        Event::Key(Some(self.ahead.first())),
                    )
                } else {
                    (self, Event::Key(None))
                },
                Action::Commit => (
                    Disk { committed: Some(self.working), begun: false, open: false, ..self },
                    Event::Fine,
                ),
                Action::Finish(_) => (self, Event::Fine),
            }
        }
    }
}

/// What a request finds around it.
pub struct Around {
    /// The order in which the keys are walked.
    pub order: Seq<Seq<char>>,
    /// The time.
    pub now_ms: u64,
    /// After how many actions one fails, if one does.
    pub fails_after: Option<nat>,
    /// The words in which it fails.
    pub text: Seq<char>,
}

/// How a request ends, and the store it leaves, once all its actions have been performed one after
/// another; nothing if that takes more than `fuel` of them.
pub open spec fn drive(
    run: RunView,
    action: ActionView,
    disk: Disk,
    around: Around,
    fuel: nat,
) -> Option<(Verdict<Seq<char>, Seq<u8>>, Disk)>
    decreases fuel,
{
    if let Action::Finish(verdict) = action {
        Some((verdict, disk))
    } else if fuel == 0 {
        None
    } else {
        let (disk, event) = if around.fails_after == Some(0nat) {
            (disk, Event::Failed(around.text))
        } else {
            disk.perform(action, around.order, around.now_ms)
        };
        let (state, action) = run.next(event);
        let around = Around {
            fails_after: match around.fails_after {
                Some(steps) if steps > 0 => Some((steps - 1) as nat),
                _ => None,
            },
            ..around
        };
        drive(Run { state, ..run }, action, disk, around, (fuel - 1) as nat)
    }
}

/// How a whole request ends, and what it leaves committed.
pub open spec fn outcome(
    request: RequestView,
    default_ttl_secs: u64,
    committed: Option<Entries>,
    around: Around,
) -> Option<(Verdict<Seq<char>, Seq<u8>>, Option<Entries>)> {
    let disk = Disk::at_rest(committed);
    let run = Run { request, default_ttl_secs, state: State::Over };
    let (state, action) = run.first();
    match drive(Run { state, ..run }, action, disk, around, 2 * around.order.len() + 8) {
        Some((verdict, left)) => Some((verdict, left.committed)),
        None => None,
    }
}

/// That a request was answered and left `committed`.
pub open spec fn answered(reply: Reply<Seq<u8>>, committed: Option<Entries>) -> Option<
    (Verdict<Seq<char>, Seq<u8>>, Option<Entries>),
> {
    Some((Verdict::Done(reply), committed))
}

/// Whether nothing fails and the keys are walked one by one, each of them and no other.
pub open spec fn sound(around: Around, committed: Option<Entries>) -> bool {
    &&& around.fails_after is None
    &&& around.order.no_duplicates()
    &&& around.order.len() <= usize::MAX
    &&& committed matches Some(entries) ==> around.order.to_set() == entries.dom()
    &&& committed is None ==> around.order.len() == 0
}

/// The committed entries.
pub open spec fn entries_of(committed: Option<Entries>) -> Entries {
    match committed {
        Some(entries) => entries,
        None => Map::empty(),
    }
}

/// Storing puts the entry under its key, leaves every other key as it was, and tells whether there
/// was an entry under the key before.
pub proof fn law_store(
    key: Seq<char>,
    value: Seq<u8>,
    ttl_secs: u64,
    default_ttl_secs: u64,
    committed: Option<Entries>,
    around: Around,
)
    requires
        sound(around, committed),
    ensures
        outcome(Request::Store { key, value, ttl_secs }, default_ttl_secs, committed, around)
            == answered(
            Reply::Stored(
                SetOutcome {
                    replaced: entries_of(committed).contains_key(key),
                    evicted: 0,
                    evicted_bytes: 0,
                },
            ),
            Some(
                entries_of(committed).insert(
                    key,
                    encoded(
                        expiry(around.now_ms, effective_ttl(ttl_secs, default_ttl_secs)),
                        value,
                    ),
                ),
            ),
        ),
{
    reveal_with_fuel(drive, 8);
}

/// Reading gives what lies readable under the key and leaves the store as it is.
pub proof fn law_get(
    key: Seq<char>,
    default_ttl_secs: u64,
    committed: Option<Entries>,
    around: Around,
)
    requires
        sound(around, committed),
    ensures
        outcome(Request::Get { key }, default_ttl_secs, committed, around) == answered(
            Reply::Value(
                if entries_of(committed).contains_key(key) {
                    readable(entries_of(committed)[key], around.now_ms)
                } else {
                    None
                },
            ),
            committed,
        ),
{
    reveal_with_fuel(drive, 8);
}

/// Dropping a key removes it, leaves every other key as it was, and tells whether it was there.
pub proof fn law_invalidate(
    key: Seq<char>,
    default_ttl_secs: u64,
    committed: Option<Entries>,
    around: Around,
)
    requires
        sound(around, committed),
    ensures
        outcome(Request::Invalidate { key }, default_ttl_secs, committed, around) == answered(
            Reply::Invalidated(entries_of(committed).contains_key(key)),
            Some(entries_of(committed).remove(key)),
        ),
{
    reveal_with_fuel(drive, 8);
}

/// What is stored is read back, byte for byte, until its time is over, and not from then on, so
/// long as nothing else is put under its key: whatever becomes of the other keys in between. The
/// time is the one asked for, or the default where none is; without either it is never over.
pub proof fn law_stored_is_read(
    key: Seq<char>,
    value: Seq<u8>,
    ttl_secs: u64,
    default_ttl_secs: u64,
    committed: Option<Entries>,
    storing: Around,
    later: Entries,
    reading: Around,
)
    requires
        sound(storing, committed),
        sound(reading, Some(later)),
        outcome(Request::Store { key, value, ttl_secs }, default_ttl_secs, committed, storing)
            matches Some((_, Some(left))) ==> later.contains_key(key) && later[key] == left[key],
    ensures
        outcome(Request::Get { key }, default_ttl_secs, Some(later), reading) == answered(
            Reply::Value(
                if ttl_secs > 0 {
                    if reading.now_ms < storing.now_ms + ttl_secs * 1000 && reading.now_ms
                        < u64::MAX {
                        Some(value)
                    } else {
                        None
                    }
                } else if default_ttl_secs > 0 {
                    if reading.now_ms < storing.now_ms + default_ttl_secs * 1000 && reading.now_ms
                        < u64::MAX {
                        Some(value)
                    } else {
                        None
                    }
                } else {
                    Some(value)
                },
            ),
            Some(later),
        ),
{
    law_store(key, value, ttl_secs, default_ttl_secs, committed, storing);
    law_get(key, default_ttl_secs, Some(later), reading);
    law_read_for_the_asked_time(
        value,
        storing.now_ms,
        ttl_secs,
        default_ttl_secs,
        reading.now_ms,
    );
}

/// Storing puts a record under the key and leaves every other key as it was. The record holds the
/// value as it is after eight bytes, the most significant first, for the time at which it expires:
/// the asked time from now, or the default time from now where none is asked, or never where there
/// is neither; a time beyond the last one is the last one. The answer tells whether there was a
/// record before, and that nothing made room.
pub proof fn law_store_writes_one_record(
    key: Seq<char>,
    value: Seq<u8>,
    ttl_secs: u64,
    default_ttl_secs: u64,
    committed: Option<Entries>,
    around: Around,
)
    requires
        sound(around, committed),
    ensures
        ({
            let secs = if ttl_secs > 0 {
                ttl_secs as int
            } else {
                default_ttl_secs as int
            };
            let expires = if secs == 0 {
                0
            } else if around.now_ms + secs * 1000 > u64::MAX {
                u64::MAX as int
            } else {
                around.now_ms + secs * 1000
            };
            outcome(Request::Store { key, value, ttl_secs }, default_ttl_secs, committed, around)
                matches Some((Verdict::Done(Reply::Stored(told)), Some(left))) && {
                &&& told.replaced == entries_of(committed).contains_key(key)
                &&& told.evicted == 0
                &&& told.evicted_bytes == 0
                &&& left.contains_key(key)
                &&& left[key].len() == 8 + value.len()
                &&& left[key].skip(8) == value
                &&& expires == left[key][0] * 0x100_0000_0000_0000 + left[key][1]
                    * 0x1_0000_0000_0000 + left[key][2] * 0x100_0000_0000 + left[key][3]
                    * 0x1_0000_0000 + left[key][4] * 0x100_0000 + left[key][5] * 0x1_0000
                    + left[key][6] * 0x100 + left[key][7]
                &&& left.remove(key) == entries_of(committed).remove(key)
            }
        }),
{
    law_store(key, value, ttl_secs, default_ttl_secs, committed, around);
    let ttl = effective_ttl(ttl_secs, default_ttl_secs);
    law_record_layout(expiry(around.now_ms, ttl), value);
    let bytes = encoded(expiry(around.now_ms, ttl), value);
    assert(entries_of(committed).insert(key, bytes).remove(key) =~= entries_of(committed).remove(
        key,
    ));
}

/// Reading gives what follows the first eight bytes of the record under the key, until the time
/// that those bytes stand for, the most significant first, or for ever where that time is zero. It
/// gives nothing where there is no record, and it changes nothing.
pub proof fn law_get_reads_one_record(
    key: Seq<char>,
    default_ttl_secs: u64,
    committed: Option<Entries>,
    around: Around,
)
    requires
        sound(around, committed),
    ensures
        outcome(Request::Get { key }, default_ttl_secs, committed, around) matches Some(
            (Verdict::Done(Reply::Value(found)), left),
        ) && {
            &&& left == committed
            &&& (committed matches Some(entries) && entries.contains_key(key) && entries[key].len()
                >= 8) ==> ({
                let b = entries_of(committed)[key];
                let expires = b[0] * 0x100_0000_0000_0000 + b[1] * 0x1_0000_0000_0000 + b[2]
                    * 0x100_0000_0000 + b[3] * 0x1_0000_0000 + b[4] * 0x100_0000 + b[5] * 0x1_0000
                    + b[6] * 0x100 + b[7];
                found == if expires == 0 || around.now_ms < expires {
                    Some(b.skip(8))
                } else {
                    None
                }
            })
            &&& !(committed matches Some(entries) && entries.contains_key(key) && entries[key].len()
                >= 8) ==> found is None
        },
{
    law_get(key, default_ttl_secs, committed, around);
    if entries_of(committed).contains_key(key) {
        law_record_is_read(entries_of(committed)[key], around.now_ms);
    }
}

/// A request that reads never begins a transaction that writes, whatever fails.
pub proof fn law_get_never_writes(
    key: Seq<char>,
    default_ttl_secs: u64,
    committed: Option<Entries>,
    around: Around,
    fuel: nat,
)
    ensures
        ({
            let run = Run {
                request: RequestView::Get { key },
                default_ttl_secs,
                state: State::Over,
            };
            let (state, action) = run.first();
            drive(Run { state, ..run }, action, Disk::at_rest(committed), around, fuel) matches Some(
                (_, left),
            ) ==> !left.writing && left.committed == committed
        }),
{
    reveal_with_fuel(drive, 8);
}

/// A key that has been dropped, expired or not, is not read any more, and dropping it once more
/// finds nothing; every other key reads as it did.
pub proof fn law_dropped_is_gone(
    key: Seq<char>,
    other: Seq<char>,
    default_ttl_secs: u64,
    committed: Option<Entries>,
    before: Around,
    after: Around,
)
    requires
        sound(before, committed),
        sound(after, Some(entries_of(committed).remove(key))),
        before.now_ms == after.now_ms,
        other != key,
    ensures
        ({
            let left = Some(entries_of(committed).remove(key));
            &&& outcome(Request::Invalidate { key }, default_ttl_secs, committed, before)
                == answered(Reply::Invalidated(entries_of(committed).contains_key(key)), left)
            &&& outcome(Request::Get { key }, default_ttl_secs, left, after) == answered(
                Reply::Value(None),
                left,
            )
            &&& outcome(Request::Invalidate { key }, default_ttl_secs, left, after) == answered(
                Reply::Invalidated(false),
                left,
            )
            &&& outcome(Request::Get { key: other }, default_ttl_secs, left, after) matches Some(
                (later, _),
            ) && outcome(Request::Get { key: other }, default_ttl_secs, committed, before)
                matches Some((earlier, _)) && later == earlier
        }),
{
    let left = Some(entries_of(committed).remove(key));
    law_invalidate(key, default_ttl_secs, committed, before);
    law_get(key, default_ttl_secs, left, after);
    law_invalidate(key, default_ttl_secs, left, after);
    law_get(other, default_ttl_secs, left, after);
    law_get(other, default_ttl_secs, committed, before);
    assert(left.unwrap().remove(key) =~= left.unwrap());
}

/// The keys of a walk that a request wants to drop, in the order of the walk.
pub open spec fn wanted(request: RequestView, order: Seq<Seq<char>>) -> Seq<Seq<char>> {
    order.filter(|key: Seq<char>| request.wants(key))
}

/// A walk gathers the wanted keys, and the sweep begins.
proof fn lemma_walk(run: RunView, disk: Disk, around: Around, fuel: nat)
    requires
        run.state matches State::Keys { matched },
        around.fails_after is None,
        disk.walking,
        fuel > disk.ahead.len(),
    ensures
        run.state matches State::Keys { matched } && {
            let (state, action) = sweep(
                run.request,
                matched + wanted(run.request, disk.ahead),
                0,
            );
            drive(run, Action::NextKey, disk, around, fuel) == drive(
                Run { state, ..run },
                action,
                Disk { ahead: Seq::empty(), ..disk },
                around,
                (fuel - 1 - disk.ahead.len()) as nat,
            )
        },
    decreases disk.ahead.len(),
{
    let matched = run.state->Keys_matched;
    let ahead = disk.ahead;
    if ahead.len() == 0 {
        reveal(Seq::filter);
        assert(ahead =~= Seq::empty());
        assert(matched + wanted(run.request, ahead) =~= matched);
    } else {
        let first = ahead.first();
        let rest = ahead.drop_first();
        let gathered = if run.request.wants(first) {
            matched.push(first)
        } else {
            matched
        };
        let next = Run { state: State::Keys { matched: gathered }, ..run };
        lemma_filter_first(ahead, |key: Seq<char>| run.request.wants(key));
        lemma_walk(next, Disk { ahead: rest, ..disk }, around, (fuel - 1) as nat);
        assert(gathered + wanted(run.request, rest) =~= matched + wanted(run.request, ahead));
    }
}

/// Filtering a sequence is filtering its first item and then the others.
proof fn lemma_filter_first<A>(s: Seq<A>, p: spec_fn(A) -> bool)
    requires
        s.len() > 0,
    ensures
        s.filter(p) == if p(s.first()) {
            seq![s.first()] + s.drop_first().filter(p)
        } else {
            s.drop_first().filter(p)
        },
    decreases s.len(),
{
    reveal(Seq::filter);
    if s.len() == 1 {
        assert(s.drop_last() =~= Seq::empty());
        assert(s.drop_first() =~= Seq::empty());
    } else {
        lemma_filter_first(s.drop_last(), p);
        assert(s.drop_last().drop_first() =~= s.drop_first().drop_last());
        assert(s.drop_first().last() == s.last());
    }
    assert(s.filter(p) =~= if p(s.first()) {
        seq![s.first()] + s.drop_first().filter(p)
    } else {
        s.drop_first().filter(p)
    });
}

/// A sweep removes the keys that it has yet to come to, and commits.
proof fn lemma_sweep(
    run: RunView,
    matched: Seq<Seq<char>>,
    next: usize,
    disk: Disk,
    around: Around,
    fuel: nat,
)
    requires
        next <= matched.len() <= usize::MAX,
        around.fails_after is None,
        disk.begun && disk.writing && disk.open,
        fuel >= matched.len() - next + 1,
    ensures
        ({
            let (state, action) = sweep(run.request, matched, next);
            drive(Run { state, ..run }, action, disk, around, fuel) matches Some((verdict, left))
                && verdict == Verdict::<Seq<char>, Seq<u8>>::Done(
                run.request.swept(matched.len()),
            ) && left.committed == Some(
                disk.working.remove_keys(matched.skip(next as int).to_set()),
            )
        }),
    decreases matched.len() - next,
{
    let left = matched.skip(next as int);
    if next == matched.len() {
        reveal_with_fuel(drive, 2);
        assert(disk.working.remove_keys(left.to_set()) =~= disk.working);
    } else {
        let key = matched[next as int];
        let rest = matched.skip(next + 1);
        let removed = disk.working.remove(key);
        lemma_sweep(
            run,
            matched,
            (next + 1) as usize,
            Disk { working: removed, ..disk },
            around,
            (fuel - 1) as nat,
        );
        assert(left =~= seq![key] + rest);
        assert forall|k: Seq<char>|
            left.to_set().contains(k) <==> k == key || rest.to_set().contains(k) by {
            if rest.contains(k) {
                let i = rest.index_of(k);
                assert(left[i + 1] == k);
            }
            if left.contains(k) {
                let i = left.index_of(k);
                if i > 0 {
                    assert(rest[i - 1] == k);
                }
            }
            assert(left[0] == key);
        }
        assert(removed.remove_keys(rest.to_set()) =~= disk.working.remove_keys(left.to_set()));
    }
}

/// A request that drops keys removes those it wants and no others.
proof fn lemma_cleared(
    request: RequestView,
    default_ttl_secs: u64,
    committed: Option<Entries>,
    around: Around,
)
    requires
        request is Clear || request is ClearPrefix,
        sound(around, committed),
    ensures
        outcome(request, default_ttl_secs, committed, around) == answered(
            request.swept(wanted(request, around.order).len()),
            Some(
                entries_of(committed).remove_keys(Set::new(|key: Seq<char>| request.wants(key))),
            ),
        ),
{
    reveal_with_fuel(drive, 4);
    let entries = entries_of(committed);
    let order = around.order;
    let matched = wanted(request, order);
    let wants = |key: Seq<char>| request.wants(key);
    lemma_filter_members(order, wants);
    lemma_filter_no_duplicates(order, wants);
    let disk = Disk {
        committed,
        working: entries,
        begun: true,
        writing: true,
        open: true,
        walking: true,
        ahead: order,
    };
    let run = Run {
        request,
        default_ttl_secs,
        state: State::Keys { matched: Seq::empty() },
    };
    let fuel = (2 * order.len() + 5) as nat;
    lemma_walk(run, disk, around, fuel);
    assert(Seq::<Seq<char>>::empty() + matched =~= matched);
    lemma_sweep(
        run,
        matched,
        0,
        Disk { ahead: Seq::empty(), ..disk },
        around,
        (fuel - 1 - order.len()) as nat,
    );
    assert(matched.skip(0) =~= matched);
    assert forall|key: Seq<char>| entries.contains_key(key) implies (matched.to_set().contains(key)
        <==> request.wants(key)) by {
        assert(order.to_set().contains(key));
        assert(order.contains(key));
    }
    assert(entries.remove_keys(matched.to_set()) =~= entries.remove_keys(Set::new(wants)));
}

/// Clearing leaves nothing.
pub proof fn law_clear(default_ttl_secs: u64, committed: Option<Entries>, around: Around)
    requires
        sound(around, committed),
    ensures
        outcome(Request::Clear, default_ttl_secs, committed, around) == answered(
            Reply::Cleared,
            Some(Map::empty()),
        ),
{
    lemma_cleared(Request::Clear, default_ttl_secs, committed, around);
    let wants = |key: Seq<char>| RequestView::Clear.wants(key);
    assert(entries_of(committed).remove_keys(Set::new(wants)) =~= Map::empty());
}

/// Clearing a prefix removes the keys that begin with it, leaves every other key as it was, and
/// tells how many keys it removed.
pub proof fn law_clear_prefix(
    prefix: Seq<char>,
    default_ttl_secs: u64,
    committed: Option<Entries>,
    around: Around,
)
    requires
        sound(around, committed),
    ensures
        outcome(Request::ClearPrefix { prefix }, default_ttl_secs, committed, around) matches Some(
            (Verdict::Done(Reply::Removed(count)), Some(left)),
        ) && left == entries_of(committed).remove_keys(
            Set::new(|key: Seq<char>| prefix.is_prefix_of(key)),
        ) && count == entries_of(committed).len() - left.len(),
{
    let request = RequestView::ClearPrefix { prefix };
    lemma_cleared(request, default_ttl_secs, committed, around);
    let entries = entries_of(committed);
    let order = around.order;
    let wants = |key: Seq<char>| request.wants(key);
    let begins = |key: Seq<char>| prefix.is_prefix_of(key);
    let matched = wanted(request, order);
    lemma_filter_members(order, wants);
    lemma_filter_no_duplicates(order, wants);
    let left = entries.remove_keys(Set::new(wants));
    assert(left =~= entries.remove_keys(Set::new(begins)));
    assert(order.to_set() =~= entries.dom());
    order.unique_seq_to_set();
    matched.unique_seq_to_set();
    assert(left.dom() =~= entries.dom().difference(matched.to_set())) by {
        assert forall|key: Seq<char>| entries.contains_key(key) implies (matched.to_set().contains(
            key,
        ) <==> request.wants(key)) by {
            assert(order.to_set().contains(key));
            assert(order.contains(key));
        }
    }
    assert(matched.to_set().subset_of(entries.dom())) by {
        assert forall|key: Seq<char>| matched.to_set().contains(key) implies entries.dom().contains(
            key,
        ) by {
            assert(order.contains(key));
        }
    }
    vstd::set_lib::lemma_set_difference_len(entries.dom(), matched.to_set());
    assert(entries.dom().intersect(matched.to_set()) =~= matched.to_set());
}

/// Once everything has been dropped no key is read, there is nothing left to drop, be it by key or
/// by prefix, and whatever is stored next replaces nothing.
pub proof fn law_cleared_is_gone(
    key: Seq<char>,
    value: Seq<u8>,
    ttl_secs: u64,
    prefix: Seq<char>,
    default_ttl_secs: u64,
    committed: Option<Entries>,
    clearing: Around,
    next: Around,
)
    requires
        sound(clearing, committed),
        sound(next, Some(Map::empty())),
    ensures
        ({
            let left = Some(Map::empty());
            &&& outcome(Request::Clear, default_ttl_secs, committed, clearing) == answered(
                Reply::Cleared,
                left,
            )
            &&& outcome(Request::Get { key }, default_ttl_secs, left, next) == answered(
                Reply::Value(None),
                left,
            )
            &&& outcome(Request::Invalidate { key }, default_ttl_secs, left, next) == answered(
                Reply::Invalidated(false),
                left,
            )
            &&& outcome(Request::ClearPrefix { prefix }, default_ttl_secs, left, next) == answered(
                Reply::Removed(0),
                left,
            )
            &&& outcome(Request::Store { key, value, ttl_secs }, default_ttl_secs, left, next)
                matches Some((Verdict::Done(Reply::Stored(stored)), _)) && !stored.replaced
        }),
{
    let left = Some(Map::<Seq<char>, Seq<u8>>::empty());
    law_clear(default_ttl_secs, committed, clearing);
    law_get(key, default_ttl_secs, left, next);
    law_invalidate(key, default_ttl_secs, left, next);
    law_clear_prefix(prefix, default_ttl_secs, left, next);
    law_store(key, value, ttl_secs, default_ttl_secs, left, next);
    let none = left.unwrap();
    assert(none.remove(key) =~= none);
    assert(none.remove_keys(Set::new(|key: Seq<char>| prefix.is_prefix_of(key))) =~= none);
}

/// A request that ends in a failure has committed nothing, whichever of its actions failed.
pub proof fn law_failure_commits_nothing(
    request: RequestView,
    default_ttl_secs: u64,
    committed: Option<Entries>,
    around: Around,
)
    ensures
        outcome(request, default_ttl_secs, committed, around) matches Some(
            (Verdict::Failed(_), left),
        ) ==> left == committed,
{
    let disk = Disk::at_rest(committed);
    let run = Run { request, default_ttl_secs, state: State::Over };
    let (state, action) = run.first();
    lemma_failure(Run { state, ..run }, action, disk, around, 2 * around.order.len() + 8);
}

/// A request that ends in a failure commits nothing from here on.
proof fn lemma_failure(run: RunView, action: ActionView, disk: Disk, around: Around, fuel: nat)
    requires
        action is Commit ==> run.state is Commit,
    ensures
        drive(run, action, disk, around, fuel) matches Some((Verdict::Failed(_), left))
            ==> left.committed == disk.committed,
    decreases fuel,
{
    if !(action is Finish) && fuel > 0 {
        let (after, event) = if around.fails_after == Some(0nat) {
            (disk, Event::Failed(around.text))
        } else {
            disk.perform(action, around.order, around.now_ms)
        };
        let (state, next) = run.next(event);
        let later = Around {
            fails_after: match around.fails_after {
                Some(steps) if steps > 0 => Some((steps - 1) as nat),
                _ => None,
            },
            ..around
        };
        lemma_failure(Run { state, ..run }, next, after, later, (fuel - 1) as nat);
    }
}

} // verus!
