//! Restart bookkeeping for one container, and the set of managed containers.

use crate::text::{text_set, text_views};
use vstd::arithmetic::power2::{lemma2_to64, pow2};
use vstd::hash_set::StringHashSet;
use vstd::prelude::*;
use vstd::string::StringExecFns;

verus! {

/// Largest exponent the backoff reaches: after this many consecutive failures
/// the delay stays at `2^6` seconds.
pub const MAX_BACKOFF_EXPONENT: u32 = 6;

/// Nanoseconds in one second; timestamps are counted in nanoseconds.
pub const NANOS_PER_SECOND: u64 = 1_000_000_000;

/// Seconds a container must wait after `failures` consecutive failed restarts:
/// `2^min(failures, 6)`.
pub open spec fn backoff_seconds(failures: nat) -> nat {
    if failures <= MAX_BACKOFF_EXPONENT {
        pow2(failures)
    } else {
        pow2(MAX_BACKOFF_EXPONENT as nat)
    }
}

/// Time that has passed at `now` since `since`; zero when the clock reads
/// earlier than `since`.
pub open spec fn elapsed_nanos(now: nat, since: nat) -> nat {
    if now >= since {
        (now - since) as nat
    } else {
        0
    }
}

/// The lifecycle record of one managed container, as a mathematical value.
pub struct ContainerRecord {
    /// Descriptor path of the deployment unit that declared the container.
    pub owning_unit: Seq<char>,
    /// When the backoff clock was last set, in nanoseconds.
    pub last_restart_time: Option<nat>,
    /// Restarts that were verified successful.
    pub restart_count: nat,
    /// Restart attempts since the last success.
    pub consecutive_failures: nat,
}

impl ContainerRecord {
    /// The record of a container that was just discovered.
    pub open spec fn fresh(owning_unit: Seq<char>) -> ContainerRecord {
        ContainerRecord {
            owning_unit,
            last_restart_time: None,
            restart_count: 0,
            consecutive_failures: 0,
        }
    }

    /// The backoff delay that the current failure streak calls for, in seconds.
    pub open spec fn backoff_seconds(self) -> nat {
        backoff_seconds(self.consecutive_failures)
    }

    /// Whether the container is still backing off at `now`.
    pub open spec fn in_backoff(self, now: nat) -> bool {
        match self.last_restart_time {
            Some(since) => elapsed_nanos(now, since) < self.backoff_seconds() * NANOS_PER_SECOND,
            None => false,
        }
    }

    /// Whether the failure streak has used up `max_consecutive_failures`.
    pub open spec fn exhausted(self, max_consecutive_failures: nat) -> bool {
        self.consecutive_failures >= max_consecutive_failures
    }

    /// Whether a restart may be attempted at `now`.
    pub open spec fn eligible(self, max_consecutive_failures: nat, now: nat) -> bool {
        !self.exhausted(max_consecutive_failures) && !self.in_backoff(now)
    }

    /// The record after a restart that was verified at `now`.
    pub open spec fn after_success(self, now: nat) -> ContainerRecord {
        ContainerRecord {
            owning_unit: self.owning_unit,
            last_restart_time: Some(now),
            restart_count: self.restart_count + 1,
            consecutive_failures: 0,
        }
    }

    /// The record after a restart attempt that failed at `now`.
    pub open spec fn after_failure(self, now: nat) -> ContainerRecord {
        ContainerRecord {
            owning_unit: self.owning_unit,
            last_restart_time: match self.last_restart_time {
                Some(since) => Some(since),
                None => Some(now),
            },
            restart_count: self.restart_count,
            consecutive_failures: self.consecutive_failures + 1,
        }
    }

    /// A record that has any history also has a backoff reference point.
    pub open spec fn well_formed(self) -> bool {
        (self.restart_count > 0 || self.consecutive_failures > 0)
            ==> self.last_restart_time is Some
    }
}

/// Restart history of one managed container.
#[derive(Debug, Clone, PartialEq, Eq)]
pub struct ContainerState {
    /// Path of the compose file that declares the container.
    pub compose_file: String,
    /// Nanosecond timestamp at which the backoff clock was set.
    pub last_restart: Option<u64>,
    /// Number of verified restarts.
    pub restart_count: u32,
    /// Number of failed restart attempts since the last success.
    pub consecutive_failures: u32,
}

impl View for ContainerState {
    type V = ContainerRecord;

    open spec fn view(&self) -> ContainerRecord {
        ContainerRecord {
            owning_unit: self.compose_file@,
            last_restart_time: match self.last_restart {
                Some(t) => Some(t as nat),
                None => None,
            },
            restart_count: self.restart_count as nat,
            consecutive_failures: self.consecutive_failures as nat,
        }
    }
}

impl ContainerState {
    /// A record without history for a container declared in `compose_file`.
    pub fn new(compose_file: String) -> (state: ContainerState)
        ensures
            state@ == ContainerRecord::fresh(compose_file@),
            state.compose_file == compose_file,
    {
        ContainerState {
            compose_file,
            last_restart: None,
            restart_count: 0,
            consecutive_failures: 0,
        }
    }

    /// The backoff delay in seconds: `2^min(consecutive_failures, 6)`.
    pub fn backoff_duration(&self) -> (seconds: u64)
        ensures
            seconds == self@.backoff_seconds(),
            1 <= seconds <= 64,
    {
        let exponent: u32 = if self.consecutive_failures <= MAX_BACKOFF_EXPONENT {
            self.consecutive_failures
        } else {
            MAX_BACKOFF_EXPONENT
        };
        let mut seconds: u64 = 1;
        let mut doubled: u32 = 0;
        proof {
            lemma2_to64();
        }
        while doubled < exponent
            invariant
                doubled <= exponent <= MAX_BACKOFF_EXPONENT,
                seconds == pow2(doubled as nat),
                seconds <= 64,
            decreases exponent - doubled,
        {
            proof {
                lemma2_to64();
            }
            seconds = seconds * 2;
            doubled = doubled + 1;
        }
        seconds
    }

    /// Whether, at `now`, less than the backoff delay has passed since the
    /// backoff clock was set. A record whose clock was never set is not
    /// backing off.
    pub fn is_in_backoff(&self, now: u64) -> (backing_off: bool)
        ensures
            backing_off == self@.in_backoff(now as nat),
    {
        match self.last_restart {
            Some(since) => {
                let elapsed: u64 = if now >= since { now - since } else { 0 };
                let seconds: u64 = self.backoff_duration();
                elapsed < seconds * NANOS_PER_SECOND
            },
            None => false,
        }
    }

    /// Records a restart that was verified at `now`: one more restart, the
    /// failure streak cleared, the backoff clock set to `now`.
    pub fn record_success(&mut self, now: u64)
        requires
            old(self).restart_count < u32::MAX,
        ensures
            final(self)@ == old(self)@.after_success(now as nat),
            final(self).compose_file == old(self).compose_file,
    {
        self.restart_count = self.restart_count + 1;
        self.last_restart = Some(now);
        self.consecutive_failures = 0;
    }

    /// Records a restart attempt that failed at `now`: the failure streak
    /// grows by one, and the backoff clock is set to `now` only if it was
    /// not set before.
    pub fn record_failure(&mut self, now: u64)
        requires
            old(self).consecutive_failures < u32::MAX,
        ensures
            final(self)@ == old(self)@.after_failure(now as nat),
            final(self).compose_file == old(self).compose_file,
    {
        self.consecutive_failures = self.consecutive_failures + 1;
        if self.last_restart.is_none() {
            self.last_restart = Some(now);
        }
    }
}

/// One container of the managed set, as a mathematical value.
pub struct ManagedEntry {
    /// The container's name.
    pub identity: Seq<char>,
    /// Its lifecycle record.
    pub record: ContainerRecord,
}

/// Whether no identity occurs twice in `entries`.
pub open spec fn distinct_identities(entries: Seq<ManagedEntry>) -> bool {
    forall|i: int, j: int|
        0 <= i < j < entries.len() ==> entries[i].identity != entries[j].identity
}

/// Whether each record in `entries` is well formed: one with a history has
/// its backoff clock set.
pub open spec fn records_well_formed(entries: Seq<ManagedEntry>) -> bool {
    forall|i: int| 0 <= i < entries.len() ==> (#[trigger] entries[i]).record.well_formed()
}

/// Whether `entries` holds a container named `identity`.
pub open spec fn is_managed(entries: Seq<ManagedEntry>, identity: Seq<char>) -> bool {
    exists|i: int| 0 <= i < entries.len() && entries[i].identity == identity
}

/// A place at which `entries` holds `identity`; the only one where the
/// identities are distinct.
pub open spec fn position_of(entries: Seq<ManagedEntry>, identity: Seq<char>) -> int {
    choose|i: int| 0 <= i < entries.len() && entries[i].identity == identity
}

/// The record that `entries` holds for `identity`, if any.
pub open spec fn record_of(entries: Seq<ManagedEntry>, identity: Seq<char>) -> Option<
    ContainerRecord,
> {
    if is_managed(entries, identity) {
        Some(entries[position_of(entries, identity)].record)
    } else {
        None
    }
}

/// `entries` after `identity` was declared by `owning_unit`: a container that
/// was already there keeps its place and starts over with a fresh record, a
/// new one goes to the end.
pub open spec fn declare(
    entries: Seq<ManagedEntry>,
    identity: Seq<char>,
    owning_unit: Seq<char>,
) -> Seq<ManagedEntry> {
    let entry = ManagedEntry { identity, record: ContainerRecord::fresh(owning_unit) };
    if is_managed(entries, identity) {
        entries.update(position_of(entries, identity), entry)
    } else {
        entries.push(entry)
    }
}

/// `entries` after the restart of `identity` was verified at `now`.
pub open spec fn with_success(entries: Seq<ManagedEntry>, identity: Seq<char>, now: nat) -> Seq<
    ManagedEntry,
> {
    if is_managed(entries, identity) {
        let at = position_of(entries, identity);
        entries.update(
            at,
            ManagedEntry { identity, record: entries[at].record.after_success(now) },
        )
    } else {
        entries
    }
}

/// `entries` after a restart attempt of `identity` failed at `now`.
pub open spec fn with_failure(entries: Seq<ManagedEntry>, identity: Seq<char>, now: nat) -> Seq<
    ManagedEntry,
> {
    if is_managed(entries, identity) {
        let at = position_of(entries, identity);
        entries.update(
            at,
            ManagedEntry { identity, record: entries[at].record.after_failure(now) },
        )
    } else {
        entries
    }
}

/// How many of `entries` are in the set `running`.
pub open spec fn running_count(entries: Seq<ManagedEntry>, running: Set<Seq<char>>) -> nat
    decreases entries.len(),
{
    if entries.len() == 0 {
        0
    } else {
        running_count(entries.drop_last(), running) + if running.contains(
            entries.last().identity,
        ) {
            1nat
        } else {
            0nat
        }
    }
}

/// Where the identities are distinct, an entry found at `at` is the one that
/// `position_of` picks.
pub proof fn lemma_position_unique(entries: Seq<ManagedEntry>, at: int)
    requires
        distinct_identities(entries),
        0 <= at < entries.len(),
    ensures
        is_managed(entries, entries[at].identity),
        position_of(entries, entries[at].identity) == at,
{
    let found = position_of(entries, entries[at].identity);
    if found < at {
        assert(entries[found].identity != entries[at].identity);
    } else if at < found {
        assert(entries[at].identity != entries[found].identity);
    }
}

/// Where the identities are distinct, the record of the entry at `at` is
/// the one that `record_of` gives for its identity.
pub proof fn lemma_record_at(entries: Seq<ManagedEntry>, at: int)
    requires
        distinct_identities(entries),
        0 <= at < entries.len(),
    ensures
        record_of(entries, entries[at].identity) == Some(entries[at].record),
{
    lemma_position_unique(entries, at);
}

/// Replacing the record at `at` changes the record of that identity and of
/// no other, and keeps the identities distinct.
pub proof fn lemma_update_record(entries: Seq<ManagedEntry>, at: int, record: ContainerRecord)
    requires
        distinct_identities(entries),
        0 <= at < entries.len(),
    ensures
        ({
            let updated = entries.update(
                at,
                ManagedEntry { identity: entries[at].identity, record },
            );
            &&& distinct_identities(updated)
            &&& records_well_formed(entries) && record.well_formed() ==> records_well_formed(
                updated,
            )
            &&& record_of(updated, entries[at].identity) == Some(record)
            &&& forall|other: Seq<char>|
                other != entries[at].identity ==> #[trigger] record_of(updated, other)
                    == record_of(entries, other)
        }),
{
    let updated = entries.update(at, ManagedEntry { identity: entries[at].identity, record });
    assert forall|i: int, j: int| 0 <= i < j < updated.len() implies updated[i].identity
        != updated[j].identity by {
        assert(updated[i].identity == entries[i].identity);
        assert(updated[j].identity == entries[j].identity);
    }
    lemma_record_at(updated, at);
    if records_well_formed(entries) && record.well_formed() {
        assert forall|i: int| 0 <= i < updated.len() implies (#[trigger] updated[i])
            .record.well_formed() by {
            if i != at {
                assert(updated[i] == entries[i]);
            }
        }
    }
    assert forall|other: Seq<char>| other != entries[at].identity implies #[trigger] record_of(
        updated,
        other,
    ) == record_of(entries, other) by {
        if is_managed(entries, other) {
            let place = position_of(entries, other);
            assert(updated[place] == entries[place]);
            lemma_record_at(updated, place);
        } else if is_managed(updated, other) {
            let place = position_of(updated, other);
            assert(updated[place].identity == entries[place].identity);
        }
    }
}

/// Declaring a container keeps the identities distinct, gives it a fresh
/// record and leaves the other records as they were.
pub proof fn lemma_declare(entries: Seq<ManagedEntry>, identity: Seq<char>, owning_unit: Seq<char>)
    requires
        distinct_identities(entries),
    ensures
        distinct_identities(declare(entries, identity, owning_unit)),
        records_well_formed(entries) ==> records_well_formed(
            declare(entries, identity, owning_unit),
        ),
        record_of(declare(entries, identity, owning_unit), identity) == Some(
            ContainerRecord::fresh(owning_unit),
        ),
        forall|other: Seq<char>|
            other != identity ==> #[trigger] record_of(
                declare(entries, identity, owning_unit),
                other,
            ) == record_of(entries, other),
{
    let entry = ManagedEntry { identity, record: ContainerRecord::fresh(owning_unit) };
    let declared = declare(entries, identity, owning_unit);
    if is_managed(entries, identity) {
        lemma_update_record(entries, position_of(entries, identity), entry.record);
    } else {
        assert forall|i: int, j: int| 0 <= i < j < declared.len() implies declared[i].identity
            != declared[j].identity by {
            if j < entries.len() {
                assert(declared[i] == entries[i] && declared[j] == entries[j]);
            } else {
                assert(declared[i] == entries[i]);
            }
        }
        lemma_record_at(declared, entries.len() as int);
        if records_well_formed(entries) {
            assert forall|i: int| 0 <= i < declared.len() implies (#[trigger] declared[i])
                .record.well_formed() by {
                if i < entries.len() {
                    assert(declared[i] == entries[i]);
                }
            }
        }
        assert forall|other: Seq<char>| other != identity implies #[trigger] record_of(
            declared,
            other,
        ) == record_of(entries, other) by {
            if is_managed(entries, other) {
                let place = position_of(entries, other);
                assert(declared[place] == entries[place]);
                lemma_record_at(declared, place);
            } else if is_managed(declared, other) {
                let place = position_of(declared, other);
                assert(place < entries.len());
                assert(declared[place] == entries[place]);
            }
        }
    }
}

/// Recording a success changes the record of that container and of no
/// other, and keeps the identities distinct.
pub proof fn lemma_with_success(entries: Seq<ManagedEntry>, identity: Seq<char>, now: nat)
    requires
        distinct_identities(entries),
    ensures
        distinct_identities(with_success(entries, identity, now)),
        records_well_formed(entries) ==> records_well_formed(with_success(entries, identity, now)),
        record_of(with_success(entries, identity, now), identity) == match record_of(
            entries,
            identity,
        ) {
            Some(record) => Some(record.after_success(now)),
            None => None,
        },
        forall|other: Seq<char>|
            other != identity ==> #[trigger] record_of(
                with_success(entries, identity, now),
                other,
            ) == record_of(entries, other),
{
    if is_managed(entries, identity) {
        let at = position_of(entries, identity);
        lemma_update_record(entries, at, entries[at].record.after_success(now));
    }
}

/// Recording a failure changes the record of that container and of no
/// other, and keeps the identities distinct.
pub proof fn lemma_with_failure(entries: Seq<ManagedEntry>, identity: Seq<char>, now: nat)
    requires
        distinct_identities(entries),
    ensures
        distinct_identities(with_failure(entries, identity, now)),
        records_well_formed(entries) ==> records_well_formed(with_failure(entries, identity, now)),
        record_of(with_failure(entries, identity, now), identity) == match record_of(
            entries,
            identity,
        ) {
            Some(record) => Some(record.after_failure(now)),
            None => None,
        },
        forall|other: Seq<char>|
            other != identity ==> #[trigger] record_of(
                with_failure(entries, identity, now),
                other,
            ) == record_of(entries, other),
{
    if is_managed(entries, identity) {
        let at = position_of(entries, identity);
        lemma_update_record(entries, at, entries[at].record.after_failure(now));
    }
}

/// A container under supervision: its name and its restart history.
#[derive(Debug, Clone, PartialEq, Eq)]
pub struct ManagedContainer {
    /// The container's name.
    pub name: String,
    /// Its restart history.
    pub state: ContainerState,
}

impl View for ManagedContainer {
    type V = ManagedEntry;

    open spec fn view(&self) -> ManagedEntry {
        ManagedEntry { identity: self.name@, record: self.state@ }
    }
}

/// The managed containers, in the order in which they were first declared,
/// and the names that were running when the runtime was last asked.
pub struct MonitorState {
    managed_containers: Vec<ManagedContainer>,
    running_containers: StringHashSet,
}

impl MonitorState {
    /// No container occurs twice in the managed set, and each record that
    /// has a history has its backoff clock set.
    pub open spec fn well_formed(self) -> bool {
        distinct_identities(self.managed()) && records_well_formed(self.managed())
    }

    /// The managed set: one entry for each container, in declaration order.
    pub closed spec fn managed(self) -> Seq<ManagedEntry> {
        Seq::new(self.managed_containers@.len(), |i: int| self.managed_containers@[i]@)
    }

    /// The observed set: the names that were last seen running.
    pub closed spec fn running(self) -> Set<Seq<char>> {
        self.running_containers@
    }

    /// A state that manages nothing and has seen nothing running.
    pub fn new() -> (state: MonitorState)
        ensures
            state.well_formed(),
            state.managed() == Seq::<ManagedEntry>::empty(),
            state.running() == Set::<Seq<char>>::empty(),
    {
        let state = MonitorState {
            managed_containers: Vec::new(),
            running_containers: StringHashSet::new(),
        };
        assert(state.managed() =~= Seq::<ManagedEntry>::empty());
        state
    }

    /// Replaces the observed set by the names in `running`.
    pub fn update_running(&mut self, running: &Vec<String>)
        ensures
            final(self).running() == text_set(text_views(running@)),
            final(self).managed() == old(self).managed(),
    {
        let mut names = StringHashSet::new();
        let mut i: usize = 0;
        while i < running.len()
            invariant
                i <= running.len(),
                names@ =~= text_set(text_views(running@).take(i as int)),
            decreases running.len() - i,
        {
            names.insert(running[i].clone());
            proof {
                let all = text_views(running@);
                let before = all.take(i as int);
                let after = all.take(i + 1);
                assert(after =~= before.push(running[i as int]@));
                assert forall|name: Seq<char>|
                    text_set(after).contains(name) <==> (text_set(before).contains(name) || name
                        == running[i as int]@) by {
                    if before.contains(name) {
                        let k = choose|k: int| 0 <= k < before.len() && before[k] == name;
                        assert(after[k] == name);
                    }
                    if name == running[i as int]@ {
                        assert(after[i as int] == name);
                    }
                }
            }
            i = i + 1;
        }
        proof {
            assert(text_views(running@).take(running.len() as int) =~= text_views(running@));
        }
        self.running_containers = names;
    }

    /// Whether `name` was running when the runtime was last asked.
    pub fn is_running(&self, name: &str) -> (running: bool)
        ensures
            running == self.running().contains(name@),
    {
        self.running_containers.contains(name)
    }

    /// The place of the container named `name`, if it is managed.
    fn find(&self, name: &String) -> (found: Option<usize>)
        requires
            self.well_formed(),
        ensures
            match found {
                Some(at) => at < self.managed().len() && self.managed()[at as int].identity
                    == name@ && is_managed(self.managed(), name@) && position_of(
                    self.managed(),
                    name@,
                ) == at,
                None => !is_managed(self.managed(), name@),
            },
    {
        let mut i: usize = 0;
        while i < self.managed_containers.len()
            invariant
                i <= self.managed_containers.len(),
                distinct_identities(self.managed()),
                forall|k: int| 0 <= k < i ==> self.managed()[k].identity != name@,
            decreases self.managed_containers.len() - i,
        {
            if self.managed_containers[i].name == *name {
                proof {
                    lemma_position_unique(self.managed(), i as int);
                }
                return Some(i);
            }
            i = i + 1;
        }
        None
    }

    /// The number of managed containers.
    pub fn managed_count(&self) -> (count: usize)
        ensures
            count == self.managed().len(),
    {
        self.managed_containers.len()
    }

    /// Whether no container is managed.
    pub fn is_empty(&self) -> (empty: bool)
        ensures
            empty == (self.managed().len() == 0),
    {
        self.managed_containers.len() == 0
    }

    /// The managed container at place `index` of the declaration order.
    pub fn entry(&self, index: usize) -> (container: &ManagedContainer)
        requires
            index < self.managed().len(),
        ensures
            container@ == self.managed()[index as int],
    {
        &self.managed_containers[index]
    }

    /// The restart history of the container named `name`, if it is managed.
    pub fn container(&self, name: &str) -> (state: Option<&ContainerState>)
        requires
            self.well_formed(),
        ensures
            match state {
                Some(found) => record_of(self.managed(), name@) == Some(found@),
                None => record_of(self.managed(), name@) is None,
            },
    {
        let owned = String::from_str(name);
        match self.find(&owned) {
            Some(at) => Some(&self.managed_containers[at].state),
            None => None,
        }
    }

    /// How many managed containers were running when the runtime was last
    /// asked.
    pub fn running_managed_count(&self) -> (count: usize)
        ensures
            count == running_count(self.managed(), self.running()),
    {
        let mut count: usize = 0;
        let mut i: usize = 0;
        while i < self.managed_containers.len()
            invariant
                i <= self.managed_containers.len(),
                count <= i,
                count == running_count(self.managed().take(i as int), self.running()),
            decreases self.managed_containers.len() - i,
        {
            proof {
                let next = self.managed().take(i + 1);
                assert(next.drop_last() =~= self.managed().take(i as int));
                assert(next.last() == self.managed()[i as int]);
            }
            if self.running_containers.contains(self.managed_containers[i].name.as_str()) {
                count = count + 1;
            }
            i = i + 1;
        }
        proof {
            assert(self.managed().take(self.managed_containers.len() as int) =~= self.managed());
        }
        count
    }

    /// Forgets every managed container and its history.
    pub fn clear_managed(&mut self)
        ensures
            final(self).well_formed(),
            final(self).managed() == Seq::<ManagedEntry>::empty(),
            final(self).running() == old(self).running(),
    {
        self.managed_containers.clear();
        assert(self.managed() =~= Seq::<ManagedEntry>::empty());
    }

    /// Declares the container `name` of the compose file `compose_file`. It
    /// starts with a fresh record, whether or not it was managed before.
    pub fn add_container(&mut self, name: String, compose_file: String)
        requires
            old(self).well_formed(),
        ensures
            final(self).well_formed(),
            final(self).managed() == declare(old(self).managed(), name@, compose_file@),
            final(self).running() == old(self).running(),
    {
        let ghost before = self.managed();
        proof {
            lemma_declare(before, name@, compose_file@);
        }
        let found = self.find(&name);
        let container = ManagedContainer { name, state: ContainerState::new(compose_file) };
        match found {
            Some(at) => {
                self.managed_containers.set(at, container);
                assert(self.managed() =~= before.update(at as int, container@));
            },
            None => {
                self.managed_containers.push(container);
                assert(self.managed() =~= before.push(container@));
            },
        }
    }

    /// Records that the container `name` was seen running after its restart:
    /// see `ContainerState::record_success`. Nothing changes if `name` is not
    /// managed.
    pub fn record_success(&mut self, name: &str, now: u64)
        requires
            old(self).well_formed(),
            record_of(old(self).managed(), name@) matches Some(record) ==> record.restart_count
                < u32::MAX,
        ensures
            final(self).well_formed(),
            final(self).managed() == with_success(old(self).managed(), name@, now as nat),
            final(self).running() == old(self).running(),
    {
        let ghost before = self.managed();
        proof {
            lemma_with_success(before, name@, now as nat);
        }
        let owned = String::from_str(name);
        match self.find(&owned) {
            Some(at) => {
                self.managed_containers[at].state.record_success(now);
                assert(self.managed() =~= with_success(before, name@, now as nat));
            },
            None => {},
        }
    }

    /// Records that the restart of the container `name` failed: see
    /// `ContainerState::record_failure`. Nothing changes if `name` is not
    /// managed.
    pub fn record_failure(&mut self, name: &str, now: u64)
        requires
            old(self).well_formed(),
            record_of(old(self).managed(), name@) matches Some(record)
                ==> record.consecutive_failures < u32::MAX,
        ensures
            final(self).well_formed(),
            final(self).managed() == with_failure(old(self).managed(), name@, now as nat),
            final(self).running() == old(self).running(),
    {
        let ghost before = self.managed();
        proof {
            lemma_with_failure(before, name@, now as nat);
        }
        let owned = String::from_str(name);
        match self.find(&owned) {
            Some(at) => {
                self.managed_containers[at].state.record_failure(now);
                assert(self.managed() =~= with_failure(before, name@, now as nat));
            },
            None => {},
        }
    }
}

} // verus!
