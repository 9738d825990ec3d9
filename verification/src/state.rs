//! The application state: named categories, accumulated time, and the session
//! that is being tracked.

use crate::format::{render, rendered};
use crate::session::{ActiveSession, Session};
use vstd::prelude::*;
use vstd::std_specs::cmp::PartialEqSpecImpl;
use vstd::std_specs::ops::AddSpecImpl;

verus! {

/// Nanoseconds in one second.
pub const NANOS_PER_SEC: u32 = 1_000_000_000;

/// The name of something that is worked on. Two subjects are the same when
/// their names are.
#[derive(Debug, Eq, Hash)]
pub struct Subject(String);

impl View for Subject {
    type V = Seq<char>;

    closed spec fn view(&self) -> Seq<char> {
        self.0@
    }
}

impl Subject {
    pub fn new(name: String) -> (r: Self)
        ensures
            r@ == name@,
    {
        Subject(name)
    }

    pub fn as_ref(&self) -> (r: &str)
        ensures
            r@ == self@,
    {
        self.0.as_str()
    }
}

impl Clone for Subject {
    fn clone(&self) -> (r: Self)
        ensures
            r@ == self@,
    {
        Subject(self.0.clone())
    }
}

impl PartialEq for Subject {
    fn eq(&self, other: &Self) -> (r: bool) {
        self.0 == other.0
    }
}

impl PartialEqSpecImpl for Subject {
    open spec fn obeys_eq_spec() -> bool {
        true
    }

    open spec fn eq_spec(&self, other: &Self) -> bool {
        self@ == other@
    }
}

/// The name of a kind of work. Two actions are the same when their names are.
#[derive(Debug, Eq, Hash)]
pub struct Action(String);

impl View for Action {
    type V = Seq<char>;

    closed spec fn view(&self) -> Seq<char> {
        self.0@
    }
}

impl Action {
    pub fn new(name: String) -> (r: Self)
        ensures
            r@ == name@,
    {
        Action(name)
    }

    pub fn as_ref(&self) -> (r: &str)
        ensures
            r@ == self@,
    {
        self.0.as_str()
    }
}

impl Clone for Action {
    fn clone(&self) -> (r: Self)
        ensures
            r@ == self@,
    {
        Action(self.0.clone())
    }
}

impl PartialEq for Action {
    fn eq(&self, other: &Self) -> (r: bool) {
        self.0 == other.0
    }
}

impl PartialEqSpecImpl for Action {
    open spec fn obeys_eq_spec() -> bool {
        true
    }

    open spec fn eq_spec(&self, other: &Self) -> bool {
        self@ == other@
    }
}

/// A topic: the pair of an action and a subject under which time is added up.
#[derive(Debug, Eq, Hash)]
pub struct Setup(pub Action, pub Subject);

impl View for Setup {
    type V = (Seq<char>, Seq<char>);

    open spec fn view(&self) -> (Seq<char>, Seq<char>) {
        (self.0@, self.1@)
    }
}

impl Clone for Setup {
    fn clone(&self) -> (r: Self)
        ensures
            r@ == self@,
    {
        Setup(self.0.clone(), self.1.clone())
    }
}

impl PartialEq for Setup {
    fn eq(&self, other: &Self) -> (r: bool) {
        self.0 == other.0 && self.1 == other.1
    }
}

impl PartialEqSpecImpl for Setup {
    open spec fn obeys_eq_spec() -> bool {
        true
    }

    open spec fn eq_spec(&self, other: &Self) -> bool {
        self@ == other@
    }
}

/// An amount of time spent, to the nanosecond.
#[derive(Clone, Copy, Debug)]
pub struct SpentTime {
    secs: u64,
    nanos: u32,
}

impl View for SpentTime {
    type V = nat;

    /// The whole amount in nanoseconds.
    closed spec fn view(&self) -> nat {
        (self.secs as nat) * (NANOS_PER_SEC as nat) + (self.nanos as nat)
    }
}

/// The largest amount, in nanoseconds, that a `SpentTime` holds.
pub open spec fn max_spent() -> nat {
    (u64::MAX as nat) * (NANOS_PER_SEC as nat) + (NANOS_PER_SEC as nat - 1) as nat
}

impl SpentTime {
    /// The fraction stays under one second.
    #[verifier::type_invariant]
    pub closed spec fn well_formed(self) -> bool {
        self.nanos < NANOS_PER_SEC
    }

    /// An amount of whole seconds and a fraction of a second.
    pub fn new(secs: u64, nanos: u32) -> (r: Self)
        requires
            nanos < NANOS_PER_SEC,
        ensures
            r@ == secs as nat * NANOS_PER_SEC as nat + nanos as nat,
    {
        SpentTime { secs, nanos }
    }

    pub fn from_secs(secs: u64) -> (r: Self)
        ensures
            r@ == secs as nat * NANOS_PER_SEC as nat,
    {
        SpentTime { secs, nanos: 0 }
    }

    /// The whole seconds of the amount.
    pub fn as_secs(&self) -> (r: u64)
        ensures
            r as nat == self@ / (NANOS_PER_SEC as nat),
    {
        proof {
            use_type_invariant(self);
        }
        self.secs
    }

    /// What the amount holds beyond its whole seconds, in nanoseconds.
    pub fn subsec_nanos(&self) -> (r: u32)
        ensures
            r as nat == self@ % (NANOS_PER_SEC as nat),
    {
        proof {
            use_type_invariant(self);
        }
        self.nanos
    }

}

impl SpentTime {
    /// The sum of two amounts, where it fits.
    pub fn checked_add(&self, other: &SpentTime) -> (r: Option<SpentTime>)
        ensures
            match r {
                Some(sum) => sum@ == self@ + other@ && self@ + other@ <= max_spent(),
                None => self@ + other@ > max_spent(),
            },
    {
        proof {
            use_type_invariant(self);
            use_type_invariant(other);
        }
        let nanos: u32 = self.nanos + other.nanos;
        let (carry, nanos): (u64, u32) = if nanos >= NANOS_PER_SEC {
            (1, nanos - NANOS_PER_SEC)
        } else {
            (0, nanos)
        };
        match self.secs.checked_add(other.secs) {
            Some(secs) => match secs.checked_add(carry) {
                Some(secs) => Some(SpentTime { secs, nanos }),
                None => None,
            },
            None => None,
        }
    }

    /// Whether two amounts show the same in the user interface: they do when
    /// their whole seconds are the same.
    pub fn same(&self, other: &SpentTime) -> (r: bool)
        ensures
            r == (self@ / (NANOS_PER_SEC as nat) == other@ / (NANOS_PER_SEC as nat)),
    {
        self.as_secs() == other.as_secs()
    }
}

impl SpentTime {
    /// Whether this amount is the greater of the two.
    pub fn longer_than(&self, other: &SpentTime) -> (r: bool)
        ensures
            r == (self@ > other@),
    {
        proof {
            use_type_invariant(self);
            use_type_invariant(other);
        }
        self.secs > other.secs || (self.secs == other.secs && self.nanos > other.nanos)
    }

    /// The amount as hours, minutes and seconds, such as `1h 2m 3s`. What
    /// it holds beyond its whole seconds is left out.
    pub fn to_string(&self) -> (r: String)
        ensures
            r@ == rendered(self@ / (NANOS_PER_SEC as nat)),
    {
        render(self.as_secs())
    }
}

impl Default for SpentTime {
    fn default() -> (r: Self)
        ensures
            r@ == 0,
    {
        SpentTime::from_secs(0)
    }
}

impl core::ops::Add for SpentTime {
    type Output = SpentTime;

    fn add(self, rhs: SpentTime) -> (r: SpentTime)
        ensures
            r@ == self@ + rhs@,
    {
        proof {
            use_type_invariant(&self);
            use_type_invariant(&rhs);
        }
        let nanos: u32 = self.nanos + rhs.nanos;
        if nanos >= NANOS_PER_SEC {
            SpentTime { secs: self.secs + rhs.secs + 1, nanos: nanos - NANOS_PER_SEC }
        } else {
            SpentTime { secs: self.secs + rhs.secs, nanos }
        }
    }
}

impl AddSpecImpl for SpentTime {
    open spec fn obeys_add_spec() -> bool {
        true
    }

    /// The sum has to fit.
    open spec fn add_req(self, rhs: SpentTime) -> bool {
        self@ + rhs@ <= max_spent()
    }

    /// The amount that holds the nanoseconds of both.
    closed spec fn add_spec(self, rhs: SpentTime) -> SpentTime {
        let nanos = self.nanos + rhs.nanos;
        if nanos >= NANOS_PER_SEC {
            SpentTime { secs: (self.secs + rhs.secs + 1) as u64, nanos: (nanos - NANOS_PER_SEC) as u32 }
        } else {
            SpentTime { secs: (self.secs + rhs.secs) as u64, nanos: nanos as u32 }
        }
    }
}

/// The time spent on each topic. A topic that was never touched counts as
/// zero.
#[derive(Debug)]
pub struct TimeTable {
    entries: Vec<(Setup, SpentTime)>,
}

impl View for TimeTable {
    type V = Map<(Seq<char>, Seq<char>), nat>;

    /// The topics that have an entry, each with its amount in nanoseconds.
    closed spec fn view(&self) -> Map<(Seq<char>, Seq<char>), nat> {
        Self::table(self.entries@)
    }
}

impl TimeTable {
    /// Whether the entry at `i` is the first one for the topic `key`.
    pub closed spec fn leads(entries: Seq<(Setup, SpentTime)>, key: (Seq<char>, Seq<char>), i: int) -> bool {
        &&& 0 <= i < entries.len()
        &&& entries[i].0@ == key
        &&& forall|j: int| 0 <= j < i ==> (#[trigger] entries[j]).0@ != key
    }

    /// Where the entry of a topic stands, if it has one.
    pub closed spec fn position(entries: Seq<(Setup, SpentTime)>, key: (Seq<char>, Seq<char>)) -> Option<int> {
        if exists|i: int| Self::leads(entries, key, i) {
            Some(choose|i: int| Self::leads(entries, key, i))
        } else {
            None
        }
    }

    /// The map that a list of entries stands for: each topic with the amount of
    /// its first entry.
    pub closed spec fn table(entries: Seq<(Setup, SpentTime)>) -> Map<(Seq<char>, Seq<char>), nat> {
        Map::new(
            |k: (Seq<char>, Seq<char>)| Self::position(entries, k) is Some,
            |k: (Seq<char>, Seq<char>)| entries[Self::position(entries, k)->0].1@,
        )
    }

    proof fn lemma_absent(entries: Seq<(Setup, SpentTime)>, key: (Seq<char>, Seq<char>))
        requires
            forall|i: int| 0 <= i < entries.len() ==> (#[trigger] entries[i]).0@ != key,
        ensures
            Self::position(entries, key) is None,
    {
        if exists|i: int| Self::leads(entries, key, i) {
            let i = choose|i: int| Self::leads(entries, key, i);
            assert(entries[i].0@ != key);
        }
    }

    /// Writing a new amount into the first entry of a topic writes it into the
    /// map, and nothing else changes.
    proof fn lemma_update(
        before: Seq<(Setup, SpentTime)>,
        after: Seq<(Setup, SpentTime)>,
        key: (Seq<char>, Seq<char>),
        i: int,
    )
        requires
            Self::leads(before, key, i),
            after.len() == before.len(),
            after[i].0@ == key,
            forall|j: int| 0 <= j < before.len() && j != i ==> #[trigger] after[j] == before[j],
        ensures
            Self::table(after) =~= Self::table(before).insert(key, after[i].1@),
    {
        assert forall|k: (Seq<char>, Seq<char>), j: int| Self::leads(before, k, j) <==> Self::leads(
            after,
            k,
            j,
        ) by {
            assert(forall|m: int| 0 <= m < before.len() ==> (#[trigger] after[m]).0@ == before[m].0@);
            if Self::leads(before, k, j) {
                assert forall|m: int| 0 <= m < j implies (#[trigger] after[m]).0@ != k by {
                    assert(before[m].0@ != k);
                }
            }
            if Self::leads(after, k, j) {
                assert forall|m: int| 0 <= m < j implies (#[trigger] before[m]).0@ != k by {
                    assert(after[m].0@ != k);
                }
            }
        }
        Self::lemma_position(before, key, i);
        Self::lemma_position(after, key, i);
        assert forall|k: (Seq<char>, Seq<char>)| Self::position(before, k) == Self::position(after, k) by {
            if exists|j: int| Self::leads(before, k, j) {
                let j = choose|j: int| Self::leads(before, k, j);
                assert(Self::leads(after, k, j));
                Self::lemma_position(before, k, j);
                Self::lemma_position(after, k, j);
            } else if exists|j: int| Self::leads(after, k, j) {
                let j = choose|j: int| Self::leads(after, k, j);
                assert(Self::leads(before, k, j));
            }
        }
        assert forall|k: (Seq<char>, Seq<char>)| k != key && Self::position(before, k) is Some implies after[Self::position(
            after,
            k,
        )->0] == before[Self::position(before, k)->0] by {
            let j = Self::position(before, k)->0;
            assert(Self::leads(before, k, j));
        }
    }

    /// A new entry at the end, for a topic that had none, adds that topic to
    /// the map and becomes its first entry.
    proof fn lemma_push(before: Seq<(Setup, SpentTime)>, entry: (Setup, SpentTime))
        requires
            forall|i: int| 0 <= i < before.len() ==> (#[trigger] before[i]).0@ != entry.0@,
        ensures
            Self::leads(before.push(entry), entry.0@, before.len() as int),
            Self::table(before.push(entry)) =~= Self::table(before).insert(entry.0@, entry.1@),
            !Self::table(before).contains_key(entry.0@),
    {
        let after = before.push(entry);
        let key = entry.0@;
        Self::lemma_absent(before, key);
        assert(Self::leads(after, key, before.len() as int));
        Self::lemma_position(after, key, before.len() as int);
        assert forall|k: (Seq<char>, Seq<char>)| k != key implies Self::position(before, k)
            == Self::position(after, k) by {
            if exists|j: int| Self::leads(before, k, j) {
                let j = choose|j: int| Self::leads(before, k, j);
                assert forall|m: int| 0 <= m < j implies (#[trigger] after[m]).0@ != k by {
                    assert(before[m].0@ != k);
                }
                assert(Self::leads(after, k, j));
                Self::lemma_position(before, k, j);
                Self::lemma_position(after, k, j);
            } else if exists|j: int| Self::leads(after, k, j) {
                let j = choose|j: int| Self::leads(after, k, j);
                assert forall|m: int| 0 <= m < j implies (#[trigger] before[m]).0@ != k by {
                    assert(after[m].0@ != k);
                }
                assert(Self::leads(before, k, j));
            }
        }
        assert forall|k: (Seq<char>, Seq<char>)| k != key && Self::position(before, k) is Some implies after[Self::position(
            after,
            k,
        )->0] == before[Self::position(before, k)->0] by {
            let j = Self::position(before, k)->0;
            assert(Self::leads(before, k, j));
        }
    }

    proof fn lemma_position(entries: Seq<(Setup, SpentTime)>, key: (Seq<char>, Seq<char>), i: int)
        requires
            Self::leads(entries, key, i),
        ensures
            Self::position(entries, key) == Some(i),
    {
        let j = choose|j: int| Self::leads(entries, key, j);
        assert(Self::leads(entries, key, j));
        if j < i {
            assert(entries[j].0@ != key);
        } else if i < j {
            assert(entries[i].0@ != key);
        }
    }

    /// The time spent on a topic: its entry, or zero where it has none.
    pub open spec fn spent(self, action: Seq<char>, subject: Seq<char>) -> nat {
        if self@.contains_key((action, subject)) {
            self@[(action, subject)]
        } else {
            0
        }
    }

    pub fn new() -> (r: Self)
        ensures
            r@ == Map::<(Seq<char>, Seq<char>), nat>::empty(),
    {
        let r = TimeTable { entries: Vec::new() };
        assert(r@ =~= Map::<(Seq<char>, Seq<char>), nat>::empty());
        r
    }

    fn find(&self, action: &Action, subject: &Subject) -> (r: Option<usize>)
        ensures
            match r {
                Some(i) => Self::leads(self.entries@, (action@, subject@), i as int),
                None => forall|i: int|
                    0 <= i < self.entries@.len() ==> (#[trigger] self.entries@[i]).0@ != (action@, subject@),
            },
    {
        let mut i: usize = 0;
        while i < self.entries.len()
            invariant
                i <= self.entries@.len(),
                forall|k: int| 0 <= k < i ==> (#[trigger] self.entries@[k]).0@ != (action@, subject@),
            decreases self.entries@.len() - i,
        {
            if self.entries[i].0.0 == *action && self.entries[i].0.1 == *subject {
                return Some(i);
            }
            i += 1;
        }
        None
    }

    /// The time spent on a topic so far.
    pub fn get(&self, action: &Action, subject: &Subject) -> (r: SpentTime)
        ensures
            r@ == self.spent(action@, subject@),
    {
        match self.find(action, subject) {
            Some(i) => {
                proof {
                    Self::lemma_position(self.entries@, (action@, subject@), i as int);
                }
                self.entries[i].1
            },
            None => SpentTime::from_secs(0),
        }
    }

    /// Two lists with the same topics and amounts, place by place, stand for
    /// the same map.
    proof fn lemma_same_table(before: Seq<(Setup, SpentTime)>, after: Seq<(Setup, SpentTime)>)
        requires
            after.len() == before.len(),
            forall|j: int|
                0 <= j < before.len() ==> (#[trigger] after[j]).0@ == before[j].0@ && after[j].1@
                    == before[j].1@,
        ensures
            Self::table(after) =~= Self::table(before),
    {
        assert forall|k: (Seq<char>, Seq<char>), j: int| Self::leads(before, k, j) <==> Self::leads(
            after,
            k,
            j,
        ) by {
            if Self::leads(before, k, j) {
                assert forall|m: int| 0 <= m < j implies (#[trigger] after[m]).0@ != k by {
                    assert(before[m].0@ != k);
                }
                assert(after[j].0@ == before[j].0@);
            }
            if Self::leads(after, k, j) {
                assert(after[j].0@ == before[j].0@);
                assert forall|m: int| 0 <= m < j implies (#[trigger] before[m]).0@ != k by {
                    assert(after[m].0@ == before[m].0@);
                }
            }
        }
        assert forall|k: (Seq<char>, Seq<char>)| Self::position(before, k) == Self::position(after, k) by {
            if exists|j: int| Self::leads(before, k, j) {
                let j = choose|j: int| Self::leads(before, k, j);
                assert(Self::leads(after, k, j));
                Self::lemma_position(before, k, j);
                Self::lemma_position(after, k, j);
            } else if exists|j: int| Self::leads(after, k, j) {
                let j = choose|j: int| Self::leads(after, k, j);
                assert(Self::leads(before, k, j));
            }
        }
        assert forall|k: (Seq<char>, Seq<char>)| Self::position(before, k) is Some implies after[Self::position(
            after,
            k,
        )->0].1@ == before[Self::position(before, k)->0].1@ by {
            let j = Self::position(before, k)->0;
            assert(Self::leads(before, k, j));
            assert(after[j].1@ == before[j].1@);
        }
    }

    /// The topics that have an entry, each with the time spent on it. The
    /// list stands for the table: each topic with the amount of its first
    /// entry.
    pub fn entries(&self) -> (r: Vec<(Setup, SpentTime)>)
        ensures
            Self::table(r@) == self@,
    {
        let mut r: Vec<(Setup, SpentTime)> = Vec::new();
        let mut i: usize = 0;
        while i < self.entries.len()
            invariant
                i <= self.entries@.len(),
                r@.len() == i,
                forall|j: int|
                    0 <= j < i ==> (#[trigger] r@[j]).0@ == self.entries@[j].0@ && r@[j].1@
                        == self.entries@[j].1@,
            decreases self.entries@.len() - i,
        {
            r.push((self.entries[i].0.clone(), self.entries[i].1));
            i += 1;
        }
        proof {
            Self::lemma_same_table(self.entries@, r@);
        }
        r
    }

    /// The entry of a topic, for reading and writing. A topic without an entry
    /// gets one that holds zero.
    pub fn get_mut(&mut self, action: &Action, subject: &Subject) -> (r: &mut SpentTime)
        ensures
            (*r)@ == old(self).spent(action@, subject@),
            final(self)@ == old(self)@.insert((action@, subject@), (*final(r))@),
    {
        let found = self.find(action, subject);
        let i: usize = match found {
            Some(i) => {
                proof {
                    Self::lemma_position(self.entries@, (action@, subject@), i as int);
                }
                i
            },
            None => {
                let entry = (Setup(action.clone(), subject.clone()), SpentTime::from_secs(0));
                proof {
                    Self::lemma_push(self.entries@, entry);
                }
                self.entries.push(entry);
                self.entries.len() - 1
            },
        };
        let ghost mid = self.entries@;
        assert(Self::leads(mid, (action@, subject@), i as int));
        assert(Self::table(mid) =~= old(self)@.insert((action@, subject@), old(self).spent(action@, subject@)));
        assert forall|after: Seq<(Setup, SpentTime)>|
            after.len() == mid.len() && after[i as int].0 == mid[i as int].0 && (forall|j: int|
                0 <= j < mid.len() && j != i ==> #[trigger] after[j] == mid[j]) implies #[trigger] Self::table(after)
            == Self::table(mid).insert((action@, subject@), after[i as int].1@) by {
            Self::lemma_update(mid, after, (action@, subject@), i as int);
        }
        &mut self.entries[i].1
    }
}

/// Which kind of category the user is entering a name for, if any.
#[derive(Clone, Copy, Debug, PartialEq, Eq, Structural)]
pub enum Creating {
    Nothing,
    Action,
    Subject,
}

impl Default for Creating {
    fn default() -> (r: Self)
        ensures
            r == Creating::Nothing,
    {
        Creating::Nothing
    }
}

/// Everything the user interface shows and edits.
#[derive(Debug)]
pub struct AppState {
    pub new_name: String,
    pub actions: Vec<Action>,
    pub selected_action: Option<Action>,
    pub subjects: Vec<Subject>,
    pub selected_subject: Option<Subject>,
    pub time_table: TimeTable,
    pub creating: Creating,
    pub creating_name: String,
    /// The session that is being tracked, if one is.
    pub active: Option<ActiveSession>,
    /// The sessions that were closed, oldest first.
    pub history: Vec<Session>,
    /// The last error that the worker reported, if any.
    pub error: Option<String>,
}

impl AppState {
    /// The state before anything was entered.
    pub open spec fn is_initial(self) -> bool {
        &&& self.new_name@.len() == 0
        &&& self.actions@.len() == 0
        &&& self.selected_action is None
        &&& self.subjects@.len() == 0
        &&& self.selected_subject is None
        &&& self.time_table@ == Map::<(Seq<char>, Seq<char>), nat>::empty()
        &&& self.creating == Creating::Nothing
        &&& self.creating_name@.len() == 0
        &&& self.active is None
        &&& self.history@.len() == 0
        &&& self.error is None
    }

    /// The time spent on the selected topic: zero unless both an action and a
    /// subject are selected.
    pub open spec fn spent_time(self) -> nat {
        match (self.selected_action, self.selected_subject) {
            (Some(action), Some(subject)) => self.time_table.spent(action@, subject@),
            _ => 0,
        }
    }
}

impl Default for AppState {
    fn default() -> (r: Self)
        ensures
            r.is_initial(),
    {
        AppState {
            new_name: String::new(),
            actions: Vec::new(),
            selected_action: None,
            subjects: Vec::new(),
            selected_subject: None,
            time_table: TimeTable::new(),
            creating: Creating::Nothing,
            creating_name: String::new(),
            active: None,
            history: Vec::new(),
            error: None,
        }
    }
}

/// The view from the whole state to the time spent on the selected topic.
#[derive(Clone, Copy, Debug)]
pub struct SpendTimeLens;

impl SpendTimeLens {
    /// The time spent on the selected topic, for reading: zero unless both an
    /// action and a subject are selected.
    pub fn get(&self, data: &AppState) -> (r: SpentTime)
        ensures
            r@ == data.spent_time(),
    {
        match (&data.selected_action, &data.selected_subject) {
            (Some(action), Some(subject)) => data.time_table.get(action, subject),
            _ => SpentTime::from_secs(0),
        }
    }

    /// Hands the time spent on the selected topic to `f`.
    pub fn with<V, F: FnOnce(&SpentTime) -> V>(&self, data: &AppState, f: F) -> (r: V)
        requires
            forall|t: SpentTime| t@ == data.spent_time() ==> call_requires(f, (&t,)),
        ensures
            exists|t: SpentTime| t@ == data.spent_time() && call_ensures(f, (&t,), r),
    {
        let t = self.get(data);
        f(&t)
    }

    /// Hands the time spent on the selected topic to `f` for writing. Without
    /// a selected topic `f` gets an amount of zero, and what it writes is
    /// dropped.
    pub fn with_mut<V, F: FnOnce(&mut SpentTime) -> V>(&self, data: &mut AppState, f: F) -> (r: V)
        requires
            forall|t: &mut SpentTime| (*t)@ == old(data).spent_time() ==> call_requires(f, (t,)),
        ensures
            exists|t: &mut SpentTime|
                {
                    &&& (*t)@ == old(data).spent_time()
                    &&& #[trigger] call_ensures(f, (t,), r)
                    &&& final(data).time_table@ == match (
                        old(data).selected_action,
                        old(data).selected_subject,
                    ) {
                        (Some(action), Some(subject)) => old(data).time_table@.insert(
                            (action@, subject@),
                            (*final(t))@,
                        ),
                        _ => old(data).time_table@,
                    }
                },
            final(data).selected_action == old(data).selected_action,
            final(data).selected_subject == old(data).selected_subject,
            final(data).actions == old(data).actions,
            final(data).subjects == old(data).subjects,
            final(data).active == old(data).active,
            final(data).history == old(data).history,
            final(data).creating == old(data).creating,
            final(data).new_name == old(data).new_name,
            final(data).creating_name == old(data).creating_name,
            final(data).error == old(data).error,
    {
        match (&data.selected_action, &data.selected_subject) {
            (Some(action), Some(subject)) => {
                let entry = data.time_table.get_mut(action, subject);
                f(entry)
            },
            _ => {
                let mut zero = SpentTime::from_secs(0);
                f(&mut zero)
            },
        }
    }
}

} // verus!
