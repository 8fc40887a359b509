//! Scheduled restrictions: a durable list of members to restrict from a
//! given time until a given time, enacted exactly once.
use vstd::prelude::*;

verus! {

/// A member restriction waiting to be enacted.
#[derive(PartialEq, Eq, Structural, Clone, Copy, Debug)]
pub struct ScheduleEntry {
    /// Identifies the entry in its store.
    pub id: u64,
    /// The guild the restriction applies in.
    pub guild_id: u64,
    /// The member to restrict.
    pub victim_id: u64,
    /// When the restriction begins, in seconds since the Unix epoch.
    pub start_at: i64,
    /// When the restriction ends, in seconds since the Unix epoch.
    pub ends_at: i64,
}

/// Why a schedule was refused.
#[derive(PartialEq, Eq, Structural, Clone, Copy, Debug)]
pub enum ScheduleError {
    /// The start offset is empty.
    EmptyOffset,
    /// The start offset's number is not a decimal `i64`.
    InvalidNumber,
    /// The start offset's unit is none of `s`, `m`, `h`, `d`.
    InvalidUnit,
    /// A time falls outside what the store can hold.
    OutOfRange,
    /// A member tried to restrict themselves.
    SelfTarget,
    /// A member tried to restrict the bot.
    SystemTarget,
    /// The restriction would end before it begins.
    InvalidWindow,
    /// The store has handed out every identifier.
    IdsExhausted,
}

/// Whether `e` is due in guild `guild_id` at time `now`.
pub open spec fn is_due(e: ScheduleEntry, guild_id: u64, now: i64) -> bool {
    e.guild_id == guild_id && e.start_at <= now
}

/// The entries of `s` that are due in `guild_id` at `now`, in order.
pub open spec fn due_in(s: Seq<ScheduleEntry>, guild_id: u64, now: i64) -> Seq<ScheduleEntry> {
    s.filter(|e: ScheduleEntry| is_due(e, guild_id, now))
}

/// `s` without the entries whose identifier is `id`.
pub open spec fn without_id(s: Seq<ScheduleEntry>, id: u64) -> Seq<ScheduleEntry> {
    s.filter(|e: ScheduleEntry| e.id != id)
}

pub proof fn lemma_due_push(s: Seq<ScheduleEntry>, e: ScheduleEntry, guild_id: u64, now: i64)
    ensures
        due_in(s.push(e), guild_id, now) == if is_due(e, guild_id, now) {
            due_in(s, guild_id, now).push(e)
        } else {
            due_in(s, guild_id, now)
        },
{
    s.lemma_filter_push(e, |x: ScheduleEntry| is_due(x, guild_id, now));
}

pub proof fn lemma_without_push(s: Seq<ScheduleEntry>, e: ScheduleEntry, id: u64)
    ensures
        without_id(s.push(e), id) == if e.id != id {
            without_id(s, id).push(e)
        } else {
            without_id(s, id)
        },
{
    s.lemma_filter_push(e, |x: ScheduleEntry| x.id != id);
}

/// A store of pending restrictions.
pub struct ScheduleStore {
    entries: Vec<ScheduleEntry>,
    next_id: u64,
}

impl View for ScheduleStore {
    type V = Seq<ScheduleEntry>;

    closed spec fn view(&self) -> Seq<ScheduleEntry> {
        self.entries@
    }
}

impl ScheduleStore {
    /// Every entry begins no later than it ends and has an identifier below
    /// the next one to hand out.
    pub closed spec fn wf(&self) -> bool {
        forall|i: int|
            0 <= i < self.entries@.len() ==> (#[trigger] self.entries@[i]).start_at
                <= self.entries@[i].ends_at && self.entries@[i].id < self.next_id
    }

    /// The identifier the next created entry gets.
    pub closed spec fn next_id(&self) -> u64 {
        self.next_id
    }

    /// An empty store.
    pub fn new() -> (r: ScheduleStore)
        ensures
            r.wf(),
            r@ == Seq::<ScheduleEntry>::empty(),
            r.next_id() == 1,
    {
        ScheduleStore { entries: Vec::new(), next_id: 1 }
    }

    /// Schedules a restriction of `victim_id` in `guild_id` from `start_at`
    /// until `ends_at`, and returns the new entry's identifier. A window
    /// that ends before it begins is refused, as is any entry once the last
    /// identifier is reached; the store is then left as it was.
    pub fn create(&mut self, guild_id: u64, victim_id: u64, start_at: i64, ends_at: i64) -> (r:
        Result<u64, ScheduleError>)
        requires
            old(self).wf(),
        ensures
            final(self).wf(),
            start_at > ends_at ==> r == Err::<u64, ScheduleError>(ScheduleError::InvalidWindow)
                && final(self)@ == old(self)@ && final(self).next_id() == old(self).next_id(),
            start_at <= ends_at && old(self).next_id() == u64::MAX ==> r == Err::<
                u64,
                ScheduleError,
            >(ScheduleError::IdsExhausted) && final(self)@ == old(self)@ && final(self).next_id()
                == old(self).next_id(),
            start_at <= ends_at && old(self).next_id() < u64::MAX ==> {
                let id = old(self).next_id();
                &&& r == Ok::<u64, ScheduleError>(id)
                &&& final(self)@ == old(self)@.push(
                    ScheduleEntry { id, guild_id, victim_id, start_at, ends_at },
                )
                &&& final(self).next_id() == id + 1
                &&& forall|i: int| 0 <= i < old(self)@.len() ==> old(self)@[i].id != id
            },
    {
        if start_at > ends_at {
            return Err(ScheduleError::InvalidWindow);
        }
        if self.next_id == u64::MAX {
            return Err(ScheduleError::IdsExhausted);
        }
        let id = self.next_id;
        self.entries.push(ScheduleEntry { id, guild_id, victim_id, start_at, ends_at });
        self.next_id = id + 1;
        Ok(id)
    }

    /// Takes back an entry that was saved earlier, under its own
    /// identifier. An entry that ends before it begins is refused, as is
    /// one whose identifier leaves none to hand out after it; the store is
    /// then left as it was.
    pub fn restore(&mut self, entry: ScheduleEntry) -> (r: Result<(), ScheduleError>)
        requires
            old(self).wf(),
        ensures
            final(self).wf(),
            entry.start_at > entry.ends_at ==> r == Err::<(), ScheduleError>(
                ScheduleError::InvalidWindow,
            ) && final(self)@ == old(self)@,
            entry.start_at <= entry.ends_at && entry.id == u64::MAX ==> r == Err::<
                (),
                ScheduleError,
            >(ScheduleError::IdsExhausted) && final(self)@ == old(self)@,
            entry.start_at <= entry.ends_at && entry.id < u64::MAX ==> r == Ok::<(), ScheduleError>(
                (),
            ) && final(self)@ == old(self)@.push(entry) && final(self).next_id() == if entry.id
                >= old(self).next_id() {
                (entry.id + 1) as u64
            } else {
                old(self).next_id()
            },
            r.is_err() ==> final(self).next_id() == old(self).next_id(),
    {
        if entry.start_at > entry.ends_at {
            return Err(ScheduleError::InvalidWindow);
        }
        if entry.id == u64::MAX {
            return Err(ScheduleError::IdsExhausted);
        }
        self.entries.push(entry);
        if entry.id >= self.next_id {
            self.next_id = entry.id + 1;
        }
        Ok(())
    }

    /// The entries due in `guild_id` at `now`, in the order they were made.
    pub fn due_entries(&self, guild_id: u64, now: i64) -> (r: Vec<ScheduleEntry>)
        ensures
            r@ == due_in(self@, guild_id, now),
    {
        let mut out: Vec<ScheduleEntry> = Vec::new();
        let mut i: usize = 0;
        proof {
            assert(self.entries@.take(0) =~= Seq::<ScheduleEntry>::empty());
            reveal(Seq::filter);
        }
        while i < self.entries.len()
            invariant
                i <= self.entries@.len(),
                out@ == due_in(self.entries@.take(i as int), guild_id, now),
            decreases self.entries@.len() - i,
        {
            let e = self.entries[i];
            proof {
                assert(self.entries@.take(i + 1) =~= self.entries@.take(i as int).push(e));
                lemma_due_push(self.entries@.take(i as int), e, guild_id, now);
            }
            if e.guild_id == guild_id && e.start_at <= now {
                out.push(e);
            }
            i = i + 1;
        }
        proof {
            assert(self.entries@.take(i as int) =~= self.entries@);
        }
        out
    }

    /// Drops the entry whose identifier is `id`, if there is one.
    pub fn remove(&mut self, id: u64)
        requires
            old(self).wf(),
        ensures
            final(self).wf(),
            final(self)@ == without_id(old(self)@, id),
            final(self).next_id() == old(self).next_id(),
    {
        let mut kept: Vec<ScheduleEntry> = Vec::new();
        let mut i: usize = 0;
        let ghost old_entries = self.entries@;
        proof {
            assert(self.entries@.take(0) =~= Seq::<ScheduleEntry>::empty());
            reveal(Seq::filter);
        }
        while i < self.entries.len()
            invariant
                self.wf(),
                self.entries@ == old_entries,
                i <= self.entries@.len(),
                kept@ == without_id(self.entries@.take(i as int), id),
                forall|j: int|
                    0 <= j < kept@.len() ==> (#[trigger] kept@[j]).start_at <= kept@[j].ends_at
                        && kept@[j].id < self.next_id,
            decreases self.entries@.len() - i,
        {
            let e = self.entries[i];
            proof {
                assert(self.entries@.take(i + 1) =~= self.entries@.take(i as int).push(e));
                lemma_without_push(self.entries@.take(i as int), e, id);
                assert(self.entries@[i as int].start_at <= self.entries@[i as int].ends_at);
            }
            if e.id != id {
                kept.push(e);
            }
            i = i + 1;
        }
        proof {
            assert(self.entries@.take(i as int) =~= self.entries@);
        }
        self.entries = kept;
    }
}

} // verus!
