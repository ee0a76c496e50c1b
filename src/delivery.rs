use vstd::prelude::*;

verus! {

/// Every name from `start` up to, not including, `name` is taken.
pub open spec fn skipped_taken(taken: Set<int>, start: int, name: int) -> bool {
    &&& start <= name
    &&& forall|k: int| start <= k < name ==> taken.contains(k)
}

/// `name` is the first name from `start` on that is not taken.
pub open spec fn first_free(taken: Set<int>, start: int, name: int) -> bool {
    skipped_taken(taken, start, name) && !taken.contains(name)
}

/// The result of creating a message file exclusively.
#[derive(Clone, Copy, Debug, PartialEq, Eq)]
pub enum CreateResult {
    /// The file was created.
    Created,
    /// A file of that name exists already.
    Exists,
    /// Creation failed for another reason.
    Failed,
}

/// What to do after trying to create a candidate file.
#[derive(Clone, Copy, Debug, PartialEq, Eq)]
pub enum ProbeStep {
    /// Write the message into the created file.
    Write,
    /// Try the new candidate.
    Retry,
    /// Give up on this recipient.
    Abandon,
}

/// The search for a fresh file name in a recipient's `new` directory.
/// Names are decimal second counts; on a collision the next second is tried.
pub struct Probe {
    start: u64,
    candidate: u64,
    /// The names found taken so far.
    taken: Ghost<Set<int>>,
}

impl Probe {
    pub closed spec fn start(&self) -> int {
        self.start as int
    }

    pub closed spec fn current(&self) -> int {
        self.candidate as int
    }

    pub closed spec fn taken(&self) -> Set<int> {
        self.taken@
    }

    /// Every name before the current candidate was found taken.
    pub closed spec fn wf(&self) -> bool {
        skipped_taken(self.taken@, self.start as int, self.candidate as int)
    }

    /// Starts at the time of delivery, in seconds.
    pub fn new(start: u64) -> (r: Probe)
        ensures
            r.wf(),
            r.start() == start,
            r.current() == start,
            r.taken() == Set::<int>::empty(),
    {
        Probe { start, candidate: start, taken: Ghost(Set::empty()) }
    }

    /// The name to try next.
    pub fn candidate(&self) -> (r: u64)
        ensures
            r == self.current(),
    {
        self.candidate
    }

    /// Takes the result of creating the current candidate and says what to
    /// do next. A name found taken moves the search to the next second;
    /// when no later name is left the delivery fails.
    pub fn observe(&mut self, result: CreateResult) -> (r: ProbeStep)
        requires
            old(self).wf(),
        ensures
            final(self).wf(),
            final(self).start() == old(self).start(),
            match result {
                CreateResult::Created => r == ProbeStep::Write && *final(self) == *old(self),
                CreateResult::Failed => r == ProbeStep::Abandon && *final(self) == *old(self),
                CreateResult::Exists => if old(self).current() < u64::MAX {
                    &&& r == ProbeStep::Retry
                    &&& final(self).current() == old(self).current() + 1
                    &&& final(self).taken() == old(self).taken().insert(old(self).current())
                } else {
                    r == ProbeStep::Abandon && *final(self) == *old(self)
                },
            },
    {
        match result {
            CreateResult::Created => ProbeStep::Write,
            CreateResult::Failed => ProbeStep::Abandon,
            CreateResult::Exists => {
                if self.candidate == u64::MAX {
                    return ProbeStep::Abandon;
                }
                self.taken = Ghost(self.taken@.insert(self.candidate as int));
                self.candidate = self.candidate + 1;
                ProbeStep::Retry
            },
        }
    }

    /// Once the current candidate was created, it is the first name from
    /// the start on that was not found taken.
    pub proof fn lemma_created_first_free(&self)
        requires
            self.wf(),
            !self.taken().contains(self.current()),
        ensures
            first_free(self.taken(), self.start(), self.current()),
    {
    }
}

/// Two deliveries to one recipient that start in the same second get
/// different files, the second one with the greater name: the second search
/// finds the first file taken and moves past it.
pub proof fn lemma_same_second_names_increase(taken: Set<int>, start: int, first: int, second: int)
    requires
        first_free(taken, start, first),
        first_free(taken.insert(first), start, second),
    ensures
        second > first,
{
    if second < first {
        assert(taken.contains(second));
    }
    assert(taken.insert(first).contains(first));
}

} // verus!
