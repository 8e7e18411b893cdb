//! The supervisor's table of managed processes: which names are taken,
//! which process each stands for, and how a shutdown proceeds. Spawning
//! and signalling the processes is the caller's.

use vstd::prelude::*;
use crate::strmap::StrMap;

verus! {

/// Status information for a managed process.
#[derive(Debug)]
pub struct ProcessStatus {
    pub id: String,
    pub pid: Option<u32>,
    pub state: ProcessState,
}

#[derive(Clone, Copy, Debug, PartialEq, Eq, Structural)]
pub enum ProcessState {
    Running,
    Stopped,
    Failed,
}

/// The processes a supervisor manages, by name, with their process ids.
#[derive(Debug)]
pub struct ProcessTable {
    children: StrMap<u32>,
    /// How long a shutdown waits for processes to exit before killing them.
    shutdown_timeout_secs: u64,
}

/// A status reports a managed process as running, with its id.
pub open spec fn reports(table: Map<Seq<char>, u32>, s: ProcessStatus) -> bool {
    &&& table.dom().contains(s.id@)
    &&& s.pid == Some(table[s.id@])
    &&& s.state == ProcessState::Running
}

/// The next step of a shutdown.
#[derive(Debug, Clone, Copy, PartialEq, Eq, Structural)]
pub enum ShutdownStep {
    /// Every process has exited.
    Done,
    /// Reap what has exited and look again.
    Poll,
    /// The grace period is over: kill what remains.
    ForceKill,
}

/// The next step of a shutdown with `remaining` processes left after
/// `elapsed_ms` milliseconds of a grace period of `timeout_secs` seconds.
pub open spec fn shutdown_step_spec(remaining: nat, elapsed_ms: u64, timeout_secs: u64) -> ShutdownStep {
    if remaining == 0 {
        ShutdownStep::Done
    } else if elapsed_ms < timeout_secs * 1000 {
        ShutdownStep::Poll
    } else {
        ShutdownStep::ForceKill
    }
}

impl ProcessTable {
    /// The managed processes: name to process id.
    pub closed spec fn table(&self) -> Map<Seq<char>, u32> {
        self.children.view_map()
    }

    /// Seconds a shutdown waits for processes to exit before killing them.
    pub closed spec fn timeout_secs(&self) -> u64 {
        self.shutdown_timeout_secs
    }

    /// An empty table; shutdowns wait 5 s.
    pub fn new() -> (t: Self)
        ensures
            t.table() == Map::<Seq<char>, u32>::empty(),
            t.timeout_secs() == 5,
    {
        ProcessTable { children: StrMap::new(), shutdown_timeout_secs: 5 }
    }

    /// Number of managed processes.
    pub fn len(&self) -> (n: usize)
        ensures
            n == self.table().dom().len(),
    {
        let n = self.children.len();
        proof {
            crate::strmap::lemma_map_len(self.children.entries());
        }
        n
    }

    /// Whether a name is taken.
    pub fn contains(&self, name: &str) -> (b: bool)
        ensures
            b == self.table().dom().contains(name@),
    {
        self.children.contains_key(name)
    }

    /// Whether a process may start under `name`: not while one runs under it.
    pub fn check_start(&self, name: &str) -> (r: Result<(), String>)
        ensures
            self.table().dom().contains(name@) ==> (r matches Err(m) && m@ == "Process '"@ + name@
                + "' already exists"@),
            !self.table().dom().contains(name@) ==> r is Ok,
    {
        if self.children.contains_key(name) {
            let mut m = String::from_str("Process '");
            m.append(name);
            m.append("' already exists");
            Err(m)
        } else {
            Ok(())
        }
    }

    /// Record a process started under a free name.
    pub fn record_start(&mut self, name: String, pid: u32)
        requires
            !old(self).table().dom().contains(name@),
        ensures
            final(self).table() == old(self).table().insert(name@, pid),
            final(self).timeout_secs() == old(self).timeout_secs(),
    {
        self.children.insert(name, pid);
    }

    /// Take the process to stop under `name` off the table.
    pub fn take_for_stop(&mut self, name: &str) -> (r: Result<u32, String>)
        ensures
            final(self).table() == old(self).table().remove(name@),
            final(self).timeout_secs() == old(self).timeout_secs(),
            old(self).table().dom().contains(name@) ==> r == Ok::<u32, String>(old(self).table()[name@]),
            !old(self).table().dom().contains(name@) ==> (r matches Err(m) && m@ == "Process '"@ + name@
                + "' not found"@),
    {
        match self.children.remove(name) {
            Some(pid) => Ok(pid),
            None => {
                let mut m = String::from_str("Process '");
                m.append(name);
                m.append("' not found");
                Err(m)
            },
        }
    }

    /// Register a process spawned elsewhere; one already under that name is
    /// replaced, and its id given back.
    pub fn register(&mut self, id: String, pid: u32) -> (r: Option<u32>)
        ensures
            final(self).table() == old(self).table().insert(id@, pid),
            final(self).timeout_secs() == old(self).timeout_secs(),
            old(self).table().dom().contains(id@) ==> r == Some(old(self).table()[id@]),
            !old(self).table().dom().contains(id@) ==> r is None,
    {
        let prev = match self.children.get(id.as_str()) {
            Some(p) => Some(*p),
            None => None,
        };
        self.children.insert(id, pid);
        prev
    }

    /// Unregister a process, giving back its id so that it can be killed.
    pub fn unregister(&mut self, id: &str) -> (r: Option<u32>)
        ensures
            final(self).table() == old(self).table().remove(id@),
            final(self).timeout_secs() == old(self).timeout_secs(),
            old(self).table().dom().contains(id@) ==> r == Some(old(self).table()[id@]),
            !old(self).table().dom().contains(id@) ==> r is None,
    {
        self.children.remove(id)
    }

    /// The status of every managed process: running, with its id.
    pub fn status(&self) -> (r: Vec<ProcessStatus>)
        ensures
            r@.len() == self.table().dom().len(),
            forall|i: int| 0 <= i < r@.len() ==> reports(self.table(), #[trigger] r@[i]),
            forall|i: int, j: int| 0 <= i < j < r@.len() ==> #[trigger] r@[i].id@ != #[trigger] r@[j].id@,
    {
        let n = self.children.len();
        proof {
            crate::strmap::lemma_map_len(self.children.entries());
        }
        let mut out: Vec<ProcessStatus> = Vec::new();
        let mut i: usize = 0;
        while i < n
            invariant
                n == self.children.entries().len(),
                crate::strmap::keys_distinct(self.children.entries()),
                i <= n,
                out@.len() == i,
                forall|k: int| 0 <= k < i ==> reports(self.table(), #[trigger] out@[k]),
                forall|k: int| 0 <= k < i ==> #[trigger] out@[k].id@ == self.children.entries()[k].0@,
            decreases n - i,
        {
            let (id, pid) = self.children.entry_at(i);
            proof {
                crate::strmap::lemma_entry_in_map(self.children.entries(), i as int);
            }
            let ghost ov = out@;
            let st = ProcessStatus { id: id.clone(), pid: Some(*pid), state: ProcessState::Running };
            assert(st.id@ == self.children.entries()[i as int].0@);
            assert(self.table().dom().contains(st.id@));
            assert(st.pid == Some(self.table()[st.id@]));
            let ghost sv = st;
            out.push(st);
            assert(out@ == ov.push(sv));
            assert forall|k: int| 0 <= k < i + 1 implies reports(self.table(), #[trigger] out@[k]) by {
                if k < i {
                    assert(out@[k] == ov[k]);
                } else {
                    assert(out@[k] == sv);
                }
            }
            assert forall|k: int| 0 <= k < i + 1 implies #[trigger] out@[k].id@ == self.children.entries()[k].0@ by {
                if k < i {
                    assert(out@[k] == ov[k]);
                } else {
                    assert(out@[k] == sv);
                }
            }
            i += 1;
        }
        assert forall|a: int, b: int| 0 <= a < b < out@.len() implies #[trigger] out@[a].id@ != #[trigger] out@[b].id@ by {
            assert(out@[a].id@ == self.children.entries()[a].0@);
            assert(out@[b].id@ == self.children.entries()[b].0@);
        }
        out
    }

    /// The names of the managed processes, in the order they came.
    pub fn names(&self) -> (r: Vec<String>)
        ensures
            r@.len() == self.table().dom().len(),
            forall|i: int| 0 <= i < r@.len() ==> self.table().dom().contains(#[trigger] r@[i]@),
    {
        let st = self.status();
        let mut out: Vec<String> = Vec::new();
        let mut i: usize = 0;
        while i < st.len()
            invariant
                i <= st@.len(),
                out@.len() == i,
                forall|k: int| 0 <= k < st@.len() ==> reports(self.table(), #[trigger] st@[k]),
                forall|k: int| 0 <= k < i ==> out@[k]@ == #[trigger] st@[k].id@,
            decreases st@.len() - i,
        {
            out.push(st[i].id.clone());
            i += 1;
        }
        proof {
            assert forall|k: int| 0 <= k < out@.len() implies self.table().dom().contains(#[trigger] out@[k]@) by {
                assert(out@[k]@ == st@[k].id@);
                assert(reports(self.table(), st@[k]));
            }
        }
        out
    }

    /// The next step of a shutdown after `elapsed_ms` of its grace period.
    pub fn shutdown_step(&self, elapsed_ms: u64) -> (r: ShutdownStep)
        ensures
            r == shutdown_step_spec(self.table().dom().len(), elapsed_ms, self.timeout_secs()),
    {
        let n = self.len();
        if n == 0 {
            ShutdownStep::Done
        } else if (elapsed_ms as u128) < (self.shutdown_timeout_secs as u128) * 1000 {
            ShutdownStep::Poll
        } else {
            ShutdownStep::ForceKill
        }
    }
}

/// A process registered under a new name and then unregistered is given
/// back, and the table is as before.
pub proof fn lemma_register_unregister(t: Map<Seq<char>, u32>, id: Seq<char>, pid: u32)
    requires
        !t.dom().contains(id),
    ensures
        t.insert(id, pid).dom().contains(id),
        t.insert(id, pid)[id] == pid,
        t.insert(id, pid).remove(id) == t,
{
    assert(t.insert(id, pid).remove(id) =~= t);
}

} // verus!
