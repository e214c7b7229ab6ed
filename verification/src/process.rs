//! The processes of a session, as far as a mode line shows them.
use vstd::prelude::*;

verus! {

/// What a process is: its name, its buffer and the name of its status.
pub struct ProcessState {
    pub name: Seq<char>,
    pub buffer: Option<u64>,
    pub status: Seq<char>,
}

/// A process.
#[derive(Debug, PartialEq, Eq)]
pub struct Process {
    pub name: String,
    pub buffer: Option<u64>,
    pub status: String,
}

impl View for Process {
    type V = ProcessState;

    open spec fn view(&self) -> ProcessState {
        ProcessState { name: self.name@, buffer: self.buffer, status: self.status@ }
    }
}

/// The processes of a session, in the order in which they were made.
#[derive(Debug, PartialEq, Eq)]
pub struct ProcessManager {
    pub list: Vec<Process>,
}

impl View for ProcessManager {
    type V = Seq<ProcessState>;

    open spec fn view(&self) -> Seq<ProcessState> {
        Seq::new(self.list@.len(), |i: int| self.list@[i]@)
    }
}

/// The first process of a buffer.
pub open spec fn process_of(list: Seq<ProcessState>, buffer: u64) -> Option<ProcessState>
    decreases list.len(),
{
    if list.len() == 0 {
        None
    } else if list[0].buffer == Some(buffer) {
        Some(list[0])
    } else {
        process_of(list.drop_first(), buffer)
    }
}

impl ProcessManager {
    /// No processes.
    pub fn new() -> (r: Self)
        ensures
            r@ == Seq::<ProcessState>::empty(),
    {
        let r = ProcessManager { list: Vec::new() };
        proof {
            assert(r@ =~= Seq::<ProcessState>::empty());
        }
        r
    }

    /// Makes a process that runs.
    pub fn create_process(&mut self, name: &str, buffer: Option<u64>)
        ensures
            final(self)@ == old(self)@.push(
                (ProcessState { name: name@, buffer, status: "run"@ }),
            ),
    {
        let ghost before = self@;
        self.list.push(Process { name: name.to_owned(), buffer, status: "run".to_owned() });
        proof {
            assert(self@ =~= before.push(ProcessState { name: name@, buffer, status: "run"@ }));
        }
    }

    /// The first process of a buffer.
    pub fn find_by_buffer_id(&self, buffer: u64) -> (r: Option<&Process>)
        ensures
            match r {
                Some(p) => process_of(self@, buffer) == Some(p@),
                None => process_of(self@, buffer) is None,
            },
    {
        let mut i: usize = 0;
        proof {
            assert(self@.skip(0) =~= self@);
        }
        while i < self.list.len()
            invariant
                i <= self.list.len(),
                process_of(self@.skip(i as int), buffer) == process_of(self@, buffer),
            decreases self.list.len() - i,
        {
            proof {
                assert(self@.skip(i as int)[0] == self.list@[i as int]@);
                assert(self@.skip(i as int).drop_first() =~= self@.skip(i + 1));
            }
            match self.list[i].buffer {
                Some(b) => if b == buffer {
                    return Some(&self.list[i]);
                },
                None => {},
            }
            i = i + 1;
        }
        None
    }
}

} // verus!
