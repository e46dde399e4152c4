//! Names of opcodes, as a table that the client fills.
use vstd::prelude::*;

verus! {

/// The name that the first `n` entries give `opcode`: that of the latest of
/// them for it, if any.
pub open spec fn spec_name_within(entries: Seq<(u32, Seq<char>)>, opcode: u32, n: nat) -> Option<Seq<char>>
    decreases n,
{
    if n == 0 || n > entries.len() {
        None
    } else if entries[n - 1].0 == opcode {
        Some(entries[n - 1].1)
    } else {
        spec_name_within(entries, opcode, (n - 1) as nat)
    }
}

/// The name that a table gives `opcode`: that of its latest entry for it.
pub open spec fn spec_opcode_name(entries: Seq<(u32, Seq<char>)>, opcode: u32) -> Option<Seq<char>> {
    spec_name_within(entries, opcode, entries.len())
}

/// The name of `opcode`, or the empty name if the table has none.
pub open spec fn spec_opcode_name_or_default(entries: Seq<(u32, Seq<char>)>, opcode: u32) -> Seq<char> {
    match spec_opcode_name(entries, opcode) {
        Some(name) => name,
        None => Seq::empty(),
    }
}

/// A table of opcode names.
pub struct OpcodeNames {
    entries: Vec<(u32, String)>,
}

impl View for OpcodeNames {
    type V = Seq<(u32, Seq<char>)>;

    closed spec fn view(&self) -> Seq<(u32, Seq<char>)> {
        self.entries@.map_values(|e: (u32, String)| (e.0, e.1@))
    }
}

impl OpcodeNames {
    /// The table with no names.
    pub fn new() -> (t: Self)
        ensures
            t@ == Seq::<(u32, Seq<char>)>::empty(),
    {
        let t = OpcodeNames { entries: Vec::new() };
        assert(t@ =~= Seq::<(u32, Seq<char>)>::empty());
        t
    }

    /// Names `opcode` `name`, in place of any name it had.
    pub fn insert(&mut self, opcode: u32, name: String)
        ensures
            final(self)@ == old(self)@.push((opcode, name@)),
    {
        self.entries.push((opcode, name));
        assert(self@ =~= old(self)@.push((opcode, name@)));
    }

    /// The name of `opcode`, if the table has one.
    pub fn get_opcode_name(&self, opcode: u32) -> (name: Option<String>)
        ensures
            match (name, spec_opcode_name(self@, opcode)) {
                (Some(n), Some(sn)) => n@ == sn,
                (None, None) => true,
                _ => false,
            },
    {
        let mut n: usize = self.entries.len();
        while n > 0
            invariant
                n <= self.entries@.len(),
                self@.len() == self.entries@.len(),
                spec_opcode_name(self@, opcode) == spec_name_within(self@, opcode, n as nat),
            decreases n,
        {
            if self.entries[n - 1].0 == opcode {
                return Some(self.entries[n - 1].1.clone());
            }
            n = n - 1;
        }
        None
    }
}

/// A name written into a table is what the table gives back for that opcode,
/// and the names of all other opcodes stay as they were.
pub proof fn law_name_read_after_insert(entries: Seq<(u32, Seq<char>)>, opcode: u32, name: Seq<char>, other: u32)
    ensures
        spec_opcode_name(entries.push((opcode, name)), opcode) == Some(name),
        other != opcode ==> spec_opcode_name(entries.push((opcode, name)), other) == spec_opcode_name(entries, other),
{
    let pushed = entries.push((opcode, name));
    assert(pushed[pushed.len() - 1] == (opcode, name));
    if other != opcode {
        lemma_name_within_prefix(entries, (opcode, name), other, entries.len());
    }
}

proof fn lemma_name_within_prefix(entries: Seq<(u32, Seq<char>)>, e: (u32, Seq<char>), opcode: u32, n: nat)
    requires
        n <= entries.len(),
    ensures
        spec_name_within(entries.push(e), opcode, n) == spec_name_within(entries, opcode, n),
    decreases n,
{
    if n > 0 {
        assert(entries.push(e)[n - 1] == entries[n - 1]);
        lemma_name_within_prefix(entries, e, opcode, (n - 1) as nat);
    }
}

} // verus!
