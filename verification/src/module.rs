use vstd::prelude::*;
use crate::value::{Value, ValueV, copy_value};

verus! {

/// The code of one function: its name and its bytes.
pub struct Chunk {
    pub name: String,
    pub code: Vec<u8>,
}

/// A compiled program: the chunks of its functions and its constant pool.
pub struct CompiledModule {
    pub chunks: Vec<Chunk>,
    pub constants: Vec<Value>,
}

/// The model of a compiled program.
pub struct ModuleV {
    pub chunks: Seq<(Seq<char>, Seq<u8>)>,
    pub constants: Seq<ValueV>,
}

impl View for Chunk {
    type V = (Seq<char>, Seq<u8>);

    open spec fn view(&self) -> (Seq<char>, Seq<u8>) {
        (self.name@, self.code@)
    }
}

impl View for CompiledModule {
    type V = ModuleV;

    open spec fn view(&self) -> ModuleV {
        ModuleV {
            chunks: self.chunks@.map_values(|c: Chunk| c@),
            constants: self.constants@.map_values(|v: Value| v@),
        }
    }
}

/// The code of the first chunk with the given name, if there is one.
pub open spec fn find_code(chunks: Seq<(Seq<char>, Seq<u8>)>, name: Seq<char>) -> Option<Seq<u8>>
    decreases chunks.len(),
{
    if chunks.len() == 0 {
        None
    } else if chunks[0].0 == name {
        Some(chunks[0].1)
    } else {
        find_code(chunks.subrange(1, chunks.len() as int), name)
    }
}

/// The name of the chunk that a program starts in.
pub open spec fn main_name() -> Seq<char> {
    seq!['m', 'a', 'i', 'n']
}

/// The name of the chunk that a program starts in.
pub fn main_chunk_name() -> (s: String)
    ensures
        s@ == main_name(),
{
    let mut s = String::new();
    crate::text::push_char(&mut s, 'm');
    crate::text::push_char(&mut s, 'a');
    crate::text::push_char(&mut s, 'i');
    crate::text::push_char(&mut s, 'n');
    assert(s@ =~= main_name());
    s
}

impl CompiledModule {
    /// The position of the first chunk with the given name.
    pub fn chunk_index(&self, name: &String) -> (r: Option<usize>)
        ensures
            r is None <==> find_code(self@.chunks, name@) is None,
            r matches Some(i) ==> i < self.chunks@.len() && find_code(self@.chunks, name@) == Some(
                self.chunks@[i as int].code@,
            ),
    {
        let n = self.chunks.len();
        let mut i: usize = 0;
        let ghost cs = self@.chunks;
        assert(cs.subrange(0, n as int) =~= cs);
        while i < n
            invariant
                n == self.chunks@.len(),
                cs == self@.chunks,
                cs.len() == n,
                i <= n,
                find_code(cs, name@) == find_code(cs.subrange(i as int, n as int), name@),
            decreases n - i,
        {
            let ghost rest = cs.subrange(i as int, n as int);
            assert(rest[0] == self.chunks@[i as int]@);
            if self.chunks[i].name == *name {
                return Some(i);
            }
            assert(rest.subrange(1, rest.len() as int) =~= cs.subrange(i + 1, n as int));
            i = i + 1;
        }
        None
    }

    /// The constant at the given position of the pool, copied, if there is one.
    pub fn constant(&self, idx: usize) -> (r: Option<Value>)
        ensures
            r is None <==> idx >= self@.constants.len(),
            r matches Some(v) ==> v@ == self@.constants[idx as int],
    {
        if idx < self.constants.len() {
            Some(copy_value(&self.constants[idx]))
        } else {
            None
        }
    }
}

} // verus!
