//! The files of a compilation.

use vstd::prelude::*;

verus! {

/// The names of the files that were read, by file id.
#[derive(Debug)]
pub struct SourceMap {
    files: Vec<String>,
}

impl View for SourceMap {
    type V = Seq<Seq<char>>;

    closed spec fn view(&self) -> Seq<Seq<char>> {
        Seq::new(self.files@.len(), |i: int| self.files@[i]@)
    }
}

impl SourceMap {
    /// A map without files.
    pub fn new() -> (r: SourceMap)
        ensures
            r@ == Seq::<Seq<char>>::empty(),
    {
        let r = SourceMap { files: Vec::new() };
        assert(r@ =~= Seq::<Seq<char>>::empty());
        r
    }

    /// How many files there are.
    pub fn len(&self) -> (r: usize)
        ensures
            r == self@.len(),
    {
        self.files.len()
    }

    /// Adds a file; its id is the number of files before it.
    pub fn add_file(&mut self, name: String)
        ensures
            final(self)@ == old(self)@.push(name@),
    {
        self.files.push(name);
        assert(self@ =~= old(self)@.push(name@));
    }

    /// The name of a file, if there is one with that id.
    pub fn get_filename(&self, id: u32) -> (r: Option<&str>)
        ensures
            match r {
                Some(name) => id < self@.len() && name@ == self@[id as int],
                None => id >= self@.len(),
            },
    {
        if (id as usize) < self.files.len() {
            Some(self.files[id as usize].as_str())
        } else {
            None
        }
    }
}

} // verus!
