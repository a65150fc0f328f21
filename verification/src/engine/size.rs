//! Adding up what a walk of a location finds: the size of its files and how
//! many files and directories it holds.
use vstd::prelude::*;

verus! {

/// The running totals of a walk.
#[derive(Debug, Clone, Copy)]
pub struct SizeTally {
    pub size_bytes: u64,
    pub file_count: usize,
    pub dir_count: usize,
}

impl SizeTally {
    /// Nothing found yet.
    pub fn new() -> (r: SizeTally)
        ensures
            r.size_bytes == 0 && r.file_count == 0 && r.dir_count == 0,
    {
        SizeTally { size_bytes: 0, file_count: 0, dir_count: 0 }
    }

    /// A file was found, of length `len` when its metadata could be read:
    /// it is counted and its length added. `false`, with the totals
    /// unchanged, when a total would overflow.
    pub fn add_file(&mut self, len: Option<u64>) -> (ok: bool)
        ensures
            ok == (old(self).file_count + 1 <= usize::MAX && old(self).size_bytes + (match len {
                Some(l) => l as int,
                None => 0,
            }) <= u64::MAX),
            ok ==> final(self).file_count == old(self).file_count + 1 && final(self).size_bytes
                == old(self).size_bytes + (match len {
                Some(l) => l as int,
                None => 0,
            }) && final(self).dir_count == old(self).dir_count,
            !ok ==> *final(self) == *old(self),
    {
        let add = match len {
            Some(l) => l,
            None => 0,
        };
        match (self.file_count.checked_add(1), self.size_bytes.checked_add(add)) {
            (Some(f), Some(s)) => {
                self.file_count = f;
                self.size_bytes = s;
                true
            },
            _ => false,
        }
    }

    /// A directory was found: it is counted. `false`, with the totals
    /// unchanged, when the count would overflow.
    pub fn add_dir(&mut self) -> (ok: bool)
        ensures
            ok == (old(self).dir_count + 1 <= usize::MAX),
            ok ==> final(self).dir_count == old(self).dir_count + 1 && final(self).size_bytes
                == old(self).size_bytes && final(self).file_count == old(self).file_count,
            !ok ==> *final(self) == *old(self),
    {
        match self.dir_count.checked_add(1) {
            Some(d) => {
                self.dir_count = d;
                true
            },
            None => false,
        }
    }
}

} // verus!
