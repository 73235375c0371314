use vstd::prelude::*;

verus! {

/// The size on disk of a storage environment.
pub trait EnvSizer {
    /// The total length of the environment's regular files.
    spec fn file_total(&self) -> nat;

    /// The total length of the regular files, saturated at `u64::MAX`.
    fn size(&self) -> (r: u64)
        ensures
            r as nat == if self.file_total() <= u64::MAX as nat {
                self.file_total()
            } else {
                u64::MAX as nat
            },
    ;
}

/// The entries found under a storage environment's directory: for each,
/// whether it is a regular file, and its length in bytes.
pub struct EnvFiles {
    pub entries: Vec<(bool, u64)>,
}

/// The total length of the regular files among `entries`; directories and
/// other entries count for nothing.
pub open spec fn files_total(entries: Seq<(bool, u64)>) -> nat
    decreases entries.len(),
{
    if entries.len() == 0 {
        0
    } else {
        files_total(entries.drop_last()) + if entries.last().0 {
            entries.last().1 as nat
        } else {
            0
        }
    }
}

impl EnvFiles {
    /// The total length of the regular files, saturated at `u64::MAX`.
    pub fn total_file_size(&self) -> (r: u64)
        ensures
            r as nat == if files_total(self.entries@) <= u64::MAX as nat {
                files_total(self.entries@)
            } else {
                u64::MAX as nat
            },
    {
        let ghost es = self.entries@;
        let mut acc: u64 = 0;
        let mut i: usize = 0;
        while i < self.entries.len()
            invariant
                i <= self.entries.len(),
                es == self.entries@,
                acc as nat == if files_total(es.take(i as int)) <= u64::MAX as nat {
                    files_total(es.take(i as int))
                } else {
                    u64::MAX as nat
                },
            decreases self.entries.len() - i,
        {
            assert(es.take(i as int + 1).drop_last() =~= es.take(i as int));
            let (is_file, len) = self.entries[i];
            if is_file {
                acc = acc.saturating_add(len);
            }
            i = i + 1;
        }
        assert(es.take(es.len() as int) =~= es);
        acc
    }
}

impl EnvSizer for EnvFiles {
    open spec fn file_total(&self) -> nat {
        files_total(self.entries@)
    }

    fn size(&self) -> (r: u64) {
        self.total_file_size()
    }
}

} // verus!
