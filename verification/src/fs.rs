//! The file layer's interface and bookkeeping: the `File` trait that
//! concrete file types implement, the `Stat` record with its link-count
//! aggregation, and the directory model of name-to-inode links that the
//! link syscalls manipulate.

use vstd::prelude::*;

verus! {

/// Mode bits: no type at all.
pub const STAT_MODE_NULL: u32 = 0;

/// Mode bits of a directory.
pub const STAT_MODE_DIR: u32 = 0o040000;

/// Mode bits of an ordinary regular file.
pub const STAT_MODE_FILE: u32 = 0o100000;

/// The interface of every file type: stdin, stdout, inode-backed files.
/// Implementors state through the spec functions what the access flags and
/// the inode identity of a value are.
pub trait File: Send + Sync {
    /// Whether reads are permitted.
    spec fn spec_readable(&self) -> bool;

    /// Whether writes are permitted.
    spec fn spec_writable(&self) -> bool;

    /// The backing inode, if the file has one.
    spec fn spec_inode_id(&self) -> Option<u32>;

    /// Whether the file can be read.
    fn readable(&self) -> (r: bool)
        ensures
            r == self.spec_readable(),
    ;

    /// Whether the file can be written.
    fn writable(&self) -> (r: bool)
        ensures
            r == self.spec_writable(),
    ;

    /// Reads into the buffer, returning how many bytes were filled.
    fn read(&self, buf: &mut Vec<u8>) -> (n: usize)
        ensures
            n <= old(buf)@.len(),
            final(buf)@.len() == old(buf)@.len(),
    ;

    /// Writes from the buffer, returning how many bytes were consumed.
    fn write(&self, buf: &Vec<u8>) -> (n: usize)
        ensures
            n <= buf@.len(),
    ;

    /// The backing inode, if the file has one.
    fn inode_id(&self) -> (r: Option<u32>)
        ensures
            r == self.spec_inode_id(),
    ;
}

/// The stat record of an inode.
#[derive(Clone, Copy, Debug)]
pub struct Stat {
    /// ID of the device containing the file.
    pub dev: u64,
    /// Inode number.
    pub ino: u64,
    /// File type and mode.
    pub mode: u32,
    /// Number of hard links.
    pub nlink: u32,
    /// Unused padding.
    pub pad: [u64; 7],
}

/// One directory entry: a name linked to an inode.
pub struct DirEntry {
    /// The link name.
    pub name: String,
    /// The inode the name links to.
    pub ino: u32,
}

/// The directory's link table: the model of the name-to-inode bookkeeping
/// the link syscalls read and mutate. The backing inode contents live
/// outside this core.
pub struct Directory {
    /// The links, in creation order.
    pub entries: Vec<DirEntry>,
}

/// How often inode `ino` is linked in `s`.
pub open spec fn count_ino(s: Seq<DirEntry>, ino: u32) -> nat
    decreases s.len(),
{
    if s.len() == 0 {
        0
    } else {
        count_ino(s.drop_last(), ino) + if s.last().ino == ino {
            1nat
        } else {
            0
        }
    }
}

/// Some entry of `s` links inode `ino`.
pub open spec fn has_ino(s: Seq<DirEntry>, ino: u32) -> bool {
    exists|i: int| 0 <= i < s.len() && (#[trigger] s[i]).ino == ino
}

/// Some entry of `s` carries the name `name`.
pub open spec fn has_name(s: Seq<DirEntry>, name: Seq<char>) -> bool {
    exists|i: int| 0 <= i < s.len() && (#[trigger] s[i]).name@ == name
}

/// `i` is the earliest index of `s` whose entry carries the name `name`.
pub open spec fn is_first_name_match(s: Seq<DirEntry>, name: Seq<char>, i: int) -> bool {
    &&& 0 <= i < s.len()
    &&& s[i].name@ == name
    &&& forall|j: int| 0 <= j < i ==> (#[trigger] s[j]).name@ != name
}

/// An inode is linked exactly when its link count is positive.
pub proof fn lemma_count_zero_iff_absent(s: Seq<DirEntry>, ino: u32)
    ensures
        count_ino(s, ino) == 0 <==> !has_ino(s, ino),
    decreases s.len(),
{
    if s.len() == 0 {
    } else {
        lemma_count_zero_iff_absent(s.drop_last(), ino);
        if s.last().ino == ino {
            assert(s[s.len() - 1].ino == ino);
            assert(has_ino(s, ino));
        } else {
            if has_ino(s, ino) {
                let i = choose|i: int| 0 <= i < s.len() && (#[trigger] s[i]).ino == ino;
                assert(i < s.len() - 1);
                assert(s.drop_last()[i].ino == ino);
                assert(has_ino(s.drop_last(), ino));
            }
            if has_ino(s.drop_last(), ino) {
                let i = choose|i: int|
                    0 <= i < s.drop_last().len() && (#[trigger] s.drop_last()[i]).ino == ino;
                assert(s[i].ino == ino);
            }
        }
    }
}

/// A link count never exceeds the number of entries.
pub proof fn lemma_count_le_len(s: Seq<DirEntry>, ino: u32)
    ensures
        count_ino(s, ino) <= s.len(),
    decreases s.len(),
{
    if s.len() == 0 {
    } else {
        lemma_count_le_len(s.drop_last(), ino);
    }
}

impl Stat {
    /// Aggregates the directory's links into one stat record per linked
    /// inode: device zero, regular-file mode, and the inode's link count.
    /// Every linked inode appears exactly once; every record describes a
    /// linked inode.
    pub fn scan(dir: &Directory) -> (r: Vec<Stat>)
        requires
            dir.entries@.len() <= u32::MAX,
        ensures
            forall|k1: int, k2: int| 0 <= k1 < k2 < r@.len() ==> (#[trigger] r@[k1]).ino != (
            #[trigger] r@[k2]).ino,
            forall|k: int| 0 <= k < r@.len() ==> {
                &&& (#[trigger] r@[k]).dev == 0
                &&& r@[k].mode == STAT_MODE_FILE
                &&& r@[k].ino <= u32::MAX
                &&& has_ino(dir.entries@, r@[k].ino as u32)
                &&& r@[k].nlink == count_ino(dir.entries@, r@[k].ino as u32)
            },
            forall|j: int| 0 <= j < dir.entries@.len() ==> exists|k: int|
                0 <= k < r@.len() && (#[trigger] r@[k]).ino == (
                #[trigger] dir.entries@[j]).ino as u64,
    {
        let ghost all = dir.entries@;
        let mut stats: Vec<Stat> = Vec::new();
        let mut i: usize = 0;
        while i < dir.entries.len()
            invariant
                i <= all.len(),
                all.len() <= u32::MAX,
                all == dir.entries@,
                forall|k1: int, k2: int| 0 <= k1 < k2 < stats@.len() ==> (
                #[trigger] stats@[k1]).ino != (#[trigger] stats@[k2]).ino,
                forall|k: int| 0 <= k < stats@.len() ==> {
                    &&& (#[trigger] stats@[k]).dev == 0
                    &&& stats@[k].mode == STAT_MODE_FILE
                    &&& stats@[k].ino <= u32::MAX
                    &&& has_ino(all.take(i as int), stats@[k].ino as u32)
                    &&& stats@[k].nlink == count_ino(all.take(i as int), stats@[k].ino as u32)
                },
                forall|j: int| 0 <= j < i ==> exists|k: int|
                    0 <= k < stats@.len() && (#[trigger] stats@[k]).ino == (
                    #[trigger] all[j]).ino as u64,
            decreases all.len() - i,
        {
            let ghost prefix = all.take(i as int);
            let ghost pre_stats = stats@;
            let ino = dir.entries[i].ino;
            proof {
                assert(all.take(i as int + 1).drop_last() =~= prefix);
                assert(all.take(i as int + 1).last() == all[i as int]);
                lemma_count_le_len(prefix, ino);
            }
            match find_stat_index(&stats, ino as u64) {
                Some(k) => {
                    let mut st = stats[k];
                    proof {
                        assert forall|x: u32|
                            count_ino(all.take(i as int + 1), x) == count_ino(prefix, x) + if all[
                                i as int
                            ].ino == x {
                                1nat
                            } else {
                                0
                            } by {}
                    }
                    st.nlink = st.nlink + 1;
                    stats[k] = st;
                    proof {
                        assert(stats@[k as int].ino == ino as u64);
                    }
                }
                None => {
                    proof {
                        lemma_count_zero_iff_absent(prefix, ino);
                        if has_ino(prefix, ino) {
                            let j = choose|j: int|
                                0 <= j < prefix.len() && (#[trigger] prefix[j]).ino == ino;
                            assert(exists|k: int|
                                0 <= k < stats@.len() && (#[trigger] stats@[k]).ino == (
                                all[j]).ino as u64);
                        }
                    }
                    stats.push(
                        Stat {
                            dev: 0,
                            ino: ino as u64,
                            mode: STAT_MODE_FILE,
                            nlink: 1,
                            pad: [0; 7],
                        },
                    );
                    proof {
                        assert(stats@[stats@.len() - 1].ino == ino as u64);
                    }
                }
            }
            proof {
                assert forall|j: int| 0 <= j < i as int + 1 implies exists|k: int|
                    0 <= k < stats@.len() && (#[trigger] stats@[k]).ino == (
                    #[trigger] all[j]).ino as u64 by {
                    if j < i as int {
                        let k0 = choose|k0: int|
                            0 <= k0 < pre_stats.len() && (#[trigger] pre_stats[k0]).ino
                                == all[j].ino as u64;
                        assert(stats@[k0].ino == pre_stats[k0].ino);
                    } else {
                        assert(exists|k: int|
                            0 <= k < stats@.len() && (#[trigger] stats@[k]).ino == ino as u64);
                    }
                }
            }
            proof {
                assert(has_ino(all.take(i as int + 1), ino)) by {
                    assert(all.take(i as int + 1)[i as int].ino == ino);
                }
                assert forall|x: u32| has_ino(prefix, x) implies has_ino(
                    all.take(i as int + 1),
                    x,
                ) by {
                    let j = choose|j: int| 0 <= j < prefix.len() && (#[trigger] prefix[j]).ino == x;
                    assert(all.take(i as int + 1)[j].ino == x);
                }
            }
            i += 1;
        }
        proof {
            assert(all.take(all.len() as int) =~= all);
        }
        stats
    }
}

/// Index of the earliest stat record for inode `ino`.
fn find_stat_index(stats: &Vec<Stat>, ino: u64) -> (r: Option<usize>)
    ensures
        match r {
            Some(k) => k < stats@.len() && stats@[k as int].ino == ino,
            None => forall|k: int| 0 <= k < stats@.len() ==> (#[trigger] stats@[k]).ino != ino,
        },
{
    let mut k: usize = 0;
    while k < stats.len()
        invariant
            k <= stats@.len(),
            forall|j: int| 0 <= j < k ==> (#[trigger] stats@[j]).ino != ino,
        decreases stats@.len() - k,
    {
        if stats[k].ino == ino {
            return Some(k);
        }
        k += 1;
    }
    None
}

impl Directory {
    /// An empty directory.
    pub fn new() -> (r: Directory)
        ensures
            r.entries@.len() == 0,
    {
        Directory { entries: Vec::new() }
    }

    /// Index of the earliest entry carrying `name`.
    pub fn find_name_index(&self, name: &String) -> (r: Option<usize>)
        ensures
            match r {
                Some(i) => is_first_name_match(self.entries@, name@, i as int),
                None => !has_name(self.entries@, name@),
            },
    {
        let mut i: usize = 0;
        while i < self.entries.len()
            invariant
                i <= self.entries@.len(),
                forall|j: int| 0 <= j < i ==> (#[trigger] self.entries@[j]).name@ != name@,
            decreases self.entries@.len() - i,
        {
            if self.entries[i].name == *name {
                return Some(i);
            }
            i += 1;
        }
        None
    }

    /// The inode the earliest entry named `name` links to, if any.
    pub fn find(&self, name: &String) -> (r: Option<u32>)
        ensures
            match r {
                Some(ino) => exists|i: int|
                    #[trigger] is_first_name_match(self.entries@, name@, i) && self.entries@[i].ino
                        == ino,
                None => !has_name(self.entries@, name@),
            },
    {
        match self.find_name_index(name) {
            Some(i) => {
                proof {
                    assert(is_first_name_match(self.entries@, name@, i as int));
                }
                Some(self.entries[i].ino)
            }
            None => None,
        }
    }

    /// Whether any entry links inode `ino`.
    pub fn has_ino_entry(&self, ino: u32) -> (r: bool)
        ensures
            r == has_ino(self.entries@, ino),
    {
        let mut i: usize = 0;
        while i < self.entries.len()
            invariant
                i <= self.entries@.len(),
                forall|j: int| 0 <= j < i ==> (#[trigger] self.entries@[j]).ino != ino,
            decreases self.entries@.len() - i,
        {
            if self.entries[i].ino == ino {
                assert(has_ino(self.entries@, ino));
                return true;
            }
            i += 1;
        }
        false
    }

    /// Links `new_name` to the inode that `old_name` links to. Fails,
    /// changing nothing, when `old_name` is absent or `new_name` already
    /// exists; on success the new link joins the end of the table and 0 is
    /// reported.
    pub fn create_link(&mut self, old_name: &String, new_name: &String) -> (r: Option<usize>)
        ensures
            match r {
                Some(v) => {
                    &&& v == 0
                    &&& has_name(old(self).entries@, old_name@)
                    &&& !has_name(old(self).entries@, new_name@)
                    &&& final(self).entries@.len() == old(self).entries@.len() + 1
                    &&& final(self).entries@.drop_last() == old(self).entries@
                    &&& final(self).entries@.last().name@ == new_name@
                    &&& exists|i: int|
                        #[trigger] is_first_name_match(old(self).entries@, old_name@, i)
                            && final(self).entries@.last().ino == old(self).entries@[i].ino
                },
                None => {
                    &&& !has_name(old(self).entries@, old_name@) || has_name(
                        old(self).entries@,
                        new_name@,
                    )
                    &&& final(self).entries@ == old(self).entries@
                },
            },
    {
        let ino = match self.find(old_name) {
            Some(ino) => ino,
            None => {
                return None;
            }
        };
        match self.find_name_index(new_name) {
            Some(_) => None,
            None => {
                let entry = DirEntry { name: clone_string(new_name), ino };
                self.entries.push(entry);
                proof {
                    assert(final(self).entries@.drop_last() =~= old(self).entries@);
                }
                Some(0)
            }
        }
    }

    /// Removes the earliest link named `name`; reports whether one existed.
    pub fn delete_link(&mut self, name: &String) -> (r: bool)
        ensures
            r == has_name(old(self).entries@, name@),
            !r ==> final(self).entries@ == old(self).entries@,
            r ==> exists|i: int|
                #[trigger] is_first_name_match(old(self).entries@, name@, i)
                    && final(self).entries@ == old(self).entries@.remove(i),
    {
        match self.find_name_index(name) {
            Some(i) => {
                self.entries.remove(i);
                true
            }
            None => false,
        }
    }
}

/// A fresh string with the same characters.
fn clone_string(s: &String) -> (r: String)
    ensures
        r@ == s@,
{
    s.clone()
}

} // verus!
