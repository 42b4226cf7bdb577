//! File and filesystem-related syscalls: reads and writes through a task's
//! file-descriptor table, descriptor allocation and release, stat lookup,
//! and hard-link creation and removal on the directory model. The
//! translation of raw user pointers into kernel-addressable buffers is an
//! external collaborator; these adapters receive plain buffers and values.

use vstd::prelude::*;

use crate::fs::has_ino;
use crate::fs::has_name;
use crate::fs::is_first_name_match;
use crate::fs::Directory;
use crate::fs::File;
use crate::fs::Stat;

verus! {

/// `i` is the earliest free slot of the descriptor table.
pub open spec fn is_first_free_fd<F>(s: Seq<Option<F>>, i: int) -> bool {
    &&& 0 <= i < s.len()
    &&& s[i] is None
    &&& forall|j: int| 0 <= j < i ==> (#[trigger] s[j]) is Some
}

/// Writes the buffer to the open file `fd`. Returns -1 exactly when the
/// descriptor is out of range, closed, or not writable; otherwise how many
/// bytes the file consumed.
pub fn sys_write<F: File>(fd_table: &Vec<Option<F>>, fd: usize, buf: &Vec<u8>) -> (r: isize)
    requires
        buf@.len() <= isize::MAX,
    ensures
        ({
            let invalid = fd >= fd_table@.len() || fd_table@[fd as int] is None
                || !(match fd_table@[fd as int] {
                Some(f) => f.spec_writable(),
                None => false,
            });
            &&& (r == -1) <==> invalid
            &&& !invalid ==> 0 <= r <= buf@.len()
        }),
{
    if fd >= fd_table.len() {
        return -1;
    }
    match &fd_table[fd] {
        Some(file) => {
            if !file.writable() {
                return -1;
            }
            let n = file.write(buf);
            n as isize
        }
        None => -1,
    }
}

/// Reads from the open file `fd` into the buffer. Returns -1 exactly when
/// the descriptor is out of range, closed, or not readable; otherwise how
/// many bytes were filled. The buffer keeps its length either way.
pub fn sys_read<F: File>(fd_table: &Vec<Option<F>>, fd: usize, buf: &mut Vec<u8>) -> (r: isize)
    requires
        old(buf)@.len() <= isize::MAX,
    ensures
        final(buf)@.len() == old(buf)@.len(),
        ({
            let invalid = fd >= fd_table@.len() || fd_table@[fd as int] is None
                || !(match fd_table@[fd as int] {
                Some(f) => f.spec_readable(),
                None => false,
            });
            &&& (r == -1) <==> invalid
            &&& invalid ==> final(buf)@ == old(buf)@
            &&& !invalid ==> 0 <= r <= old(buf)@.len()
        }),
{
    if fd >= fd_table.len() {
        return -1;
    }
    match &fd_table[fd] {
        Some(file) => {
            if !file.readable() {
                return -1;
            }
            let n = file.read(buf);
            n as isize
        }
        None => -1,
    }
}

/// Installs an opened file into the lowest free slot of the descriptor
/// table, growing the table when every slot is taken, and returns the new
/// descriptor. Returns -1, changing nothing, when no file was opened.
pub fn sys_open<F: File>(fd_table: &mut Vec<Option<F>>, file: Option<F>) -> (r: isize)
    requires
        old(fd_table)@.len() < isize::MAX,
    ensures
        file is None ==> r == -1 && final(fd_table)@ == old(fd_table)@,
        file is Some ==> {
            &&& 0 <= r < final(fd_table)@.len()
            &&& (exists|i: int|
                #[trigger] is_first_free_fd(old(fd_table)@, i) && r == i && final(fd_table)@ == old(
                    fd_table,
                )@.update(i, file))
            || ((forall|j: int| 0 <= j < old(fd_table)@.len() ==> (#[trigger] old(fd_table)@[j])
                is Some) && r == old(fd_table)@.len() && final(fd_table)@ == old(fd_table)@.push(
                file,
            ))
        },
{
    let inner = match file {
        Some(inner) => inner,
        None => {
            return -1;
        }
    };
    match find_free_slot(fd_table) {
        Some(i) => {
            fd_table[i] = Some(inner);
            i as isize
        }
        None => {
            let fd = fd_table.len();
            fd_table.push(Some(inner));
            fd as isize
        }
    }
}

/// Index of the lowest free slot of the descriptor table, if any.
fn find_free_slot<F>(fd_table: &Vec<Option<F>>) -> (r: Option<usize>)
    ensures
        match r {
            Some(i) => is_first_free_fd(fd_table@, i as int),
            None => forall|j: int| 0 <= j < fd_table@.len() ==> (#[trigger] fd_table@[j]) is Some,
        },
{
    let mut i: usize = 0;
    while i < fd_table.len()
        invariant
            i <= fd_table@.len(),
            forall|j: int| 0 <= j < i ==> (#[trigger] fd_table@[j]) is Some,
        decreases fd_table@.len() - i,
    {
        if fd_table[i].is_none() {
            return Some(i);
        }
        i += 1;
    }
    None
}

/// Closes the descriptor `fd`: its slot is freed. Returns -1, changing
/// nothing, when the descriptor is out of range or already closed.
pub fn sys_close<F: File>(fd_table: &mut Vec<Option<F>>, fd: usize) -> (r: isize)
    ensures
        ({
            let invalid = fd >= old(fd_table)@.len() || old(fd_table)@[fd as int] is None;
            &&& (r == -1) <==> invalid
            &&& invalid ==> final(fd_table)@ == old(fd_table)@
            &&& !invalid ==> r == 0 && final(fd_table)@ == old(fd_table)@.update(
                fd as int,
                None::<F>,
            )
        }),
{
    if fd >= fd_table.len() {
        return -1;
    }
    if fd_table[fd].is_none() {
        return -1;
    }
    fd_table[fd] = None;
    0
}

/// Fills `st` with the stat record of the inode behind descriptor `fd`,
/// looked up in the aggregated records `stats`. Returns -1, writing
/// nothing, when the descriptor is out of range, closed, backed by no
/// inode, or absent from the records.
pub fn sys_fstat<F: File>(
    fd_table: &Vec<Option<F>>,
    fd: usize,
    stats: &Vec<Stat>,
    st: &mut Stat,
) -> (r: isize)
    ensures
        r == -1 || r == 0,
        r == -1 ==> *final(st) == *old(st),
        r == 0 ==> match fd_table@[fd as int] {
            Some(f) => match f.spec_inode_id() {
                Some(id) => exists|k: int|
                    {
                        &&& 0 <= k < stats@.len()
                        &&& (#[trigger] stats@[k]).ino == id as u64
                        &&& final(st).ino == stats@[k].ino
                        &&& final(st).mode == stats@[k].mode
                        &&& final(st).nlink == stats@[k].nlink
                        &&& final(st).dev == 0
                    },
                None => false,
            },
            None => false,
        },
        ({
            let invalid = fd >= fd_table@.len() || fd_table@[fd as int] is None
                || (match fd_table@[fd as int] {
                Some(f) => f.spec_inode_id() is None,
                None => true,
            });
            invalid ==> r == -1
        }),
{
    if fd >= fd_table.len() {
        return -1;
    }
    let file = match &fd_table[fd] {
        Some(file) => file,
        None => {
            return -1;
        }
    };
    let inode_id = match file.inode_id() {
        Some(id) => id,
        None => {
            return -1;
        }
    };
    let mut k: usize = 0;
    while k < stats.len()
        invariant
            k <= stats@.len(),
            *st == *old(st),
            fd < fd_table@.len(),
            match fd_table@[fd as int] {
                Some(f) => f.spec_inode_id() == Some(inode_id),
                None => false,
            },
        decreases stats@.len() - k,
    {
        if stats[k].ino == inode_id as u64 {
            let found = stats[k];
            *st = Stat {
                dev: 0,
                ino: found.ino,
                mode: found.mode,
                nlink: found.nlink,
                pad: [0; 7],
            };
            return 0;
        }
        k += 1;
    }
    -1
}

/// Links `new_name` to the inode that `old_name` links to. Returns 0 on
/// success and -1, changing nothing, when `old_name` is absent or
/// `new_name` is already taken.
pub fn sys_linkat(dir: &mut Directory, old_name: &String, new_name: &String) -> (r: isize)
    ensures
        r == 0 <==> has_name(old(dir).entries@, old_name@) && !has_name(
            old(dir).entries@,
            new_name@,
        ),
        r != 0 ==> r == -1 && final(dir).entries@ == old(dir).entries@,
        r == 0 ==> {
            &&& final(dir).entries@.len() == old(dir).entries@.len() + 1
            &&& final(dir).entries@.drop_last() == old(dir).entries@
            &&& final(dir).entries@.last().name@ == new_name@
            &&& exists|i: int|
                #[trigger] is_first_name_match(old(dir).entries@, old_name@, i)
                    && final(dir).entries@.last().ino == old(dir).entries@[i].ino
        },
{
    match dir.create_link(old_name, new_name) {
        Some(res) => res as isize,
        None => -1,
    }
}

/// Removes the earliest link named `name`. Returns 0 when the removed link
/// was the inode's last one, so the inode itself can be reclaimed; -1 when
/// the name was absent (nothing changes) or other links to the inode
/// remain.
pub fn sys_unlinkat(dir: &mut Directory, name: &String) -> (r: isize)
    ensures
        !has_name(old(dir).entries@, name@) ==> r == -1 && final(dir).entries@ == old(
            dir,
        ).entries@,
        has_name(old(dir).entries@, name@) ==> exists|i: int|
            {
                &&& #[trigger] is_first_name_match(old(dir).entries@, name@, i)
                &&& final(dir).entries@ == old(dir).entries@.remove(i)
                &&& (r == 0 <==> !has_ino(old(dir).entries@.remove(i), old(dir).entries@[i].ino))
                &&& r == 0 || r == -1
            },
{
    let ino = match dir.find(name) {
        Some(ino) => ino,
        None => {
            return -1;
        }
    };
    dir.delete_link(name);
    if !dir.has_ino_entry(ino) {
        0
    } else {
        -1
    }
}

} // verus!
