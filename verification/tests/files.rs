//! Tests of the file syscall layer: descriptor-table validation, stat
//! aggregation, and hard-link bookkeeping.

use os_core::fs::Directory;
use os_core::fs::DirEntry;
use os_core::fs::File;
use os_core::fs::Stat;
use os_core::fs::STAT_MODE_FILE;
use os_core::syscall::fs::sys_close;
use os_core::syscall::fs::sys_fstat;
use os_core::syscall::fs::sys_linkat;
use os_core::syscall::fs::sys_open;
use os_core::syscall::fs::sys_read;
use os_core::syscall::fs::sys_unlinkat;
use os_core::syscall::fs::sys_write;

struct TestFile {
    can_read: bool,
    can_write: bool,
    ino: Option<u32>,
}

impl File for TestFile {
    fn spec_readable(&self) -> bool {
        self.can_read
    }

    fn spec_writable(&self) -> bool {
        self.can_write
    }

    fn spec_inode_id(&self) -> Option<u32> {
        self.ino
    }

    fn readable(&self) -> bool {
        self.can_read
    }

    fn writable(&self) -> bool {
        self.can_write
    }

    fn read(&self, buf: &mut Vec<u8>) -> usize {
        let n = buf.len();
        for b in buf.iter_mut() {
            *b = 0x5a;
        }
        n
    }

    fn write(&self, buf: &Vec<u8>) -> usize {
        buf.len()
    }

    fn inode_id(&self) -> Option<u32> {
        self.ino
    }
}

fn rw_file(ino: u32) -> TestFile {
    TestFile { can_read: true, can_write: true, ino: Some(ino) }
}

fn sample_dir() -> Directory {
    Directory {
        entries: vec![
            DirEntry { name: String::from("alpha"), ino: 1 },
            DirEntry { name: String::from("beta"), ino: 1 },
            DirEntry { name: String::from("gamma"), ino: 2 },
        ],
    }
}

#[test]
fn write_checks_descriptor_and_flags() {
    let table: Vec<Option<TestFile>> = vec![
        Some(rw_file(1)),
        None,
        Some(TestFile { can_read: true, can_write: false, ino: None }),
    ];
    let buf = vec![1u8, 2, 3, 4, 5];
    assert_eq!(sys_write(&table, 0, &buf), 5);
    assert_eq!(sys_write(&table, 1, &buf), -1);
    assert_eq!(sys_write(&table, 2, &buf), -1);
    assert_eq!(sys_write(&table, 9, &buf), -1);
}

#[test]
fn read_checks_descriptor_and_flags() {
    let table: Vec<Option<TestFile>> = vec![
        Some(rw_file(1)),
        None,
        Some(TestFile { can_read: false, can_write: true, ino: None }),
    ];
    let mut buf = vec![0u8; 4];
    assert_eq!(sys_read(&table, 0, &mut buf), 4);
    assert_eq!(buf, vec![0x5a; 4]);
    assert_eq!(sys_read(&table, 1, &mut buf), -1);
    assert_eq!(sys_read(&table, 2, &mut buf), -1);
    assert_eq!(sys_read(&table, 7, &mut buf), -1);
}

#[test]
fn open_takes_lowest_free_slot() {
    let mut table: Vec<Option<TestFile>> = vec![Some(rw_file(1)), None, Some(rw_file(2))];
    assert_eq!(sys_open(&mut table, Some(rw_file(3))), 1);
    assert!(table[1].is_some());
    // every slot taken: the table grows
    assert_eq!(sys_open(&mut table, Some(rw_file(4))), 3);
    assert_eq!(table.len(), 4);
    // nothing opened: nothing changes
    assert_eq!(sys_open(&mut table, None), -1);
    assert_eq!(table.len(), 4);
}

#[test]
fn close_frees_the_slot_once() {
    let mut table: Vec<Option<TestFile>> = vec![Some(rw_file(1)), Some(rw_file(2))];
    assert_eq!(sys_close(&mut table, 1), 0);
    assert!(table[1].is_none());
    assert_eq!(sys_close(&mut table, 1), -1);
    assert_eq!(sys_close(&mut table, 42), -1);
}

#[test]
fn scan_aggregates_link_counts() {
    let dir = sample_dir();
    let stats = Stat::scan(&dir);
    assert_eq!(stats.len(), 2);
    let one = stats.iter().find(|s| s.ino == 1).unwrap();
    assert_eq!(one.nlink, 2);
    assert_eq!(one.dev, 0);
    assert_eq!(one.mode, STAT_MODE_FILE);
    let two = stats.iter().find(|s| s.ino == 2).unwrap();
    assert_eq!(two.nlink, 1);
}

#[test]
fn fstat_finds_the_backing_inode() {
    let table: Vec<Option<TestFile>> = vec![
        Some(rw_file(2)),
        Some(TestFile { can_read: true, can_write: true, ino: None }),
    ];
    let dir = sample_dir();
    let stats = Stat::scan(&dir);
    let mut st = Stat { dev: 9, ino: 9, mode: 0, nlink: 9, pad: [0; 7] };
    assert_eq!(sys_fstat(&table, 0, &stats, &mut st), 0);
    assert_eq!(st.ino, 2);
    assert_eq!(st.nlink, 1);
    assert_eq!(st.mode, STAT_MODE_FILE);
    assert_eq!(st.dev, 0);
    // a file without a backing inode is rejected
    assert_eq!(sys_fstat(&table, 1, &stats, &mut st), -1);
    // out of range and closed descriptors are rejected
    assert_eq!(sys_fstat(&table, 5, &stats, &mut st), -1);
}

#[test]
fn linkat_adds_a_link_once() {
    let mut dir = sample_dir();
    assert_eq!(sys_linkat(&mut dir, &String::from("alpha"), &String::from("delta")), 0);
    assert_eq!(dir.entries.len(), 4);
    assert_eq!(dir.entries[3].ino, 1);
    // the new name is taken now
    assert_eq!(sys_linkat(&mut dir, &String::from("gamma"), &String::from("delta")), -1);
    // a missing old name is rejected
    assert_eq!(sys_linkat(&mut dir, &String::from("missing"), &String::from("eps")), -1);
    assert_eq!(dir.entries.len(), 4);
}

#[test]
fn unlinkat_clears_only_the_last_link() {
    let mut dir = sample_dir();
    // inode 1 keeps a second link: not cleared yet
    assert_eq!(sys_unlinkat(&mut dir, &String::from("alpha")), -1);
    assert_eq!(dir.entries.len(), 2);
    // the last link of inode 1 goes away: cleared
    assert_eq!(sys_unlinkat(&mut dir, &String::from("beta")), 0);
    assert_eq!(dir.entries.len(), 1);
    // a missing name is rejected and changes nothing
    assert_eq!(sys_unlinkat(&mut dir, &String::from("alpha")), -1);
    assert_eq!(dir.entries.len(), 1);
    assert_eq!(sys_unlinkat(&mut dir, &String::from("gamma")), 0);
    assert_eq!(dir.entries.len(), 0);
}

#[test]
fn scan_of_empty_directory_is_empty() {
    let dir = Directory { entries: Vec::new() };
    assert_eq!(Stat::scan(&dir).len(), 0);
}
