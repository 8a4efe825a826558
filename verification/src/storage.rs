//! A bounded per-window file directory: a fixed number of named files, each
//! with bounded name and content, reached through open/read/write/close
//! handles. Each window owns one directory of its own; consistency across
//! windows comes from an explicit broadcast on save, not from sharing.

use vstd::prelude::*;
use vstd::map::*;
use crate::MAX_FILES_STORED;
use crate::MAX_FILENAME_BYTES;
use crate::MAX_FILE_BYTES;

verus! {

/// Why a directory operation was refused.
#[derive(Clone, Copy, PartialEq, Eq, Structural, Debug)]
pub enum FsError {
    /// The directory already holds as many files as it can.
    DirectoryFull,
    /// The name is empty.
    NameEmpty,
    /// The name is longer than a directory slot.
    NameTooLong,
    /// The write would grow the file past its largest size.
    FileTooBig,
    /// The handle is not open.
    BadFileDescriptor,
    /// No file of that name exists.
    FileNotFound,
}

struct FileEntry {
    name: Vec<u8>,
    data: Vec<u8>,
}

struct OpenHandle {
    file_idx: usize,
}

/// One window's private storage.
pub struct FileDirectory {
    entries: Vec<FileEntry>,
    opens: Vec<Option<OpenHandle>>,
}

/// Both directories give the same answers through every handle that the
/// first had open.
pub open spec fn preserves_handles(a: FileDirectory, b: FileDirectory) -> bool {
    forall|fd: int|
        #[trigger] a.handle_ok(fd) ==> b.handle_ok(fd) && b.handle_file(fd) == a.handle_file(fd)
}

impl FileDirectory {
    /// The filenames, in the order the files were first created.
    pub closed spec fn dir(self) -> Seq<Seq<u8>> {
        self.entries@.map(|i: int, e: FileEntry| e.name@)
    }

    /// The index of the entry of a name.
    pub closed spec fn entry_at(self, name: Seq<u8>) -> int {
        choose|i: int| 0 <= i < self.entries@.len() && self.entries@[i].name@ == name
    }

    /// The stored files: each name maps to its content.
    pub closed spec fn content(self) -> Map<Seq<u8>, Seq<u8>> {
        Map::new(
            |n: Seq<u8>|
                exists|i: int| 0 <= i < self.entries@.len() && self.entries@[i].name@ == n,
            |n: Seq<u8>| self.entries@[self.entry_at(n)].data@,
        )
    }

    /// The handle is open.
    pub closed spec fn handle_ok(self, fd: int) -> bool {
        0 <= fd < self.opens@.len() && self.opens@[fd] is Some
    }

    /// The name of the file an open handle reaches.
    pub closed spec fn handle_file(self, fd: int) -> Seq<u8> {
        self.entries@[self.opens@[fd]->Some_0.file_idx as int].name@
    }

    /// Every name is unique, short and non-empty, every file fits, the
    /// directory is not over capacity, and every open handle points at an
    /// entry.
    pub closed spec fn wf(self) -> bool {
        &&& self.entries@.len() <= MAX_FILES_STORED
        &&& forall|i: int|
            0 <= i < self.entries@.len() ==> {
                &&& 1 <= (#[trigger] self.entries@[i]).name@.len() <= MAX_FILENAME_BYTES
                &&& self.entries@[i].data@.len() <= MAX_FILE_BYTES
            }
        &&& forall|i: int, j: int|
            0 <= i < j < self.entries@.len() ==> (#[trigger] self.entries@[i]).name@ != (
            #[trigger] self.entries@[j]).name@
        &&& forall|k: int|
            0 <= k < self.opens@.len() && (#[trigger] self.opens@[k]) is Some
                ==> self.opens@[k]->Some_0.file_idx < self.entries@.len()
    }

    /// The one index that carries a name is the index `entry_at` picks.
    proof fn lemma_entry_at(self, i: int)
        requires
            forall|p: int, q: int|
                0 <= p < q < self.entries@.len() ==> (#[trigger] self.entries@[p]).name@ != (
                #[trigger] self.entries@[q]).name@,
            0 <= i < self.entries@.len(),
        ensures
            self.entry_at(self.entries@[i].name@) == i,
            self.content().dom().contains(self.entries@[i].name@),
            self.content()[self.entries@[i].name@] == self.entries@[self.entry_at(
                self.entries@[i].name@,
            )].data@,
    {
        let n = self.entries@[i].name@;
        assert(0 <= i < self.entries@.len() && self.entries@[i].name@ == n);
        let j = self.entry_at(n);
        assert(0 <= j < self.entries@.len() && self.entries@[j].name@ == n);
        if i < j {
            assert(self.entries@[i].name@ != self.entries@[j].name@);
        }
        if j < i {
            assert(self.entries@[j].name@ != self.entries@[i].name@);
        }
    }

    /// A name carried by no entry is not stored.
    proof fn lemma_absent(self, n: Seq<u8>)
        requires
            forall|i: int| 0 <= i < self.entries@.len() ==> (#[trigger] self.entries@[i]).name@ != n,
        ensures
            !self.content().dom().contains(n),
    {
    }

    /// Replacing one entry's data keeps the directory listing and rewrites
    /// exactly that file's content.
    proof fn lemma_replace_data(a: FileDirectory, b: FileDirectory, i: int)
        requires
            a.wf(),
            0 <= i < a.entries@.len(),
            b.entries@.len() == a.entries@.len(),
            forall|j: int|
                0 <= j < a.entries@.len() ==> (#[trigger] b.entries@[j]).name@
                    == a.entries@[j].name@,
            forall|j: int|
                0 <= j < a.entries@.len() && j != i ==> (#[trigger] b.entries@[j]).data@
                    == a.entries@[j].data@,
        ensures
            b.dir() == a.dir(),
            b.content() == a.content().insert(a.entries@[i].name@, b.entries@[i].data@),
    {
        assert(b.dir() =~= a.dir());
        let n = a.entries@[i].name@;
        assert forall|j: int, k: int| 0 <= j < k < b.entries@.len() implies (
        #[trigger] b.entries@[j]).name@ != (#[trigger] b.entries@[k]).name@ by {
            assert(a.entries@[j].name@ != a.entries@[k].name@);
        }
        let lhs = b.content();
        let rhs = a.content().insert(n, b.entries@[i].data@);
        assert forall|m: Seq<u8>| lhs.dom().contains(m) implies rhs.dom().contains(m) by {
            let j = choose|j: int| 0 <= j < b.entries@.len() && b.entries@[j].name@ == m;
            assert(a.entries@[j].name@ == m);
        }
        assert forall|m: Seq<u8>| rhs.dom().contains(m) implies lhs.dom().contains(m) by {
            if m == n {
                assert(b.entries@[i].name@ == m);
            } else {
                let j = choose|j: int| 0 <= j < a.entries@.len() && a.entries@[j].name@ == m;
                assert(b.entries@[j].name@ == m);
            }
        }
        assert forall|m: Seq<u8>| lhs.dom().contains(m) implies lhs[m] == rhs[m] by {
            let j = choose|j: int| 0 <= j < b.entries@.len() && b.entries@[j].name@ == m;
            assert(a.entries@[j].name@ == m);
            a.lemma_entry_at(j);
            let bw = b;
            bw.lemma_entry_at(j);
            if m == n {
                if i < j {
                    assert(a.entries@[i].name@ != a.entries@[j].name@);
                }
                if j < i {
                    assert(a.entries@[j].name@ != a.entries@[i].name@);
                }
                assert(j == i);
            }
        }
        assert(lhs =~= rhs);
    }

    /// Appending an entry of a fresh name lists it last and stores its
    /// content under that name.
    proof fn lemma_push_entry(a: FileDirectory, b: FileDirectory)
        requires
            a.wf(),
            b.entries@.len() == a.entries@.len() + 1,
            forall|j: int|
                0 <= j < a.entries@.len() ==> #[trigger] b.entries@[j] == a.entries@[j],
            forall|j: int|
                0 <= j < a.entries@.len() ==> (#[trigger] a.entries@[j]).name@ != b.entries@[
                    a.entries@.len() as int
                ].name@,
        ensures
            b.dir() == a.dir().push(b.entries@[a.entries@.len() as int].name@),
            b.content() == a.content().insert(
                b.entries@[a.entries@.len() as int].name@,
                b.entries@[a.entries@.len() as int].data@,
            ),
    {
        let last = a.entries@.len() as int;
        let n = b.entries@[last].name@;
        assert(b.dir() =~= a.dir().push(n));
        assert forall|j: int, k: int| 0 <= j < k < b.entries@.len() implies (
        #[trigger] b.entries@[j]).name@ != (#[trigger] b.entries@[k]).name@ by {
            if k < last {
                assert(a.entries@[j].name@ != a.entries@[k].name@);
            }
        }
        let lhs = b.content();
        let rhs = a.content().insert(n, b.entries@[last].data@);
        assert forall|m: Seq<u8>| lhs.dom().contains(m) implies rhs.dom().contains(m) by {
            let j = choose|j: int| 0 <= j < b.entries@.len() && b.entries@[j].name@ == m;
            if j < last {
                assert(a.entries@[j].name@ == m);
            }
        }
        assert forall|m: Seq<u8>| rhs.dom().contains(m) implies lhs.dom().contains(m) by {
            if m == n {
                assert(b.entries@[last].name@ == m);
            } else {
                let j = choose|j: int| 0 <= j < a.entries@.len() && a.entries@[j].name@ == m;
                assert(b.entries@[j].name@ == m);
            }
        }
        assert forall|m: Seq<u8>| lhs.dom().contains(m) implies lhs[m] == rhs[m] by {
            let j = choose|j: int| 0 <= j < b.entries@.len() && b.entries@[j].name@ == m;
            let bw = b;
            bw.lemma_entry_at(j);
            if j < last {
                assert(a.entries@[j].name@ == m);
                a.lemma_entry_at(j);
                assert(m != n);
            }
        }
        assert(lhs =~= rhs);
    }

    /// A sound directory is bounded: so many files at most, each name short
    /// and non-empty, each file's content no larger than a file may be.
    pub proof fn lemma_dir_bounds(self)
        requires
            self.wf(),
        ensures
            self.dir().len() <= MAX_FILES_STORED,
            forall|i: int|
                0 <= i < self.dir().len() ==> 1 <= (#[trigger] self.dir()[i]).len()
                    <= MAX_FILENAME_BYTES,
            forall|n: Seq<u8>|
                self.content().dom().contains(n) ==> (#[trigger] self.content()[n]).len()
                    <= MAX_FILE_BYTES,
            forall|i: int|
                0 <= i < self.dir().len() ==> self.content().dom().contains(#[trigger] self.dir()[i]),
    {
        assert forall|n: Seq<u8>| self.content().dom().contains(n) implies (
        #[trigger] self.content()[n]).len() <= MAX_FILE_BYTES by {
            let j = choose|j: int| 0 <= j < self.entries@.len() && self.entries@[j].name@ == n;
            self.lemma_entry_at(j);
        }
        assert forall|i: int| 0 <= i < self.dir().len() implies self.content().dom().contains(
            #[trigger] self.dir()[i],
        ) by {
            self.lemma_entry_at(i);
        }
    }

    /// An empty directory.
    pub fn new() -> (d: FileDirectory)
        ensures
            d.wf(),
            d.dir() == Seq::<Seq<u8>>::empty(),
            d.content() == Map::<Seq<u8>, Seq<u8>>::empty(),
            forall|fd: int| !d.handle_ok(fd),
    {
        let d = FileDirectory { entries: Vec::new(), opens: Vec::new() };
        proof {
            assert(d.dir() =~= Seq::<Seq<u8>>::empty());
            assert(d.content() =~= Map::<Seq<u8>, Seq<u8>>::empty());
        }
        d
    }

    /// The index of the entry of a name, if any.
    fn find_entry(&self, name: &Vec<u8>) -> (r: Option<usize>)
        ensures
            match r {
                Some(i) => i < self.entries@.len() && self.entries@[i as int].name@ == name@,
                None => forall|i: int|
                    0 <= i < self.entries@.len() ==> (#[trigger] self.entries@[i]).name@ != name@,
            },
    {
        let mut i: usize = 0;
        while i < self.entries.len()
            invariant
                i <= self.entries@.len(),
                forall|j: int|
                    0 <= j < i ==> (#[trigger] self.entries@[j]).name@ != name@,
            decreases self.entries@.len() - i,
        {
            if bytes_eq(&self.entries[i].name, name) {
                return Some(i);
            }
            i += 1;
        }
        None
    }

    /// How many files the directory holds.
    pub fn num_files(&self) -> (n: usize)
        ensures
            n == self.dir().len(),
    {
        self.entries.len()
    }

    /// The name of the file at a directory position.
    pub fn file_name_at(&self, i: usize) -> (r: Vec<u8>)
        requires
            i < self.dir().len(),
        ensures
            r@ == self.dir()[i as int],
    {
        bytes_clone(&self.entries[i].name)
    }

    /// All filenames, in directory order.
    pub fn list_directory(&self) -> (names: Vec<Vec<u8>>)
        ensures
            names@.len() == self.dir().len(),
            forall|i: int| 0 <= i < names@.len() ==> (#[trigger] names@[i])@ == self.dir()[i],
    {
        let mut names: Vec<Vec<u8>> = Vec::new();
        let mut i: usize = 0;
        while i < self.entries.len()
            invariant
                i <= self.entries@.len(),
                names@.len() == i,
                forall|j: int| 0 <= j < i ==> (#[trigger] names@[j])@ == self.dir()[j],
            decreases self.entries@.len() - i,
        {
            names.push(self.file_name_at(i));
            i += 1;
        }
        names
    }

    /// Opens a file for (re)writing: an existing file is emptied, a fresh
    /// name is added at the end of the directory if there is room.
    pub fn open_create(&mut self, name: &Vec<u8>) -> (r: Result<usize, FsError>)
        requires
            old(self).wf(),
        ensures
            final(self).wf(),
            r is Ok <==> (1 <= name@.len() <= MAX_FILENAME_BYTES && (old(self).content().dom().contains(name@) || old(self).dir().len() < MAX_FILES_STORED)),
            match r {
                Ok(fd) => {
                    &&& final(self).handle_ok(fd as int)
                    &&& !old(self).handle_ok(fd as int)
                    &&& final(self).handle_file(fd as int) == name@
                    &&& final(self).content() == old(self).content().insert(
                        name@,
                        Seq::<u8>::empty(),
                    )
                    &&& final(self).dir() == (if old(self).content().dom().contains(name@) {
                        old(self).dir()
                    } else {
                        old(self).dir().push(name@)
                    })
                    &&& preserves_handles(*old(self), *final(self))
                },
                Err(e) => {
                    &&& *final(self) == *old(self)
                    &&& (e == FsError::NameEmpty <==> name@.len() == 0)
                    &&& (e == FsError::NameTooLong <==> name@.len() > MAX_FILENAME_BYTES)
                    &&& (e == FsError::DirectoryFull ==> !old(self).content().dom().contains(name@)
                        && old(self).dir().len() == MAX_FILES_STORED)
                },
            },
    {
        if name.len() == 0 {
            return Err(FsError::NameEmpty);
        }
        if name.len() > MAX_FILENAME_BYTES {
            return Err(FsError::NameTooLong);
        }
        match self.find_entry(name) {
            Some(i) => {
                proof {
                    old(self).lemma_entry_at(i as int);
                }
                self.entries[i].data = Vec::new();
                proof {
                    Self::lemma_replace_data(*old(self), *self, i as int);
                }
                self.opens.push(Some(OpenHandle { file_idx: i }));
                proof {
                    Self::lemma_replace_data(*old(self), *self, i as int);
                    assert forall|fd: int| #[trigger] old(self).handle_ok(fd) implies self
                        .handle_ok(fd) && self.handle_file(fd) == old(self).handle_file(fd) by {
                        assert(self.opens@[fd] == old(self).opens@[fd]);
                    }
                }
                Ok(self.opens.len() - 1)
            },
            None => {
                proof {
                    old(self).lemma_absent(name@);
                }
                if self.entries.len() >= MAX_FILES_STORED {
                    return Err(FsError::DirectoryFull);
                }
                let idx = self.entries.len();
                self.entries.push(FileEntry { name: bytes_clone(name), data: Vec::new() });
                proof {
                    Self::lemma_push_entry(*old(self), *self);
                }
                self.opens.push(Some(OpenHandle { file_idx: idx }));
                proof {
                    Self::lemma_push_entry(*old(self), *self);
                    assert forall|fd: int| #[trigger] old(self).handle_ok(fd) implies self
                        .handle_ok(fd) && self.handle_file(fd) == old(self).handle_file(fd) by {
                        assert(self.opens@[fd] == old(self).opens@[fd]);
                    }
                }
                Ok(self.opens.len() - 1)
            },
        }
    }

    /// Opens an existing file for reading.
    pub fn open_read(&mut self, name: &Vec<u8>) -> (r: Result<usize, FsError>)
        requires
            old(self).wf(),
        ensures
            final(self).wf(),
            final(self).dir() == old(self).dir(),
            final(self).content() == old(self).content(),
            preserves_handles(*old(self), *final(self)),
            r is Ok <==> old(self).content().dom().contains(name@),
            match r {
                Ok(fd) => {
                    &&& final(self).handle_ok(fd as int)
                    &&& !old(self).handle_ok(fd as int)
                    &&& final(self).handle_file(fd as int) == name@
                },
                Err(e) => e == FsError::FileNotFound && *final(self) == *old(self),
            },
    {
        match self.find_entry(name) {
            Some(i) => {
                proof {
                    old(self).lemma_entry_at(i as int);
                }
                self.opens.push(Some(OpenHandle { file_idx: i }));
                proof {
                    assert(self.entries@ == old(self).entries@);
                    assert(self.content() =~= old(self).content());
                    assert(self.dir() =~= old(self).dir());
                    assert forall|fd: int| #[trigger] old(self).handle_ok(fd) implies self
                        .handle_ok(fd) && self.handle_file(fd) == old(self).handle_file(fd) by {
                        assert(self.opens@[fd] == old(self).opens@[fd]);
                    }
                }
                Ok(self.opens.len() - 1)
            },
            None => {
                proof {
                    old(self).lemma_absent(name@);
                }
                Err(FsError::FileNotFound)
            },
        }
    }

    /// Appends bytes to the file behind an open handle.
    pub fn write(&mut self, fd: usize, bytes: &Vec<u8>) -> (r: Result<(), FsError>)
        requires
            old(self).wf(),
        ensures
            final(self).wf(),
            r is Ok <==> (old(self).handle_ok(fd as int) && old(self).content()[old(self).handle_file(fd as int)].len() + bytes@.len() <= MAX_FILE_BYTES),
            match r {
                Ok(_) => {
                    &&& final(self).dir() == old(self).dir()
                    &&& final(self).content() == old(self).content().insert(
                        old(self).handle_file(fd as int),
                        old(self).content()[old(self).handle_file(fd as int)] + bytes@,
                    )
                    &&& preserves_handles(*old(self), *final(self))
                },
                Err(e) => {
                    &&& *final(self) == *old(self)
                    &&& (e == FsError::BadFileDescriptor <==> !old(self).handle_ok(fd as int))
                },
            },
    {
        if fd >= self.opens.len() {
            return Err(FsError::BadFileDescriptor);
        }
        let idx: usize = match &self.opens[fd] {
            Some(h) => h.file_idx,
            None => {
                return Err(FsError::BadFileDescriptor);
            },
        };
        proof {
            old(self).lemma_entry_at(idx as int);
        }
        if bytes.len() > MAX_FILE_BYTES - self.entries[idx].data.len() {
            return Err(FsError::FileTooBig);
        }
        let ghost prev = self.entries@[idx as int].data@;
        let mut k: usize = 0;
        while k < bytes.len()
            invariant
                old(self).wf(),
                0 <= idx < self.entries@.len(),
                k <= bytes@.len(),
                self.entries@.len() == old(self).entries@.len(),
                self.opens@ == old(self).opens@,
                forall|j: int|
                    0 <= j < self.entries@.len() ==> (#[trigger] self.entries@[j]).name@ == old(self).entries@[j].name@,
                forall|j: int|
                    0 <= j < self.entries@.len() && j != idx ==> (#[trigger] self.entries@[j]).data@
                        == old(self).entries@[j].data@,
                self.entries@[idx as int].data@ == prev + bytes@.subrange(0, k as int),
                prev.len() + bytes@.len() <= MAX_FILE_BYTES,
                prev == old(self).entries@[idx as int].data@,
            decreases bytes@.len() - k,
        {
            self.entries[idx].data.push(bytes[k]);
            proof {
                assert(self.entries@[idx as int].data@ =~= prev + bytes@.subrange(
                    0,
                    k + 1 as int,
                ));
            }
            k += 1;
        }
        proof {
            assert(self.entries@[idx as int].data@ =~= prev + bytes@);
            Self::lemma_replace_data(*old(self), *self, idx as int);
            assert forall|f: int| #[trigger] old(self).handle_ok(f) implies self.handle_ok(f)
                && self.handle_file(f) == old(self).handle_file(f) by {}
        }
        Ok(())
    }

    /// The whole content of the file behind an open handle.
    pub fn read(&self, fd: usize) -> (r: Result<Vec<u8>, FsError>)
        requires
            self.wf(),
        ensures
            r is Ok <==> self.handle_ok(fd as int),
            match r {
                Ok(bytes) => bytes@ == self.content()[self.handle_file(fd as int)],
                Err(e) => e == FsError::BadFileDescriptor,
            },
    {
        if fd >= self.opens.len() {
            return Err(FsError::BadFileDescriptor);
        }
        let idx: usize = match &self.opens[fd] {
            Some(h) => h.file_idx,
            None => {
                return Err(FsError::BadFileDescriptor);
            },
        };
        proof {
            self.lemma_entry_at(idx as int);
        }
        Ok(bytes_clone(&self.entries[idx].data))
    }

    /// Closes an open handle; the stored files do not change.
    pub fn close(&mut self, fd: usize) -> (r: Result<(), FsError>)
        requires
            old(self).wf(),
        ensures
            final(self).wf(),
            final(self).dir() == old(self).dir(),
            final(self).content() == old(self).content(),
            r is Ok <==> old(self).handle_ok(fd as int),
            !final(self).handle_ok(fd as int),
            forall|f: int|
                #[trigger] old(self).handle_ok(f) && f != fd ==> final(self).handle_ok(f)
                    && final(self).handle_file(f) == old(self).handle_file(f),
            r is Err ==> *final(self) == *old(self),
    {
        if fd >= self.opens.len() {
            return Err(FsError::BadFileDescriptor);
        }
        let was_open = self.opens[fd].is_some();
        if !was_open {
            return Err(FsError::BadFileDescriptor);
        }
        self.opens[fd] = None;
        proof {
            assert(self.entries@ == old(self).entries@);
            assert(self.content() =~= old(self).content());
            assert(self.dir() =~= old(self).dir());
            assert forall|f: int| #[trigger] old(self).handle_ok(f) && f != fd implies self
                .handle_ok(f) && self.handle_file(f) == old(self).handle_file(f) by {
                assert(self.opens@[f] == old(self).opens@[f]);
            }
        }
        Ok(())
    }

    /// Writes a whole file in one step: creates or empties the name, stores
    /// the bytes, and leaves no handle behind.
    pub fn save_file(&mut self, name: &Vec<u8>, data: &Vec<u8>) -> (r: Result<(), FsError>)
        requires
            old(self).wf(),
            data@.len() <= MAX_FILE_BYTES,
        ensures
            final(self).wf(),
            r is Ok <==> (1 <= name@.len() <= MAX_FILENAME_BYTES && (old(self).content().dom().contains(name@) || old(self).dir().len() < MAX_FILES_STORED)),
            match r {
                Ok(_) => {
                    &&& final(self).content() == old(self).content().insert(name@, data@)
                    &&& final(self).dir() == (if old(self).content().dom().contains(name@) {
                        old(self).dir()
                    } else {
                        old(self).dir().push(name@)
                    })
                },
                Err(_) => {
                    &&& final(self).content() == old(self).content()
                    &&& final(self).dir() == old(self).dir()
                },
            },
    {
        let fd = match self.open_create(name) {
            Ok(fd) => fd,
            Err(e) => {
                return Err(e);
            },
        };
        match self.write(fd, data) {
            Ok(_) => {},
            Err(e) => {
                proof {
                    assert(false);
                }
            },
        }
        let _ = self.close(fd);
        proof {
            assert(Seq::<u8>::empty() + data@ =~= data@);
            assert(self.content() =~= old(self).content().insert(name@, data@));
        }
        Ok(())
    }

    /// Reads a whole file by name in one step; no handle stays behind.
    pub fn read_file(&mut self, name: &Vec<u8>) -> (r: Result<Vec<u8>, FsError>)
        requires
            old(self).wf(),
        ensures
            final(self).wf(),
            final(self).dir() == old(self).dir(),
            final(self).content() == old(self).content(),
            preserves_handles(*old(self), *final(self)),
            r is Ok <==> old(self).content().dom().contains(name@),
            match r {
                Ok(bytes) => bytes@ == old(self).content()[name@],
                Err(e) => e == FsError::FileNotFound,
            },
    {
        let fd = match self.open_read(name) {
            Ok(fd) => fd,
            Err(e) => {
                return Err(e);
            },
        };
        let bytes = match self.read(fd) {
            Ok(b) => b,
            Err(_) => {
                proof {
                    assert(false);
                }
                Vec::new()
            },
        };
        let _ = self.close(fd);
        Ok(bytes)
    }
}

/// The two byte strings hold the same bytes.
pub fn bytes_eq(a: &Vec<u8>, b: &Vec<u8>) -> (r: bool)
    ensures
        r == (a@ == b@),
{
    if a.len() != b.len() {
        return false;
    }
    let mut i: usize = 0;
    while i < a.len()
        invariant
            a@.len() == b@.len(),
            i <= a@.len(),
            forall|j: int| 0 <= j < i ==> a@[j] == b@[j],
        decreases a@.len() - i,
    {
        if a[i] != b[i] {
            return false;
        }
        i += 1;
    }
    proof {
        assert(a@ =~= b@);
    }
    true
}

/// A copy of a byte string.
pub fn bytes_clone(a: &Vec<u8>) -> (r: Vec<u8>)
    ensures
        r@ == a@,
{
    let mut r: Vec<u8> = Vec::new();
    let mut i: usize = 0;
    while i < a.len()
        invariant
            i <= a@.len(),
            r@ == a@.subrange(0, i as int),
        decreases a@.len() - i,
    {
        r.push(a[i]);
        proof {
            assert(r@ =~= a@.subrange(0, i + 1 as int));
        }
        i += 1;
    }
    proof {
        assert(a@.subrange(0, a@.len() as int) =~= a@);
    }
    r
}

} // verus!
