//! A simulated file system per node: files by path, read and written at offsets.

use vstd::prelude::*;
use crate::assoc::{assoc_get, assoc_unique, find_u64, lemma_assoc_push, lemma_assoc_update};

verus! {

/// Why a file operation failed.
#[derive(Clone, Copy, Debug, PartialEq, Eq, Structural)]
pub enum FsError {
    /// "file not found"
    NotFound,
    /// "the file is read only"
    PermissionDenied,
}

/// Metadata information about a file.
#[derive(Clone, Copy, Debug, PartialEq, Eq, Structural)]
pub struct Metadata {
    len: u64,
}

impl Metadata {
    /// The size of the file.
    pub closed spec fn spec_len(&self) -> u64 {
        self.len
    }

    /// Returns the size of the file, in bytes, this metadata is for.
    pub fn len(&self) -> (n: u64)
        ensures
            n == self.spec_len(),
    {
        self.len
    }
}

/// A reference to an open file: its path, and whether it may be written.
pub struct File {
    pub path: String,
    pub can_write: bool,
}

/// The contents of the file at `path` among `files`, by the text of the paths.
pub open spec fn contents_of(files: Seq<(String, Vec<u8>)>, path: Seq<char>) -> Option<Seq<u8>> {
    if exists|i: int| 0 <= i < files.len() && files[i].0@ == path {
        Some(files[choose|i: int| 0 <= i < files.len() && files[i].0@ == path].1@)
    } else {
        None
    }
}

/// No path has two files.
pub open spec fn paths_unique(files: Seq<(String, Vec<u8>)>) -> bool {
    forall|i: int, j: int| 0 <= i < j < files.len() ==> files[i].0@ != files[j].0@
}

/// `data` after writing `buf` at `offset`, which is at most its length:
/// overwritten where they overlap, extended where `buf` goes past the end.
pub open spec fn spec_write_at(data: Seq<u8>, buf: Seq<u8>, offset: int) -> Seq<u8> {
    if offset + buf.len() <= data.len() {
        data.take(offset) + buf + data.skip(offset + buf.len())
    } else {
        data.take(offset) + buf
    }
}

/// The bytes a read of `n` bytes at `offset` gets from `data`.
pub open spec fn spec_read_at(data: Seq<u8>, n: int, offset: int) -> Seq<u8> {
    let end = if data.len() < offset + n { data.len() as int } else { offset + n };
    data.subrange(offset, end)
}

/// `data` truncated or extended with zeros to `size` bytes.
pub open spec fn spec_resize(data: Seq<u8>, size: int) -> Seq<u8> {
    if size <= data.len() {
        data.take(size)
    } else {
        data + Seq::new((size - data.len()) as nat, |i: int| 0u8)
    }
}

/// What a write puts at an offset is what a read of that length at that
/// offset gets back.
pub proof fn read_gets_what_was_written(data: Seq<u8>, buf: Seq<u8>, offset: int)
    requires
        0 <= offset <= data.len(),
    ensures
        spec_read_at(spec_write_at(data, buf, offset), buf.len() as int, offset) == buf,
        spec_write_at(data, buf, offset).len() == (if offset + buf.len() <= data.len() { data.len() as int } else { offset + buf.len() }),
{
    let w = spec_write_at(data, buf, offset);
    assert(w.subrange(offset, offset + buf.len()) =~= buf);
}

/// A write changes exactly the bytes it covers: every byte of the result in
/// `offset..offset + buf.len()` is the matching byte of `buf`, every other
/// byte is the one that was there, and the file only grows as far as the
/// write reaches.
pub proof fn write_changes_only_its_range(data: Seq<u8>, buf: Seq<u8>, offset: int)
    requires
        0 <= offset <= data.len(),
    ensures
        spec_write_at(data, buf, offset).len() == (if offset + buf.len() <= data.len() { data.len() as int } else { offset + buf.len() }),
        forall|i: int| offset <= i < offset + buf.len() ==> #[trigger] spec_write_at(data, buf, offset)[i] == buf[i - offset],
        forall|i: int| 0 <= i < data.len() && !(offset <= i < offset + buf.len())
            ==> #[trigger] spec_write_at(data, buf, offset)[i] == data[i],
{
}

/// A read of `n` bytes at `offset` gets the bytes of the file from `offset`
/// on, in order, as many as the file holds up to `n`.
pub proof fn read_gets_the_bytes_at_offset(data: Seq<u8>, n: int, offset: int)
    requires
        0 <= offset <= data.len(),
        0 <= n,
    ensures
        spec_read_at(data, n, offset).len() == (if offset + n <= data.len() { n } else { data.len() - offset }),
        forall|i: int| 0 <= i < spec_read_at(data, n, offset).len() ==> #[trigger] spec_read_at(data, n, offset)[i] == data[offset + i],
{
}

/// Setting the length keeps every byte below the new length and fills the
/// bytes past the old end with zeros.
pub proof fn resize_keeps_prefix_and_zero_fills(data: Seq<u8>, size: int)
    requires
        0 <= size,
    ensures
        spec_resize(data, size).len() == size,
        forall|i: int| 0 <= i < size && i < data.len() ==> #[trigger] spec_resize(data, size)[i] == data[i],
        forall|i: int| data.len() <= i < size ==> #[trigger] spec_resize(data, size)[i] == 0u8,
{
}

/// File system simulator for a node.
pub struct FsNode {
    files: Vec<(String, Vec<u8>)>,
}

impl FsNode {
    /// The contents of the file at `path`, if it exists.
    pub closed spec fn spec_file(&self, path: Seq<char>) -> Option<Seq<u8>> {
        contents_of(self.files@, path)
    }

    /// The invariant: one file per path.
    pub closed spec fn wf(&self) -> bool {
        paths_unique(self.files@)
    }

    /// An empty file system.
    pub fn new() -> (f: FsNode)
        ensures
            f.wf(),
            forall|p: Seq<char>| f.spec_file(p) is None,
    {
        FsNode { files: Vec::new() }
    }

    /// The position of the file at `path`, if any.
    fn find(&self, path: &String) -> (r: Option<usize>)
        requires
            self.wf(),
        ensures
            match r {
                Some(i) => i < self.files@.len() && self.files@[i as int].0@ == path@
                    && self.spec_file(path@) == Some(self.files@[i as int].1@),
                None => self.spec_file(path@) is None,
            },
    {
        let mut i: usize = 0;
        while i < self.files.len()
            invariant
                i <= self.files@.len(),
                paths_unique(self.files@),
                forall|j: int| 0 <= j < i ==> self.files@[j].0@ != path@,
            decreases self.files@.len() - i,
        {
            if self.files[i].0 == *path {
                proof {
                    let k = choose|k: int| 0 <= k < self.files@.len() && self.files@[k].0@ == path@;
                    assert(k == i);
                }
                return Some(i);
            }
            i = i + 1;
        }
        None
    }

    /// Replacing the contents of the file at `i` changes only that file.
    proof fn lemma_replace(before: Seq<(String, Vec<u8>)>, after: Seq<(String, Vec<u8>)>, i: int)
        requires
            paths_unique(before),
            0 <= i < before.len(),
            after.len() == before.len(),
            after[i].0@ == before[i].0@,
            forall|j: int| 0 <= j < before.len() && j != i ==> after[j] == before[j],
        ensures
            paths_unique(after),
            contents_of(after, before[i].0@) == Some(after[i].1@),
            forall|p: Seq<char>| p != before[i].0@ ==> contents_of(after, p) == contents_of(before, p),
    {
        assert(paths_unique(after)) by {
            assert forall|a: int, b: int| 0 <= a < b < after.len() implies after[a].0@ != after[b].0@ by {
                assert(after[a].0@ == before[a].0@ || a == i);
                assert(after[b].0@ == before[b].0@ || b == i);
            }
        }
        let k = choose|k: int| 0 <= k < after.len() && after[k].0@ == before[i].0@;
        if k != i {
            assert(after[k] == before[k]);
        }
        assert forall|p: Seq<char>| p != before[i].0@ implies contents_of(after, p) == contents_of(before, p) by {
            if exists|a: int| 0 <= a < before.len() && before[a].0@ == p {
                let a = choose|a: int| 0 <= a < before.len() && before[a].0@ == p;
                assert(after[a] == before[a]);
                let b = choose|b: int| 0 <= b < after.len() && after[b].0@ == p;
                assert(after[b] == before[b]);
            } else {
                if exists|b: int| 0 <= b < after.len() && after[b].0@ == p {
                    let b = choose|b: int| 0 <= b < after.len() && after[b].0@ == p;
                    assert(after[b] == before[b]);
                }
            }
        }
    }

    /// Attempts to open a file in read-only mode.
    pub fn open(&self, path: &str) -> (r: Result<File, FsError>)
        requires
            self.wf(),
        ensures
            match self.spec_file(path@) {
                Some(_) => r matches Ok(f) && f.path@ == path@ && !f.can_write,
                None => r == Err::<File, FsError>(FsError::NotFound),
            },
    {
        let p = path.to_owned();
        match self.find(&p) {
            Some(_) => Ok(File { path: p, can_write: false }),
            None => Err(FsError::NotFound),
        }
    }

    /// Opens a file in write-only mode, creating it if it does not exist and
    /// truncating it if it does.
    pub fn create(&mut self, path: &str) -> (f: File)
        requires
            old(self).wf(),
        ensures
            final(self).wf(),
            f.path@ == path@ && f.can_write,
            final(self).spec_file(path@) == Some(Seq::<u8>::empty()),
            forall|p: Seq<char>| p != path@ ==> final(self).spec_file(p) == old(self).spec_file(p),
    {
        let p = path.to_owned();
        match self.find(&p) {
            Some(i) => {
                let ghost before = self.files@;
                let (k, mut data) = self.files.remove(i);
                data.clear();
                self.files.insert(i, (k, data));
                proof {
                    assert(self.files@ =~= before.update(i as int, self.files@[i as int]));
                    Self::lemma_replace(before, self.files@, i as int);
                }
            },
            None => {
                let ghost before = self.files@;
                let ghost pv = p@;
                self.files.push((p.clone(), Vec::new()));
                proof {
                    let after = self.files@;
                    assert(after[before.len() as int].0@ == pv);
                    assert(paths_unique(after)) by {
                        assert forall|a: int, b: int| 0 <= a < b < after.len() implies after[a].0@ != after[b].0@ by {
                            if b == before.len() {
                                assert(after[a] == before[a]);
                            } else {
                                assert(after[a] == before[a] && after[b] == before[b]);
                            }
                        }
                    }
                    let k = choose|k: int| 0 <= k < after.len() && after[k].0@ == pv;
                    if k < before.len() {
                        assert(after[k] == before[k]);
                    }
                    assert forall|q: Seq<char>| q != pv implies contents_of(after, q) == contents_of(before, q) by {
                        if exists|a: int| 0 <= a < before.len() && before[a].0@ == q {
                            let a = choose|a: int| 0 <= a < before.len() && before[a].0@ == q;
                            assert(after[a] == before[a]);
                            let b = choose|b: int| 0 <= b < after.len() && after[b].0@ == q;
                            assert(after[b] == before[b]);
                        } else {
                            if exists|b: int| 0 <= b < after.len() && after[b].0@ == q {
                                let b = choose|b: int| 0 <= b < after.len() && after[b].0@ == q;
                                assert(after[b] == before[b]);
                            }
                        }
                    }
                }
            },
        }
        File { path: p, can_write: true }
    }

    /// Queries metadata about the file at `path`.
    pub fn metadata(&self, path: &str) -> (r: Result<Metadata, FsError>)
        requires
            self.wf(),
        ensures
            match self.spec_file(path@) {
                Some(d) => r matches Ok(m) && m.spec_len() == d.len(),
                None => r == Err::<Metadata, FsError>(FsError::NotFound),
            },
    {
        let p = path.to_owned();
        match self.find(&p) {
            Some(i) => Ok(Metadata { len: self.files[i].1.len() as u64 }),
            None => Err(FsError::NotFound),
        }
    }

    /// Reads bytes starting from `offset` into the front of `buf`, as many as
    /// fit and as the file holds; returns how many. `offset` must not be past
    /// the end of the file.
    pub fn read_at(&self, file: &File, buf: &mut Vec<u8>, offset: u64) -> (r: Result<usize, FsError>)
        requires
            self.wf(),
            self.spec_file(file.path@) matches Some(d) && offset <= d.len(),
            offset + old(buf)@.len() <= usize::MAX,
        ensures
            ({
                let d = self.spec_file(file.path@)->0;
                let got = spec_read_at(d, old(buf)@.len() as int, offset as int);
                &&& r == Ok::<usize, FsError>(got.len() as usize)
                &&& final(buf)@ == got + old(buf)@.skip(got.len() as int)
            }),
    {
        let i = self.find(&file.path).unwrap();
        let data = &self.files[i].1;
        let off = offset as usize;
        let end = if data.len() < off + buf.len() { data.len() } else { off + buf.len() };
        let len = end - off;
        let ghost b0 = buf@;
        let mut k: usize = 0;
        while k < len
            invariant
                k <= len,
                len == end - off,
                end <= data@.len(),
                buf@.len() == b0.len(),
                len <= b0.len(),
                forall|j: int| 0 <= j < k ==> buf@[j] == data@[off + j],
                forall|j: int| k <= j < b0.len() ==> buf@[j] == b0[j],
            decreases len - k,
        {
            buf.set(k, data[off + k]);
            k = k + 1;
        }
        proof {
            let got = spec_read_at(data@, b0.len() as int, off as int);
            assert(buf@ =~= got + b0.skip(got.len() as int));
        }
        Ok(len)
    }

    /// Writes all of `buf` starting at `offset`, extending the file where it
    /// goes past the end; `PermissionDenied` for a read-only file. `offset`
    /// must not be past the end.
    pub fn write_all_at(&mut self, file: &File, buf: &Vec<u8>, offset: u64) -> (r: Result<(), FsError>)
        requires
            old(self).wf(),
            old(self).spec_file(file.path@) matches Some(d) && offset <= d.len(),
            offset + buf@.len() <= usize::MAX,
        ensures
            final(self).wf(),
            !file.can_write ==> r == Err::<(), FsError>(FsError::PermissionDenied)
                && forall|p: Seq<char>| final(self).spec_file(p) == old(self).spec_file(p),
            file.can_write ==> r is Ok
                && final(self).spec_file(file.path@) == Some(spec_write_at(old(self).spec_file(file.path@)->0, buf@, offset as int))
                && forall|p: Seq<char>| p != file.path@ ==> final(self).spec_file(p) == old(self).spec_file(p),
    {
        if !file.can_write {
            return Err(FsError::PermissionDenied);
        }
        let i = self.find(&file.path).unwrap();
        let ghost before = self.files@;
        let (k, data) = self.files.remove(i);
        let off = offset as usize;
        let mut out: Vec<u8> = Vec::new();
        let mut j: usize = 0;
        while j < off
            invariant
                j <= off,
                off <= data@.len(),
                out@ == data@.take(j as int),
            decreases off - j,
        {
            out.push(data[j]);
            proof { assert(data@.take(j + 1) == data@.take(j as int).push(data@[j as int])); }
            j = j + 1;
        }
        let mut b: usize = 0;
        while b < buf.len()
            invariant
                b <= buf@.len(),
                out@ == data@.take(off as int) + buf@.take(b as int),
            decreases buf@.len() - b,
        {
            out.push(buf[b]);
            proof { assert(buf@.take(b + 1) == buf@.take(b as int).push(buf@[b as int])); }
            b = b + 1;
        }
        let start: usize = off + buf.len();
        proof {
            assert(buf@.take(buf@.len() as int) == buf@);
        }
        if start < data.len() {
            let mut t: usize = start;
            while t < data.len()
                invariant
                    start <= t <= data@.len(),
                    out@ == data@.take(off as int) + buf@ + data@.subrange(start as int, t as int),
                decreases data@.len() - t,
            {
                out.push(data[t]);
                proof {
                    assert(data@.subrange(start as int, t + 1) == data@.subrange(start as int, t as int).push(data@[t as int]));
                }
                t = t + 1;
            }
            proof {
                assert(data@.subrange(start as int, data@.len() as int) == data@.skip(start as int));
                assert(out@ =~= spec_write_at(data@, buf@, off as int));
            }
        } else {
            proof {
                if start == data@.len() {
                    assert(data@.skip(start as int) =~= Seq::<u8>::empty());
                }
                assert(out@ =~= spec_write_at(data@, buf@, off as int));
            }
        }
        self.files.insert(i, (k, out));
        proof {
            assert(self.files@ =~= before.update(i as int, self.files@[i as int]));
            Self::lemma_replace(before, self.files@, i as int);
        }
        Ok(())
    }

    /// Truncates or extends the file, updating its size to become `size`;
    /// new bytes are zero.
    pub fn set_len(&mut self, file: &File, size: u64)
        requires
            old(self).wf(),
            old(self).spec_file(file.path@) is Some,
            size <= usize::MAX,
        ensures
            final(self).wf(),
            final(self).spec_file(file.path@) == Some(spec_resize(old(self).spec_file(file.path@)->0, size as int)),
            forall|p: Seq<char>| p != file.path@ ==> final(self).spec_file(p) == old(self).spec_file(p),
    {
        let i = self.find(&file.path).unwrap();
        let ghost before = self.files@;
        let (k, mut data) = self.files.remove(i);
        let ghost d0 = data@;
        let n = size as usize;
        if n <= data.len() {
            data.truncate(n);
        } else {
            while data.len() < n
                invariant
                    d0.len() <= data@.len() <= n,
                    data@ == d0 + Seq::new((data@.len() - d0.len()) as nat, |i: int| 0u8),
                decreases n - data@.len(),
            {
                let ghost prev = data@;
                data.push(0u8);
                proof {
                    assert(data@ =~= d0 + Seq::new((data@.len() - d0.len()) as nat, |i: int| 0u8));
                }
            }
        }
        proof {
            assert(data@ =~= spec_resize(d0, size as int));
        }
        self.files.insert(i, (k, data));
        proof {
            assert(self.files@ =~= before.update(i as int, self.files@[i as int]));
            Self::lemma_replace(before, self.files@, i as int);
        }
    }

    /// Queries metadata about an open file.
    pub fn file_metadata(&self, file: &File) -> (m: Metadata)
        requires
            self.wf(),
            self.spec_file(file.path@) is Some,
        ensures
            m.spec_len() == self.spec_file(file.path@)->0.len(),
    {
        let i = self.find(&file.path).unwrap();
        Metadata { len: self.files[i].1.len() as u64 }
    }

    /// Reads the entire contents of the file at `path`.
    pub fn read(&self, path: &str) -> (r: Result<Vec<u8>, FsError>)
        requires
            self.wf(),
        ensures
            match self.spec_file(path@) {
                Some(d) => r matches Ok(v) && v@ == d,
                None => r == Err::<Vec<u8>, FsError>(FsError::NotFound),
            },
    {
        let p = path.to_owned();
        match self.find(&p) {
            Some(i) => {
                let data = &self.files[i].1;
                let mut out: Vec<u8> = Vec::new();
                let mut k: usize = 0;
                while k < data.len()
                    invariant
                        k <= data@.len(),
                        out@ == data@.take(k as int),
                    decreases data@.len() - k,
                {
                    out.push(data[k]);
                    proof { assert(data@.take(k + 1) == data@.take(k as int).push(data@[k as int])); }
                    k = k + 1;
                }
                proof { assert(data@.take(data@.len() as int) == data@); }
                Ok(out)
            },
            None => Err(FsError::NotFound),
        }
    }
}

/// File system simulator: one file system per node.
pub struct FsSim {
    nodes: Vec<(u64, FsNode)>,
}

impl FsSim {
    /// The file system of node `id`, if the node exists.
    pub closed spec fn spec_node(&self, id: u64) -> Option<FsNode> {
        assoc_get(self.nodes@, id)
    }

    /// The invariant: one file system per node, each well-formed.
    pub closed spec fn wf(&self) -> bool {
        &&& assoc_unique(self.nodes@)
        &&& forall|i: int| 0 <= i < self.nodes@.len() ==> (#[trigger] self.nodes@[i]).1.wf()
    }

    /// A simulator with no node.
    pub fn new() -> (f: FsSim)
        ensures
            f.wf(),
            forall|id: u64| f.spec_node(id) is None,
    {
        FsSim { nodes: Vec::new() }
    }

    /// Gives node `id` an empty file system, replacing any it had.
    pub fn create_node(&mut self, id: u64)
        requires
            old(self).wf(),
        ensures
            final(self).wf(),
            final(self).spec_node(id) matches Some(n) && forall|p: Seq<char>| n.spec_file(p) is None,
            forall|k: u64| k != id ==> final(self).spec_node(k) == old(self).spec_node(k),
    {
        let fresh = FsNode::new();
        match find_u64(&self.nodes, id) {
            Some(i) => {
                let ghost before = self.nodes@;
                self.nodes.set(i, (id, fresh));
                proof {
                    lemma_assoc_update(before, i as int, fresh);
                    assert forall|j: int| 0 <= j < self.nodes@.len() implies (#[trigger] self.nodes@[j]).1.wf() by {
                        if j != i { assert(self.nodes@[j] == before[j]); }
                    }
                }
            },
            None => {
                let ghost before = self.nodes@;
                proof { lemma_assoc_push(before, id, fresh); }
                self.nodes.push((id, fresh));
                proof {
                    assert forall|j: int| 0 <= j < self.nodes@.len() implies (#[trigger] self.nodes@[j]).1.wf() by {
                        if j < before.len() { assert(self.nodes@[j] == before[j]); }
                    }
                }
            },
        }
    }

    /// Simulate a power failure: nothing is lost yet, as writes are not buffered.
    pub fn power_fail(&mut self, id: u64)
        ensures
            forall|k: u64| final(self).spec_node(k) == old(self).spec_node(k),
            final(self).wf() == old(self).wf(),
    {
    }

    /// Get the size of the file at `path` on node `node`. The node must exist.
    pub fn get_file_size(&self, node: u64, path: &str) -> (r: Result<u64, FsError>)
        requires
            self.wf(),
            self.spec_node(node) is Some,
        ensures
            match self.spec_node(node)->0.spec_file(path@) {
                Some(d) => r == Ok::<u64, FsError>(d.len() as u64),
                None => r == Err::<u64, FsError>(FsError::NotFound),
            },
    {
        let i = find_u64(&self.nodes, node).unwrap();
        assert(self.nodes@[i as int].1.wf());
        match self.nodes[i].1.metadata(path) {
            Ok(m) => Ok(m.len()),
            Err(e) => Err(e),
        }
    }
}

} // verus!
