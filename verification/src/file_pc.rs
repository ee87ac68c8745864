//! The file directory: named byte payloads with opportunistic whole-file
//! compression, served back through a seek-and-read cursor, and the
//! marker-based encoding that lays the directory out as one record
//! stream.

use std::io::Read;
use std::io::Write;
use vstd::prelude::*;
use vstd::utf8::encode_utf8;
use vstd::string::StrSliceExecFns;
use vstd::string::StringSliceAdditionalSpecFns;
use crate::mon_field::GameSerializer;
use crate::box_mon::{BoxMon, mon_bits, lemma_mon_decode_total, lemma_mon_bits_injective};
use crate::marker_mon::{MarkerMon, marker_bits, marker_padding, marker_compressed,
    marker_name_bits, lemma_marker_bits_injective};
use crate::store::chunk_padded;
use crate::BoxMonBitVec;
use crate::{bytes_to_bits, bits_to_bytes, zero_bits, nat_to_bits, bits_to_nat};
use crate::{lemma_bytes_to_bits_len, lemma_nat_to_bits_of_bits};

verus! {

/// What the zlib decoder yields for a byte sequence: the stream's
/// decoded payload, or nothing for an invalid stream. The compression
/// format fixes this outcome, so it is a function of the bytes alone.
pub uninterp spec fn unzlib_of(data: Seq<u8>) -> Option<Seq<u8>>;

/// Relies on flate2's `ZlibEncoder` at `Compression::best()`: whatever
/// stream it emits, decoding that stream yields the input again. (The
/// emitted bytes themselves may depend on the backend the build
/// selects, so nothing more is claimed of them.)
#[verifier::external_body]
fn zlib_compress(data: &Vec<u8>) -> (r: Vec<u8>)
    ensures
        unzlib_of(r@) == Some(data@),
{
    let mut e = flate2::write::ZlibEncoder::new(Vec::new(), flate2::Compression::best());
    e.write_all(data.as_slice()).unwrap();
    e.finish().unwrap()
}

/// Relies on flate2's `ZlibDecoder`: what it yields, or that it fails,
/// depends on the input bytes alone.
#[verifier::external_body]
fn zlib_decompress(data: &Vec<u8>) -> (r: Option<Vec<u8>>)
    ensures
        match r {
            Some(v) => unzlib_of(data@) == Some(v@),
            None => unzlib_of(data@) is None,
        },
{
    let mut d = flate2::read::ZlibDecoder::new(data.as_slice());
    let mut out: Vec<u8> = Vec::new();
    match d.read_to_end(&mut out) {
        Ok(_) => Some(out),
        Err(_) => None,
    }
}

/// A byte-for-byte copy of a payload.
fn copy_bytes(v: &Vec<u8>) -> (r: Vec<u8>)
    ensures
        r@ == v@,
{
    let mut out: Vec<u8> = Vec::new();
    let mut i: usize = 0;
    while i < v.len()
        invariant
            0 <= i <= v@.len(),
            out@ =~= v@.take(i as int),
        decreases v@.len() - i,
    {
        out.push(v[i]);
        proof {
            assert(v@.take(i as int).push(v@[i as int]) =~= v@.take(i + 1));
        }
        i = i + 1;
    }
    proof {
        assert(v@.take(v@.len() as int) =~= v@);
    }
    out
}

/// Failures while adding a file to the directory.
#[derive(Debug, Clone, Copy, PartialEq, Eq, Structural)]
pub enum AddFileError {
    /// The name does not fit in a marker's seven name bytes.
    FilenameTooLong,
    /// The name is empty, holds a zero byte (which the marker's
    /// zero-padded name field could not tell apart from its padding),
    /// or is not plain ASCII.
    InvalidFilename,
    /// A file of that name is already stored.
    DuplicateFileName,
    /// The file would not fit in the record store.
    CapacityExceeded,
}

/// Failures while seeking or reading.
#[derive(Debug, Clone, Copy, PartialEq, Eq, Structural)]
pub enum FilePcError {
    /// No stored file bears the requested name.
    FileNotFound,
    /// A stored payload's compressed bytes do not decode.
    ArchiveCorrupt,
}

/// One stored file: its name, an attribute byte whose lowest bit is the
/// compression flag, and the stored (possibly compressed) bytes.
#[derive(Debug)]
pub struct PcFile {
    pub name: String,
    pub attributes: u8,
    pub data: Vec<u8>,
}

/// The stored name's bytes.
pub open spec fn file_name_bytes(f: PcFile) -> Seq<u8> {
    encode_utf8(f.name@)
}

/// The payload a stored file denotes: its bytes inflated when the
/// compression flag is set, nothing if they do not decode.
pub open spec fn file_content(f: PcFile) -> Option<Seq<u8>> {
    if f.attributes & 0x01 == 0x01 {
        unzlib_of(f.data@)
    } else {
        Some(f.data@)
    }
}

impl PcFile {
    /// Whether the stored bytes are compressed.
    pub open spec fn spec_is_compressed(self) -> bool {
        self.attributes & 0x01 == 0x01
    }

    /// Stores a payload under a name, compressing it exactly when the
    /// compressed form came out strictly smaller than the raw bytes:
    /// the stored bytes never exceed the payload, and an uncompressed
    /// file holds the payload verbatim.
    pub fn new(name: &str, data: &Vec<u8>) -> (r: PcFile)
        ensures
            r.name@ == name@,
            file_content(r) == Some(data@),
            r.spec_is_compressed() ==> r.data@.len() < data@.len(),
            !r.spec_is_compressed() ==> r.data@ == data@,
            r.data@.len() <= data@.len(),
            r.attributes == 0 || r.attributes == 1,
    {
        let compressed_data = zlib_compress(data);
        let compressed = compressed_data.len() < data.len();
        let stored = if compressed {
            compressed_data
        } else {
            copy_bytes(data)
        };
        let attributes: u8 = if compressed {
            0x01
        } else {
            0x00
        };
        proof {
            assert(1u8 & 0x01 == 0x01 && 0u8 & 0x01 == 0u8) by (bit_vector);
        }
        PcFile { name: String::from_str(name), attributes, data: stored }
    }

    /// Whether the stored bytes are compressed.
    pub fn is_compressed(&self) -> (r: bool)
        ensures
            r == self.spec_is_compressed(),
    {
        self.attributes & 0x01 == 0x01
    }

    /// The file's payload, inflated if it was stored compressed.
    pub fn get_data(&self) -> (r: Result<Vec<u8>, FilePcError>)
        ensures
            match r {
                Ok(v) => file_content(*self) == Some(v@),
                Err(e) => e == FilePcError::ArchiveCorrupt && file_content(*self) is None,
            },
    {
        if self.is_compressed() {
            match zlib_decompress(&self.data) {
                Some(v) => Ok(v),
                None => Err(FilePcError::ArchiveCorrupt),
            }
        } else {
            Ok(copy_bytes(&self.data))
        }
    }
}

/// Records one file occupies in the store: its marker plus its data
/// records.
pub open spec fn file_records(f: PcFile) -> int {
    1 + (8 * f.data@.len() as int + 67) / 68
}

/// Records a whole directory occupies.
pub open spec fn total_records(files: Seq<PcFile>) -> int
    decreases files.len(),
{
    if files.len() == 0 {
        0
    } else {
        file_records(files[0]) + total_records(files.skip(1))
    }
}

pub proof fn lemma_total_records_push(files: Seq<PcFile>, f: PcFile)
    ensures
        total_records(files.push(f)) == total_records(files) + file_records(f),
    decreases files.len(),
{
    if files.len() == 0 {
        assert(files.push(f) =~= seq![f]);
        assert(seq![f].skip(1) =~= Seq::<PcFile>::empty());
        assert(total_records(Seq::<PcFile>::empty()) == 0);
        assert(total_records(seq![f]) == file_records(f) + total_records(
            Seq::<PcFile>::empty(),
        ));
        assert(total_records(files) == 0);
    } else {
        assert(files.push(f)[0] == files[0]);
        assert(files.push(f).skip(1) =~= files.skip(1).push(f));
        lemma_total_records_push(files.skip(1), f);
        assert(total_records(files.push(f)) == file_records(files[0]) + total_records(
            files.skip(1).push(f),
        ));
        assert(total_records(files) == file_records(files[0]) + total_records(files.skip(1)));
    }
}

pub proof fn lemma_total_records_nonneg(files: Seq<PcFile>)
    ensures
        total_records(files) >= 0,
    decreases files.len(),
{
    if files.len() > 0 {
        lemma_total_records_nonneg(files.skip(1));
    }
}

/// The first stored file bearing a name, if any.
pub open spec fn find_file(files: Seq<PcFile>, name: Seq<char>) -> Option<int>
    decreases files.len(),
{
    if files.len() == 0 {
        None
    } else if files[0].name@ == name {
        Some(0)
    } else {
        match find_file(files.skip(1), name) {
            Some(i) => Some(i + 1),
            None => None,
        }
    }
}

pub proof fn lemma_find_file(files: Seq<PcFile>, name: Seq<char>)
    ensures
        match find_file(files, name) {
            Some(i) => 0 <= i < files.len() && files[i].name@ == name && forall|j: int|
                0 <= j < i ==> (#[trigger] files[j]).name@ != name,
            None => forall|j: int| 0 <= j < files.len() ==> (#[trigger] files[j]).name@ != name,
        },
    decreases files.len(),
{
    if files.len() > 0 {
        lemma_find_file(files.skip(1), name);
        assert(forall|j: int| 0 <= j < files.skip(1).len() ==> files.skip(1)[j] == (
        #[trigger] files[j + 1]));
        if files[0].name@ == name {
        } else {
            match find_file(files.skip(1), name) {
                Some(i) => {
                    assert(find_file(files, name) == Some(i + 1));
                    assert forall|j: int| 0 <= j < i + 1 implies (#[trigger] files[j]).name@
                        != name by {
                        if j > 0 {
                            assert(files.skip(1)[j - 1].name@ != name);
                        }
                    }
                },
                None => {
                    assert forall|j: int| 0 <= j < files.len() implies (#[trigger] files[j]).name@
                        != name by {
                        if j > 0 {
                            assert(files.skip(1)[j - 1].name@ != name);
                        }
                    }
                },
            }
        }
    }
}

/// The file directory with its read cursor: which file a seek selected
/// and how many of its payload bytes have been served.
#[derive(Debug)]
pub struct FilePc {
    pub files: Vec<PcFile>,
    pub current_file: Option<usize>,
    pub file_read_offset: usize,
}

/// A storable file: its name is one to seven non-zero ASCII bytes, so
/// it fits a marker's zero-padded name field and survives the trip
/// through it, and its attribute byte only carries the compression
/// flag.
pub open spec fn file_wf(f: PcFile) -> bool {
    &&& 1 <= file_name_bytes(f).len() <= 7
    &&& forall|t: int|
        0 <= t < file_name_bytes(f).len() ==> {
            &&& file_name_bytes(f)[t] != 0
            &&& file_name_bytes(f)[t] < 128
        }
    &&& vstd::utf8::is_ascii_chars(f.name@)
    &&& f.attributes <= 1
}

/// A storable directory: every file storable, names distinct, and the
/// whole of it within the record store's capacity.
pub open spec fn files_wf(files: Seq<PcFile>) -> bool {
    &&& forall|i: int| 0 <= i < files.len() ==> file_wf(#[trigger] files[i])
    &&& forall|i: int, j: int|
        0 <= i < j < files.len() ==> (#[trigger] files[i]).name@ != (#[trigger] files[j]).name@
    &&& total_records(files) <= 420
}

impl FilePc {
    /// Well-formedness: a storable directory whose seek state points at
    /// a stored file.
    pub open spec fn wf(self) -> bool {
        &&& files_wf(self.files@)
        &&& match self.current_file {
            Some(i) => i < self.files@.len(),
            None => true,
        }
    }

    /// An empty directory.
    pub fn new() -> (r: Self)
        ensures
            r.wf(),
            r.files@.len() == 0,
            r.current_file is None,
            r.file_read_offset == 0,
    {
        let r = FilePc { files: Vec::new(), current_file: None, file_read_offset: 0 };
        proof {
            assert(total_records(r.files@) == 0);
        }
        r
    }

    /// Validates a list of decoded files and wraps it as a directory
    /// positioned at the start. Accepted exactly when every file is
    /// storable, the names are distinct, and the whole of it fits the
    /// record store; so a directory rebuilt from untrusted bytes meets
    /// every invariant the other operations rely on.
    pub fn from_files(files: Vec<PcFile>) -> (r: Option<FilePc>)
        ensures
            r is Some <==> files_wf(files@),
            match r {
                Some(fp) => {
                    &&& fp.wf()
                    &&& fp.files@ == files@
                    &&& fp.current_file is None
                    &&& fp.file_read_offset == 0
                },
                None => true,
            },
    {
        let n = files.len();
        let mut i: usize = 0;
        while i < n
            invariant
                0 <= i <= n == files@.len(),
                forall|x: int| 0 <= x < i ==> file_wf(#[trigger] files@[x]),
                forall|x: int, y: int|
                    0 <= x < y < i ==> (#[trigger] files@[x]).name@ != (#[trigger] files@[y]).name@,
            decreases n - i,
        {
            let name_bytes = files[i].name.as_str().as_bytes_vec();
            if name_bytes.len() == 0 || name_bytes.len() > 7 {
                return None;
            }
            if !files[i].name.as_str().is_ascii() {
                return None;
            }
            proof {
                broadcast use vstd::utf8::is_ascii_chars_encode_utf8;

                assert(name_bytes@ == file_name_bytes(files@[i as int]));
                assert(forall|u: int| 0 <= u < name_bytes@.len() ==> name_bytes@[u] < 128);
            }
            let mut t: usize = 0;
            while t < name_bytes.len()
                invariant
                    0 <= t <= name_bytes@.len(),
                    i < files@.len(),
                    name_bytes@ == file_name_bytes(files@[i as int]),
                    forall|u: int| 0 <= u < t ==> name_bytes@[u] != 0,
                decreases name_bytes@.len() - t,
            {
                if name_bytes[t] == 0 {
                    return None;
                }
                t = t + 1;
            }
            if files[i].attributes > 1 {
                return None;
            }
            let mut j: usize = 0;
            while j < i
                invariant
                    0 <= j <= i < files@.len(),
                    forall|x: int|
                        0 <= x < j ==> (#[trigger] files@[x]).name@ != files@[i as int].name@,
                decreases i - j,
            {
                if files[j].name == files[i].name {
                    return None;
                }
                j = j + 1;
            }
            proof {
                broadcast use vstd::utf8::is_ascii_chars_encode_utf8;

                assert(file_wf(files@[i as int]));
                assert forall|x: int, y: int|
                    0 <= x < y < i + 1 implies (#[trigger] files@[x]).name@ != (
                #[trigger] files@[y]).name@ by {
                    if y == i {
                        assert(files@[x].name@ != files@[i as int].name@);
                    }
                }
            }
            i = i + 1;
        }
        let mut sum: usize = 0;
        let mut k: usize = 0;
        proof {
            assert(total_records(files@.take(0)) == 0);
        }
        while k < n
            invariant
                0 <= k <= n == files@.len(),
                forall|x: int| 0 <= x < n ==> file_wf(#[trigger] files@[x]),
                forall|x: int, y: int|
                    0 <= x < y < n ==> (#[trigger] files@[x]).name@ != (#[trigger] files@[y]).name@,
                sum == total_records(files@.take(k as int)),
                sum <= 420,
            decreases n - k,
        {
            let dl = files[k].data.len();
            if dl > 3562 {
                proof {
                    lemma_total_records_elem(files@, k as int);
                    assert((8 * files@[k as int].data@.len() as int + 67) / 68 > 419)
                        by (nonlinear_arith)
                        requires
                            files@[k as int].data@.len() > 3562,
                    ;
                }
                return None;
            }
            let fr = 1 + (8 * dl + 67) / 68;
            proof {
                lemma_total_records_push(files@.take(k as int), files@[k as int]);
                assert(files@.take(k as int).push(files@[k as int]) =~= files@.take(k + 1));
                lemma_total_records_prefix_bound(files@, k + 1);
            }
            if sum + fr > 420 {
                return None;
            }
            sum = sum + fr;
            k = k + 1;
        }
        proof {
            assert(files@.take(n as int) =~= files@);
        }
        Some(FilePc { files, current_file: None, file_read_offset: 0 })
    }

    /// Stores a payload under a name at the end of the directory,
    /// compressing it when the compressed form came out strictly
    /// smaller. Rejects, in this order and without mutation: a name
    /// over seven bytes; an empty name, one with a zero byte, or one
    /// that is not plain ASCII; a name already stored; and a file that
    /// would overflow the store.
    pub fn add_file_raw(&mut self, name: &str, data: &Vec<u8>) -> (r: Result<(), AddFileError>)
        requires
            old(self).wf(),
        ensures
            final(self).wf(),
            final(self).current_file == old(self).current_file,
            final(self).file_read_offset == old(self).file_read_offset,
            match r {
                Ok(()) => {
                    &&& name.spec_bytes().len() <= 7
                    &&& name.spec_bytes().len() >= 1
                    &&& (forall|t: int|
                        0 <= t < name.spec_bytes().len() ==> name.spec_bytes()[t] != 0
                            && name.spec_bytes()[t] < 128)
                    &&& find_file(old(self).files@, name@) is None
                    &&& final(self).files@.len() == old(self).files@.len() + 1
                    &&& final(self).files@.take(old(self).files@.len() as int) == old(self).files@
                    &&& {
                        let f = final(self).files@.last();
                        &&& f.name@ == name@
                        &&& file_content(f) == Some(data@)
                        &&& (f.spec_is_compressed() ==> f.data@.len() < data@.len())
                        &&& (!f.spec_is_compressed() ==> f.data@ == data@)
                    }
                    &&& total_records(final(self).files@) <= 420
                },
                Err(AddFileError::FilenameTooLong) => {
                    &&& name.spec_bytes().len() > 7
                    &&& *final(self) == *old(self)
                },
                Err(AddFileError::InvalidFilename) => {
                    &&& name.spec_bytes().len() <= 7
                    &&& (name.spec_bytes().len() == 0 || !vstd::utf8::is_ascii_chars(name@)
                        || exists|t: int|
                        0 <= t < name.spec_bytes().len() && name.spec_bytes()[t] == 0)
                    &&& *final(self) == *old(self)
                },
                Err(AddFileError::DuplicateFileName) => {
                    &&& find_file(old(self).files@, name@) is Some
                    &&& *final(self) == *old(self)
                },
                Err(AddFileError::CapacityExceeded) => {
                    &&& total_records(old(self).files@) + 1 + (8 * data@.len() as int + 67) / 68
                        > 420
                    &&& *final(self) == *old(self)
                },
            },
    {
        let name_bytes = name.as_bytes_vec();
        if name_bytes.len() > 7 {
            return Err(AddFileError::FilenameTooLong);
        }
        if name_bytes.len() == 0 {
            return Err(AddFileError::InvalidFilename);
        }
        if !name.is_ascii() {
            return Err(AddFileError::InvalidFilename);
        }
        proof {
            broadcast use vstd::utf8::is_ascii_chars_encode_utf8;

            assert(forall|u: int| 0 <= u < name@.len() ==> name.spec_bytes()[u] == name@[u] as u8);
        }
        let mut t: usize = 0;
        while t < name_bytes.len()
            invariant
                0 <= t <= name_bytes@.len(),
                name_bytes@ == name.spec_bytes(),
                name_bytes@.len() <= 7,
                vstd::utf8::is_ascii_chars(name@),
                forall|u: int| 0 <= u < name_bytes@.len() ==> name_bytes@[u] < 128,
                forall|u: int| 0 <= u < t ==> name_bytes@[u] != 0,
                *self == *old(self),
                old(self).wf(),
            decreases name_bytes@.len() - t,
        {
            if name_bytes[t] == 0 {
                return Err(AddFileError::InvalidFilename);
            }
            t = t + 1;
        }
        let name_string = String::from_str(name);
        let mut i: usize = 0;
        while i < self.files.len()
            invariant
                0 <= i <= self.files@.len(),
                name_string@ == name@,
                forall|j: int| 0 <= j < i ==> (#[trigger] self.files@[j]).name@ != name@,
                *self == *old(self),
                old(self).wf(),
            decreases self.files@.len() - i,
        {
            if self.files[i].name == name_string {
                proof {
                    lemma_find_file_found(self.files@, name@, i as int);
                }
                return Err(AddFileError::DuplicateFileName);
            }
            i = i + 1;
        }
        proof {
            lemma_find_file_none(self.files@, name@);
        }
        let f = PcFile::new(name, data);
        proof {
            vstd::arithmetic::div_mod::lemma_div_is_ordered(
                8 * f.data@.len() as int + 67,
                8 * data@.len() as int + 67,
                68,
            );
        }
        if f.data.len() > 3562 {
            proof {
                lemma_total_records_nonneg(self.files@);
                assert((8 * f.data@.len() + 67) / 68 > 419) by (nonlinear_arith)
                    requires
                        f.data@.len() > 3562,
                ;
            }
            return Err(AddFileError::CapacityExceeded);
        }
        let new_records = 1 + (8 * f.data.len() + 67) / 68;
        let current = self.total_records_exec();
        if current + new_records > 420 {
            return Err(AddFileError::CapacityExceeded);
        }
        proof {
            lemma_total_records_push(self.files@, f);
        }
        let ghost old_files = self.files@;
        self.files.push(f);
        proof {
            assert(self.files@.take(old_files.len() as int) =~= old_files);
            assert forall|a: int, b: int|
                0 <= a < b < self.files@.len() implies (#[trigger] self.files@[a]).name@ != (
            #[trigger] self.files@[b]).name@ by {
                if b == self.files@.len() - 1 {
                    assert(self.files@[a].name@ != name@);
                }
            }
            assert forall|a: int| 0 <= a < self.files@.len() implies file_wf(
                #[trigger] self.files@[a],
            ) by {
                if a < old_files.len() {
                    assert(self.files@[a] == old_files[a]);
                } else {
                    assert(self.files@[a] == f);
                    assert(file_name_bytes(f) == name.spec_bytes());
                }
            }
        }
        Ok(())
    }

    /// How many records the directory occupies.
    fn total_records_exec(&self) -> (r: usize)
        requires
            self.wf(),
        ensures
            r == total_records(self.files@),
    {
        proof {
            lemma_total_records_nonneg(self.files@);
        }
        let mut sum: usize = 0;
        let mut i: usize = 0;
        while i < self.files.len()
            invariant
                0 <= i <= self.files@.len(),
                self.wf(),
                sum == total_records(self.files@.take(i as int)),
                sum <= 420,
            decreases self.files@.len() - i,
        {
            proof {
                lemma_total_records_push(self.files@.take(i as int), self.files@[i as int]);
                assert(self.files@.take(i as int).push(self.files@[i as int]) =~= self.files@.take(
                    i + 1,
                ));
                lemma_total_records_prefix_bound(self.files@, i + 1);
                lemma_records_fit(self.files@[i as int]);
            }
            let f_len = self.files[i].data.len();
            sum = sum + (1 + (8 * f_len + 67) / 68);
            i = i + 1;
        }
        proof {
            assert(self.files@.take(self.files@.len() as int) =~= self.files@);
        }
        sum
    }

    /// The stored file names, in storage order.
    pub fn list_files(&self) -> (r: Vec<String>)
        ensures
            r@.len() == self.files@.len(),
            forall|i: int| 0 <= i < r@.len() ==> (#[trigger] r@[i])@ == self.files@[i].name@,
    {
        let mut out: Vec<String> = Vec::new();
        let mut i: usize = 0;
        while i < self.files.len()
            invariant
                0 <= i <= self.files@.len(),
                out@.len() == i,
                forall|j: int| 0 <= j < i ==> (#[trigger] out@[j])@ == self.files@[j].name@,
            decreases self.files@.len() - i,
        {
            out.push(self.files[i].name.clone());
            i = i + 1;
        }
        out
    }

    /// Selects the first stored file bearing a name and rewinds the
    /// read cursor to its start. Fails, leaving the cursor alone, when
    /// no stored file matches.
    pub fn seek_file(&mut self, name: &str) -> (r: Result<(), FilePcError>)
        requires
            old(self).wf(),
        ensures
            final(self).wf(),
            final(self).files@ == old(self).files@,
            match r {
                Ok(()) => {
                    &&& find_file(old(self).files@, name@) matches Some(i)
                    &&& final(self).current_file == Some(find_file(old(self).files@, name@)->Some_0
                        as usize)
                    &&& final(self).file_read_offset == 0
                },
                Err(e) => {
                    &&& e == FilePcError::FileNotFound
                    &&& find_file(old(self).files@, name@) is None
                    &&& *final(self) == *old(self)
                },
            },
    {
        let name_string = String::from_str(name);
        let mut i: usize = 0;
        while i < self.files.len()
            invariant
                0 <= i <= self.files@.len(),
                self.wf(),
                old(self).wf(),
                name_string@ == name@,
                forall|j: int| 0 <= j < i ==> (#[trigger] self.files@[j]).name@ != name@,
                *self == *old(self),
            decreases self.files@.len() - i,
        {
            if self.files[i].name == name_string {
                proof {
                    lemma_find_file_found(self.files@, name@, i as int);
                }
                self.current_file = Some(i);
                self.file_read_offset = 0;
                return Ok(());
            }
            i = i + 1;
        }
        proof {
            lemma_find_file_none(self.files@, name@);
        }
        Err(FilePcError::FileNotFound)
    }

    /// Serves the selected file's payload from the cursor on: as many
    /// bytes as fit and remain, decompressed transparently. Returns 0
    /// before any successful seek and after the payload is exhausted;
    /// fails only when the stored bytes do not decode.
    pub fn read(&mut self, buf: &mut Vec<u8>) -> (r: Result<usize, FilePcError>)
        requires
            old(self).wf(),
        ensures
            final(self).wf(),
            final(self).files@ == old(self).files@,
            final(self).current_file == old(self).current_file,
            final(buf)@.len() == old(buf)@.len(),
            match r {
                Ok(n) => match old(self).current_file {
                    None => {
                        &&& n == 0
                        &&& *final(self) == *old(self)
                        &&& final(buf)@ == old(buf)@
                    },
                    Some(i) => {
                        &&& file_content(old(self).files@[i as int]) matches Some(content)
                        &&& n == vstd::math::min(
                            old(buf)@.len() as int,
                            vstd::math::max(
                                0,
                                file_content(old(self).files@[i as int])->Some_0.len() as int - old(
                                    self,
                                ).file_read_offset,
                            ),
                        )
                        &&& (forall|t: int|
                            0 <= t < n ==> #[trigger] final(buf)@[t] == file_content(
                                old(self).files@[i as int],
                            )->Some_0[old(self).file_read_offset + t])
                        &&& (forall|t: int|
                            n <= t < final(buf)@.len() ==> #[trigger] final(buf)@[t] == old(buf)@[t])
                        &&& final(self).file_read_offset == old(self).file_read_offset + n
                    },
                },
                Err(e) => {
                    &&& e == FilePcError::ArchiveCorrupt
                    &&& old(self).current_file matches Some(i)
                    &&& file_content(old(self).files@[old(self).current_file->Some_0 as int]) is None
                    &&& *final(self) == *old(self)
                    &&& final(buf)@ == old(buf)@
                },
            },
    {
        let i = match self.current_file {
            Some(i) => i,
            None => {
                return Ok(0);
            },
        };
        let content = match self.files[i].get_data() {
            Ok(c) => c,
            Err(e) => {
                return Err(e);
            },
        };
        let offset = self.file_read_offset;
        let rem = if offset >= content.len() {
            0
        } else {
            content.len() - offset
        };
        let n = if buf.len() < rem {
            buf.len()
        } else {
            rem
        };
        let clen = content.len();
        let mut t: usize = 0;
        while t < n
            invariant
                0 <= t <= n,
                n <= buf@.len(),
                content@.len() == clen,
                n == 0 || offset + n <= clen,
                buf@.len() == old(buf)@.len(),
                *self == *old(self),
                old(self).wf(),
                forall|u: int| 0 <= u < t ==> #[trigger] buf@[u] == content@[offset + u],
                forall|u: int| t <= u < buf@.len() ==> #[trigger] buf@[u] == old(buf)@[u],
            decreases n - t,
        {
            vstd::pervasive::VecAdditionalExecFns::set(buf, t, content[offset + t]);
            t = t + 1;
        }
        self.file_read_offset = offset + n;
        Ok(n)
    }
}

/// A scanned exact match is the first match.
proof fn lemma_find_file_found(files: Seq<PcFile>, name: Seq<char>, i: int)
    requires
        0 <= i < files.len(),
        files[i].name@ == name,
        forall|j: int| 0 <= j < i ==> (#[trigger] files[j]).name@ != name,
    ensures
        find_file(files, name) == Some(i),
    decreases i,
{
    if i == 0 {
    } else {
        assert(forall|j: int|
            0 <= j < i - 1 ==> files.skip(1)[j] == (#[trigger] files[j + 1]));
        lemma_find_file_found(files.skip(1), name, i - 1);
    }
}

/// A full scan without a match means no file bears the name.
proof fn lemma_find_file_none(files: Seq<PcFile>, name: Seq<char>)
    requires
        forall|j: int| 0 <= j < files.len() ==> (#[trigger] files[j]).name@ != name,
    ensures
        find_file(files, name) is None,
    decreases files.len(),
{
    if files.len() > 0 {
        assert(forall|j: int|
            0 <= j < files.len() - 1 ==> files.skip(1)[j] == (#[trigger] files[j + 1]));
        lemma_find_file_none(files.skip(1), name);
    }
}

/// Any prefix of a directory occupies no more records than the whole.
proof fn lemma_total_records_prefix_bound(files: Seq<PcFile>, i: int)
    requires
        0 <= i <= files.len(),
    ensures
        total_records(files.take(i)) <= total_records(files),
    decreases files.len() - i,
{
    if i < files.len() {
        lemma_total_records_push(files.take(i), files[i]);
        assert(files.take(i).push(files[i]) =~= files.take(i + 1));
        lemma_total_records_prefix_bound(files, i + 1);
        lemma_records_fit(files[i]);
    } else {
        assert(files.take(i) =~= files);
    }
}

/// One file occupies at least one record.
proof fn lemma_records_fit(f: PcFile)
    ensures
        file_records(f) >= 1,
{
}


/// One slot of the directory's record stream: a marker opening a
/// file's run, or one of the data records that follow it.
#[derive(Debug, Clone, Copy)]
pub enum FileSlot {
    Marker(MarkerMon),
    Data(BoxMon),
}

/// The padding of a file's final data record: the filler bits needed
/// to reach a whole record.
pub open spec fn file_padding(f: PcFile) -> int {
    (68 - (8 * f.data@.len() as int % 68)) % 68
}

/// How many data records a file's stored bytes occupy.
pub open spec fn file_data_count(f: PcFile) -> int {
    (8 * f.data@.len() as int + 67) / 68
}

/// The 66-bit pattern of the marker that opens a file's run: the name
/// bytes zero-padded to seven, a filler bit, the padding amount in
/// seven bits, a filler bit, and the compression flag.
pub open spec fn file_marker_bits(f: PcFile) -> Seq<bool> {
    bytes_to_bits(file_name_bytes(f)) + zero_bits((56 - 8 * file_name_bytes(f).len()) as nat)
        + seq![false] + nat_to_bits(7, file_padding(f) as nat) + seq![false] + seq![
        f.attributes & 0x01 == 0x01,
    ]
}

/// The record a 68-bit pattern denotes.
pub open spec fn mon_of_bits(s: Seq<bool>) -> BoxMon {
    choose|m: BoxMon| mon_bits(m) == s
}

/// The marker a 66-bit pattern denotes.
pub open spec fn marker_of_bits(s: Seq<bool>) -> MarkerMon {
    choose|m: MarkerMon| marker_bits(m) == s
}

/// The record run that stores one file: its marker, then its data
/// records, each holding one zero-padded record-width chunk of the
/// stored bytes.
pub open spec fn slots_of_file(f: PcFile) -> Seq<FileSlot> {
    seq![FileSlot::Marker(marker_of_bits(file_marker_bits(f)))] + Seq::new(
        file_data_count(f) as nat,
        |j: int| FileSlot::Data(mon_of_bits(chunk_padded(bytes_to_bits(f.data@), 68, j))),
    )
}

/// The record stream that stores a whole directory: each file's run in
/// storage order.
pub open spec fn slots_of_files(files: Seq<PcFile>) -> Seq<FileSlot>
    decreases files.len(),
{
    if files.len() == 0 {
        Seq::empty()
    } else {
        slots_of_file(files[0]) + slots_of_files(files.skip(1))
    }
}

pub proof fn lemma_slots_of_files_push(files: Seq<PcFile>, f: PcFile)
    ensures
        slots_of_files(files.push(f)) =~= slots_of_files(files) + slots_of_file(f),
    decreases files.len(),
{
    if files.len() == 0 {
        assert(files.push(f) =~= seq![f]);
        assert(seq![f].skip(1) =~= Seq::<PcFile>::empty());
        assert(slots_of_files(seq![f]) == slots_of_file(f) + slots_of_files(
            Seq::<PcFile>::empty(),
        ));
        assert(slots_of_file(f) + Seq::<FileSlot>::empty() =~= slots_of_file(f));
        assert(slots_of_files(files) + slots_of_file(f) =~= slots_of_file(f));
    } else {
        assert(files.push(f)[0] == files[0]);
        assert(files.push(f).skip(1) =~= files.skip(1).push(f));
        lemma_slots_of_files_push(files.skip(1), f);
        assert(slots_of_files(files.push(f)) == slots_of_file(files[0]) + slots_of_files(
            files.skip(1).push(f),
        ));
        assert(slots_of_file(files[0]) + (slots_of_files(files.skip(1)) + slots_of_file(f)) =~= (
        slots_of_file(files[0]) + slots_of_files(files.skip(1))) + slots_of_file(f));
    }
}

/// The whole directory occupies at least as many records as any one of
/// its files.
proof fn lemma_total_records_elem(files: Seq<PcFile>, i: int)
    requires
        0 <= i < files.len(),
    ensures
        total_records(files) >= file_records(files[i]),
    decreases i,
{
    lemma_total_records_nonneg(files.skip(1));
    if i == 0 {
    } else {
        lemma_total_records_elem(files.skip(1), i - 1);
        assert(files.skip(1)[i - 1] == files[i]);
        lemma_records_fit(files[0]);
    }
}

/// Inside a store-sized directory, no file's stored bytes exceed what
/// 419 data records hold.
proof fn lemma_file_len_bound(files: Seq<PcFile>, i: int)
    requires
        0 <= i < files.len(),
        total_records(files) <= 420,
    ensures
        files[i].data@.len() <= 3561,
{
    lemma_total_records_elem(files, i);
    let a = 8 * files[i].data@.len() as int + 67;
    vstd::arithmetic::div_mod::lemma_fundamental_div_mod(a, 68);
    vstd::arithmetic::div_mod::lemma_mod_bound(a, 68);
    assert(a / 68 <= 419);
    assert(a == 68 * (a / 68) + a % 68);
    assert(68 * (a / 68) <= 68 * 419) by (nonlinear_arith)
        requires
            a / 68 <= 419,
    ;
}

impl FilePc {
    /// Lays the directory out as one record stream: each file's marker
    /// followed by its data records.
    pub fn to_slots(&self) -> (r: Vec<FileSlot>)
        requires
            self.wf(),
        ensures
            r@ == slots_of_files(self.files@),
    {
        let mut out: Vec<FileSlot> = Vec::new();
        let mut i: usize = 0;
        while i < self.files.len()
            invariant
                0 <= i <= self.files@.len(),
                self.wf(),
                out@ =~= slots_of_files(self.files@.take(i as int)),
            decreases self.files@.len() - i,
        {
            let ghost fv = self.files@[i as int];
            let f = &self.files[i];
            proof {
                lemma_file_len_bound(self.files@, i as int);
            }
            let data_len = f.data.len();
            let rem = (8 * data_len) % 68;
            let pad: usize = (68 - rem) % 68;
            let marker = match MarkerMon::new_starter_marker(
                f.name.as_str(),
                pad as u8,
                f.is_compressed(),
            ) {
                Ok(m) => m,
                Err(_) => {
                    proof {
                        assert(false);
                    }
                    MarkerMon {
                        gender: crate::mon_gender::BoxMonGender::Male,
                        name: crate::mon_name::BoxMonName::new(
                            [crate::mon_name::BoxMonCharacter::LowerA; 10],
                        ),
                        held_item: crate::mon_held_item::BoxMonHeldItem::Empty,
                    }
                },
            };
            proof {
                crate::marker_mon::lemma_marker_bits_len(marker);
                lemma_bytes_to_bits_len(file_name_bytes(fv));
                assert(marker_bits(marker).subrange(57, 64) =~= nat_to_bits(
                    7,
                    file_padding(fv) as nat,
                )) by {
                    lemma_nat_to_bits_of_bits(marker_bits(marker).subrange(57, 64));
                    assert(marker_padding(marker) == file_padding(fv));
                }
                assert(marker_bits(marker) =~= file_marker_bits(fv));
                let w = marker_of_bits(file_marker_bits(fv));
                lemma_marker_bits_injective(w, marker);
            }
            out.push(FileSlot::Marker(marker));
            let bits = BoxMonBitVec::new_from_raw(&f.data);
            let total = bits.0.len();
            let n = (total + 67) / 68;
            let mut j: usize = 0;
            proof {
                assert(Seq::new(file_data_count(fv) as nat, |t: int| FileSlot::Data(
                    mon_of_bits(chunk_padded(bytes_to_bits(fv.data@), 68, t)),
                )).take(0) =~= Seq::<FileSlot>::empty());
                assert(out@ =~= slots_of_files(self.files@.take(i as int)) + seq![
                    FileSlot::Marker(marker_of_bits(file_marker_bits(fv))),
                ]);
            }
            while j < n
                invariant
                    0 <= j <= n,
                    n == file_data_count(fv),
                    total == bits@.len(),
                    bits@ == bytes_to_bits(fv.data@),
                    total <= 68 * n < total + 68,
                    n <= 420,
                    out@ =~= slots_of_files(self.files@.take(i as int)) + seq![
                        FileSlot::Marker(marker_of_bits(file_marker_bits(fv))),
                    ] + Seq::new(file_data_count(fv) as nat, |t: int| FileSlot::Data(
                        mon_of_bits(chunk_padded(bytes_to_bits(fv.data@), 68, t)),
                    )).take(j as int),
                decreases n - j,
            {
                let lo = j * 68;
                let hi = if (j + 1) * 68 <= total {
                    (j + 1) * 68
                } else {
                    total
                };
                let mut cbv = bits.chunk(lo, hi);
                while cbv.0.len() < 68
                    invariant
                        hi - lo <= cbv@.len() <= 68,
                        lo == j * 68,
                        lo <= hi <= bits@.len(),
                        cbv@.subrange(0, (hi - lo) as int) =~= bits@.subrange(
                            lo as int,
                            hi as int,
                        ),
                        forall|t: int| hi - lo <= t < cbv@.len() ==> cbv@[t] == false,
                    decreases 68 - cbv@.len(),
                {
                    cbv.0.push(false);
                }
                proof {
                    if (j + 1) * 68 <= total {
                        assert(cbv@ =~= chunk_padded(bits@, 68, j as int));
                    } else {
                        assert(cbv@ =~= bits@.subrange(lo as int, total as int) + zero_bits(
                            ((j + 1) * 68 - total) as nat,
                        ));
                        assert(cbv@ =~= chunk_padded(bits@, 68, j as int));
                    }
                    lemma_mon_decode_total(cbv@);
                    <BoxMon as GameSerializer>::lemma_decode_encode(cbv@);
                }
                let mon = match BoxMon::bits_to_game_value(&cbv) {
                    Ok(m) => m,
                    Err(_) => {
                        proof {
                            assert(false);
                        }
                        BoxMon {
                            species: crate::mon_species::BoxMonSpecies::POOCHYENA,
                            gender: crate::mon_gender::BoxMonGender::Male,
                            name: crate::mon_name::BoxMonName::new(
                                [crate::mon_name::BoxMonCharacter::LowerA; 10],
                            ),
                            held_item: crate::mon_held_item::BoxMonHeldItem::Empty,
                        }
                    },
                };
                proof {
                    assert(mon_bits(mon) == chunk_padded(bytes_to_bits(fv.data@), 68, j as int));
                    let w = mon_of_bits(chunk_padded(bytes_to_bits(fv.data@), 68, j as int));
                    lemma_mon_bits_injective(w, mon);
                    let recs = Seq::new(file_data_count(fv) as nat, |t: int| FileSlot::Data(
                        mon_of_bits(chunk_padded(bytes_to_bits(fv.data@), 68, t)),
                    ));
                    assert(recs.take(j as int).push(recs[j as int]) =~= recs.take(j as int + 1));
                }
                out.push(FileSlot::Data(mon));
                j = j + 1;
            }
            proof {
                let recs = Seq::new(file_data_count(fv) as nat, |t: int| FileSlot::Data(
                    mon_of_bits(chunk_padded(bytes_to_bits(fv.data@), 68, t)),
                ));
                assert(recs.take(n as int) =~= recs);
                assert(out@ =~= slots_of_files(self.files@.take(i as int)) + slots_of_file(fv));
                lemma_slots_of_files_push(self.files@.take(i as int), fv);
                assert(self.files@.take(i as int).push(fv) =~= self.files@.take(i as int + 1));
            }
            i = i + 1;
        }
        proof {
            assert(self.files@.take(self.files@.len() as int) =~= self.files@);
        }
        out
    }
}



/// The zero ordinal's bits are all zero.
pub proof fn lemma_zero_nat_bits(w: nat)
    ensures
        nat_to_bits(w, 0) =~= zero_bits(w),
    decreases w,
{
    if w > 0 {
        lemma_zero_nat_bits((w - 1) as nat);
        assert(nat_to_bits(w, 0) == seq![false] + nat_to_bits((w - 1) as nat, 0));
    }
}

/// Relies on String::from_utf8: for ASCII bytes it succeeds and yields
/// exactly those bytes' characters.
#[verifier::external_body]
fn string_from_ascii(v: Vec<u8>) -> (r: Option<String>)
    ensures
        (forall|i: int| 0 <= i < v@.len() ==> v@[i] < 128) ==> match r {
            Some(s) => s@.len() == v@.len() && forall|i: int|
                0 <= i < v@.len() ==> s@[i] == v@[i] as char,
            None => false,
        },
{
    match String::from_utf8(v) {
        Ok(s) => Some(s),
        Err(_) => None,
    }
}

/// Whether the slot at an index is a data record.
fn slot_is_data(slots: &Vec<FileSlot>, i: usize) -> (r: bool)
    requires
        i < slots@.len(),
    ensures
        r == (slots@[i as int] is Data),
{
    match &slots[i] {
        FileSlot::Data(_) => true,
        FileSlot::Marker(_) => false,
    }
}

impl FilePc {
    /// Reads a directory back out of a record stream. Accepts the
    /// canonical streams the layout produces — every stream some
    /// storable directory lays out as is accepted, and the rebuilt
    /// directory lays out as the input again — and reports anything
    /// else as corruption: a run not opened by a marker, set filler
    /// bits, a name that is not one to seven non-zero ASCII bytes, a
    /// padding that does not fit the run, a stream that is not whole
    /// bytes, or a repeated name.
    #[verifier::spinoff_prover]
    #[verifier::rlimit(100)]
    pub fn from_slots(slots: &Vec<FileSlot>) -> (r: Result<FilePc, FilePcError>)
        ensures
            match r {
                Ok(fp) => {
                    &&& fp.wf()
                    &&& fp.current_file is None
                    &&& fp.file_read_offset == 0
                    &&& slots_of_files(fp.files@) == slots@
                },
                Err(e) => e == FilePcError::ArchiveCorrupt,
            },
            (exists|fs: Seq<PcFile>| files_wf(fs) && #[trigger] slots_of_files(fs) == slots@)
                ==> r is Ok,
    {
        // Completeness witness: if any storable directory lays out as
        // the input stream, `w` is one, and the scan below is shown to
        // pass every check against it, so only `Ok` can come back.
        let ghost h = exists|fs: Seq<PcFile>| files_wf(fs) && #[trigger] slots_of_files(fs)
            == slots@;
        let ghost w: Seq<PcFile> = if h {
            choose|fs: Seq<PcFile>| files_wf(fs) && #[trigger] slots_of_files(fs) == slots@
        } else {
            Seq::empty()
        };
        proof {
            if h {
                assert(files_wf(w) && slots_of_files(w) == slots@);
                lemma_slots_of_files_len(w);
            }
        }
        if slots.len() > 420 {
            proof {
                if h {
                    assert(false);
                }
            }
            return Err(FilePcError::ArchiveCorrupt);
        }
        let mut fp = FilePc::new();
        proof {
            assert(slots_of_files(fp.files@) =~= slots@.take(0));
            if h {
                assert(w.skip(0) =~= w);
                assert(slots@.skip(0) =~= slots@);
            }
        }
        let mut i: usize = 0;
        while i < slots.len()
            invariant
                0 <= i <= slots@.len() <= 420,
                fp.wf(),
                fp.current_file is None,
                fp.file_read_offset == 0,
                total_records(fp.files@) == i,
                slots_of_files(fp.files@) =~= slots@.take(i as int),
                h == (exists|fs: Seq<PcFile>|
                    files_wf(fs) && #[trigger] slots_of_files(fs) == slots@),
                h ==> files_wf(w) && slots_of_files(w) == slots@,
                h ==> fp.files@.len() <= w.len(),
                h ==> slots@.skip(i as int) =~= slots_of_files(w.skip(fp.files@.len() as int)),
                h ==> (forall|j: int|
                    0 <= j < fp.files@.len() ==> (#[trigger] fp.files@[j]).name@ == w[j].name@),
            decreases slots@.len() - i,
        {
            let ghost pos = i as int;
            let ghost gk = fp.files@.len() as int;
            let ghost gf = if h && gk < w.len() {
                w[gk]
            } else {
                vstd::pervasive::arbitrary::<PcFile>()
            };
            proof {
                if h {
                    if w.skip(gk).len() == 0 {
                        assert(slots_of_files(w.skip(gk)) =~= Seq::<FileSlot>::empty());
                        assert(false);
                    }
                    assert(gk < w.len());
                    assert(w.skip(gk)[0] == w[gk]);
                    assert(file_wf(gf));
                    assert(slots_of_files(w.skip(gk)) == slots_of_file(gf) + slots_of_files(
                        w.skip(gk).skip(1),
                    ));
                    assert(w.skip(gk).skip(1) =~= w.skip(gk + 1));
                    lemma_file_marker_canonical(gf);
                    lemma_marker_of_bits_canonical(file_marker_bits(gf));
                    lemma_file_padding_arith(gf);
                    assert(slots@.skip(pos)[0] == slots@[pos]);
                    assert(slots@[pos] == slots_of_file(gf)[0]);
                    assert(slots@[pos] == FileSlot::Marker(marker_of_bits(file_marker_bits(gf))));
                }
            }
            let mk = match &slots[i] {
                FileSlot::Marker(m) => *m,
                FileSlot::Data(_) => {
                    return Err(FilePcError::ArchiveCorrupt);
                },
            };
            proof {
                if h {
                    assert(mk == marker_of_bits(file_marker_bits(gf)));
                    assert(marker_bits(mk) == file_marker_bits(gf));
                }
            }
            i = i + 1;
            let mbits = match mk.game_value_to_bits() {
                Ok(b) => b,
                Err(_) => {
                    proof {
                        assert(false);
                    }
                    BoxMonBitVec(Vec::new())
                },
            };
            proof {
                crate::marker_mon::lemma_marker_bits_len(mk);
            }
            if mbits.0[56] || mbits.0[64] {
                return Err(FilePcError::ArchiveCorrupt);
            }
            let padding = mk.padding_amount();
            proof {
                if h {
                    assert(padding as int == file_padding(gf));
                }
            }
            if padding >= 68 {
                return Err(FilePcError::ArchiveCorrupt);
            }
            let compressed = mk.is_compressed();
            let name7 = mk.name_field_bytes();
            let ghost gl = if h {
                file_name_bytes(gf).len() as int
            } else {
                0int
            };
            proof {
                if h {
                    assert(name7@ =~= file_name_bytes(gf) + Seq::new(
                        (7 - gl) as nat,
                        |x: int| 0u8,
                    ));
                    assert(1 <= gl <= 7);
                    assert forall|x: int| 0 <= x < gl implies name7@[x] != 0 && name7@[x]
                        < 128 by {
                        assert(name7@[x] == file_name_bytes(gf)[x]);
                    }
                    assert(forall|x: int| gl <= x < 7 ==> name7@[x] == 0);
                }
            }
            let mut nlen: usize = 0;
            while nlen < 7 && name7[nlen] != 0
                invariant
                    0 <= nlen <= 7,
                    name7@.len() == 7,
                    forall|t: int| 0 <= t < nlen ==> name7@[t] != 0,
                    h == (exists|fs: Seq<PcFile>|
                        files_wf(fs) && #[trigger] slots_of_files(fs) == slots@),
                    h ==> (forall|x: int| 0 <= x < gl ==> name7@[x] != 0 && name7@[x] < 128),
                    h ==> (forall|x: int| gl <= x < 7 ==> name7@[x] == 0),
                    h ==> 1 <= gl <= 7,
                decreases 7 - nlen,
            {
                if name7[nlen] >= 128 {
                    return Err(FilePcError::ArchiveCorrupt);
                }
                nlen = nlen + 1;
            }
            proof {
                if h {
                    if (nlen as int) < gl {
                        assert(name7@[nlen as int] != 0);
                        assert(false);
                    }
                    if (nlen as int) > gl {
                        assert(name7@[gl] == 0);
                        assert(false);
                    }
                    assert(nlen as int == gl);
                }
            }
            if nlen == 0 {
                return Err(FilePcError::ArchiveCorrupt);
            }
            let mut t: usize = nlen;
            while t < 7
                invariant
                    nlen <= t <= 7,
                    name7@.len() == 7,
                    forall|u: int| nlen <= u < t ==> name7@[u] == 0,
                    h == (exists|fs: Seq<PcFile>|
                        files_wf(fs) && #[trigger] slots_of_files(fs) == slots@),
                    h ==> (forall|x: int| gl <= x < 7 ==> name7@[x] == 0),
                    h ==> nlen as int == gl,
                decreases 7 - t,
            {
                if name7[t] != 0 {
                    return Err(FilePcError::ArchiveCorrupt);
                }
                t = t + 1;
            }
            let mut trimmed: Vec<u8> = Vec::new();
            let mut u: usize = 0;
            while u < nlen
                invariant
                    0 <= u <= nlen <= 7,
                    name7@.len() == 7,
                    trimmed@ =~= name7@.take(u as int),
                decreases nlen - u,
            {
                trimmed.push(name7[u]);
                proof {
                    assert(name7@.take(u as int).push(name7@[u as int]) =~= name7@.take(u + 1));
                }
                u = u + 1;
            }
            let mut ascii_ok = true;
            let mut a: usize = 0;
            while a < trimmed.len()
                invariant
                    0 <= a <= trimmed@.len(),
                    ascii_ok == (forall|x: int| 0 <= x < a ==> trimmed@[x] < 128),
                decreases trimmed@.len() - a,
            {
                if trimmed[a] >= 128 {
                    ascii_ok = false;
                }
                a = a + 1;
            }
            if !ascii_ok {
                proof {
                    if h {
                        assert(trimmed@ =~= file_name_bytes(gf));
                        assert(false);
                    }
                }
                return Err(FilePcError::ArchiveCorrupt);
            }
            let ghost trimmed_bytes = trimmed@;
            let name = match string_from_ascii(trimmed) {
                Some(s) => s,
                None => {
                    proof {
                        assert(false);
                    }
                    String::new()
                },
            };
            proof {
                broadcast use vstd::utf8::is_ascii_chars_encode_utf8;

                assert(vstd::utf8::is_ascii_chars(name@));
                assert(encode_utf8(name@) =~= trimmed_bytes);
                if h {
                    assert(trimmed_bytes =~= file_name_bytes(gf));
                    assert(vstd::utf8::is_ascii_chars(gf.name@));
                    assert(encode_utf8(gf.name@).len() == gf.name@.len());
                    assert forall|x: int| 0 <= x < name@.len() implies name@[x] == gf.name@[x] by {
                        assert(trimmed_bytes[x] == gf.name@[x] as u8);
                        assert(name@[x] == trimmed_bytes[x] as char);
                    }
                    assert(name@ =~= gf.name@);
                }
            }
            let ghost run_start = i as int;
            let ghost gcf = if h {
                file_data_count(gf)
            } else {
                0int
            };
            proof {
                if h {
                    lemma_bytes_to_bits_len(gf.data@);
                    assert(slots_of_file(gf).len() == 1 + gcf);
                    assert(slots@.skip(pos) =~= slots_of_file(gf) + slots_of_files(
                        w.skip(gk + 1),
                    ));
                    assert(run_start + gcf <= slots@.len());
                    assert forall|x: int| 0 <= x < gcf implies slots@[run_start + x]
                        == FileSlot::Data(
                        mon_of_bits(chunk_padded(bytes_to_bits(gf.data@), 68, x)),
                    ) by {
                        assert(slots@[run_start + x] == slots@.skip(pos)[1 + x]);
                        assert(slots@.skip(pos)[1 + x] == slots_of_file(gf)[1 + x]);
                    }
                    if run_start + gcf < slots@.len() {
                        let w2 = w.skip(gk + 1);
                        if w2.len() == 0 {
                            assert(slots_of_files(w2) =~= Seq::<FileSlot>::empty());
                            assert(false);
                        }
                        assert(slots_of_files(w2) == slots_of_file(w2[0]) + slots_of_files(
                            w2.skip(1),
                        ));
                        assert(slots_of_file(w2[0])[0] is Marker);
                        assert(slots@[run_start + gcf] == slots@.skip(pos)[1 + gcf]);
                        assert(slots@.skip(pos)[1 + gcf] == slots_of_files(w2)[0]);
                        assert(slots@[run_start + gcf] is Marker);
                    }
                }
            }
            let mut dbits: Vec<bool> = Vec::new();
            let mut ndata: usize = 0;
            while i < slots.len() && slot_is_data(slots, i)
                invariant
                    i as int == run_start + ndata,
                    0 <= run_start <= i as int <= slots@.len() <= 420,
                    dbits@.len() == 68 * ndata,
                    forall|x: int|
                        0 <= x < ndata ==> (#[trigger] slots@[run_start + x] matches FileSlot::Data(
                            m,
                        ) && dbits@.subrange(68 * x, 68 * x + 68) == mon_bits(m)),
                    h ==> ndata <= gcf,
                    h ==> (forall|x: int|
                        0 <= x < gcf ==> #[trigger] slots@[run_start + x] == FileSlot::Data(
                            mon_of_bits(chunk_padded(bytes_to_bits(gf.data@), 68, x)),
                        )),
                    h ==> run_start + gcf <= slots@.len(),
                    h ==> (run_start + gcf == slots@.len() || slots@[run_start + gcf] is Marker),
                decreases slots@.len() - i,
            {
                proof {
                    if h {
                        assert(ndata < gcf);
                    }
                }
                let m = match &slots[i] {
                    FileSlot::Data(m) => *m,
                    FileSlot::Marker(_) => {
                        proof {
                            assert(false);
                        }
                        BoxMon {
                            species: crate::mon_species::BoxMonSpecies::POOCHYENA,
                            gender: crate::mon_gender::BoxMonGender::Male,
                            name: crate::mon_name::BoxMonName::new(
                                [crate::mon_name::BoxMonCharacter::LowerA; 10],
                            ),
                            held_item: crate::mon_held_item::BoxMonHeldItem::Empty,
                        }
                    },
                };
                let mb = match m.game_value_to_bits() {
                    Ok(b) => b,
                    Err(_) => {
                        proof {
                            assert(false);
                        }
                        BoxMonBitVec(Vec::new())
                    },
                };
                proof {
                    crate::box_mon::lemma_mon_bits_len(m);
                }
                let ghost prev = dbits@;
                let mut k: usize = 0;
                while k < 68
                    invariant
                        0 <= k <= 68,
                        mb@ == mon_bits(m),
                        mb@.len() == 68,
                        prev.len() == 68 * ndata,
                        dbits@ =~= prev + mb@.take(k as int),
                    decreases 68 - k,
                {
                    dbits.push(mb.0[k]);
                    proof {
                        assert(mb@.take(k as int).push(mb@[k as int]) =~= mb@.take(k + 1));
                    }
                    k = k + 1;
                }
                proof {
                    assert(mb@.take(68) =~= mb@);
                    assert(dbits@ =~= prev + mon_bits(m));
                    assert(dbits@.subrange(68 * ndata as int, 68 * ndata as int + 68)
                        =~= mon_bits(m));
                    assert forall|x: int| 0 <= x < ndata implies (#[trigger] slots@[run_start + x]
                        matches FileSlot::Data(m2) && dbits@.subrange(68 * x, 68 * x + 68)
                        == mon_bits(m2)) by {
                        assert(dbits@.subrange(68 * x, 68 * x + 68) =~= prev.subrange(
                            68 * x,
                            68 * x + 68,
                        ));
                    }
                }
                ndata = ndata + 1;
                i = i + 1;
            }
            proof {
                if h {
                    if (ndata as int) < gcf {
                        assert(slots@[run_start + ndata] is Data);
                        assert(false);
                    }
                    assert(ndata as int == gcf);
                    lemma_bytes_to_bits_len(gf.data@);
                    assert forall|x: int| 0 <= x < gcf implies dbits@.subrange(
                        68 * x,
                        68 * x + 68,
                    ) == chunk_padded(bytes_to_bits(gf.data@), 68, x) by {
                        assert(68 * x <= 68 * (gcf - 1));
                        assert(chunk_padded(bytes_to_bits(gf.data@), 68, x).len() == 68);
                        lemma_mon_of_bits_canonical(chunk_padded(bytes_to_bits(gf.data@), 68, x));
                        assert(slots@[run_start + x] matches FileSlot::Data(m)
                            && dbits@.subrange(68 * x, 68 * x + 68) == mon_bits(m));
                    }
                    assert((8 * gf.data@.len() as int) % 8 == 0) by (nonlinear_arith);
                }
            }
            let total = 68 * ndata;
            if (padding as usize) > total {
                proof {
                    if h {
                        assert(false);
                    }
                }
                return Err(FilePcError::ArchiveCorrupt);
            }
            let content_len = total - padding as usize;
            if content_len % 8 != 0 {
                proof {
                    if h {
                        assert(content_len as int == 8 * gf.data@.len() as int);
                        assert(false);
                    }
                }
                return Err(FilePcError::ArchiveCorrupt);
            }
            proof {
                if h {
                    assert forall|x: int| content_len <= x < total implies dbits@[x] == false by {
                        let lc = gcf - 1;
                        assert(gcf >= 1);
                        assert(dbits@[x] == dbits@.subrange(68 * lc, 68 * lc + 68)[x - 68 * lc]);
                        assert(dbits@.subrange(68 * lc, 68 * lc + 68) == chunk_padded(
                            bytes_to_bits(gf.data@),
                            68,
                            lc,
                        ));
                        assert(x - 68 * lc >= 8 * gf.data@.len() as int - 68 * lc);
                        assert(chunk_padded(bytes_to_bits(gf.data@), 68, lc)[x - 68 * lc]
                            == false);
                    }
                }
            }
            let mut z: usize = content_len;
            while z < total
                invariant
                    content_len <= z <= total,
                    dbits@.len() == total,
                    forall|x: int| content_len <= x < z ==> dbits@[x] == false,
                    h == (exists|fs: Seq<PcFile>|
                        files_wf(fs) && #[trigger] slots_of_files(fs) == slots@),
                    h ==> (forall|x: int| content_len <= x < total ==> dbits@[x] == false),
                decreases total - z,
            {
                if dbits[z] {
                    return Err(FilePcError::ArchiveCorrupt);
                }
                z = z + 1;
            }
            let all_bits = BoxMonBitVec(dbits);
            let content = all_bits.chunk(0, content_len);
            let data_bytes = content.to_raw();
            let mut dup: usize = 0;
            while dup < fp.files.len()
                invariant
                    0 <= dup <= fp.files@.len(),
                    fp.wf(),
                    name@ == trimmed_bytes.map_values(|b: u8| b as char),
                    forall|x: int| 0 <= x < dup ==> (#[trigger] fp.files@[x]).name@ != name@,
                    h == (exists|fs: Seq<PcFile>|
                        files_wf(fs) && #[trigger] slots_of_files(fs) == slots@),
                    h ==> name@ == w[gk].name@,
                    h ==> 0 <= gk < w.len() && files_wf(w) && fp.files@.len() == gk,
                    h ==> (forall|j: int|
                        0 <= j < fp.files@.len() ==> (#[trigger] fp.files@[j]).name@
                            == w[j].name@),
                decreases fp.files@.len() - dup,
            {
                if fp.files[dup].name == name {
                    proof {
                        if h {
                            assert(fp.files@[dup as int].name@ == w[dup as int].name@);
                            assert(w[dup as int].name@ != w[gk].name@);
                            assert(false);
                        }
                    }
                    return Err(FilePcError::ArchiveCorrupt);
                }
                dup = dup + 1;
            }
            let attributes: u8 = if compressed {
                1
            } else {
                0
            };
            proof {
                assert(1u8 & 0x01 == 0x01 && 0u8 & 0x01 == 0u8) by (bit_vector);
            }
            let file = PcFile { name, attributes, data: data_bytes };
            let ghost old_files = fp.files@;
            proof {
                assert(name7@ =~= trimmed_bytes + Seq::new(
                    (7 - trimmed_bytes.len()) as nat,
                    |x: int| 0u8,
                ));
                assert(file_name_bytes(file) =~= trimmed_bytes);
                lemma_run_reconstructs(
                    file,
                    mk,
                    slots@,
                    pos,
                    ndata as int,
                    trimmed_bytes,
                    padding,
                    all_bits@,
                );
                lemma_total_records_push(old_files, file);
                lemma_slots_of_files_push(old_files, file);
            }
            fp.files.push(file);
            proof {
                assert(fp.files@.drop_last() =~= old_files);
                assert(fp.files@.last() == file);
                assert(slots_of_files(fp.files@) =~= slots@.take(pos) + slots_of_file(file));
                assert(slots@.take(pos) + slots@.subrange(pos, i as int) =~= slots@.take(i as int));
                assert(slots_of_files(fp.files@) =~= slots@.take(i as int));
                assert forall|a2: int, b2: int|
                    0 <= a2 < b2 < fp.files@.len() implies (#[trigger] fp.files@[a2]).name@ != (
                #[trigger] fp.files@[b2]).name@ by {
                    if b2 == fp.files@.len() - 1 {
                        assert(fp.files@[a2].name@ != name@);
                    }
                }
                assert forall|x2: int| 0 <= x2 < fp.files@.len() implies file_wf(
                    #[trigger] fp.files@[x2],
                ) by {
                    if x2 < old_files.len() {
                        assert(fp.files@[x2] == old_files[x2]);
                    } else {
                        assert(fp.files@[x2] == file);
                        assert(file_name_bytes(file) == trimmed_bytes);
                    }
                }
                if h {
                    assert(fp.files@.len() == gk + 1);
                    assert(file.name@ == w[gk].name@);
                    assert forall|j: int| 0 <= j < fp.files@.len() implies (
                    #[trigger] fp.files@[j]).name@ == w[j].name@ by {
                        if j < gk {
                            assert(fp.files@[j] == old_files[j]);
                        } else {
                            assert(fp.files@[j] == file);
                        }
                    }
                    assert(slots_of_file(gf).len() == 1 + gcf);
                    assert(i as int == pos + 1 + gcf);
                    assert(slots@.skip(pos) =~= slots_of_file(gf) + slots_of_files(
                        w.skip(gk + 1),
                    ));
                    assert forall|t2: int|
                        0 <= t2 < slots@.len() - i implies slots@.skip(i as int)[t2]
                        == slots_of_files(w.skip(gk + 1))[t2] by {
                        assert(slots@.skip(i as int)[t2] == slots@.skip(pos)[1 + gcf + t2]);
                    }
                    assert(slots@.skip(i as int) =~= slots_of_files(w.skip(gk + 1)));
                    assert(w.skip(fp.files@.len() as int) =~= w.skip(gk + 1));
                }
            }
        }
        proof {
            assert(slots@.take(slots@.len() as int) =~= slots@);
        }
        Ok(fp)
    }
}

/// A marker and data run that passes every canonical check
/// reconstructs the file whose layout it is.
#[verifier::spinoff_prover]
#[verifier::rlimit(100)]
proof fn lemma_run_reconstructs(
    file: PcFile,
    mk: MarkerMon,
    slots: Seq<FileSlot>,
    pos: int,
    ndata: int,
    trimmed_bytes: Seq<u8>,
    padding: u8,
    all_bits: Seq<bool>,
)
    requires
        0 <= pos,
        pos + 1 + ndata <= slots.len(),
        slots[pos] == FileSlot::Marker(mk),
        forall|x: int|
            0 <= x < ndata ==> (#[trigger] slots[pos + 1 + x] matches FileSlot::Data(m)
                && all_bits.subrange(68 * x, 68 * x + 68) == mon_bits(m)),
        all_bits.len() == 68 * ndata,
        file_name_bytes(file) == trimmed_bytes,
        1 <= trimmed_bytes.len() <= 7,
        bits_to_bytes(marker_name_bits(mk)) == trimmed_bytes + Seq::new(
            (7 - trimmed_bytes.len()) as nat,
            |x: int| 0u8,
        ),
        marker_bits(mk)[56] == false,
        marker_bits(mk)[64] == false,
        marker_padding(mk) == padding,
        padding < 68,
        (padding as int) <= 68 * ndata,
        file.data@ == bits_to_bytes(all_bits.subrange(0, 68 * ndata - padding)),
        (68 * ndata - padding) % 8 == 0,
        forall|x: int| 68 * ndata - padding <= x < all_bits.len() ==> all_bits[x] == false,
        file.attributes == (if marker_compressed(mk) {
            1u8
        } else {
            0u8
        }),
    ensures
        slots_of_file(file) =~= slots.subrange(pos, pos + 1 + ndata),
{
    crate::marker_mon::lemma_marker_bits_len(mk);
    let content = all_bits.subrange(0, 68 * ndata - padding);
    crate::lemma_bytes_of_bits_aligned(content);
    assert(bytes_to_bits(file.data@) == content);
    crate::lemma_bits_to_bytes_len(content);
    assert(file.data@.len() * 8 == content.len()) by {
        assert(file.data@.len() == (content.len() + 7) / 8);
        vstd::arithmetic::div_mod::lemma_fundamental_div_mod(content.len() as int, 8);
    }
    // The file's derived padding and record count match the run.
    assert(file_padding(file) == padding && file_data_count(file) == ndata) by {
        let cl = 68 * ndata - padding;
        assert(8 * file.data@.len() as int == cl);
        vstd::arithmetic::div_mod::lemma_fundamental_div_mod(cl, 68);
        vstd::arithmetic::div_mod::lemma_mod_bound(cl, 68);
        assert(cl % 68 == (if padding == 0 {
            0int
        } else {
            68 - padding as int
        })) by (nonlinear_arith)
            requires
                cl == 68 * ndata - padding,
                0 <= padding < 68,
                ndata >= 0,
                (padding as int) <= 68 * ndata,
        ;
        assert((cl + 67) / 68 == ndata) by (nonlinear_arith)
            requires
                cl == 68 * ndata - padding,
                0 <= padding < 68,
                (padding as int) <= 68 * ndata,
                ndata >= 0,
        ;
    }
    // The marker's bits are the file's marker pattern.
    assert(marker_bits(mk) =~= file_marker_bits(file)) by {
        let nb = marker_name_bits(mk);
        assert(nb.len() == 56);
        assert(nb.len() % 8 == 0);
        crate::lemma_bytes_of_bits_aligned(nb);
        let padded_bytes = trimmed_bytes + Seq::new((7 - trimmed_bytes.len()) as nat, |x: int| 0u8);
        assert(nb == bytes_to_bits(padded_bytes));
        crate::lemma_bytes_to_bits_concat(
            trimmed_bytes,
            Seq::new((7 - trimmed_bytes.len()) as nat, |x: int| 0u8),
        );
        lemma_zero_bytes_bits((7 - trimmed_bytes.len()) as nat);
        crate::lemma_bytes_to_bits_len(trimmed_bytes);
        assert(nb =~= bytes_to_bits(trimmed_bytes) + zero_bits(
            (56 - 8 * trimmed_bytes.len()) as nat,
        ));
        lemma_nat_to_bits_of_bits(marker_bits(mk).subrange(57, 64));
        assert(marker_bits(mk).subrange(57, 64) =~= nat_to_bits(7, padding as nat));
        crate::lemma_nat_to_bits_len(7, padding as nat);
        assert(marker_bits(mk).subrange(0, 56) =~= nb);
        assert(1u8 & 0x01 == 0x01 && 0u8 & 0x01 == 0u8) by (bit_vector);
        assert((file.attributes & 0x01 == 0x01) == marker_compressed(mk));
        assert(file_marker_bits(file).len() == 66) by {
            crate::lemma_bytes_to_bits_len(trimmed_bytes);
        }
        assert forall|x: int| 0 <= x < 66 implies marker_bits(mk)[x] == file_marker_bits(
            file,
        )[x] by {
            if x < 56 {
                assert(marker_bits(mk)[x] == marker_bits(mk).subrange(0, 56)[x]);
            } else if 57 <= x < 64 {
                assert(marker_bits(mk)[x] == marker_bits(mk).subrange(57, 64)[x - 57]);
                assert(file_marker_bits(file)[x] == nat_to_bits(7, padding as nat)[x - 57]);
            } else if x == 65 {
                assert(file_marker_bits(file)[65] == (file.attributes & 0x01 == 0x01));
            }
        }
    }
    let w = marker_of_bits(file_marker_bits(file));
    lemma_marker_bits_injective(w, mk);
    // Each data record's bits are the matching chunk of the payload.
    assert forall|x: int| 0 <= x < ndata implies slots.subrange(pos, pos + 1 + ndata)[x + 1]
        == FileSlot::Data(mon_of_bits(chunk_padded(bytes_to_bits(file.data@), 68, x))) by {
        assert(slots[pos + 1 + x] matches FileSlot::Data(m) && all_bits.subrange(
            68 * x,
            68 * x + 68,
        ) == mon_bits(m));
        let m = slots[pos + 1 + x]->Data_0;
        assert(chunk_padded(content, 68, x) =~= all_bits.subrange(68 * x, 68 * x + 68));
        lemma_mon_bits_injective(mon_of_bits(chunk_padded(bytes_to_bits(file.data@), 68, x)), m);
    }
    assert(slots_of_file(file).len() == 1 + ndata);
    assert(slots_of_file(file)[0] == FileSlot::Marker(w));
    assert(slots.subrange(pos, pos + 1 + ndata)[0] == FileSlot::Marker(mk));
}

/// A run of zero bytes expands to a run of zero bits.
proof fn lemma_zero_bytes_bits(n: nat)
    ensures
        bytes_to_bits(Seq::new(n, |x: int| 0u8)) =~= zero_bits(8 * n),
    decreases n,
{
    if n > 0 {
        let zs = Seq::new(n, |x: int| 0u8);
        assert(zs.skip(1) =~= Seq::new((n - 1) as nat, |x: int| 0u8));
        lemma_zero_bytes_bits((n - 1) as nat);
        lemma_zero_nat_bits(8);
        assert(crate::byte_bits(0u8) =~= zero_bits(8));
        assert(bytes_to_bits(zs) == crate::byte_bits(0u8) + bytes_to_bits(zs.skip(1)));
        crate::lemma_bytes_to_bits_len(zs);
    }
}



/// A directory's record stream is as long as its record count.
pub proof fn lemma_slots_of_files_len(files: Seq<PcFile>)
    ensures
        slots_of_files(files).len() == total_records(files),
    decreases files.len(),
{
    if files.len() > 0 {
        lemma_slots_of_files_len(files.skip(1));
        lemma_records_fit(files[0]);
        assert(slots_of_file(files[0]).len() == file_records(files[0]));
    }
}

/// Every 66-bit pattern is some marker's bits, so the marker a pattern
/// denotes carries exactly that pattern.
pub proof fn lemma_marker_of_bits_canonical(s: Seq<bool>)
    requires
        s.len() == 66,
    ensures
        marker_bits(marker_of_bits(s)) == s,
{
    crate::marker_mon::lemma_marker_decode_total(s);
    <MarkerMon as GameSerializer>::lemma_decode_encode(s);
    let v = <MarkerMon as GameSerializer>::spec_decode(s)->Some_0;
    assert(marker_bits(v) == s);
}

/// Every 68-bit pattern is some record's bits, so the record a pattern
/// denotes carries exactly that pattern.
pub proof fn lemma_mon_of_bits_canonical(s: Seq<bool>)
    requires
        s.len() == 68,
    ensures
        mon_bits(mon_of_bits(s)) == s,
{
    lemma_mon_decode_total(s);
    <BoxMon as GameSerializer>::lemma_decode_encode(s);
    let v = <BoxMon as GameSerializer>::spec_decode(s)->Some_0;
    assert(mon_bits(v) == s);
}

/// A storable file's padding and data-record count line up with its
/// stored byte length.
pub proof fn lemma_file_padding_arith(f: PcFile)
    ensures
        0 <= file_padding(f) < 68,
        file_data_count(f) >= 0,
        68 * file_data_count(f) - file_padding(f) == 8 * f.data@.len(),
        file_data_count(f) > 0 ==> 8 * f.data@.len() as int > 68 * (file_data_count(f) - 1),
        f.data@.len() == 0 ==> file_data_count(f) == 0 && file_padding(f) == 0,
{
    let l8 = 8 * f.data@.len() as int;
    vstd::arithmetic::div_mod::lemma_fundamental_div_mod(l8, 68);
    vstd::arithmetic::div_mod::lemma_mod_bound(l8, 68);
    vstd::arithmetic::div_mod::lemma_fundamental_div_mod(l8 + 67, 68);
    vstd::arithmetic::div_mod::lemma_mod_bound(l8 + 67, 68);
    let q = l8 / 68;
    let r = l8 % 68;
    assert((l8 + 67) / 68 == (if r == 0 {
        q
    } else {
        q + 1
    })) by (nonlinear_arith)
        requires
            l8 == 68 * q + r,
            0 <= r < 68,
            l8 + 67 == 68 * ((l8 + 67) / 68) + (l8 + 67) % 68,
            0 <= (l8 + 67) % 68 < 68,
    ;
}

/// The marker pattern of a storable file is canonical: the name field
/// holds the zero-padded name bytes, the filler bits are clear, the
/// padding field holds the file's padding, and the last bit is the
/// compression flag.
pub proof fn lemma_file_marker_canonical(f: PcFile)
    requires
        file_wf(f),
    ensures
        file_marker_bits(f).len() == 66,
        file_marker_bits(f)[56] == false,
        file_marker_bits(f)[64] == false,
        bits_to_nat(file_marker_bits(f).subrange(57, 64)) == file_padding(f),
        bits_to_bytes(file_marker_bits(f).subrange(0, 56)) =~= file_name_bytes(f) + Seq::new(
            (7 - file_name_bytes(f).len()) as nat,
            |x: int| 0u8,
        ),
        file_marker_bits(f)[65] == (f.attributes & 0x01 == 0x01),
{
    let nb = file_name_bytes(f);
    let padded = nb + Seq::new((7 - nb.len()) as nat, |x: int| 0u8);
    lemma_file_padding_arith(f);
    lemma_bytes_to_bits_len(nb);
    crate::lemma_nat_to_bits_len(7, file_padding(f) as nat);
    vstd::arithmetic::power2::lemma2_to64();
    crate::lemma_bits_to_nat_of_nat(7, file_padding(f) as nat);
    assert(file_marker_bits(f).subrange(57, 64) =~= nat_to_bits(7, file_padding(f) as nat));
    lemma_zero_bytes_bits((7 - nb.len()) as nat);
    crate::lemma_bytes_to_bits_concat(nb, Seq::new((7 - nb.len()) as nat, |x: int| 0u8));
    assert(file_marker_bits(f).subrange(0, 56) =~= bytes_to_bits(padded));
    crate::lemma_bits_to_bytes_of_bytes(padded);
}



/// Two directories of storable files that lay out as the same record
/// stream hold the same files: same names, same stored bytes, same
/// flags. Together with the stream codec's contracts this closes the
/// round trip: the directory read back out of a laid-out stream is the
/// one that was laid out.
#[verifier::spinoff_prover]
#[verifier::rlimit(100)]
pub proof fn lemma_slots_of_files_injective(a: Seq<PcFile>, b: Seq<PcFile>)
    requires
        forall|i: int| 0 <= i < a.len() ==> file_wf(#[trigger] a[i]),
        forall|i: int| 0 <= i < b.len() ==> file_wf(#[trigger] b[i]),
        slots_of_files(a) == slots_of_files(b),
    ensures
        a.len() == b.len(),
        forall|i: int|
            0 <= i < a.len() ==> {
                &&& (#[trigger] a[i]).name@ == b[i].name@
                &&& a[i].data@ == b[i].data@
                &&& a[i].attributes == b[i].attributes
            },
    decreases a.len(),
{
    let s = slots_of_files(a);
    if a.len() == 0 {
        if b.len() > 0 {
            assert(slots_of_files(b).len() >= slots_of_file(b[0]).len());
            lemma_file_padding_arith(b[0]);
            assert(false);
        }
    } else if b.len() == 0 {
        assert(slots_of_files(a).len() >= slots_of_file(a[0]).len());
        lemma_file_padding_arith(a[0]);
        assert(false);
    } else {
        let fa = a[0];
        let fb = b[0];
        lemma_file_padding_arith(fa);
        lemma_file_padding_arith(fb);
        lemma_file_marker_canonical(fa);
        lemma_file_marker_canonical(fb);
        lemma_marker_of_bits_canonical(file_marker_bits(fa));
        lemma_marker_of_bits_canonical(file_marker_bits(fb));
        let ca = file_data_count(fa);
        let cb = file_data_count(fb);
        let rest_a = slots_of_files(a.skip(1));
        let rest_b = slots_of_files(b.skip(1));
        assert(s == slots_of_file(fa) + rest_a);
        assert(s == slots_of_file(fb) + rest_b);
        assert(s[0] == FileSlot::Marker(marker_of_bits(file_marker_bits(fa))));
        assert(s[0] == FileSlot::Marker(marker_of_bits(file_marker_bits(fb))));
        assert(file_marker_bits(fa) == file_marker_bits(fb));
        // Equal padding fields give equal padding amounts.
        vstd::arithmetic::power2::lemma2_to64();
        crate::lemma_nat_to_bits_len(7, file_padding(fa) as nat);
        crate::lemma_bits_to_nat_of_nat(7, file_padding(fa) as nat);
        crate::lemma_bits_to_nat_of_nat(7, file_padding(fb) as nat);
        assert(file_marker_bits(fa).subrange(57, 64) == file_marker_bits(fb).subrange(57, 64));
        assert(file_padding(fa) == file_padding(fb));
        // The flag bit pins the attribute byte, which carries only it.
        assert(1u8 & 0x01 == 0x01 && 0u8 & 0x01 == 0u8) by (bit_vector);
        assert(fa.attributes == fb.attributes);
        // Equal name fields give equal names.
        let la = file_name_bytes(fa).len() as int;
        let lb = file_name_bytes(fb).len() as int;
        let pa = file_name_bytes(fa) + Seq::new((7 - la) as nat, |x: int| 0u8);
        let pb = file_name_bytes(fb) + Seq::new((7 - lb) as nat, |x: int| 0u8);
        assert(pa =~= pb);
        assert(la == lb) by {
            if la < lb {
                assert(pa[la] == 0 && pb[la] != 0);
            }
            if lb < la {
                assert(pa[lb] != 0 && pb[lb] == 0);
            }
        }
        assert forall|x: int| 0 <= x < la implies file_name_bytes(fa)[x] == file_name_bytes(
            fb,
        )[x] by {
            assert(pa[x] == file_name_bytes(fa)[x]);
            assert(pb[x] == file_name_bytes(fb)[x]);
        }
        assert(file_name_bytes(fa) =~= file_name_bytes(fb));
        assert(fa.name@ =~= fb.name@) by {
            broadcast use vstd::utf8::is_ascii_chars_encode_utf8;

            assert(encode_utf8(fa.name@).len() == fa.name@.len());
            assert(encode_utf8(fb.name@).len() == fb.name@.len());
            assert forall|x: int| 0 <= x < fa.name@.len() implies fa.name@[x] == fb.name@[x] by {
                assert(fa.name@[x] as u8 == file_name_bytes(fa)[x]);
                assert(fb.name@[x] as u8 == file_name_bytes(fb)[x]);
            }
        }
        // Equal run shapes give equal data-record counts.
        lemma_bytes_to_bits_len(fa.data@);
        lemma_bytes_to_bits_len(fb.data@);
        assert(ca == cb) by {
            if ca < cb {
                if a.skip(1).len() == 0 {
                    assert(rest_a =~= Seq::<FileSlot>::empty());
                    assert(s.len() == 1 + ca);
                    assert(s.len() >= 1 + cb);
                } else {
                    assert(rest_a == slots_of_file(a.skip(1)[0]) + slots_of_files(
                        a.skip(1).skip(1),
                    ));
                    assert(s[1 + ca] == rest_a[0]);
                    assert(s[1 + ca] is Marker);
                    assert(s[1 + ca] == slots_of_file(fb)[1 + ca]);
                    assert(s[1 + ca] is Data);
                }
                assert(false);
            }
            if cb < ca {
                if b.skip(1).len() == 0 {
                    assert(rest_b =~= Seq::<FileSlot>::empty());
                    assert(s.len() == 1 + cb);
                    assert(s.len() >= 1 + ca);
                } else {
                    assert(rest_b == slots_of_file(b.skip(1)[0]) + slots_of_files(
                        b.skip(1).skip(1),
                    ));
                    assert(s[1 + cb] == rest_b[0]);
                    assert(s[1 + cb] is Marker);
                    assert(s[1 + cb] == slots_of_file(fa)[1 + cb]);
                    assert(s[1 + cb] is Data);
                }
                assert(false);
            }
        }
        // Equal data records give equal stored bytes.
        let sa = bytes_to_bits(fa.data@);
        let sb = bytes_to_bits(fb.data@);
        let rs_a = Seq::new(ca as nat, |x: int| chunk_padded(sa, 68, x));
        let rs_b = Seq::new(cb as nat, |x: int| chunk_padded(sb, 68, x));
        assert forall|x: int| 0 <= x < ca implies #[trigger] rs_a[x] == rs_b[x] by {
            assert(s[1 + x] == slots_of_file(fa)[1 + x]);
            assert(s[1 + x] == slots_of_file(fb)[1 + x]);
            assert(68 * x <= 68 * (ca - 1));
            assert(chunk_padded(sa, 68, x).len() == 68);
            assert(chunk_padded(sb, 68, x).len() == 68);
            lemma_mon_of_bits_canonical(chunk_padded(sa, 68, x));
            lemma_mon_of_bits_canonical(chunk_padded(sb, 68, x));
        }
        assert(rs_a =~= rs_b);
        crate::store::lemma_chunks_flatten(rs_a, sa, 68);
        crate::store::lemma_chunks_flatten(rs_b, sb, 68);
        assert(sa + zero_bits((68 * ca - sa.len()) as nat) =~= sb + zero_bits(
            (68 * cb - sb.len()) as nat,
        ));
        assert(sa.len() == 68 * ca - file_padding(fa));
        assert(sb.len() == 68 * cb - file_padding(fb));
        assert(sa.len() == sb.len());
        assert forall|x: int| 0 <= x < sa.len() implies sa[x] == sb[x] by {
            assert((sa + zero_bits((68 * ca - sa.len()) as nat))[x] == sa[x]);
            assert((sb + zero_bits((68 * cb - sb.len()) as nat))[x] == sb[x]);
        }
        assert(sa =~= sb);
        crate::lemma_bits_to_bytes_of_bytes(fa.data@);
        crate::lemma_bits_to_bytes_of_bytes(fb.data@);
        assert(fa.data@ == fb.data@);
        // The runs have equal length, so the tails match; recurse.
        assert(slots_of_file(fa).len() == slots_of_file(fb).len());
        assert(rest_a.len() == rest_b.len());
        assert forall|t: int| 0 <= t < rest_a.len() implies rest_a[t] == rest_b[t] by {
            assert(rest_a[t] == s[1 + ca + t]);
            assert(rest_b[t] == s[1 + cb + t]);
        }
        assert(rest_a =~= rest_b);
        lemma_slots_of_files_injective(a.skip(1), b.skip(1));
        assert forall|i: int| 0 <= i < a.len() implies {
            &&& (#[trigger] a[i]).name@ == b[i].name@
            &&& a[i].data@ == b[i].data@
            &&& a[i].attributes == b[i].attributes
        } by {
            if i > 0 {
                assert(a.skip(1)[i - 1] == a[i]);
                assert(b.skip(1)[i - 1] == b[i]);
            }
        }
    }
}


} // verus!
